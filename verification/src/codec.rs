//! The textual form of a workspace document and its parser and renderer.
//!
//! The wire contract is a JSON object `{"folders": [{"path": P, "name": N},
//! ...]}` with an optional `"settings"` member holding a flat string-to-string
//! object. The renderer produces the compact canonical form; the parser
//! tolerates whitespace between tokens and accepts either member order inside
//! each object, rejects unknown or duplicate members, and requires `folders`.
//!
//! Both directions are specified by spec functions over character sequences;
//! `lemma_render_parse` in `roundtrip` proves that parsing a rendered document
//! gives the document back.

use vstd::prelude::*;
use vstd::string::StrSliceExecFns;

use crate::workspace::{FolderSetting, FolderView, WorkSpace, WorkSpaceView, WsError};

verus! {

/// The member name that holds a folder's filesystem path.
pub open spec fn key_path() -> Seq<char> {
    "path"@
}

/// The member name that holds a folder's display name.
pub open spec fn key_name() -> Seq<char> {
    "name"@
}

/// The member name that holds the folder list.
pub open spec fn key_folders() -> Seq<char> {
    "folders"@
}

/// The member name that holds the settings map.
pub open spec fn key_settings() -> Seq<char> {
    "settings"@
}

// ------------------------------------------------------------------
// Rendering, specified.
// ------------------------------------------------------------------

/// The characters a rendered string escapes: quote, backslash, and the three
/// common control characters. Any other character stands for itself.
pub open spec fn esc_char(c: char) -> Seq<char> {
    if c == '"' {
        seq!['\\', '"']
    } else if c == '\\' {
        seq!['\\', '\\']
    } else if c == '\n' {
        seq!['\\', 'n']
    } else if c == '\r' {
        seq!['\\', 'r']
    } else if c == '\t' {
        seq!['\\', 't']
    } else {
        seq![c]
    }
}

/// A string's characters, each escaped.
pub open spec fn esc_seq(s: Seq<char>) -> Seq<char>
    decreases s.len(),
{
    if s.len() == 0 {
        Seq::empty()
    } else {
        esc_char(s[0]) + esc_seq(s.drop_first())
    }
}

/// A quoted, escaped string token.
pub open spec fn render_string(s: Seq<char>) -> Seq<char> {
    seq!['"'] + esc_seq(s) + seq!['"']
}

/// One folder entry as an object with `path` first, then `name`.
pub open spec fn render_folder(f: FolderView) -> Seq<char> {
    seq!['{'] + render_string(key_path()) + seq![':'] + render_string(f.path) + seq![',']
        + render_string(key_name()) + seq![':'] + render_string(f.name) + seq!['}']
}

/// The comma-separated folder objects, without the surrounding brackets.
pub open spec fn render_folder_items(fs: Seq<FolderView>) -> Seq<char>
    decreases fs.len(),
{
    if fs.len() == 0 {
        Seq::empty()
    } else if fs.len() == 1 {
        render_folder(fs[0])
    } else {
        render_folder(fs[0]) + seq![','] + render_folder_items(fs.drop_first())
    }
}

/// One settings entry as `key: value`.
pub open spec fn render_setting(p: (Seq<char>, Seq<char>)) -> Seq<char> {
    render_string(p.0) + seq![':'] + render_string(p.1)
}

/// The comma-separated settings entries, without the surrounding braces.
pub open spec fn render_setting_items(ps: Seq<(Seq<char>, Seq<char>)>) -> Seq<char>
    decreases ps.len(),
{
    if ps.len() == 0 {
        Seq::empty()
    } else if ps.len() == 1 {
        render_setting(ps[0])
    } else {
        render_setting(ps[0]) + seq![','] + render_setting_items(ps.drop_first())
    }
}

/// A whole workspace document in canonical compact form: `folders` always
/// present (possibly an empty array), `settings` present exactly when the
/// document carries one.
pub open spec fn render_workspace_view(w: WorkSpaceView) -> Seq<char> {
    seq!['{'] + render_string(key_folders()) + seq![':'] + seq!['['] + render_folder_items(
        w.folders,
    ) + seq![']'] + (match w.settings {
        Some(ps) => seq![','] + render_string(key_settings()) + seq![':'] + seq!['{']
            + render_setting_items(ps) + seq!['}'],
        None => Seq::empty(),
    }) + seq!['}']
}

// ------------------------------------------------------------------
// Rendering, executable.
// ------------------------------------------------------------------

/// Escaping a string one character longer escapes the tail character last.
pub proof fn lemma_esc_seq_push(s: Seq<char>, c: char)
    ensures
        esc_seq(s.push(c)) == esc_seq(s) + esc_char(c),
    decreases s.len(),
{
    if s.len() == 0 {
        assert(s.push(c).len() == 1);
        assert(s.push(c)[0] == c);
        assert(s.push(c).drop_first().len() == 0);
        assert(esc_seq(s.push(c)) == esc_char(c) + esc_seq(s.push(c).drop_first()));
        assert(esc_seq(s.push(c).drop_first()) == Seq::<char>::empty());
        assert(esc_seq(s) == Seq::<char>::empty());
        assert(esc_seq(s.push(c)) =~= esc_seq(s) + esc_char(c));
    } else {
        assert(s.push(c).drop_first() =~= s.drop_first().push(c));
        lemma_esc_seq_push(s.drop_first(), c);
        assert(esc_seq(s.push(c)) == esc_char(s[0]) + (esc_seq(s.drop_first()) + esc_char(c)));
        assert(esc_seq(s.push(c)) =~= esc_seq(s) + esc_char(c));
    }
}

/// Rendering one more folder appends a comma (when needed) and its object.
pub proof fn lemma_render_folder_items_push(fs: Seq<FolderView>, f: FolderView)
    ensures
        render_folder_items(fs.push(f)) == if fs.len() == 0 {
            render_folder(f)
        } else {
            render_folder_items(fs) + seq![','] + render_folder_items(seq![f])
        },
    decreases fs.len(),
{
    if fs.len() == 0 {
        assert(fs.push(f).len() == 1);
        assert(fs.push(f)[0] == f);
    } else {
        assert(fs.push(f)[0] == fs[0]);
        assert(fs.push(f).drop_first() =~= fs.drop_first().push(f));
        lemma_render_folder_items_push(fs.drop_first(), f);
        if fs.len() == 1 {
            assert(render_folder_items(fs.push(f)) =~= render_folder_items(fs) + seq![',']
                + render_folder_items(seq![f]));
        } else {
            assert(render_folder_items(fs.push(f)) =~= render_folder_items(fs) + seq![',']
                + render_folder_items(seq![f]));
        }
    }
}

/// Rendering one more settings entry appends a comma (when needed) and it.
pub proof fn lemma_render_setting_items_push(ps: Seq<(Seq<char>, Seq<char>)>, p: (Seq<char>, Seq<char>))
    ensures
        render_setting_items(ps.push(p)) == if ps.len() == 0 {
            render_setting(p)
        } else {
            render_setting_items(ps) + seq![','] + render_setting_items(seq![p])
        },
    decreases ps.len(),
{
    if ps.len() == 0 {
        assert(ps.push(p).len() == 1);
        assert(ps.push(p)[0] == p);
    } else {
        assert(ps.push(p)[0] == ps[0]);
        assert(ps.push(p).drop_first() =~= ps.drop_first().push(p));
        lemma_render_setting_items_push(ps.drop_first(), p);
        if ps.len() == 1 {
            assert(render_setting_items(ps.push(p)) =~= render_setting_items(ps) + seq![',']
                + render_setting_items(seq![p]));
        } else {
            assert(render_setting_items(ps.push(p)) =~= render_setting_items(ps) + seq![',']
                + render_setting_items(seq![p]));
        }
    }
}

/// Append the quoted, escaped form of `s` to `out`.
fn render_string_into(s: &str, out: &mut Vec<char>)
    ensures
        final(out)@ == old(out)@ + render_string(s@),
{
    let n: usize = s.unicode_len();
    out.push('"');
    let mut i: usize = 0;
    while i < n
        invariant
            i <= n,
            n == s@.len(),
            out@ == old(out)@ + seq!['"'] + esc_seq(s@.take(i as int)),
        decreases n - i,
    {
        let c = s.get_char(i);
        if c == '"' {
            out.push('\\');
            out.push('"');
        } else if c == '\\' {
            out.push('\\');
            out.push('\\');
        } else if c == '\n' {
            out.push('\\');
            out.push('n');
        } else if c == '\r' {
            out.push('\\');
            out.push('r');
        } else if c == '\t' {
            out.push('\\');
            out.push('t');
        } else {
            out.push(c);
        }
        proof {
            lemma_esc_seq_push(s@.take(i as int), c);
            assert(s@.take(i + 1) =~= s@.take(i as int).push(c));
            assert(out@ =~= old(out)@ + seq!['"'] + esc_seq(s@.take(i + 1)));
        }
        i += 1;
    }
    out.push('"');
    proof {
        assert(s@.take(n as int) =~= s@);
        assert(out@ =~= old(out)@ + render_string(s@));
    }
}

/// Append one folder's object form to `out`.
fn render_folder_into(f: &FolderSetting, out: &mut Vec<char>)
    ensures
        final(out)@ == old(out)@ + render_folder(f@),
{
    out.push('{');
    render_string_into("path", out);
    out.push(':');
    render_string_into(f.path.as_str(), out);
    out.push(',');
    render_string_into("name", out);
    out.push(':');
    render_string_into(f.name.as_str(), out);
    out.push('}');
    proof {
        assert(out@ =~= old(out)@ + render_folder(f@));
    }
}

/// Render a whole workspace document to its canonical compact text.
pub fn render_workspace(w: &WorkSpace) -> (r: Vec<char>)
    ensures
        r@ == render_workspace_view(w@),
{
    let ghost wv = w@;
    let mut out: Vec<char> = Vec::new();
    out.push('{');
    render_string_into("folders", &mut out);
    out.push(':');
    out.push('[');
    let ghost head = seq!['{'] + render_string(key_folders()) + seq![':'] + seq!['['];
    proof {
        assert(out@ =~= head);
        assert(wv.folders.take(0) =~= Seq::<FolderView>::empty());
    }
    let mut i: usize = 0;
    while i < w.folders.len()
        invariant
            i <= w.folders@.len(),
            wv == w@,
            w@.folders.len() == w.folders@.len(),
            forall|j: int| 0 <= j < w.folders@.len() ==> w@.folders[j] == w.folders@[j]@,
            out@ == head + render_folder_items(wv.folders.take(i as int)),
        decreases w.folders@.len() - i,
    {
        if i > 0 {
            out.push(',');
        }
        render_folder_into(&w.folders[i], &mut out);
        proof {
            lemma_render_folder_items_push(wv.folders.take(i as int), wv.folders[i as int]);
            assert(wv.folders.take(i + 1) =~= wv.folders.take(i as int).push(wv.folders[i as int]));
            if i == 0 {
                assert(out@ =~= head + render_folder_items(wv.folders.take(i + 1)));
            } else {
                assert(render_folder_items(seq![wv.folders[i as int]]) == render_folder(
                    wv.folders[i as int],
                ));
                assert(out@ =~= head + render_folder_items(wv.folders.take(i + 1)));
            }
        }
        i += 1;
    }
    proof {
        assert(wv.folders.take(wv.folders.len() as int) =~= wv.folders);
    }
    out.push(']');
    match w.settings {
        Some(ref ps) => {
            out.push(',');
            render_string_into("settings", &mut out);
            out.push(':');
            out.push('{');
            let ghost head2 = head + render_folder_items(wv.folders) + seq![']'] + seq![',']
                + render_string(key_settings()) + seq![':'] + seq!['{'];
            let ghost psv = wv.settings->Some_0;
            proof {
                assert(out@ =~= head2);
                assert(psv.take(0) =~= Seq::<(Seq<char>, Seq<char>)>::empty());
            }
            let mut i: usize = 0;
            while i < ps.len()
                invariant
                    i <= ps@.len(),
                    psv.len() == ps@.len(),
                    forall|j: int| 0 <= j < ps@.len() ==> psv[j] == (ps@[j].0@, ps@[j].1@),
                    out@ == head2 + render_setting_items(psv.take(i as int)),
                decreases ps@.len() - i,
            {
                if i > 0 {
                    out.push(',');
                }
                render_string_into(ps[i].0.as_str(), &mut out);
                out.push(':');
                render_string_into(ps[i].1.as_str(), &mut out);
                proof {
                    lemma_render_setting_items_push(psv.take(i as int), psv[i as int]);
                    assert(psv.take(i + 1) =~= psv.take(i as int).push(psv[i as int]));
                    assert(out@ =~= head2 + render_setting_items(psv.take(i + 1)));
                }
                i += 1;
            }
            proof {
                assert(psv.take(psv.len() as int) =~= psv);
            }
            out.push('}');
            out.push('}');
            proof {
                assert(out@ =~= render_workspace_view(wv));
            }
        },
        None => {
            out.push('}');
            proof {
                assert(out@ =~= render_workspace_view(wv));
            }
        },
    }
    out
}

// ------------------------------------------------------------------
// Parsing, specified.
// ------------------------------------------------------------------

/// JSON insignificant whitespace.
pub open spec fn is_ws(c: char) -> bool {
    c == ' ' || c == '\t' || c == '\n' || c == '\r'
}

/// The input with its leading whitespace removed.
pub open spec fn skip_ws(s: Seq<char>) -> Seq<char>
    decreases s.len(),
{
    if s.len() > 0 && is_ws(s[0]) {
        skip_ws(s.drop_first())
    } else {
        s
    }
}

pub proof fn lemma_skip_ws_len(s: Seq<char>)
    ensures
        skip_ws(s).len() <= s.len(),
    decreases s.len(),
{
    if s.len() > 0 && is_ws(s[0]) {
        lemma_skip_ws_len(s.drop_first());
    }
}

/// What a backslash escape stands for; `None` for an unknown escape.
pub open spec fn unesc_char(c: char) -> Option<char> {
    if c == '"' {
        Some('"')
    } else if c == '\\' {
        Some('\\')
    } else if c == '/' {
        Some('/')
    } else if c == 'n' {
        Some('\n')
    } else if c == 'r' {
        Some('\r')
    } else if c == 't' {
        Some('\t')
    } else if c == 'b' {
        Some('\u{8}')
    } else if c == 'f' {
        Some('\u{c}')
    } else {
        None
    }
}

/// The rest of a string token after its opening quote: the unescaped content
/// and the input after the closing quote.
pub open spec fn sp_str_body(s: Seq<char>) -> Option<(Seq<char>, Seq<char>)>
    decreases s.len(),
{
    if s.len() == 0 {
        None
    } else if s[0] == '"' {
        Some((Seq::empty(), s.drop_first()))
    } else if s[0] == '\\' {
        if s.len() < 2 {
            None
        } else {
            match unesc_char(s[1]) {
                None => None,
                Some(c) => match sp_str_body(s.skip(2)) {
                    None => None,
                    Some(tr) => Some((seq![c] + tr.0, tr.1)),
                },
            }
        }
    } else {
        match sp_str_body(s.drop_first()) {
            None => None,
            Some(tr) => Some((seq![s[0]] + tr.0, tr.1)),
        }
    }
}

pub proof fn lemma_sp_str_body_len(s: Seq<char>)
    ensures
        sp_str_body(s) matches Some(tr) ==> tr.1.len() < s.len(),
    decreases s.len(),
{
    if s.len() == 0 {
    } else if s[0] == '"' {
    } else if s[0] == '\\' {
        if s.len() >= 2 {
            lemma_sp_str_body_len(s.skip(2));
        }
    } else {
        lemma_sp_str_body_len(s.drop_first());
    }
}

/// A whole string token, leading whitespace allowed.
pub open spec fn sp_string(s0: Seq<char>) -> Option<(Seq<char>, Seq<char>)> {
    let s = skip_ws(s0);
    if s.len() > 0 && s[0] == '"' {
        sp_str_body(s.drop_first())
    } else {
        None
    }
}

pub proof fn lemma_sp_string_len(s0: Seq<char>)
    ensures
        sp_string(s0) matches Some(tr) ==> tr.1.len() < s0.len(),
{
    lemma_skip_ws_len(s0);
    lemma_sp_str_body_len(skip_ws(s0).drop_first());
}

/// One expected punctuation character, leading whitespace allowed.
pub open spec fn sp_char(s0: Seq<char>, c: char) -> Option<Seq<char>> {
    let s = skip_ws(s0);
    if s.len() > 0 && s[0] == c {
        Some(s.drop_first())
    } else {
        None
    }
}

pub proof fn lemma_sp_char_len(s0: Seq<char>, c: char)
    ensures
        sp_char(s0, c) matches Some(rest) ==> rest.len() < s0.len(),
{
    lemma_skip_ws_len(s0);
}

/// One `"key": "value"` member where both sides are strings.
pub open spec fn sp_member_string(s: Seq<char>) -> Option<((Seq<char>, Seq<char>), Seq<char>)> {
    match sp_string(s) {
        None => None,
        Some(kr) => match sp_char(kr.1, ':') {
            None => None,
            Some(r2) => match sp_string(r2) {
                None => None,
                Some(vr) => Some(((kr.0, vr.0), vr.1)),
            },
        },
    }
}

pub proof fn lemma_sp_member_string_len(s: Seq<char>)
    ensures
        sp_member_string(s) matches Some(tr) ==> tr.1.len() < s.len(),
{
    lemma_sp_string_len(s);
    if sp_string(s) is Some {
        let kr = sp_string(s)->Some_0;
        lemma_sp_char_len(kr.1, ':');
        if sp_char(kr.1, ':') is Some {
            lemma_sp_string_len(sp_char(kr.1, ':')->Some_0);
        }
    }
}

/// One folder object: both members required, either order, nothing else.
pub open spec fn sp_folder(s: Seq<char>) -> Option<(FolderView, Seq<char>)> {
    match sp_char(s, '{') {
        None => None,
        Some(r1) => match sp_member_string(r1) {
            None => None,
            Some(m1r) => match sp_char(m1r.1, ',') {
                None => None,
                Some(r3) => match sp_member_string(r3) {
                    None => None,
                    Some(m2r) => match sp_char(m2r.1, '}') {
                        None => None,
                        Some(r5) => if m1r.0.0 == key_path() && m2r.0.0 == key_name() {
                            Some((FolderView { path: m1r.0.1, name: m2r.0.1 }, r5))
                        } else if m1r.0.0 == key_name() && m2r.0.0 == key_path() {
                            Some((FolderView { path: m2r.0.1, name: m1r.0.1 }, r5))
                        } else {
                            None
                        },
                    },
                },
            },
        },
    }
}

pub proof fn lemma_sp_folder_len(s: Seq<char>)
    ensures
        sp_folder(s) matches Some(tr) ==> tr.1.len() < s.len(),
{
    lemma_sp_char_len(s, '{');
    if sp_char(s, '{') is Some {
        let r1 = sp_char(s, '{')->Some_0;
        lemma_sp_member_string_len(r1);
        if sp_member_string(r1) is Some {
            let m1r = sp_member_string(r1)->Some_0;
            lemma_sp_char_len(m1r.1, ',');
            if sp_char(m1r.1, ',') is Some {
                let r3 = sp_char(m1r.1, ',')->Some_0;
                lemma_sp_member_string_len(r3);
                if sp_member_string(r3) is Some {
                    let m2r = sp_member_string(r3)->Some_0;
                    lemma_sp_char_len(m2r.1, '}');
                }
            }
        }
    }
}

/// The folder objects of a non-empty array, up to and over the closing
/// bracket.
pub open spec fn sp_folder_items(s: Seq<char>) -> Option<(Seq<FolderView>, Seq<char>)>
    decreases s.len(),
{
    match sp_folder(s) {
        None => None,
        Some(fr) => {
            let r = skip_ws(fr.1);
            if r.len() > 0 && r[0] == ']' {
                Some((seq![fr.0], r.drop_first()))
            } else if r.len() > 0 && r[0] == ',' {
                proof {
                    lemma_sp_folder_len(s);
                    lemma_skip_ws_len(fr.1);
                }
                match sp_folder_items(r.drop_first()) {
                    None => None,
                    Some(fsr) => Some((seq![fr.0] + fsr.0, fsr.1)),
                }
            } else {
                None
            }
        },
    }
}

/// A folder array value: brackets around zero or more folder objects.
pub open spec fn sp_folders_value(s: Seq<char>) -> Option<(Seq<FolderView>, Seq<char>)> {
    match sp_char(s, '[') {
        None => None,
        Some(r) => {
            let t = skip_ws(r);
            if t.len() > 0 && t[0] == ']' {
                Some((Seq::empty(), t.drop_first()))
            } else {
                sp_folder_items(r)
            }
        },
    }
}

/// The members of a non-empty settings object, up to and over the closing
/// brace.
pub open spec fn sp_setting_items(s: Seq<char>) -> Option<(Seq<(Seq<char>, Seq<char>)>, Seq<char>)>
    decreases s.len(),
{
    match sp_member_string(s) {
        None => None,
        Some(pr) => {
            let r = skip_ws(pr.1);
            if r.len() > 0 && r[0] == '}' {
                Some((seq![pr.0], r.drop_first()))
            } else if r.len() > 0 && r[0] == ',' {
                proof {
                    lemma_sp_member_string_len(s);
                    lemma_skip_ws_len(pr.1);
                }
                match sp_setting_items(r.drop_first()) {
                    None => None,
                    Some(psr) => Some((seq![pr.0] + psr.0, psr.1)),
                }
            } else {
                None
            }
        },
    }
}

/// A settings object value: braces around zero or more string members.
pub open spec fn sp_settings_value(s: Seq<char>) -> Option<(Seq<(Seq<char>, Seq<char>)>, Seq<char>)> {
    match sp_char(s, '{') {
        None => None,
        Some(r) => {
            let t = skip_ws(r);
            if t.len() > 0 && t[0] == '}' {
                Some((Seq::empty(), t.drop_first()))
            } else {
                sp_setting_items(r)
            }
        },
    }
}

/// A workspace document object: `folders` required, `settings` optional,
/// either member order, no duplicate and no unknown members.
pub open spec fn sp_workspace(s: Seq<char>) -> Option<(WorkSpaceView, Seq<char>)> {
    match sp_char(s, '{') {
        None => None,
        Some(r1) => match sp_string(r1) {
            None => None,
            Some(kr) => match sp_char(kr.1, ':') {
                None => None,
                Some(r3) => if kr.0 == key_folders() {
                    match sp_folders_value(r3) {
                        None => None,
                        Some(fsr) => {
                            let t = skip_ws(fsr.1);
                            if t.len() > 0 && t[0] == '}' {
                                Some(
                                    (
                                        WorkSpaceView { folders: fsr.0, settings: None },
                                        t.drop_first(),
                                    ),
                                )
                            } else if t.len() > 0 && t[0] == ',' {
                                match sp_string(t.drop_first()) {
                                    None => None,
                                    Some(k2r) => if k2r.0 == key_settings() {
                                        match sp_char(k2r.1, ':') {
                                            None => None,
                                            Some(r6) => match sp_settings_value(r6) {
                                                None => None,
                                                Some(psr) => match sp_char(psr.1, '}') {
                                                    None => None,
                                                    Some(r8) => Some(
                                                        (
                                                            WorkSpaceView {
                                                                folders: fsr.0,
                                                                settings: Some(psr.0),
                                                            },
                                                            r8,
                                                        ),
                                                    ),
                                                },
                                            },
                                        }
                                    } else {
                                        None
                                    },
                                }
                            } else {
                                None
                            }
                        },
                    }
                } else if kr.0 == key_settings() {
                    match sp_settings_value(r3) {
                        None => None,
                        Some(psr) => match sp_char(psr.1, ',') {
                            None => None,
                            Some(r5) => match sp_string(r5) {
                                None => None,
                                Some(k2r) => if k2r.0 == key_folders() {
                                    match sp_char(k2r.1, ':') {
                                        None => None,
                                        Some(r7) => match sp_folders_value(r7) {
                                            None => None,
                                            Some(fsr) => match sp_char(fsr.1, '}') {
                                                None => None,
                                                Some(r9) => Some(
                                                    (
                                                        WorkSpaceView {
                                                            folders: fsr.0,
                                                            settings: Some(psr.0),
                                                        },
                                                        r9,
                                                    ),
                                                ),
                                            },
                                        },
                                    }
                                } else {
                                    None
                                },
                            },
                        },
                    }
                } else {
                    None
                },
            },
        },
    }
}

// ------------------------------------------------------------------
// Parsing, executable.
// ------------------------------------------------------------------

/// Index facts about suffixes: one step of a suffix is the next suffix.
pub proof fn lemma_skip_step(s: Seq<char>, i: int)
    requires
        0 <= i < s.len(),
    ensures
        s.skip(i).len() == s.len() - i,
        s.skip(i)[0] == s[i],
        s.skip(i).drop_first() == s.skip(i + 1),
{
    assert(s.skip(i).drop_first() =~= s.skip(i + 1));
}

/// Relies on `String as FromIterator<char>`: collecting characters yields
/// the string of exactly those characters in order.
#[verifier::external_body]
fn string_from_chars(v: &Vec<char>) -> (r: String)
    ensures
        r@ == v@,
{
    v.iter().collect()
}

fn is_ws_char(c: char) -> (r: bool)
    ensures
        r == is_ws(c),
{
    c == ' ' || c == '\t' || c == '\n' || c == '\r'
}

/// Advance over insignificant whitespace.
pub(crate) fn skip_ws_exec(text: &Vec<char>, i: usize) -> (j: usize)
    requires
        i <= text@.len(),
    ensures
        i <= j <= text@.len(),
        skip_ws(text@.skip(i as int)) == text@.skip(j as int),
{
    let mut j: usize = i;
    loop
        invariant
            i <= j <= text@.len(),
            skip_ws(text@.skip(i as int)) == skip_ws(text@.skip(j as int)),
        decreases text@.len() - j,
    {
        if j == text.len() {
            proof {
                assert(text@.skip(j as int).len() == 0);
            }
            return j;
        }
        let c = text[j];
        proof {
            lemma_skip_step(text@, j as int);
        }
        if is_ws_char(c) {
            j += 1;
        } else {
            return j;
        }
    }
}

fn unesc_char_exec(c: char) -> (r: Option<char>)
    ensures
        r == unesc_char(c),
{
    if c == '"' {
        Some('"')
    } else if c == '\\' {
        Some('\\')
    } else if c == '/' {
        Some('/')
    } else if c == 'n' {
        Some('\n')
    } else if c == 'r' {
        Some('\r')
    } else if c == 't' {
        Some('\t')
    } else if c == 'b' {
        Some('\u{8}')
    } else if c == 'f' {
        Some('\u{c}')
    } else {
        None
    }
}

/// Parse one expected punctuation character, whitespace allowed before it.
pub(crate) fn p_char(text: &Vec<char>, i: usize, c: char) -> (r: Option<usize>)
    requires
        i <= text@.len(),
    ensures
        match r {
            Some(j) => j <= text@.len() && sp_char(text@.skip(i as int), c) == Some(
                text@.skip(j as int),
            ),
            None => sp_char(text@.skip(i as int), c) is None,
        },
{
    let j = skip_ws_exec(text, i);
    if j < text.len() {
        proof {
            lemma_skip_step(text@, j as int);
        }
        if text[j] == c {
            Some(j + 1)
        } else {
            None
        }
    } else {
        proof {
            assert(text@.skip(j as int).len() == 0);
        }
        None
    }
}

/// Parse the rest of a string token after its opening quote.
fn p_str_body(text: &Vec<char>, start: usize) -> (r: Option<(String, usize)>)
    requires
        start <= text@.len(),
    ensures
        match r {
            Some(v) => v.1 <= text@.len() && sp_str_body(text@.skip(start as int)) == Some(
                (v.0@, text@.skip(v.1 as int)),
            ),
            None => sp_str_body(text@.skip(start as int)) is None,
        },
{
    let ghost s0 = text@.skip(start as int);
    let mut acc: Vec<char> = Vec::new();
    let mut i: usize = start;
    loop
        invariant
            start <= i <= text@.len(),
            s0 == text@.skip(start as int),
            match sp_str_body(text@.skip(i as int)) {
                Some(tr) => sp_str_body(s0) == Some((acc@ + tr.0, tr.1)),
                None => sp_str_body(s0) is None,
            },
        decreases text@.len() - i,
    {
        if i == text.len() {
            proof {
                assert(text@.skip(i as int).len() == 0);
            }
            return None;
        }
        let c = text[i];
        proof {
            lemma_skip_step(text@, i as int);
        }
        if c == '"' {
            let s = string_from_chars(&acc);
            proof {
                assert(sp_str_body(text@.skip(i as int)) == Some(
                    (Seq::<char>::empty(), text@.skip(i + 1)),
                ));
                assert(acc@ + Seq::<char>::empty() =~= acc@);
            }
            return Some((s, i + 1));
        } else if c == '\\' {
            if i + 1 == text.len() {
                proof {
                    assert(text@.skip(i as int).len() < 2);
                }
                return None;
            }
            let e = text[i + 1];
            proof {
                assert(text@.skip(i as int)[1] == text@[i + 1]);
            }
            match unesc_char_exec(e) {
                None => {
                    return None;
                },
                Some(d) => {
                    let ghost acc_old = acc@;
                    acc.push(d);
                    proof {
                        assert(text@.skip(i as int).skip(2) =~= text@.skip(i + 2));
                        let after = sp_str_body(text@.skip(i + 2));
                        if after is Some {
                            let tr = after->Some_0;
                            assert(acc_old + (seq![d] + tr.0) =~= acc@ + tr.0);
                        }
                    }
                    i += 2;
                },
            }
        } else {
            let ghost acc_old = acc@;
            acc.push(c);
            proof {
                let after = sp_str_body(text@.skip(i + 1));
                if after is Some {
                    let tr = after->Some_0;
                    assert(acc_old + (seq![c] + tr.0) =~= acc@ + tr.0);
                }
            }
            i += 1;
        }
    }
}

/// Parse a whole string token.
fn p_string(text: &Vec<char>, i: usize) -> (r: Option<(String, usize)>)
    requires
        i <= text@.len(),
    ensures
        match r {
            Some(v) => v.1 <= text@.len() && sp_string(text@.skip(i as int)) == Some(
                (v.0@, text@.skip(v.1 as int)),
            ),
            None => sp_string(text@.skip(i as int)) is None,
        },
{
    let j = skip_ws_exec(text, i);
    if j < text.len() {
        proof {
            lemma_skip_step(text@, j as int);
        }
        if text[j] == '"' {
            p_str_body(text, j + 1)
        } else {
            None
        }
    } else {
        proof {
            assert(text@.skip(j as int).len() == 0);
        }
        None
    }
}

/// Parse one `"key": "value"` member.
pub(crate) fn p_member(text: &Vec<char>, i: usize) -> (r: Option<((String, String), usize)>)
    requires
        i <= text@.len(),
    ensures
        match r {
            Some(v) => v.1 <= text@.len() && sp_member_string(text@.skip(i as int)) == Some(
                ((v.0.0@, v.0.1@), text@.skip(v.1 as int)),
            ),
            None => sp_member_string(text@.skip(i as int)) is None,
        },
{
    match p_string(text, i) {
        None => None,
        Some((k, j1)) => match p_char(text, j1, ':') {
            None => None,
            Some(j2) => match p_string(text, j2) {
                None => None,
                Some((v, j3)) => Some(((k, v), j3)),
            },
        },
    }
}

/// The document denoted by a complete text: a workspace object followed by
/// nothing but whitespace, or `None` when the text is malformed.
pub open spec fn parse_workspace_spec(s: Seq<char>) -> Option<WorkSpaceView> {
    match sp_workspace(s) {
        None => None,
        Some(wr) => if skip_ws(wr.1).len() == 0 {
            Some(wr.0)
        } else {
            None
        },
    }
}

/// Parse one folder object.
fn p_folder(text: &Vec<char>, i: usize) -> (r: Option<(FolderSetting, usize)>)
    requires
        i <= text@.len(),
    ensures
        match r {
            Some(v) => v.1 <= text@.len() && sp_folder(text@.skip(i as int)) == Some(
                (v.0@, text@.skip(v.1 as int)),
            ),
            None => sp_folder(text@.skip(i as int)) is None,
        },
{
    match p_char(text, i, '{') {
        None => None,
        Some(j1) => match p_member(text, j1) {
            None => None,
            Some((m1, j2)) => match p_char(text, j2, ',') {
                None => None,
                Some(j3) => match p_member(text, j3) {
                    None => None,
                    Some((m2, j4)) => match p_char(text, j4, '}') {
                        None => None,
                        Some(j5) => {
                            let path_key: String = "path".to_owned();
                            let name_key: String = "name".to_owned();
                            if m1.0.eq(&path_key) && m2.0.eq(&name_key) {
                                Some((FolderSetting { path: m1.1, name: m2.1 }, j5))
                            } else if m1.0.eq(&name_key) && m2.0.eq(&path_key) {
                                Some((FolderSetting { path: m2.1, name: m1.1 }, j5))
                            } else {
                                None
                            }
                        },
                    },
                },
            },
        },
    }
}

/// Parse the folder objects of a non-empty array, over the closing bracket.
fn p_folder_items(text: &Vec<char>, i: usize) -> (r: Option<(Vec<FolderSetting>, usize)>)
    requires
        i <= text@.len(),
    ensures
        match r {
            Some(v) => v.1 <= text@.len() && sp_folder_items(text@.skip(i as int)) == Some(
                (v.0@.map_values(|f: FolderSetting| f@), text@.skip(v.1 as int)),
            ),
            None => sp_folder_items(text@.skip(i as int)) is None,
        },
{
    let ghost s0 = text@.skip(i as int);
    let mut acc: Vec<FolderSetting> = Vec::new();
    let mut cur: usize = i;
    proof {
        assert(acc@.map_values(|f: FolderSetting| f@) =~= Seq::<FolderView>::empty());
    }
    loop
        invariant
            i <= cur <= text@.len(),
            s0 == text@.skip(i as int),
            match sp_folder_items(text@.skip(cur as int)) {
                Some(tr) => sp_folder_items(s0) == Some(
                    (acc@.map_values(|f: FolderSetting| f@) + tr.0, tr.1),
                ),
                None => sp_folder_items(s0) is None,
            },
        decreases text@.len() - cur,
    {
        match p_folder(text, cur) {
            None => {
                return None;
            },
            Some((f, j)) => {
                proof {
                    lemma_sp_folder_len(text@.skip(cur as int));
                }
                let j2 = skip_ws_exec(text, j);
                let ghost accv_old = acc@.map_values(|ff: FolderSetting| ff@);
                if j2 == text.len() {
                    proof {
                        assert(text@.skip(j2 as int).len() == 0);
                    }
                    return None;
                }
                proof {
                    lemma_skip_step(text@, j2 as int);
                }
                let c = text[j2];
                if c == ']' {
                    let ghost fv = f@;
                    acc.push(f);
                    proof {
                        assert(acc@.map_values(|ff: FolderSetting| ff@) =~= accv_old.push(fv));
                        assert(accv_old + seq![fv] =~= accv_old.push(fv));
                    }
                    return Some((acc, j2 + 1));
                } else if c == ',' {
                    let ghost fv = f@;
                    acc.push(f);
                    proof {
                        assert(acc@.map_values(|ff: FolderSetting| ff@) =~= accv_old.push(fv));
                        let after = sp_folder_items(text@.skip(j2 + 1));
                        if after is Some {
                            let tr = after->Some_0;
                            assert(accv_old + (seq![fv] + tr.0) =~= accv_old.push(fv) + tr.0);
                        }
                    }
                    cur = j2 + 1;
                } else {
                    return None;
                }
            },
        }
    }
}

/// Parse a folder array value.
fn p_folders_value(text: &Vec<char>, i: usize) -> (r: Option<(Vec<FolderSetting>, usize)>)
    requires
        i <= text@.len(),
    ensures
        match r {
            Some(v) => v.1 <= text@.len() && sp_folders_value(text@.skip(i as int)) == Some(
                (v.0@.map_values(|f: FolderSetting| f@), text@.skip(v.1 as int)),
            ),
            None => sp_folders_value(text@.skip(i as int)) is None,
        },
{
    match p_char(text, i, '[') {
        None => None,
        Some(j) => {
            let j2 = skip_ws_exec(text, j);
            if j2 < text.len() {
                proof {
                    lemma_skip_step(text@, j2 as int);
                }
                if text[j2] == ']' {
                    let empty_acc: Vec<FolderSetting> = Vec::new();
                    proof {
                        assert(empty_acc@.map_values(|f: FolderSetting| f@)
                            =~= Seq::<FolderView>::empty());
                    }
                    Some((empty_acc, j2 + 1))
                } else {
                    p_folder_items(text, j)
                }
            } else {
                proof {
                    assert(text@.skip(j2 as int).len() == 0);
                }
                p_folder_items(text, j)
            }
        },
    }
}

/// Parse the members of a non-empty settings object, over the closing brace.
fn p_setting_items(text: &Vec<char>, i: usize) -> (r: Option<(Vec<(String, String)>, usize)>)
    requires
        i <= text@.len(),
    ensures
        match r {
            Some(v) => v.1 <= text@.len() && sp_setting_items(text@.skip(i as int)) == Some(
                (v.0@.map_values(|p: (String, String)| (p.0@, p.1@)), text@.skip(v.1 as int)),
            ),
            None => sp_setting_items(text@.skip(i as int)) is None,
        },
{
    let ghost s0 = text@.skip(i as int);
    let mut acc: Vec<(String, String)> = Vec::new();
    let mut cur: usize = i;
    proof {
        assert(acc@.map_values(|p: (String, String)| (p.0@, p.1@))
            =~= Seq::<(Seq<char>, Seq<char>)>::empty());
    }
    loop
        invariant
            i <= cur <= text@.len(),
            s0 == text@.skip(i as int),
            match sp_setting_items(text@.skip(cur as int)) {
                Some(tr) => sp_setting_items(s0) == Some(
                    (acc@.map_values(|p: (String, String)| (p.0@, p.1@)) + tr.0, tr.1),
                ),
                None => sp_setting_items(s0) is None,
            },
        decreases text@.len() - cur,
    {
        match p_member(text, cur) {
            None => {
                return None;
            },
            Some((m, j)) => {
                proof {
                    lemma_sp_member_string_len(text@.skip(cur as int));
                }
                let j2 = skip_ws_exec(text, j);
                let ghost accv_old = acc@.map_values(|p: (String, String)| (p.0@, p.1@));
                let ghost mv = (m.0@, m.1@);
                if j2 == text.len() {
                    proof {
                        assert(text@.skip(j2 as int).len() == 0);
                    }
                    return None;
                }
                proof {
                    lemma_skip_step(text@, j2 as int);
                }
                let c = text[j2];
                if c == '}' {
                    acc.push(m);
                    proof {
                        assert(acc@.map_values(|p: (String, String)| (p.0@, p.1@))
                            =~= accv_old.push(mv));
                        assert(accv_old + seq![mv] =~= accv_old.push(mv));
                    }
                    return Some((acc, j2 + 1));
                } else if c == ',' {
                    acc.push(m);
                    proof {
                        assert(acc@.map_values(|p: (String, String)| (p.0@, p.1@))
                            =~= accv_old.push(mv));
                        let after = sp_setting_items(text@.skip(j2 + 1));
                        if after is Some {
                            let tr = after->Some_0;
                            assert(accv_old + (seq![mv] + tr.0) =~= accv_old.push(mv) + tr.0);
                        }
                    }
                    cur = j2 + 1;
                } else {
                    return None;
                }
            },
        }
    }
}

/// Parse a settings object value.
fn p_settings_value(text: &Vec<char>, i: usize) -> (r: Option<(Vec<(String, String)>, usize)>)
    requires
        i <= text@.len(),
    ensures
        match r {
            Some(v) => v.1 <= text@.len() && sp_settings_value(text@.skip(i as int)) == Some(
                (v.0@.map_values(|p: (String, String)| (p.0@, p.1@)), text@.skip(v.1 as int)),
            ),
            None => sp_settings_value(text@.skip(i as int)) is None,
        },
{
    match p_char(text, i, '{') {
        None => None,
        Some(j) => {
            let j2 = skip_ws_exec(text, j);
            if j2 < text.len() {
                proof {
                    lemma_skip_step(text@, j2 as int);
                }
                if text[j2] == '}' {
                    let empty_acc: Vec<(String, String)> = Vec::new();
                    proof {
                        assert(empty_acc@.map_values(|p: (String, String)| (p.0@, p.1@))
                            =~= Seq::<(Seq<char>, Seq<char>)>::empty());
                    }
                    Some((empty_acc, j2 + 1))
                } else {
                    p_setting_items(text, j)
                }
            } else {
                proof {
                    assert(text@.skip(j2 as int).len() == 0);
                }
                p_setting_items(text, j)
            }
        },
    }
}

/// Parse a workspace document object.
fn p_workspace(text: &Vec<char>, i: usize) -> (r: Option<(WorkSpace, usize)>)
    requires
        i <= text@.len(),
    ensures
        match r {
            Some(v) => v.1 <= text@.len() && sp_workspace(text@.skip(i as int)) == Some(
                (v.0@, text@.skip(v.1 as int)),
            ),
            None => sp_workspace(text@.skip(i as int)) is None,
        },
{
    let folders_key: String = "folders".to_owned();
    let settings_key: String = "settings".to_owned();
    match p_char(text, i, '{') {
        None => None,
        Some(j1) => match p_string(text, j1) {
            None => None,
            Some((k1, j2)) => match p_char(text, j2, ':') {
                None => None,
                Some(j3) => {
                    if k1.eq(&folders_key) {
                        match p_folders_value(text, j3) {
                            None => None,
                            Some((fs, j4)) => {
                                let j5 = skip_ws_exec(text, j4);
                                if j5 == text.len() {
                                    proof {
                                        assert(text@.skip(j5 as int).len() == 0);
                                    }
                                    return None;
                                }
                                proof {
                                    lemma_skip_step(text@, j5 as int);
                                }
                                let c = text[j5];
                                if c == '}' {
                                    Some((WorkSpace { folders: fs, settings: None }, j5 + 1))
                                } else if c == ',' {
                                    match p_string(text, j5 + 1) {
                                        None => None,
                                        Some((k2, j6)) => {
                                            if k2.eq(&settings_key) {
                                                match p_char(text, j6, ':') {
                                                    None => None,
                                                    Some(j7) => match p_settings_value(text, j7) {
                                                        None => None,
                                                        Some((ps, j8)) => match p_char(
                                                            text,
                                                            j8,
                                                            '}',
                                                        ) {
                                                            None => None,
                                                            Some(j9) => Some(
                                                                (
                                                                    WorkSpace {
                                                                        folders: fs,
                                                                        settings: Some(ps),
                                                                    },
                                                                    j9,
                                                                ),
                                                            ),
                                                        },
                                                    },
                                                }
                                            } else {
                                                None
                                            }
                                        },
                                    }
                                } else {
                                    None
                                }
                            },
                        }
                    } else if k1.eq(&settings_key) {
                        match p_settings_value(text, j3) {
                            None => None,
                            Some((ps, j4)) => match p_char(text, j4, ',') {
                                None => None,
                                Some(j5) => match p_string(text, j5) {
                                    None => None,
                                    Some((k2, j6)) => {
                                        if k2.eq(&folders_key) {
                                            match p_char(text, j6, ':') {
                                                None => None,
                                                Some(j7) => match p_folders_value(text, j7) {
                                                    None => None,
                                                    Some((fs, j8)) => match p_char(text, j8, '}') {
                                                        None => None,
                                                        Some(j9) => Some(
                                                            (
                                                                WorkSpace {
                                                                    folders: fs,
                                                                    settings: Some(ps),
                                                                },
                                                                j9,
                                                            ),
                                                        ),
                                                    },
                                                },
                                            }
                                        } else {
                                            None
                                        }
                                    },
                                },
                            },
                        }
                    } else {
                        None
                    }
                },
            },
        },
    }
}

/// Parse a complete workspace document text. Returns the document exactly
/// when the text denotes one, and `MalformedData` exactly when it does not.
pub fn parse_workspace(text: &Vec<char>) -> (r: Result<WorkSpace, WsError>)
    ensures
        match r {
            Ok(w) => parse_workspace_spec(text@) == Some(w@),
            Err(e) => parse_workspace_spec(text@) is None && e == WsError::MalformedData,
        },
{
    proof {
        assert(text@.skip(0) =~= text@);
    }
    match p_workspace(text, 0) {
        None => Err(WsError::MalformedData),
        Some((w, j)) => {
            let j2 = skip_ws_exec(text, j);
            if j2 == text.len() {
                proof {
                    assert(text@.skip(j2 as int).len() == 0);
                }
                Ok(w)
            } else {
                proof {
                    assert(text@.skip(j2 as int).len() > 0);
                }
                Err(WsError::MalformedData)
            }
        },
    }
}

/// The characters of a string slice, in order.
pub fn chars_of(s: &str) -> (r: Vec<char>)
    ensures
        r@ == s@,
{
    let n: usize = s.unicode_len();
    let mut v: Vec<char> = Vec::new();
    let mut i: usize = 0;
    while i < n
        invariant
            i <= n,
            n == s@.len(),
            v@ == s@.take(i as int),
        decreases n - i,
    {
        let c = s.get_char(i);
        v.push(c);
        proof {
            assert(s@.take(i + 1) =~= s@.take(i as int).push(s@[i as int]));
        }
        i += 1;
    }
    proof {
        assert(s@.take(n as int) =~= s@);
    }
    v
}

/// Render a whole workspace document to a `String` of its canonical text.
pub fn render_workspace_string(w: &WorkSpace) -> (r: String)
    ensures
        r@ == render_workspace_view(w@),
{
    let v = render_workspace(w);
    string_from_chars(&v)
}

/// Parse a complete workspace document from a string slice.
pub fn parse_workspace_str(s: &str) -> (r: Result<WorkSpace, WsError>)
    ensures
        match r {
            Ok(w) => parse_workspace_spec(s@) == Some(w@),
            Err(e) => parse_workspace_spec(s@) is None && e == WsError::MalformedData,
        },
{
    let v = chars_of(s);
    parse_workspace(&v)
}

} // verus!
