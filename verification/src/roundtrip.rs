//! The round-trip law: rendering any workspace document and parsing the
//! rendered text yields the same document, folders in the same order and the
//! settings map with the same presence and content.

use vstd::prelude::*;

use crate::codec::{
    esc_char, esc_seq, is_ws, key_folders, key_name, key_path, key_settings, parse_workspace_spec,
    render_folder, render_folder_items, render_setting, render_setting_items, render_string,
    render_workspace_view, skip_ws, sp_char, sp_folder, sp_folder_items, sp_folders_value,
    sp_member_string, sp_setting_items, sp_settings_value, sp_str_body, sp_string, sp_workspace,
    unesc_char,
};
use crate::workspace::{FolderView, WorkSpaceView};

verus! {

/// Input that does not start with whitespace is left as it stands.
proof fn lemma_skip_ws_id(s: Seq<char>)
    requires
        s.len() > 0,
        !is_ws(s[0]),
    ensures
        skip_ws(s) == s,
{
}

/// An expected punctuation character consumes exactly itself.
proof fn lemma_sp_char_render(c: char, rest: Seq<char>)
    requires
        !is_ws(c),
    ensures
        sp_char(seq![c] + rest, c) == Some(rest),
{
    let s = seq![c] + rest;
    assert(s.len() > 0 && s[0] == c);
    lemma_skip_ws_id(s);
    assert(s.drop_first() =~= rest);
}

/// Unescaping inverts escaping, character by character.
proof fn lemma_sp_str_body_render(v: Seq<char>, rest: Seq<char>)
    ensures
        sp_str_body(esc_seq(v) + seq!['"'] + rest) == Some((v, rest)),
    decreases v.len(),
{
    let s = esc_seq(v) + seq!['"'] + rest;
    if v.len() == 0 {
        assert(esc_seq(v) == Seq::<char>::empty());
        assert(s =~= seq!['"'] + rest);
        assert(s[0] == '"');
        assert(s.drop_first() =~= rest);
        assert(v =~= Seq::<char>::empty());
    } else {
        let c = v[0];
        lemma_sp_str_body_render(v.drop_first(), rest);
        let tail = esc_seq(v.drop_first()) + seq!['"'] + rest;
        assert(esc_seq(v) == esc_char(c) + esc_seq(v.drop_first()));
        if c == '"' || c == '\\' || c == '\n' || c == '\r' || c == '\t' {
            let e: char = if c == '"' {
                '"'
            } else if c == '\\' {
                '\\'
            } else if c == '\n' {
                'n'
            } else if c == '\r' {
                'r'
            } else {
                't'
            };
            assert(esc_char(c) =~= seq!['\\', e]);
            assert(s =~= seq!['\\', e] + tail);
            assert(s[0] == '\\');
            assert(s.len() >= 2);
            assert(s[1] == e);
            assert(unesc_char(e) == Some(c));
            assert(s.skip(2) =~= tail);
            assert(seq![c] + v.drop_first() =~= v);
        } else {
            assert(esc_char(c) =~= seq![c]);
            assert(s =~= seq![c] + tail);
            assert(s[0] == c);
            assert(c != '"' && c != '\\');
            assert(s.drop_first() =~= tail);
            assert(seq![c] + v.drop_first() =~= v);
        }
    }
}

/// A rendered string token parses back to exactly its content.
proof fn lemma_sp_string_render(v: Seq<char>, rest: Seq<char>)
    ensures
        sp_string(render_string(v) + rest) == Some((v, rest)),
{
    let s = render_string(v) + rest;
    assert(s.len() > 0 && s[0] == '"');
    lemma_skip_ws_id(s);
    lemma_sp_str_body_render(v, rest);
    assert(s.drop_first() =~= esc_seq(v) + seq!['"'] + rest);
}

/// A rendered `"key": "value"` member parses back to exactly that pair.
proof fn lemma_sp_member_render(k: Seq<char>, val: Seq<char>, rest: Seq<char>)
    ensures
        sp_member_string(render_string(k) + seq![':'] + render_string(val) + rest) == Some(
            ((k, val), rest),
        ),
{
    let s = render_string(k) + seq![':'] + render_string(val) + rest;
    let r3 = render_string(val) + rest;
    let r2 = seq![':'] + r3;
    assert(s =~= render_string(k) + r2);
    lemma_sp_string_render(k, r2);
    lemma_sp_char_render(':', r3);
    lemma_sp_string_render(val, rest);
}

/// A rendered folder object parses back to exactly that folder.
proof fn lemma_sp_folder_render(f: FolderView, rest: Seq<char>)
    ensures
        sp_folder(render_folder(f) + rest) == Some((f, rest)),
{
    let s = render_folder(f) + rest;
    let r4 = seq!['}'] + rest;
    let r3 = render_string(key_name()) + seq![':'] + render_string(f.name) + r4;
    let r2 = seq![','] + r3;
    let r1 = render_string(key_path()) + seq![':'] + render_string(f.path) + r2;
    assert(s =~= seq!['{'] + r1);
    lemma_sp_char_render('{', r1);
    lemma_sp_member_render(key_path(), f.path, r2);
    lemma_sp_char_render(',', r3);
    lemma_sp_member_render(key_name(), f.name, r4);
    lemma_sp_char_render('}', rest);
    assert(sp_folder(s) matches Some(fr) && fr.0 =~= f && fr.1 == rest);
}

/// A rendered non-empty folder list followed by `]` parses back to it.
proof fn lemma_sp_folder_items_render(fs: Seq<FolderView>, rest: Seq<char>)
    requires
        fs.len() > 0,
    ensures
        sp_folder_items(render_folder_items(fs) + seq![']'] + rest) == Some((fs, rest)),
    decreases fs.len(),
{
    let s = render_folder_items(fs) + seq![']'] + rest;
    if fs.len() == 1 {
        let fr1 = seq![']'] + rest;
        lemma_sp_folder_render(fs[0], fr1);
        assert(s =~= render_folder(fs[0]) + fr1);
        lemma_skip_ws_id(fr1);
        assert(fr1.drop_first() =~= rest);
        assert(seq![fs[0]] =~= fs);
    } else {
        let tail_items = render_folder_items(fs.drop_first()) + seq![']'] + rest;
        let fr1 = seq![','] + tail_items;
        lemma_sp_folder_render(fs[0], fr1);
        assert(s =~= render_folder(fs[0]) + fr1);
        lemma_skip_ws_id(fr1);
        assert(fr1.drop_first() =~= tail_items);
        lemma_sp_folder_items_render(fs.drop_first(), rest);
        assert(seq![fs[0]] + fs.drop_first() =~= fs);
    }
}

/// A rendered folder array value parses back to exactly its folders.
proof fn lemma_sp_folders_value_render(fs: Seq<FolderView>, rest: Seq<char>)
    ensures
        sp_folders_value(seq!['['] + render_folder_items(fs) + seq![']'] + rest) == Some(
            (fs, rest),
        ),
{
    let s = seq!['['] + render_folder_items(fs) + seq![']'] + rest;
    let r = render_folder_items(fs) + seq![']'] + rest;
    assert(s =~= seq!['['] + r);
    lemma_sp_char_render('[', r);
    if fs.len() == 0 {
        assert(render_folder_items(fs) == Seq::<char>::empty());
        assert(r =~= seq![']'] + rest);
        lemma_skip_ws_id(r);
        assert(r.drop_first() =~= rest);
        assert(Seq::<FolderView>::empty() =~= fs);
    } else {
        assert(render_folder(fs[0])[0] == '{');
        assert(render_folder_items(fs)[0] == '{');
        assert(r.len() > 0 && r[0] == '{');
        lemma_skip_ws_id(r);
        lemma_sp_folder_items_render(fs, rest);
    }
}

/// A rendered non-empty settings list followed by `}` parses back to it.
proof fn lemma_sp_setting_items_render(ps: Seq<(Seq<char>, Seq<char>)>, rest: Seq<char>)
    requires
        ps.len() > 0,
    ensures
        sp_setting_items(render_setting_items(ps) + seq!['}'] + rest) == Some((ps, rest)),
    decreases ps.len(),
{
    let s = render_setting_items(ps) + seq!['}'] + rest;
    if ps.len() == 1 {
        let pr1 = seq!['}'] + rest;
        assert(render_setting(ps[0]) =~= render_string(ps[0].0) + seq![':'] + render_string(
            ps[0].1,
        ));
        lemma_sp_member_render(ps[0].0, ps[0].1, pr1);
        assert(s =~= render_string(ps[0].0) + seq![':'] + render_string(ps[0].1) + pr1);
        lemma_skip_ws_id(pr1);
        assert(pr1.drop_first() =~= rest);
        assert(seq![ps[0]] =~= ps);
        assert((ps[0].0, ps[0].1) == ps[0]);
    } else {
        let tail_items = render_setting_items(ps.drop_first()) + seq!['}'] + rest;
        let pr1 = seq![','] + tail_items;
        lemma_sp_member_render(ps[0].0, ps[0].1, pr1);
        assert(s =~= render_string(ps[0].0) + seq![':'] + render_string(ps[0].1) + pr1);
        lemma_skip_ws_id(pr1);
        assert(pr1.drop_first() =~= tail_items);
        lemma_sp_setting_items_render(ps.drop_first(), rest);
        assert((ps[0].0, ps[0].1) == ps[0]);
        assert(seq![ps[0]] + ps.drop_first() =~= ps);
    }
}

/// A rendered settings object value parses back to exactly its members.
proof fn lemma_sp_settings_value_render(ps: Seq<(Seq<char>, Seq<char>)>, rest: Seq<char>)
    ensures
        sp_settings_value(seq!['{'] + render_setting_items(ps) + seq!['}'] + rest) == Some(
            (ps, rest),
        ),
{
    let s = seq!['{'] + render_setting_items(ps) + seq!['}'] + rest;
    let r = render_setting_items(ps) + seq!['}'] + rest;
    assert(s =~= seq!['{'] + r);
    lemma_sp_char_render('{', r);
    if ps.len() == 0 {
        assert(render_setting_items(ps) == Seq::<char>::empty());
        assert(r =~= seq!['}'] + rest);
        lemma_skip_ws_id(r);
        assert(r.drop_first() =~= rest);
        assert(Seq::<(Seq<char>, Seq<char>)>::empty() =~= ps);
    } else {
        assert(render_setting(ps[0])[0] == '"');
        assert(render_setting_items(ps)[0] == '"');
        assert(r.len() > 0 && r[0] == '"');
        lemma_skip_ws_id(r);
        lemma_sp_setting_items_render(ps, rest);
    }
}

/// A rendered workspace document parses back to exactly that document.
#[verifier::rlimit(60)]
proof fn lemma_sp_workspace_render(w: WorkSpaceView, rest: Seq<char>)
    ensures
        sp_workspace(render_workspace_view(w) + rest) == Some((w, rest)),
{
    let s = render_workspace_view(w) + rest;
    match w.settings {
        None => {
            let r4 = seq!['}'] + rest;
            let r3 = seq!['['] + render_folder_items(w.folders) + seq![']'] + r4;
            let r2 = seq![':'] + r3;
            let r1 = render_string(key_folders()) + r2;
            assert(s =~= seq!['{'] + r1);
            lemma_sp_char_render('{', r1);
            lemma_sp_string_render(key_folders(), r2);
            lemma_sp_char_render(':', r3);
            lemma_sp_folders_value_render(w.folders, r4);
            lemma_skip_ws_id(r4);
            assert(r4.drop_first() =~= rest);
            assert(sp_workspace(s) matches Some(wr) && wr.0 =~= w && wr.1 == rest);
        },
        Some(ps) => {
            let r8 = seq!['}'] + rest;
            let r7 = seq!['{'] + render_setting_items(ps) + seq!['}'] + r8;
            let r6 = seq![':'] + r7;
            let r5 = render_string(key_settings()) + r6;
            let r4 = seq![','] + r5;
            let r3 = seq!['['] + render_folder_items(w.folders) + seq![']'] + r4;
            let r2 = seq![':'] + r3;
            let r1 = render_string(key_folders()) + r2;
            assert(s =~= seq!['{'] + r1);
            lemma_sp_char_render('{', r1);
            lemma_sp_string_render(key_folders(), r2);
            lemma_sp_char_render(':', r3);
            lemma_sp_folders_value_render(w.folders, r4);
            lemma_skip_ws_id(r4);
            assert(r4.drop_first() =~= r5);
            lemma_sp_string_render(key_settings(), r6);
            lemma_sp_char_render(':', r7);
            lemma_sp_settings_value_render(ps, r8);
            lemma_sp_char_render('}', rest);
            assert(sp_workspace(s) matches Some(wr) && wr.0 =~= w && wr.1 == rest);
        },
    }
}

/// Round trip: for any workspace document — any folder sequence, with or
/// without a settings map — rendering it to text and parsing that text back
/// yields the same document: the same folders in the same order, and the same
/// settings presence and content.
pub proof fn lemma_render_parse(w: WorkSpaceView)
    ensures
        parse_workspace_spec(render_workspace_view(w)) == Some(w),
{
    lemma_sp_workspace_render(w, Seq::empty());
    assert(render_workspace_view(w) + Seq::<char>::empty() =~= render_workspace_view(w));
    assert(skip_ws(Seq::<char>::empty()).len() == 0);
}

} // verus!
