//! The workspace document model: folder entries, the document itself, and the
//! four operations (`only`, `add`, `remove`, `full`) that transform a target
//! document, each stated as a pure function from documents to the document to
//! be written (or `None` when the write is to be skipped).

use vstd::prelude::*;

verus! {

/// The one failure the document model itself can report: a text that does
/// not denote a workspace or configuration document.
#[derive(Clone, Copy, PartialEq, Eq, Structural, Debug)]
pub enum WsError {
    MalformedData,
}

/// One workspace root folder entry: a filesystem path and a display name.
/// The name is the lookup key used by every operation; names are not required
/// to be unique, and every lookup takes the first match in order.
pub struct FolderSetting {
    pub path: String,
    pub name: String,
}

/// Mathematical view of a folder entry: both fields as character sequences.
#[verifier::ext_equal]
pub struct FolderView {
    pub path: Seq<char>,
    pub name: Seq<char>,
}

impl View for FolderSetting {
    type V = FolderView;

    open spec fn view(&self) -> FolderView {
        FolderView { path: self.path@, name: self.name@ }
    }
}

impl Clone for FolderSetting {
    fn clone(&self) -> (r: Self)
        ensures
            r@ == self@,
    {
        FolderSetting { path: self.path.clone(), name: self.name.clone() }
    }
}

/// A workspace document: an ordered folder list (order is significant) and an
/// optional free-form settings map, held as a key/value list in file order.
/// The settings are never read or interpreted, only carried through.
pub struct WorkSpace {
    pub folders: Vec<FolderSetting>,
    pub settings: Option<Vec<(String, String)>>,
}

/// Mathematical view of a workspace document.
#[verifier::ext_equal]
pub struct WorkSpaceView {
    pub folders: Seq<FolderView>,
    pub settings: Option<Seq<(Seq<char>, Seq<char>)>>,
}

impl View for WorkSpace {
    type V = WorkSpaceView;

    open spec fn view(&self) -> WorkSpaceView {
        WorkSpaceView {
            folders: self.folders@.map_values(|f: FolderSetting| f@),
            settings: match self.settings {
                Some(ref s) => Some(s@.map_values(|p: (String, String)| (p.0@, p.1@))),
                None => None,
            },
        }
    }
}

impl WorkSpace {
    /// An empty document: no folders, settings absent. The accumulator that
    /// `only` starts from.
    pub fn new() -> (r: Self)
        ensures
            r@.folders == Seq::<FolderView>::empty(),
            r@.settings is None,
    {
        let r = WorkSpace { folders: Vec::new(), settings: None };
        proof {
            assert(r@.folders =~= Seq::<FolderView>::empty());
        }
        r
    }
}

/// The index of the first folder in `fs` whose name is exactly `name`
/// (case-sensitive), or `None` when no folder matches.
pub open spec fn find_first(fs: Seq<FolderView>, name: Seq<char>) -> Option<int>
    decreases fs.len(),
{
    if fs.len() == 0 {
        None
    } else if fs[0].name == name {
        Some(0int)
    } else {
        match find_first(fs.drop_first(), name) {
            None => None,
            Some(i) => Some(i + 1),
        }
    }
}

/// `find_first` returns an in-range index of a folder carrying `name`,
/// and every earlier folder carries another name; `None` means no folder
/// carries `name` at all.
pub proof fn lemma_find_first(fs: Seq<FolderView>, name: Seq<char>)
    ensures
        match find_first(fs, name) {
            Some(i) => 0 <= i < fs.len() && fs[i].name == name && (forall|j: int|
                0 <= j < i ==> fs[j].name != name),
            None => forall|j: int| 0 <= j < fs.len() ==> fs[j].name != name,
        },
    decreases fs.len(),
{
    if fs.len() > 0 && fs[0].name != name {
        lemma_find_first(fs.drop_first(), name);
        assert forall|j: int| 0 <= j < fs.len() && fs[j].name != name implies true by {}
        match find_first(fs.drop_first(), name) {
            None => {
                assert forall|j: int| 0 <= j < fs.len() implies fs[j].name != name by {
                    if j > 0 {
                        assert(fs.drop_first()[j - 1] == fs[j]);
                    }
                }
            },
            Some(i) => {
                assert(fs.drop_first()[i] == fs[i + 1]);
                assert forall|j: int| 0 <= j < i + 1 implies fs[j].name != name by {
                    if j > 0 {
                        assert(fs.drop_first()[j - 1] == fs[j]);
                    }
                }
            },
        }
    }
}

/// A name that no base folder carries finds no match, so `add` with such a
/// name yields the target's own folder list and settings unchanged, and
/// `only` with such a name yields no document at all.
pub proof fn lemma_no_match_changes_nothing(base_folders: Seq<FolderView>, name: Seq<char>)
    requires
        forall|j: int| 0 <= j < base_folders.len() ==> base_folders[j].name != name,
    ensures
        find_first(base_folders, name) is None,
{
    lemma_find_first(base_folders, name);
}

/// Removing the only folder of a one-folder target would leave it with no
/// folders at all — which is why the write is then skipped and the on-disk
/// target left unchanged.
pub proof fn lemma_remove_would_empty(target_folders: Seq<FolderView>, name: Seq<char>)
    requires
        target_folders.len() == 1,
        target_folders[0].name == name,
    ensures
        find_first(target_folders, name) == Some(0int),
        target_folders.remove(0).len() == 0,
{
}

/// Linear scan for the first folder named `name`; returns its index.
fn find_index(folders: &Vec<FolderSetting>, name: &String) -> (r: Option<usize>)
    ensures
        match r {
            Some(i) => find_first(folders@.map_values(|f: FolderSetting| f@), name@)
                == Some(i as int) && i < folders@.len(),
            None => find_first(folders@.map_values(|f: FolderSetting| f@), name@) is None,
        },
{
    let ghost fsv = folders@.map_values(|f: FolderSetting| f@);
    let mut i: usize = 0;
    while i < folders.len()
        invariant
            0 <= i <= folders@.len(),
            fsv == folders@.map_values(|f: FolderSetting| f@),
            forall|j: int| 0 <= j < i ==> fsv[j].name != name@,
        decreases folders@.len() - i,
    {
        if folders[i].name.eq(name) {
            proof {
                lemma_find_first(fsv, name@);
                assert(fsv[i as int].name == name@);
            }
            return Some(i);
        }
        i += 1;
    }
    proof {
        lemma_find_first(fsv, name@);
    }
    None
}

/// `only`: narrow the target to exactly the first base folder named `name`.
/// Returns the document to write, or `None` when no folder matches and the
/// target file is to be left untouched. The produced document never carries
/// settings: `only` starts from a fresh empty accumulator.
pub fn exec_only(base: &WorkSpace, name: &String) -> (r: Option<WorkSpace>)
    ensures
        r matches Some(w) ==> w@.folders.len() > 0,
        match find_first(base@.folders, name@) {
            Some(i) => r matches Some(w) && w@.folders == seq![base@.folders[i]]
                && w@.settings is None,
            None => r is None,
        },
{
    let mut workspace = WorkSpace::new();
    match find_index(&base.folders, name) {
        Some(i) => {
            workspace.folders.push(base.folders[i].clone());
            proof {
                assert(workspace@.folders =~= seq![base@.folders[find_first(base@.folders, name@)->Some_0]]);
            }
            Some(workspace)
        },
        None => None,
    }
}

/// `add`: append the first base folder named `name` to the target in place
/// (no deduplication; a name already present gains a second copy). Returns
/// the document to write — the target as loaded, with at most one folder
/// appended — or `None` when the result would have no folders.
pub fn exec_add(target: &WorkSpace, base: &WorkSpace, name: &String) -> (r: Option<WorkSpace>)
    ensures
        r matches Some(w) ==> w@.folders.len() > 0,
        ({
            let appended = match find_first(base@.folders, name@) {
                Some(i) => target@.folders.push(base@.folders[i]),
                None => target@.folders,
            };
            if appended.len() > 0 {
                r matches Some(w) && w@.folders == appended && w@.settings == target@.settings
            } else {
                r is None
            }
        }),
{
    let mut folders: Vec<FolderSetting> = clone_folders(&target.folders);
    match find_index(&base.folders, name) {
        Some(i) => {
            folders.push(base.folders[i].clone());
        },
        None => {},
    }
    proof {
        assert(folders@.map_values(|f: FolderSetting| f@) =~= match find_first(
            base@.folders,
            name@,
        ) {
            Some(i) => target@.folders.push(base@.folders[i]),
            None => target@.folders,
        });
    }
    if folders.len() > 0 {
        Some(WorkSpace { folders, settings: clone_settings(&target.settings) })
    } else {
        None
    }
}

/// `remove`: delete the first target folder named `name`. Returns the document
/// to write — the target with that one entry removed, or unchanged when no
/// folder matches — or `None` when the result would have no folders, the
/// deliberate guard against ever persisting an empty workspace.
pub fn exec_remove(target: &WorkSpace, name: &String) -> (r: Option<WorkSpace>)
    ensures
        r matches Some(w) ==> w@.folders.len() > 0,
        ({
            let remaining = match find_first(target@.folders, name@) {
                Some(i) => target@.folders.remove(i),
                None => target@.folders,
            };
            if remaining.len() > 0 {
                r matches Some(w) && w@.folders == remaining && w@.settings == target@.settings
            } else {
                r is None
            }
        }),
{
    let mut folders: Vec<FolderSetting> = clone_folders(&target.folders);
    match find_index(&target.folders, name) {
        Some(i) => {
            folders.remove(i);
        },
        None => {},
    }
    proof {
        assert(folders@.map_values(|f: FolderSetting| f@) =~= match find_first(
            target@.folders,
            name@,
        ) {
            Some(i) => target@.folders.remove(i),
            None => target@.folders,
        });
    }
    if folders.len() > 0 {
        Some(WorkSpace { folders, settings: clone_settings(&target.settings) })
    } else {
        None
    }
}

/// `full`: reset the target to the entire base document, folders and settings
/// both. Returns the base document to write, or `None` when the base has no
/// folders and the target file is to be left unchanged.
pub fn exec_full(base: &WorkSpace) -> (r: Option<WorkSpace>)
    ensures
        r matches Some(w) ==> w@.folders.len() > 0,
        if base@.folders.len() > 0 {
            r matches Some(w) && w@ == base@
        } else {
            r is None
        },
{
    if base.folders.len() > 0 {
        let w = WorkSpace {
            folders: clone_folders(&base.folders),
            settings: clone_settings(&base.settings),
        };
        proof {
            assert(w@.folders =~= base@.folders);
            match base.settings {
                Some(ref s) => {
                    assert(w@.settings->Some_0 =~= base@.settings->Some_0);
                },
                None => {},
            }
        }
        Some(w)
    } else {
        None
    }
}

/// Element-wise copy of a folder list, preserving order.
fn clone_folders(folders: &Vec<FolderSetting>) -> (r: Vec<FolderSetting>)
    ensures
        r@.map_values(|f: FolderSetting| f@) == folders@.map_values(|f: FolderSetting| f@),
{
    let mut r: Vec<FolderSetting> = Vec::new();
    let mut i: usize = 0;
    while i < folders.len()
        invariant
            0 <= i <= folders@.len(),
            r@.len() == i,
            forall|j: int| 0 <= j < i ==> r@[j]@ == folders@[j]@,
        decreases folders@.len() - i,
    {
        r.push(folders[i].clone());
        i += 1;
    }
    proof {
        assert(r@.map_values(|f: FolderSetting| f@) =~= folders@.map_values(
            |f: FolderSetting| f@,
        ));
    }
    r
}

/// Element-wise copy of an optional settings list, preserving order.
fn clone_settings(settings: &Option<Vec<(String, String)>>) -> (r: Option<Vec<(String, String)>>)
    ensures
        ({
            let sv = match settings {
                Some(s) => Some(s@.map_values(|p: (String, String)| (p.0@, p.1@))),
                None => None,
            };
            let rv = match r {
                Some(s) => Some(s@.map_values(|p: (String, String)| (p.0@, p.1@))),
                None => None,
            };
            rv == sv
        }),
{
    match settings {
        Some(s) => {
            let mut out: Vec<(String, String)> = Vec::new();
            let mut i: usize = 0;
            while i < s.len()
                invariant
                    0 <= i <= s@.len(),
                    out@.len() == i,
                    forall|j: int| 0 <= j < i ==> (out@[j].0@, out@[j].1@) == (s@[j].0@, s@[j].1@),
                decreases s@.len() - i,
            {
                let pair = (s[i].0.clone(), s[i].1.clone());
                out.push(pair);
                i += 1;
            }
            proof {
                assert(out@.map_values(|p: (String, String)| (p.0@, p.1@)) =~= s@.map_values(
                    |p: (String, String)| (p.0@, p.1@),
                ));
            }
            Some(out)
        },
        None => None,
    }
}

} // verus!
