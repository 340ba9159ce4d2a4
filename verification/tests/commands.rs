use change_workspace::{exec_add, exec_full, exec_only, exec_remove, FolderSetting, WorkSpace};

fn folder(path: &str, name: &str) -> FolderSetting {
    FolderSetting { path: path.to_string(), name: name.to_string() }
}

fn names(w: &WorkSpace) -> Vec<String> {
    w.folders.iter().map(|f| f.name.clone()).collect()
}

#[test]
fn test_only() {
    let base = WorkSpace {
        folders: vec![folder("/a", "work"), folder("/b", "work2")],
        settings: None,
    };
    let out = exec_only(&base, &"work".to_string()).expect("a match must produce a document");
    assert_eq!(out.folders.len(), 1);
    assert_eq!(out.folders[0].name, "work");
    assert_eq!(out.folders[0].path, "/a");
    assert!(out.settings.is_none());
}

#[test]
fn test_add() {
    let target = WorkSpace { folders: vec![folder("/t", "target")], settings: None };
    let base = WorkSpace { folders: vec![folder("/b", "target")], settings: None };
    let out = exec_add(&target, &base, &"target".to_string()).expect("result is non-empty");
    assert_eq!(names(&out), vec!["target", "target"]);
    assert_eq!(out.folders[0].path, "/t");
    assert_eq!(out.folders[1].path, "/b");
}

#[test]
fn test_remove() {
    let target = WorkSpace {
        folders: vec![folder("/1", "work1"), folder("/3", "work3")],
        settings: None,
    };
    let out = exec_remove(&target, &"work3".to_string()).expect("one folder remains");
    assert_eq!(names(&out), vec!["work1"]);
}

#[test]
fn test_full() {
    let base = WorkSpace {
        folders: vec![folder("/a", "work"), folder("/b", "work2")],
        settings: Some(vec![("x".to_string(), "1".to_string())]),
    };
    let out = exec_full(&base).expect("base is non-empty");
    assert_eq!(names(&out), vec!["work", "work2"]);
    assert_eq!(out.settings, Some(vec![("x".to_string(), "1".to_string())]));
}

#[test]
fn only_with_match_discards_prior_target() {
    let base = WorkSpace {
        folders: vec![folder("/a", "work"), folder("/b", "work2")],
        settings: Some(vec![("k".to_string(), "v".to_string())]),
    };
    let out = exec_only(&base, &"work".to_string()).unwrap();
    assert_eq!(out.folders.len(), 1);
    assert_eq!(out.folders[0].path, "/a");
    assert_eq!(out.folders[0].name, "work");
    assert!(out.settings.is_none());
}

#[test]
fn only_with_no_match_skips_write() {
    let base = WorkSpace {
        folders: vec![folder("/a", "work"), folder("/b", "work2")],
        settings: None,
    };
    assert!(exec_only(&base, &"nonexistent".to_string()).is_none());
}

#[test]
fn add_appends_without_dedup() {
    let target = WorkSpace {
        folders: vec![folder("/t", "target")],
        settings: Some(vec![("s".to_string(), "1".to_string())]),
    };
    let base = WorkSpace { folders: vec![folder("/base", "target")], settings: None };
    let out = exec_add(&target, &base, &"target".to_string()).unwrap();
    assert_eq!(names(&out), vec!["target", "target"]);
    assert_eq!(out.settings, Some(vec![("s".to_string(), "1".to_string())]));
}

#[test]
fn add_with_no_match_keeps_target_as_it_was() {
    let target = WorkSpace {
        folders: vec![folder("/t", "keep")],
        settings: Some(vec![("s".to_string(), "1".to_string())]),
    };
    let base = WorkSpace { folders: vec![folder("/b", "other")], settings: None };
    let out = exec_add(&target, &base, &"absent".to_string()).unwrap();
    assert_eq!(names(&out), vec!["keep"]);
    assert_eq!(out.folders[0].path, "/t");
    assert_eq!(out.settings, Some(vec![("s".to_string(), "1".to_string())]));
}

#[test]
fn add_with_no_match_and_empty_target_skips_write() {
    let target = WorkSpace { folders: vec![], settings: None };
    let base = WorkSpace { folders: vec![folder("/b", "other")], settings: None };
    assert!(exec_add(&target, &base, &"absent".to_string()).is_none());
}

#[test]
fn remove_removes_only_first_match() {
    let target = WorkSpace {
        folders: vec![folder("/first", "dup"), folder("/mid", "other"), folder("/second", "dup")],
        settings: None,
    };
    let out = exec_remove(&target, &"dup".to_string()).unwrap();
    assert_eq!(names(&out), vec!["other", "dup"]);
    assert_eq!(out.folders[1].path, "/second");
}

#[test]
fn remove_guarded_against_emptying() {
    let target = WorkSpace { folders: vec![folder("/only", "solo")], settings: None };
    assert!(exec_remove(&target, &"solo".to_string()).is_none());
}

#[test]
fn remove_with_no_match_keeps_target_as_it_was() {
    let target = WorkSpace { folders: vec![folder("/a", "keep")], settings: None };
    let out = exec_remove(&target, &"absent".to_string()).unwrap();
    assert_eq!(names(&out), vec!["keep"]);
}

#[test]
fn full_replaces_wholesale() {
    let base = WorkSpace {
        folders: vec![folder("/a", "a"), folder("/b", "b"), folder("/c", "c")],
        settings: Some(vec![("x".to_string(), "1".to_string())]),
    };
    let out = exec_full(&base).unwrap();
    assert_eq!(names(&out), vec!["a", "b", "c"]);
    assert_eq!(out.settings, Some(vec![("x".to_string(), "1".to_string())]));
}

#[test]
fn full_with_empty_base_is_a_no_op() {
    let base = WorkSpace { folders: vec![], settings: None };
    assert!(exec_full(&base).is_none());
}

#[test]
fn name_lookup_is_case_sensitive_and_first_match() {
    let base = WorkSpace {
        folders: vec![folder("/upper", "Work"), folder("/lower", "work")],
        settings: None,
    };
    let out = exec_only(&base, &"work".to_string()).unwrap();
    assert_eq!(out.folders[0].path, "/lower");
    let out2 = exec_only(&base, &"Work".to_string()).unwrap();
    assert_eq!(out2.folders[0].path, "/upper");
}

#[test]
fn lookup_takes_first_of_equal_names() {
    let base = WorkSpace {
        folders: vec![folder("/1", "dup"), folder("/2", "dup")],
        settings: None,
    };
    let out = exec_only(&base, &"dup".to_string()).unwrap();
    assert_eq!(out.folders.len(), 1);
    assert_eq!(out.folders[0].path, "/1");
}
