use change_workspace::{
    parse_config_str, parse_workspace_str, render_workspace_string, select_request,
    settings_file_path, FolderSetting, Request, WorkSpace, WsError,
};

fn folder(path: &str, name: &str) -> FolderSetting {
    FolderSetting { path: path.to_string(), name: name.to_string() }
}

fn same_doc(a: &WorkSpace, b: &WorkSpace) {
    assert_eq!(a.folders.len(), b.folders.len());
    for (fa, fb) in a.folders.iter().zip(b.folders.iter()) {
        assert_eq!(fa.path, fb.path);
        assert_eq!(fa.name, fb.name);
    }
    assert_eq!(a.settings, b.settings);
}

#[test]
fn render_produces_canonical_text() {
    let w = WorkSpace {
        folders: vec![folder("/a", "work"), folder("/b", "work2")],
        settings: Some(vec![("x".to_string(), "1".to_string())]),
    };
    assert_eq!(
        render_workspace_string(&w),
        "{\"folders\":[{\"path\":\"/a\",\"name\":\"work\"},{\"path\":\"/b\",\"name\":\"work2\"}],\"settings\":{\"x\":\"1\"}}"
    );
    let plain = WorkSpace { folders: vec![folder("/a", "work")], settings: None };
    assert_eq!(
        render_workspace_string(&plain),
        "{\"folders\":[{\"path\":\"/a\",\"name\":\"work\"}]}"
    );
    let empty = WorkSpace { folders: vec![], settings: None };
    assert_eq!(render_workspace_string(&empty), "{\"folders\":[]}");
}

#[test]
fn round_trip_plain_document() {
    let w = WorkSpace {
        folders: vec![folder("/a", "work"), folder("/b", "work2")],
        settings: None,
    };
    let back = parse_workspace_str(&render_workspace_string(&w)).unwrap();
    same_doc(&w, &back);
}

#[test]
fn round_trip_with_settings() {
    let w = WorkSpace {
        folders: vec![folder("/a", "work")],
        settings: Some(vec![
            ("alpha".to_string(), "1".to_string()),
            ("beta".to_string(), "two".to_string()),
        ]),
    };
    let back = parse_workspace_str(&render_workspace_string(&w)).unwrap();
    same_doc(&w, &back);
}

#[test]
fn round_trip_empty_folders_and_empty_settings() {
    let w = WorkSpace { folders: vec![], settings: Some(vec![]) };
    let back = parse_workspace_str(&render_workspace_string(&w)).unwrap();
    same_doc(&w, &back);
}

#[test]
fn round_trip_with_escaped_characters() {
    let w = WorkSpace {
        folders: vec![folder("C:\\work\\proj", "a \"quoted\" name"), folder("/tab\there", "n\newline")],
        settings: Some(vec![("key \\ slash".to_string(), "v\r\n".to_string())]),
    };
    let text = render_workspace_string(&w);
    let back = parse_workspace_str(&text).unwrap();
    same_doc(&w, &back);
}

#[test]
fn parse_accepts_whitespace_and_either_member_order() {
    let text = " {\n  \"settings\" : { \"x\" : \"1\" } ,\n  \"folders\" : [\n    { \"name\" : \"work\" , \"path\" : \"/a\" }\n  ]\n}\n";
    let w = parse_workspace_str(text).unwrap();
    assert_eq!(w.folders.len(), 1);
    assert_eq!(w.folders[0].path, "/a");
    assert_eq!(w.folders[0].name, "work");
    assert_eq!(w.settings, Some(vec![("x".to_string(), "1".to_string())]));
}

#[test]
fn parse_accepts_simple_escapes() {
    let text = "{\"folders\":[{\"path\":\"\\/a\\\\b\",\"name\":\"w\\\"q\\b\\f\"}]}";
    let w = parse_workspace_str(text).unwrap();
    assert_eq!(w.folders[0].path, "/a\\b");
    assert_eq!(w.folders[0].name, "w\"q\u{8}\u{c}");
}

#[test]
fn parse_rejects_malformed_documents() {
    let cases = [
        "",
        "{}",
        "{\"folders\":}",
        "{\"folders\":[}",
        "{\"folders\":[]",
        "{\"folders\":[],}",
        "{\"folders\":[{\"path\":\"/a\"}]}",
        "{\"folders\":[{\"path\":\"/a\",\"name\":\"x\",\"extra\":\"y\"}]}",
        "{\"folders\":[{\"path\":\"/a\",\"name\":\"x\"}],\"unknown\":{}}",
        "{\"folders\":[],\"settings\":{\"a\":1}}",
        "{\"folders\":[],\"settings\":{}} trailing",
        "{\"folders\":[],\"folders\":[]}",
        "{\"settings\":{}}",
        "{\"folders\":[{\"path\":\"bad\\escape\",\"name\":\"x\"}]}",
        "{\"folders\":[{\"path\":\"unterminated,\"name\":\"x\"}]}",
    ];
    for text in cases {
        let r = parse_workspace_str(text);
        assert!(matches!(r, Err(WsError::MalformedData)), "case: {}", text);
    }
}

#[test]
fn config_parses_both_member_orders() {
    let c = parse_config_str("{\"base\":\"/b.json\",\"target\":\"/t.json\"}").unwrap();
    assert_eq!(c.base, "/b.json");
    assert_eq!(c.target, "/t.json");
    let c2 = parse_config_str(" { \"target\" : \"/t\" , \"base\" : \"/b\" } ").unwrap();
    assert_eq!(c2.base, "/b");
    assert_eq!(c2.target, "/t");
}

#[test]
fn config_rejects_malformed_documents() {
    let cases = [
        "",
        "{}",
        "{\"base\":\"/b\"}",
        "{\"base\":\"/b\",\"target\":\"/t\",\"extra\":\"x\"}",
        "{\"base\":\"/b\",\"base\":\"/t\"}",
        "{\"base\":\"/b\",\"target\":\"/t\"} x",
    ];
    for text in cases {
        assert!(parse_config_str(text).is_err(), "case: {}", text);
    }
}

#[test]
fn settings_file_path_appends_fixed_location() {
    assert_eq!(
        settings_file_path("/home/user/.config".to_string()),
        "/home/user/.config/change-workspace/config.json"
    );
}

#[test]
fn select_request_takes_first_set_option_in_order() {
    match select_request("o".to_string(), "a".to_string(), "r".to_string(), true) {
        Some(Request::Only(n)) => assert_eq!(n, "o"),
        _ => panic!("expected the only request"),
    }
    match select_request("".to_string(), "a".to_string(), "r".to_string(), true) {
        Some(Request::Add(n)) => assert_eq!(n, "a"),
        _ => panic!("expected the add request"),
    }
    match select_request("".to_string(), "".to_string(), "r".to_string(), true) {
        Some(Request::Remove(n)) => assert_eq!(n, "r"),
        _ => panic!("expected the remove request"),
    }
    match select_request("".to_string(), "".to_string(), "".to_string(), true) {
        Some(Request::Full) => {},
        _ => panic!("expected the full request"),
    }
    assert!(select_request("".to_string(), "".to_string(), "".to_string(), false).is_none());
}
