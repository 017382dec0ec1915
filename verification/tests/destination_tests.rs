use neorg_ls::norg::{LinkDestination, LinkScope, LinkWorkspace, NorgFile};

fn scoped(file: Option<NorgFile>, scope: Vec<LinkScope>) -> LinkDestination {
    LinkDestination::Scoped { file, scope }
}

#[test]
fn serialize_roots() {
    assert_eq!(LinkWorkspace::Current.to_string(), "$/");
    assert_eq!(LinkWorkspace::Workspace(String::from("notes")).to_string(), "$notes/");
}

#[test]
fn serialize_file_refs() {
    let f = NorgFile { root: Some(LinkWorkspace::Current), path: String::from("a/b") };
    assert_eq!(f.to_string(), "$/a/b");
    let g = NorgFile { root: None, path: String::from("c") };
    assert_eq!(g.to_string(), "c");
    let h = NorgFile { root: Some(LinkWorkspace::Workspace(String::from("w"))), path: String::from("p") };
    assert_eq!(h.to_string(), "$w/p");
}

#[test]
fn serialize_scopes() {
    assert_eq!(LinkScope::Heading(3, String::from("Title")).to_string(), "*** Title");
    assert_eq!(LinkScope::WikiHeading(String::from("Word")).to_string(), "? Word");
}

#[test]
fn serialize_destinations() {
    assert_eq!(LinkDestination::Uri(String::from("https://x/y")).to_string(), "https://x/y");
    let d = scoped(
        Some(NorgFile { root: Some(LinkWorkspace::Current), path: String::from("p") }),
        vec![
            LinkScope::Heading(1, String::from("A")),
            LinkScope::WikiHeading(String::from("B")),
        ],
    );
    assert_eq!(d.to_string(), "$/p : * A : ? B");
    let e = scoped(None, vec![LinkScope::Heading(2, String::from("X"))]);
    assert_eq!(e.to_string(), "** X");
}

#[test]
fn parse_uri_destination() {
    let d = LinkDestination::parse_text("https://old/x").unwrap();
    assert_eq!(d, LinkDestination::Uri(String::from("https://old/x")));
}

#[test]
fn parse_scoped_file_destination() {
    let d = LinkDestination::parse_text(":b:").unwrap();
    assert_eq!(d, scoped(Some(NorgFile { root: None, path: String::from("b") }), vec![]));
    let d2 = LinkDestination::parse_text(":b:* Sec : ? W").unwrap();
    assert_eq!(
        d2,
        scoped(
            Some(NorgFile { root: None, path: String::from("b") }),
            vec![
                LinkScope::Heading(1, String::from("Sec")),
                LinkScope::WikiHeading(String::from("W")),
            ],
        ),
    );
}

#[test]
fn parse_rooted_destinations() {
    let d = LinkDestination::parse_text("$/c").unwrap();
    assert_eq!(
        d,
        scoped(Some(NorgFile { root: Some(LinkWorkspace::Current), path: String::from("c") }), vec![]),
    );
    let d2 = LinkDestination::parse_text("$w/p/q").unwrap();
    assert_eq!(
        d2,
        scoped(
            Some(NorgFile { root: Some(LinkWorkspace::Workspace(String::from("w"))), path: String::from("p/q") }),
            vec![],
        ),
    );
}

#[test]
fn parse_pure_scope_destination() {
    let d = LinkDestination::parse_text("** Deep : ? There").unwrap();
    assert_eq!(
        d,
        scoped(
            None,
            vec![
                LinkScope::Heading(2, String::from("Deep")),
                LinkScope::WikiHeading(String::from("There")),
            ],
        ),
    );
}

#[test]
fn parse_invalid_destinations() {
    assert!(LinkDestination::parse_text("").is_none());
    // a lone star is no scope entry, and no file either
    assert!(LinkDestination::parse_text("*").is_none());
    // a malformed scope segment poisons the whole destination
    assert!(LinkDestination::parse_text(":b:bad").is_none());
    // an unterminated file part
    assert!(LinkDestination::parse_text(":b").is_none());
}

#[test]
fn round_trip_uri() {
    let v = LinkDestination::Uri(String::from("https://old/"));
    let s = v.to_string();
    assert_eq!(LinkDestination::parse_text(&s).unwrap(), v);
}

#[test]
fn round_trip_current_root() {
    let v = scoped(
        Some(NorgFile { root: Some(LinkWorkspace::Current), path: String::from("dir/note") }),
        vec![],
    );
    let s = v.to_string();
    assert_eq!(s, "$/dir/note");
    assert_eq!(LinkDestination::parse_text(&s).unwrap(), v);
}

#[test]
fn round_trip_workspace_root() {
    let v = scoped(
        Some(NorgFile { root: Some(LinkWorkspace::Workspace(String::from("notes"))), path: String::from("a/b") }),
        vec![],
    );
    let s = v.to_string();
    assert_eq!(s, "$notes/a/b");
    assert_eq!(LinkDestination::parse_text(&s).unwrap(), v);
}
