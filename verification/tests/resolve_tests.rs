use neorg_ls::document::Document;
use neorg_ls::neorg::{definition, follow_link_target, list_references, references, Location, ResolveError};
use neorg_ls::norg::{LinkDestination, LinkScope, LinkWorkspace, NorgFile};
use neorg_ls::range::{Position, Range};
use neorg_ls::session::Session;
use neorg_ls::workspace::Workspace;

fn ws_session() -> Session {
    Session::with_workspace(Some(Workspace {
        name: String::from("ws"),
        path: String::from("file:///ws/"),
    }))
}

fn zero() -> Range {
    Range::new(Position::new(0, 0), Position::new(0, 0))
}

#[test]
fn relative_link_resolves_to_sibling() {
    let mut session = ws_session();
    let uri = String::from("file:///ws/a.norg");
    session.insert_document(uri.clone(), Document::new("{:b:}")).unwrap();
    let locs = definition(&session, &uri, Position::new(0, 2)).unwrap();
    assert_eq!(locs.len(), 1);
    assert_eq!(locs[0].uri, "file:///ws/b.norg");
    assert_eq!(locs[0].range, zero());
}

#[test]
fn current_workspace_link_resolves_to_root() {
    let mut session = ws_session();
    let uri = String::from("file:///ws/sub/a.norg");
    session.insert_document(uri.clone(), Document::new("{$/c:}")).unwrap();
    let locs = definition(&session, &uri, Position::new(0, 2)).unwrap();
    assert_eq!(locs.len(), 1);
    // the workspace root wins over the origin's own directory
    assert_eq!(locs[0].uri, "file:///ws/c.norg");
    assert_eq!(locs[0].range, zero());
}

#[test]
fn anchor_reference_resolves_to_first_definition() {
    let mut session = ws_session();
    let uri = String::from("file:///ws/a.norg");
    session
        .insert_document(uri.clone(), Document::new("[foo]{:x:}\n[foo]{:y:}\nsee [foo]"))
        .unwrap();
    let locs = definition(&session, &uri, Position::new(2, 5)).unwrap();
    assert_eq!(locs.len(), 1);
    assert_eq!(locs[0].uri, uri);
    // the first definition in document order wins
    assert_eq!(
        locs[0].range,
        Range::new(Position::new(0, 0), Position::new(0, 10)),
    );
}

#[test]
fn definition_from_anchor_definition_follows_its_target() {
    let mut session = ws_session();
    let uri = String::from("file:///ws/a.norg");
    session.insert_document(uri.clone(), Document::new("[label]{:x:}")).unwrap();
    let locs = definition(&session, &uri, Position::new(0, 1)).unwrap();
    assert_eq!(locs.len(), 1);
    assert_eq!(locs[0].uri, "file:///ws/x.norg");
}

#[test]
fn definition_on_unknown_document_is_absent() {
    let session = ws_session();
    assert!(definition(&session, &String::from("file:///nope.norg"), Position::new(0, 0)).is_none());
}

#[test]
fn follow_normalizes_external_uris() {
    let session = ws_session();
    let origin = String::from("file:///ws/a.norg");
    let loc = follow_link_target(
        &session,
        &origin,
        &LinkDestination::Uri(String::from("https://old")),
    )
    .unwrap();
    // the URL crate's canonical serialization, not the raw text
    assert_eq!(loc.uri, "https://old/");
}

#[test]
fn follow_error_variants() {
    let session = ws_session();
    let origin = String::from("file:///ws/a.norg");
    assert_eq!(
        follow_link_target(&session, &origin, &LinkDestination::Uri(String::from("::"))),
        Err(ResolveError::NotFound),
    );
    let named = LinkDestination::Scoped {
        file: Some(NorgFile {
            root: Some(LinkWorkspace::Workspace(String::from("other"))),
            path: String::from("x"),
        }),
        scope: vec![],
    };
    assert_eq!(follow_link_target(&session, &origin, &named), Err(ResolveError::Unsupported));
    let pure_scope = LinkDestination::Scoped {
        file: None,
        scope: vec![LinkScope::Heading(1, String::from("A"))],
    };
    assert_eq!(follow_link_target(&session, &origin, &pure_scope), Err(ResolveError::Unsupported));
    let no_ws = Session::with_workspace(None);
    let current = LinkDestination::Scoped {
        file: Some(NorgFile { root: Some(LinkWorkspace::Current), path: String::from("c") }),
        scope: vec![],
    };
    assert_eq!(follow_link_target(&no_ws, &origin, &current), Err(ResolveError::NotFound));
}

#[test]
fn follow_keeps_existing_extension() {
    let session = ws_session();
    let origin = String::from("file:///ws/a.norg");
    let dest = LinkDestination::Scoped {
        file: Some(NorgFile { root: None, path: String::from("b.norg") }),
        scope: vec![],
    };
    let loc = follow_link_target(&session, &origin, &dest).unwrap();
    assert_eq!(loc.uri, "file:///ws/b.norg");
}

#[test]
fn resolution_is_deterministic() {
    let session = ws_session();
    let origin = String::from("file:///ws/a.norg");
    let dest = LinkDestination::Uri(String::from("https://same/x"));
    let first = follow_link_target(&session, &origin, &dest);
    let second = follow_link_target(&session, &origin, &dest);
    assert_eq!(first, second);
}

#[test]
fn references_find_links_across_corpus() {
    let mut session = ws_session();
    let a = String::from("file:///ws/a.norg");
    let b = String::from("file:///ws/b.norg");
    session.insert_document(a.clone(), Document::new("{:target:}")).unwrap();
    let corpus = vec![
        (a.clone(), Document::new("{:target:}")),
        (b.clone(), Document::new("also {:target:} here")),
    ];
    let refs = references(&session, &corpus, &a, Position::new(0, 1)).unwrap();
    assert_eq!(refs.len(), 2);
    assert_eq!(refs[0].uri, a);
    assert_eq!(refs[0].range, Range::new(Position::new(0, 0), Position::new(0, 10)));
    assert_eq!(refs[1].uri, b);
    assert_eq!(refs[1].range, Range::new(Position::new(0, 5), Position::new(0, 15)));
}

#[test]
fn list_references_prefers_open_copies() {
    let mut session = ws_session();
    let a = String::from("file:///ws/a.norg");
    // the open copy has the link; the disk copy does not
    session.insert_document(a.clone(), Document::new("{:t:}")).unwrap();
    let corpus = vec![(a.clone(), Document::new("stale text"))];
    let target = Location {
        uri: String::from("file:///ws/t.norg"),
        range: zero(),
    };
    let refs = list_references(&session, &corpus, &target);
    assert_eq!(refs.len(), 1);
    assert_eq!(refs[0].uri, a);
}

#[test]
fn reference_list_contains_the_resolving_link() {
    let session = ws_session();
    let uri = String::from("file:///ws/a.norg");
    let doc = Document::new("intro {:b:} outro");
    let link_range = doc.links[0].range.to_range();
    let target = follow_link_target(&session, &uri, &doc.links[0].target).unwrap();
    let corpus = vec![(uri.clone(), doc)];
    let refs = list_references(&session, &corpus, &target);
    assert!(refs.contains(&Location { uri: uri.clone(), range: link_range }));
}

#[test]
fn references_from_section_scan_the_workspace() {
    let mut session = ws_session();
    let a = String::from("file:///ws/a.norg");
    session.insert_document(a.clone(), Document::new("* Top")).unwrap();
    let refs = references(&session, &vec![], &a, Position::new(0, 2)).unwrap();
    assert_eq!(refs.len(), 0);
}

#[test]
fn references_unsupported_without_workspace() {
    let mut session = Session::with_workspace(None);
    let a = String::from("file:///ws/a.norg");
    session.insert_document(a.clone(), Document::new("{:b:}")).unwrap();
    assert!(references(&session, &vec![], &a, Position::new(0, 1)).is_none());
}

#[test]
fn definition_unsupported_without_workspace() {
    let mut session = Session::with_workspace(None);
    let a = String::from("file:///ws/a.norg");
    session.insert_document(a.clone(), Document::new("{:b:}")).unwrap();
    assert!(definition(&session, &a, Position::new(0, 1)).is_none());
}
