use neorg_ls::document::Document;
use neorg_ls::norg::{LinkDestination, Linkable, LinkWorkspace, NorgFile, NorgError};
use neorg_ls::range::{NodeRange, Position, Range};
use neorg_ls::session::{ChangeEvent, Session, SessionError};
use neorg_ls::syntax::{FieldTag, NodeKind, SyntaxNode};

#[test]
fn edits_match_naive_splice() {
    let mut session = Session::with_workspace(None);
    let uri = String::from("file:///d.norg");
    session.insert_document(uri.clone(), Document::new("hello\nworld")).unwrap();
    let changes = vec![
        ChangeEvent {
            range: Some(Range::new(Position::new(0, 0), Position::new(0, 5))),
            text: String::from("bye"),
        },
        ChangeEvent {
            range: Some(Range::new(Position::new(1, 0), Position::new(1, 5))),
            text: String::from("moon"),
        },
    ];
    session.update_document(&uri, changes).unwrap();
    let doc = session.get_document(&uri).unwrap();
    assert_eq!(doc.text.to_string(), "bye\nmoon");
}

#[test]
fn sequential_edits_each_apply_to_the_previous_result() {
    let mut session = Session::with_workspace(None);
    let uri = String::from("file:///d.norg");
    session.insert_document(uri.clone(), Document::new("abc")).unwrap();
    let changes = vec![
        ChangeEvent {
            range: Some(Range::new(Position::new(0, 0), Position::new(0, 1))),
            text: String::from("xx"),
        },
        // this range is valid only against the text the first edit left
        ChangeEvent {
            range: Some(Range::new(Position::new(0, 2), Position::new(0, 4))),
            text: String::from(""),
        },
    ];
    session.update_document(&uri, changes).unwrap();
    assert_eq!(session.get_document(&uri).unwrap().text.to_string(), "xx");
}

#[test]
fn reparse_equals_parse_from_scratch() {
    let mut session = Session::with_workspace(None);
    let uri = String::from("file:///d.norg");
    session.insert_document(uri.clone(), Document::new("nothing here")).unwrap();
    let changes = vec![ChangeEvent {
        range: Some(Range::new(Position::new(0, 0), Position::new(0, 12))),
        text: String::from("{:b:} and [a]{:c:}"),
    }];
    session.update_document(&uri, changes).unwrap();
    let edited = session.get_document(&uri).unwrap();
    let fresh = Document::new("{:b:} and [a]{:c:}");
    assert_eq!(edited.links, fresh.links);
    assert_eq!(edited.links.len(), 2);
}

#[test]
fn out_of_bounds_edit_is_a_typed_error() {
    let mut session = Session::with_workspace(None);
    let uri = String::from("file:///d.norg");
    session.insert_document(uri.clone(), Document::new("ab")).unwrap();
    // a row past the text cannot be converted and the edit is refused
    let changes = vec![ChangeEvent {
        range: Some(Range::new(Position::new(5, 0), Position::new(5, 1))),
        text: String::from("x"),
    }];
    assert_eq!(session.update_document(&uri, changes), Err(SessionError::InvalidEdit));
}

#[test]
fn wire_columns_past_the_line_end_clamp() {
    let mut session = Session::with_workspace(None);
    let uri = String::from("file:///d.norg");
    session.insert_document(uri.clone(), Document::new("ab")).unwrap();
    let changes = vec![ChangeEvent {
        range: Some(Range::new(Position::new(0, 0), Position::new(0, 9))),
        text: String::from("x"),
    }];
    session.update_document(&uri, changes).unwrap();
    assert_eq!(session.get_document(&uri).unwrap().text.to_string(), "x");
}

#[test]
fn update_of_unknown_document_is_a_typed_error() {
    let mut session = Session::with_workspace(None);
    assert_eq!(
        session.update_document(&String::from("file:///nope"), vec![]),
        Err(SessionError::DocumentNotFound),
    );
}

#[test]
fn rangeless_change_replaces_the_whole_text() {
    let mut session = Session::with_workspace(None);
    let uri = String::from("file:///d.norg");
    session.insert_document(uri.clone(), Document::new("old {:a:} text")).unwrap();
    let changes = vec![ChangeEvent { range: None, text: String::from("{:b:}") }];
    session.update_document(&uri, changes).unwrap();
    let doc = session.get_document(&uri).unwrap();
    assert_eq!(doc.text.to_string(), "{:b:}");
    assert_eq!(doc.links.len(), 1);
}

#[test]
fn wire_columns_count_utf16_units() {
    // '\u{1D11E}' takes two UTF-16 code units but is one character
    let mut session = Session::with_workspace(None);
    let uri = String::from("file:///d.norg");
    session.insert_document(uri.clone(), Document::new("a\u{1D11E}b")).unwrap();
    let changes = vec![ChangeEvent {
        range: Some(Range::new(Position::new(0, 3), Position::new(0, 4))),
        text: String::from("c"),
    }];
    session.update_document(&uri, changes).unwrap();
    assert_eq!(session.get_document(&uri).unwrap().text.to_string(), "a\u{1D11E}c");
}

#[test]
fn position_conversion_between_wire_and_document() {
    let doc = Document::new("a\u{1D11E}b\nxy");
    // wire column 3 is past the surrogate pair: character column 2
    assert_eq!(doc.position_from_wire(Position::new(0, 3)), Position::new(0, 2));
    assert_eq!(doc.position_to_wire(Position::new(0, 2)), Position::new(0, 3));
    // a column inside the surrogate pair stops at the last whole character
    assert_eq!(doc.position_from_wire(Position::new(0, 2)), Position::new(0, 1));
    // plain characters convert one to one, on any line
    assert_eq!(doc.position_from_wire(Position::new(1, 2)), Position::new(1, 2));
    assert_eq!(doc.position_to_wire(Position::new(1, 1)), Position::new(1, 1));
    // a row past the text is handed back unchanged
    assert_eq!(doc.position_from_wire(Position::new(9, 5)), Position::new(9, 5));
}

#[test]
fn session_open_get_close() {
    let mut session = Session::with_workspace(None);
    let uri = String::from("file:///d.norg");
    assert!(session.get_document(&uri).is_none());
    session.insert_document(uri.clone(), Document::new("one")).unwrap();
    assert!(session.get_document(&uri).is_some());
    session.insert_document(uri.clone(), Document::new("two")).unwrap();
    assert_eq!(session.get_document(&uri).unwrap().text.to_string(), "two");
    session.remove_document(&uri).unwrap();
    assert!(session.get_document(&uri).is_none());
}

#[test]
fn outline_nests_sections() {
    let doc = Document::new("* A\n** B\n");
    let symbols = doc.get_symbol_tree();
    assert_eq!(symbols.len(), 1);
    assert_eq!(symbols[0].name, "A");
    assert_eq!(symbols[0].detail, "* A\n** B\n");
    assert_eq!(symbols[0].range, Range::new(Position::new(0, 0), Position::new(2, 0)));
    assert_eq!(symbols[0].children.len(), 1);
    assert_eq!(symbols[0].children[0].name, "B");
    assert_eq!(
        symbols[0].children[0].range,
        Range::new(Position::new(1, 0), Position::new(2, 0)),
    );
    assert_eq!(symbols[0].children[0].children.len(), 0);
}

#[test]
fn outline_includes_ranged_tags() {
    let doc = Document::new("@code lang\nbody\n@end\nafter");
    let symbols = doc.get_symbol_tree();
    assert_eq!(symbols.len(), 1);
    assert_eq!(symbols[0].name, "code lang");
    assert_eq!(symbols[0].range, Range::new(Position::new(0, 0), Position::new(3, 0)));
}

#[test]
fn linkables_are_collected_in_document_order() {
    let doc = Document::new("* H with {one}\n{two} and [m]{:three:}");
    let ls = doc.iter_linkables();
    assert_eq!(ls.len(), 3);
    assert!(matches!(&ls[0], Linkable::Link { .. }));
    assert!(matches!(&ls[1], Linkable::Link { .. }));
    assert!(matches!(&ls[2], Linkable::Anchor { target: Some(_), .. }));
}

#[test]
fn anchor_reference_takes_first_matching_definition() {
    let doc = Document::new("[a]{:one:}\n[b]{:two:}\n[b] [a]");
    let links = doc.resolved_linkables();
    // two definitions and two references, all settled
    assert_eq!(links.len(), 4);
    let one = LinkDestination::Scoped {
        file: Some(NorgFile { root: None, path: String::from("one") }),
        scope: vec![],
    };
    let two = LinkDestination::Scoped {
        file: Some(NorgFile { root: None, path: String::from("two") }),
        scope: vec![],
    };
    assert_eq!(links[2].target, two);
    assert_eq!(links[3].target, one);
    // a reference whose markup matches nothing is dropped
    let orphan = Document::new("[a]{:one:}\n[zzz]");
    assert_eq!(orphan.resolved_linkables().len(), 1);
}

#[test]
fn find_anchor_definition_by_markup() {
    let doc = Document::new("[foo]{:x:}");
    let (dest, range) = doc.find_anchor_definition(&String::from("foo")).unwrap();
    assert_eq!(
        dest,
        LinkDestination::Scoped {
            file: Some(NorgFile { root: None, path: String::from("x") }),
            scope: vec![],
        },
    );
    assert_eq!(range.start_offset, 0);
    assert_eq!(range.end_offset, 10);
    assert!(doc.find_anchor_definition(&String::from("bar")).is_none());
}

#[test]
fn malformed_linkable_nodes_give_typed_errors() {
    let source: Vec<char> = "abc".chars().collect();
    let bare = SyntaxNode {
        kind: NodeKind::Link,
        field: FieldTag::NoField,
        range: NodeRange {
            start_offset: 0,
            end_offset: 3,
            start: Position::new(0, 0),
            end: Position::new(0, 3),
        },
        children: vec![],
    };
    assert_eq!(Linkable::try_from_node(&bare, &source), Err(NorgError::MissingTarget));
    let para = SyntaxNode { kind: NodeKind::Paragraph, ..bare };
    assert_eq!(Linkable::try_from_node(&para, &source), Err(NorgError::NotLinkable));
    let markup_only = SyntaxNode {
        kind: NodeKind::Anchor,
        field: FieldTag::NoField,
        range: NodeRange {
            start_offset: 0,
            end_offset: 3,
            start: Position::new(0, 0),
            end: Position::new(0, 3),
        },
        children: vec![],
    };
    assert_eq!(Linkable::try_from_node(&markup_only, &source), Err(NorgError::MissingMarkup));
    let target = SyntaxNode {
        kind: NodeKind::ScopedTarget,
        field: FieldTag::FieldTarget,
        range: NodeRange {
            start_offset: 0,
            end_offset: 3,
            start: Position::new(0, 0),
            end: Position::new(0, 3),
        },
        children: vec![],
    };
    // "abc" does not follow the scoped grammar
    assert_eq!(LinkDestination::try_from_node(&target, &source), Err(NorgError::InvalidScope));
    let title = SyntaxNode { kind: NodeKind::Title, ..target };
    assert_eq!(
        LinkDestination::try_from_node(&title, &source),
        Err(NorgError::UnsupportedTarget),
    );
}

#[test]
fn invalid_destination_text_skips_only_that_link() {
    let doc = Document::new("{:a:bad} then {:ok:}");
    let links = doc.resolved_linkables();
    assert_eq!(links.len(), 1);
    assert_eq!(
        links[0].target,
        LinkDestination::Scoped {
            file: Some(NorgFile { root: None, path: String::from("ok") }),
            scope: vec![],
        },
    );
}

#[test]
fn linkable_range_accessor() {
    let doc = Document::new("x {t} y");
    let ls = doc.iter_linkables();
    assert_eq!(ls.len(), 1);
    let r = ls[0].range();
    assert_eq!(r.start_offset, 2);
    assert_eq!(r.end_offset, 5);
    assert_eq!(r.start, Position::new(0, 2));
    assert_eq!(r.end, Position::new(0, 5));
}

#[test]
fn change_range_reports_the_edit_extent() {
    let mut doc = Document::new("abc\ndef");
    let edit = doc.change_range(
        Range::new(Position::new(1, 0), Position::new(1, 3)),
        "xy\nz",
    );
    assert_eq!(doc.text.to_string(), "abc\nxy\nz");
    assert_eq!(edit.start_offset, 4);
    assert_eq!(edit.old_end_offset, 7);
    assert_eq!(edit.new_end_offset, 8);
    assert_eq!(edit.start_position, Position::new(1, 0));
    assert_eq!(edit.old_end_position, Position::new(1, 3));
    assert_eq!(edit.new_end_position, Position::new(2, 1));
    doc.update();
    assert!(doc.links.is_empty());
}

#[test]
fn workspace_root_destination_levels() {
    // heading level comes from the length of the star run in scope text
    let doc = Document::new("{:f:*** Deep}");
    let links = doc.resolved_linkables();
    assert_eq!(links.len(), 1);
    match &links[0].target {
        LinkDestination::Scoped { scope, .. } => {
            assert_eq!(scope.len(), 1);
            match &scope[0] {
                neorg_ls::norg::LinkScope::Heading(level, text) => {
                    assert_eq!(*level, 3);
                    assert_eq!(text, "Deep");
                },
                other => panic!("unexpected scope {:?}", other),
            }
        },
        other => panic!("unexpected destination {:?}", other),
    }
}
