use neorg_ls::parser::parse_norg;
use neorg_ls::range::Position;
use neorg_ls::syntax::{classify_for_decl, classify_node, NodeKind, Syntax};

#[test]
fn test_classify_for_decl() {
    let text = "* _heading_ with [anchor]\n{link}";
    let tree = parse_norg(text);
    assert!(matches!(
        classify_for_decl(&tree, Position::new(0, 3)),
        Some(Syntax::Section(..)),
    ));
    assert!(matches!(
        classify_for_decl(&tree, Position::new(0, 17)),
        Some(Syntax::AnchorReference(..)),
    ));
    assert!(matches!(
        classify_for_decl(&tree, Position::new(0, 24)),
        Some(Syntax::AnchorReference(..)),
    ));
    assert!(matches!(
        classify_for_decl(&tree, Position::new(1, 0)),
        Some(Syntax::Link(..)),
    ));
}

#[test]
fn classify_for_decl_outside_constructs() {
    let text = "plain words\n{link}";
    let tree = parse_norg(text);
    // plain paragraph text is no construct at all
    assert!(classify_for_decl(&tree, Position::new(0, 2)).is_none());
}

#[test]
fn classify_anchor_definition_vs_reference() {
    let text = "[foo]{:x:} and [foo]";
    let tree = parse_norg(text);
    assert!(matches!(
        classify_for_decl(&tree, Position::new(0, 1)),
        Some(Syntax::AnchorDefinition(..)),
    ));
    assert!(matches!(
        classify_for_decl(&tree, Position::new(0, 16)),
        Some(Syntax::AnchorReference(..)),
    ));
}

#[test]
fn classify_node_by_kind() {
    let text = "* A";
    let tree = parse_norg(text);
    assert_eq!(tree.kind, NodeKind::Document);
    assert_eq!(tree.children.len(), 1);
    let section = &tree.children[0];
    assert_eq!(section.kind, NodeKind::Section);
    assert!(matches!(classify_node(section), Some(Syntax::Section(..))));
    assert!(classify_node(&tree).is_none());
}

#[test]
fn syntax_node_accessor() {
    let text = "{t}";
    let tree = parse_norg(text);
    let s = classify_for_decl(&tree, Position::new(0, 0)).unwrap();
    let node = s.node();
    assert_eq!(node.kind, NodeKind::Link);
    assert_eq!(node.range.start_offset, 0);
    assert_eq!(node.range.end_offset, 3);
}
