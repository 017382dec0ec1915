//! The syntax-tree model: nodes with a kind, an optional field tag under
//! their parent, an extent, and children in document order, plus the
//! classification of a node (or of the construct under a position) into
//! the closed set of semantic constructs the analysis reads.

use vstd::prelude::*;

use crate::range::{NodeRange, Position};

verus! {

/// The kinds of node the grammar produces.
#[derive(Clone, Copy, Debug, PartialEq, Eq, Structural)]
pub enum NodeKind {
    Document,
    Section,
    Heading,
    Title,
    Paragraph,
    RangedTag,
    Link,
    Anchor,
    RawTarget,
    ScopedTarget,
    Markup,
}

/// The field a node fills under its parent, if any.
#[derive(Clone, Copy, Debug, PartialEq, Eq, Structural)]
pub enum FieldTag {
    NoField,
    FieldHeading,
    FieldTitle,
    FieldTarget,
    FieldMarkup,
}

/// A node of the syntax tree.
#[derive(Debug)]
pub struct SyntaxNode {
    pub kind: NodeKind,
    pub field: FieldTag,
    pub range: NodeRange,
    pub children: Vec<SyntaxNode>,
}

/// The mathematical shape of a syntax node.
pub ghost struct SpecNode {
    pub kind: NodeKind,
    pub field: FieldTag,
    pub range: NodeRange,
    pub children: Seq<SpecNode>,
}

pub open spec fn node_view(n: SyntaxNode) -> SpecNode
    decreases n,
{
    SpecNode { kind: n.kind, field: n.field, range: n.range, children: nodes_view(n.children@) }
}

/// The views of a sequence of nodes, in order.
pub open spec fn nodes_view(cs: Seq<SyntaxNode>) -> Seq<SpecNode>
    decreases cs,
{
    Seq::new(
        cs.len(),
        |i: int|
            if 0 <= i < cs.len() {
                node_view(cs[i])
            } else {
                arbitrary()
            },
    )
}

impl View for SyntaxNode {
    type V = SpecNode;

    open spec fn view(&self) -> SpecNode {
        node_view(*self)
    }
}

/// The first node of `cs` whose field tag is `f`.
pub open spec fn find_field(cs: Seq<SpecNode>, f: FieldTag) -> Option<SpecNode>
    decreases cs.len(),
{
    if cs.len() == 0 {
        None
    } else if cs[0].field == f {
        Some(cs[0])
    } else {
        find_field(cs.drop_first(), f)
    }
}

impl SyntaxNode {
    /// The first child filling the given field, as the grammar assigns
    /// fields.
    pub fn child_by_field<'a>(&'a self, f: FieldTag) -> (r: Option<&'a SyntaxNode>)
        ensures
            match r {
                Some(c) => find_field(self@.children, f) == Some(c@),
                None => find_field(self@.children, f) is None,
            },
    {
        assert(self@.children.skip(0) =~= self@.children);
        self.child_by_field_from(f, 0)
    }

    fn child_by_field_from<'a>(&'a self, f: FieldTag, i: usize) -> (r: Option<&'a SyntaxNode>)
        requires
            i <= self.children.len(),
        ensures
            match r {
                Some(c) => find_field(self@.children.skip(i as int), f) == Some(c@),
                None => find_field(self@.children.skip(i as int), f) is None,
            },
        decreases self.children.len() - i,
    {
        if i == self.children.len() {
            assert(self@.children.skip(i as int) =~= Seq::<SpecNode>::empty());
            None
        } else {
            let c = &self.children[i];
            assert(self@.children.skip(i as int)[0] == c@);
            if field_eq(c.field, f) {
                Some(c)
            } else {
                let r = self.child_by_field_from(f, i + 1);
                assert(self@.children.skip(i as int).drop_first() =~= self@.children.skip(
                    i as int + 1,
                ));
                r
            }
        }
    }
}

/// A node that `find_field` hands back is one of the children.
pub proof fn lemma_find_field_mem(cs: Seq<SpecNode>, f: FieldTag)
    ensures
        match find_field(cs, f) {
            Some(c) => exists|i: int| 0 <= i < cs.len() && cs[i] == c,
            None => true,
        },
    decreases cs.len(),
{
    if cs.len() > 0 && !(cs[0].field == f) {
        lemma_find_field_mem(cs.drop_first(), f);
        match find_field(cs.drop_first(), f) {
            Some(c) => {
                let i = choose|i: int| 0 <= i < cs.drop_first().len() && cs.drop_first()[i] == c;
                assert(cs[i + 1] == c);
            },
            None => {},
        }
    }
}

/// Equality of field tags.
pub fn field_eq(a: FieldTag, b: FieldTag) -> (r: bool)
    ensures
        r == (a == b),
{
    a == b
}

/// Equality of node kinds.
pub fn kind_eq(a: NodeKind, b: NodeKind) -> (r: bool)
    ensures
        r == (a == b),
{
    a == b
}

/// A node seen as one of the semantic constructs the analysis acts on.
#[derive(Debug)]
pub enum Syntax<'a> {
    Section(&'a SyntaxNode),
    Link(&'a SyntaxNode),
    AnchorDefinition(&'a SyntaxNode),
    AnchorReference(&'a SyntaxNode),
}

/// The mathematical shape of a classification.
pub ghost enum SpecSyntax {
    SectionV(SpecNode),
    LinkV(SpecNode),
    AnchorDefV(SpecNode),
    AnchorRefV(SpecNode),
}

impl<'a> View for Syntax<'a> {
    type V = SpecSyntax;

    open spec fn view(&self) -> SpecSyntax {
        match *self {
            Syntax::Section(n) => SpecSyntax::SectionV(n@),
            Syntax::Link(n) => SpecSyntax::LinkV(n@),
            Syntax::AnchorDefinition(n) => SpecSyntax::AnchorDefV(n@),
            Syntax::AnchorReference(n) => SpecSyntax::AnchorRefV(n@),
        }
    }
}

impl<'a> Syntax<'a> {
    /// The node behind the classification.
    pub fn node(&self) -> (r: &'a SyntaxNode)
        ensures
            self@ matches SpecSyntax::SectionV(n) ==> r@ == n,
            self@ matches SpecSyntax::LinkV(n) ==> r@ == n,
            self@ matches SpecSyntax::AnchorDefV(n) ==> r@ == n,
            self@ matches SpecSyntax::AnchorRefV(n) ==> r@ == n,
    {
        match *self {
            Syntax::Section(node) => node,
            Syntax::Link(node) => node,
            Syntax::AnchorDefinition(node) => node,
            Syntax::AnchorReference(node) => node,
        }
    }
}

/// Whether the node's extent covers the position (start inclusive, end
/// exclusive).
pub open spec fn node_contains_pos(n: SpecNode, p: Position) -> bool {
    n.range.start.spec_le(p) && p.spec_lt(n.range.end)
}

/// The construct a node is by its own kind alone: a section, a link, or
/// an anchor (a definition when it carries a target, else a reference).
pub open spec fn classify_node_spec(n: SpecNode) -> Option<SpecSyntax> {
    match n.kind {
        NodeKind::Section => Some(SpecSyntax::SectionV(n)),
        NodeKind::Link => Some(SpecSyntax::LinkV(n)),
        NodeKind::Anchor => if find_field(n.children, FieldTag::FieldTarget) is Some {
            Some(SpecSyntax::AnchorDefV(n))
        } else {
            Some(SpecSyntax::AnchorRefV(n))
        },
        _ => None,
    }
}

/// The classification of the deepest construct whose extent covers `p`,
/// preferring a child's construct over the node's own.
pub open spec fn classify_at_spec(n: SpecNode, p: Position) -> Option<SpecSyntax>
    decreases n, 0int,
{
    match classify_in_children(n.children, 0, p) {
        Some(x) => Some(x),
        None => classify_node_spec(n),
    }
}

pub open spec fn classify_in_children(cs: Seq<SpecNode>, i: int, p: Position) -> Option<
    SpecSyntax,
>
    decreases cs, cs.len() - i,
{
    if i < 0 || i >= cs.len() {
        None
    } else if node_contains_pos(cs[i], p) {
        classify_at_spec(cs[i], p)
    } else {
        classify_in_children(cs, i + 1, p)
    }
}

/// Classifies the construct the node itself is, by its kind.
pub fn classify_node<'a>(node: &'a SyntaxNode) -> (r: Option<Syntax<'a>>)
    ensures
        match r {
            Some(x) => classify_node_spec(node@) == Some(x@),
            None => classify_node_spec(node@) is None,
        },
{
    match node.kind {
        NodeKind::Section => Some(Syntax::Section(node)),
        NodeKind::Link => Some(Syntax::Link(node)),
        NodeKind::Anchor => {
            if node.child_by_field(FieldTag::FieldTarget).is_some() {
                Some(Syntax::AnchorDefinition(node))
            } else {
                Some(Syntax::AnchorReference(node))
            }
        },
        _ => None,
    }
}

/// Finds the deepest construct under `tree` whose extent covers
/// `position`: the innermost section, link or anchor at that position.
pub fn classify_for_decl<'a>(tree: &'a SyntaxNode, position: Position) -> (r: Option<Syntax<'a>>)
    ensures
        match r {
            Some(x) => classify_at_spec(tree@, position) == Some(x@),
            None => classify_at_spec(tree@, position) is None,
        },
    decreases *tree, 0int,
{
    let from_children = classify_children_at(&tree.children, 0, position);
    match from_children {
        Some(x) => Some(x),
        None => {
            assert(classify_in_children(tree@.children, 0, position) is None);
            classify_node(tree)
        },
    }
}

fn classify_children_at<'a>(cs: &'a Vec<SyntaxNode>, i: usize, p: Position) -> (r: Option<
    Syntax<'a>,
>)
    requires
        i <= cs.len(),
    ensures
        match r {
            Some(x) => classify_in_children(nodes_view(cs@), i as int, p) == Some(x@),
            None => classify_in_children(nodes_view(cs@), i as int, p) is None,
        },
    decreases *cs, cs.len() - i,
{
    if i == cs.len() {
        None
    } else {
        let c = &cs[i];
        assert(nodes_view(cs@)[i as int] == c@);
        if c.range.to_range().contains(&p) {
            classify_for_decl(c, p)
        } else {
            classify_children_at(cs, i + 1, p)
        }
    }
}

} // verus!
