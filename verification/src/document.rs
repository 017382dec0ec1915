//! One open document: its text buffer, its syntax tree, and the links
//! derived from the tree. The tree is always a parse of the exact
//! current text after `new` or `update`; edits splice the buffer and
//! report the edit's extent, and `update` re-derives tree and links.

use vstd::prelude::*;
use vstd::string::*;

use crate::norg::{
    linkable_of_node, node_text, shallow_bounds, DestView, LinkDestination, Linkable,
    LinkableView, LinkScope, NorgFile, LinkWorkspace,
};
use crate::parser::{parse_doc, parse_norg_chars};
use crate::range::{NodeRange, Position, Range};
use crate::rope::{
    line_start, nl_count, rope_char_to_line, rope_chars, rope_from_str, rope_insert,
    rope_len_chars, rope_line_to_char, rope_remove, rope_text,
};
use crate::syntax::{find_field, FieldTag, NodeKind, SpecNode, SyntaxNode};

verus! {

/// A linkable whose destination is settled: anchor references already
/// carry the destination of their defining anchor. `dest_range` is the
/// extent of the destination text in this document, present only when
/// the destination stands in the linkable's own syntax.
#[derive(Debug, Clone, PartialEq)]
pub struct ResolvedLinkable {
    pub target: LinkDestination,
    pub range: NodeRange,
    pub dest_range: Option<NodeRange>,
}

pub ghost struct RlView {
    pub target: DestView,
    pub range: NodeRange,
    pub dest_range: Option<NodeRange>,
}

impl View for ResolvedLinkable {
    type V = RlView;

    open spec fn view(&self) -> RlView {
        RlView { target: self.target@, range: self.range, dest_range: self.dest_range }
    }
}

/// The views of a sequence of resolved linkables.
pub open spec fn rl_views(ls: Seq<ResolvedLinkable>) -> Seq<RlView> {
    Seq::new(
        ls.len(),
        |i: int|
            if 0 <= i < ls.len() {
                ls[i]@
            } else {
                arbitrary()
            },
    )
}

/// One derived linkable with the extent of its own destination text, if
/// it has one.
pub ghost struct EntryView {
    pub l: LinkableView,
    pub dest: Option<NodeRange>,
}

/// The views of a sequence of collected (linkable, destination extent)
/// pairs.
pub open spec fn entries_view(es: Seq<(Linkable, Option<NodeRange>)>) -> Seq<EntryView> {
    Seq::new(
        es.len(),
        |i: int|
            if 0 <= i < es.len() {
                EntryView { l: es[i].0@, dest: es[i].1 }
            } else {
                arbitrary()
            },
    )
}

/// The entry a single node contributes: its linkable meaning, when it is
/// a link or anchor node that lies within the text and converts.
pub open spec fn entry_of_node(n: SpecNode, s: Seq<char>) -> Seq<EntryView> {
    if (n.kind == NodeKind::Link || n.kind == NodeKind::Anchor) && shallow_bounds(
        n,
        s.len() as int,
    ) {
        match linkable_of_node(n, s) {
            Some(l) => seq![
                EntryView {
                    l,
                    dest: match find_field(n.children, FieldTag::FieldTarget) {
                        Some(t) => Some(t.range),
                        None => None,
                    },
                },
            ],
            None => Seq::empty(),
        }
    } else {
        Seq::empty()
    }
}

/// All linkables under `n`, in tree pre-order; malformed nodes are
/// skipped, never failing the whole document.
pub open spec fn linkable_entries(n: SpecNode, s: Seq<char>) -> Seq<EntryView>
    decreases n, 0int,
{
    entry_of_node(n, s) + entries_in(n.children, 0, s)
}

pub open spec fn entries_in(cs: Seq<SpecNode>, i: int, s: Seq<char>) -> Seq<EntryView>
    decreases cs, cs.len() - i,
{
    if !(0 <= i < cs.len()) {
        Seq::empty()
    } else {
        linkable_entries(cs[i], s) + entries_in(cs, i + 1, s)
    }
}

/// The first anchor definition at or after `i` whose markup equals `m`:
/// the one in document order wins.
pub open spec fn first_def_at(es: Seq<EntryView>, i: int, m: Seq<char>) -> Option<LinkableView>
    decreases es.len() - i,
{
    if !(0 <= i < es.len()) {
        None
    } else {
        match es[i].l {
            LinkableView::AnchorV { target: Some(t), markup, .. } => if markup == m {
                Some(es[i].l)
            } else {
                first_def_at(es, i + 1, m)
            },
            _ => first_def_at(es, i + 1, m),
        }
    }
}

/// The destination of the first matching anchor definition.
pub open spec fn first_anchor_def(es: Seq<EntryView>, i: int, m: Seq<char>) -> Option<DestView> {
    match first_def_at(es, i, m) {
        Some(LinkableView::AnchorV { target: Some(t), .. }) => Some(t),
        _ => None,
    }
}

/// The resolved linkables of the entries from `i` on: links and anchor
/// definitions keep their own destination; an anchor reference takes the
/// destination of the first definition in document order sharing its
/// markup, or is dropped when none matches.
pub open spec fn resolve_entries(all: Seq<EntryView>, i: int) -> Seq<RlView>
    decreases all.len() - i,
{
    if !(0 <= i < all.len()) {
        Seq::empty()
    } else {
        let e = all[i];
        match e.l {
            LinkableView::LinkV { target, range, .. } => seq![
                RlView { target, range, dest_range: e.dest },
            ] + resolve_entries(all, i + 1),
            LinkableView::AnchorV { target: Some(t), range, .. } => seq![
                RlView { target: t, range, dest_range: e.dest },
            ] + resolve_entries(all, i + 1),
            LinkableView::AnchorV { target: None, markup, range } => match first_anchor_def(
                all,
                0,
                markup,
            ) {
                Some(t) => seq![RlView { target: t, range, dest_range: None }] + resolve_entries(
                    all,
                    i + 1,
                ),
                None => resolve_entries(all, i + 1),
            },
        }
    }
}

/// The derived link list of a tree over a text.
pub open spec fn doc_links_of(t: SpecNode, s: Seq<char>) -> Seq<RlView> {
    resolve_entries(linkable_entries(t, s), 0)
}

// ------------------------------------------------------------------
// Executable collection.
fn node_bounds_check(n: &SyntaxNode, len: usize) -> (r: bool)
    ensures
        r == crate::norg::node_bounds_ok(n@, len as int),
{
    n.range.start_offset <= n.range.end_offset && n.range.end_offset <= len
}

fn shallow_bounds_check(n: &SyntaxNode, len: usize) -> (r: bool)
    ensures
        r == shallow_bounds(n@, len as int),
{
    if !node_bounds_check(n, len) {
        return false;
    }
    let mut i: usize = 0;
    while i < n.children.len()
        invariant
            i <= n.children.len(),
            crate::norg::node_bounds_ok(n@, len as int),
            forall|k: int|
                0 <= k < i ==> crate::norg::node_bounds_ok(#[trigger] n@.children[k], len as int),
        decreases n.children.len() - i,
    {
        let c = &n.children[i];
        proof {
            assert(n@.children[i as int] == c@);
        }
        if !node_bounds_check(c, len) {
            return false;
        }
        i = i + 1;
    }
    true
}

fn collect_entries(n: &SyntaxNode, source: &Vec<char>) -> (r: Vec<(Linkable, Option<NodeRange>)>)
    ensures
        entries_view(r@) == linkable_entries(n@, source@),
    decreases *n, 0int,
{
    let mut out: Vec<(Linkable, Option<NodeRange>)> = Vec::new();
    let is_linkable_kind = match n.kind {
        NodeKind::Link => true,
        NodeKind::Anchor => true,
        _ => false,
    };
    if is_linkable_kind && shallow_bounds_check(n, source.len()) {
        match Linkable::try_from_node(n, source) {
            Ok(l) => {
                let dest = match n.child_by_field(FieldTag::FieldTarget) {
                    Some(t) => Some(t.range),
                    None => None,
                };
                out.push((l, dest));
            },
            Err(_) => {},
        }
    }
    proof {
        assert(entries_view(out@) =~= entry_of_node(n@, source@));
    }
    let rest = collect_entries_in(&n.children, 0, source);
    let ghost outv = out@;
    let ghost restv = rest@;
    let mut rest = rest;
    let mut out = out;
    out.append(&mut rest);
    proof {
        assert(entries_view(out@) =~= entries_view(outv) + entries_view(restv));
    }
    out
}

fn collect_entries_in(cs: &Vec<SyntaxNode>, i: usize, source: &Vec<char>) -> (r: Vec<
    (Linkable, Option<NodeRange>),
>)
    requires
        i <= cs.len(),
    ensures
        entries_view(r@) == entries_in(
            crate::syntax::nodes_view(cs@),
            i as int,
            source@,
        ),
    decreases *cs, cs.len() - i,
{
    if i == cs.len() {
        let out: Vec<(Linkable, Option<NodeRange>)> = Vec::new();
        proof {
            assert(entries_view(out@) =~= entries_in(
                crate::syntax::nodes_view(cs@),
                i as int,
                source@,
            ));
        }
        out
    } else {
        let c = &cs[i];
        proof {
            assert(crate::syntax::nodes_view(cs@)[i as int] == c@);
        }
        let own = collect_entries(c, source);
        let rest = collect_entries_in(cs, i + 1, source);
        let ghost ownv = own@;
        let ghost restv = rest@;
        let mut rest = rest;
        let mut own = own;
        own.append(&mut rest);
        proof {
            assert(entries_view(own@) =~= entries_view(ownv) + entries_view(restv));
        }
        own
    }
}

/// A deep copy of a destination that provably keeps its value.
pub fn clone_dest(d: &LinkDestination) -> (r: LinkDestination)
    ensures
        r@ == d@,
{
    match d {
        LinkDestination::Uri(u) => LinkDestination::Uri(u.clone()),
        LinkDestination::Scoped { file, scope } => {
            let f = match file {
                Some(nf) => Some(
                    NorgFile {
                        root: match &nf.root {
                            Some(LinkWorkspace::Current) => Some(LinkWorkspace::Current),
                            Some(LinkWorkspace::Workspace(n)) => Some(
                                LinkWorkspace::Workspace(n.clone()),
                            ),
                            None => None,
                        },
                        path: nf.path.clone(),
                    },
                ),
                None => None,
            };
            let mut sc: Vec<LinkScope> = Vec::new();
            let mut i: usize = 0;
            while i < scope.len()
                invariant
                    i <= scope.len(),
                    sc@.len() == i,
                    forall|k: int| 0 <= k < i ==> sc@[k]@ == #[trigger] scope@[k]@,
                decreases scope.len() - i,
            {
                let e = match &scope[i] {
                    LinkScope::Heading(l, t) => LinkScope::Heading(*l, t.clone()),
                    LinkScope::WikiHeading(t) => LinkScope::WikiHeading(t.clone()),
                };
                sc.push(e);
                i = i + 1;
            }
            proof {
                assert(crate::norg::scopes_view(sc@) =~= crate::norg::scopes_view(scope@));
            }
            LinkDestination::Scoped { file: f, scope: sc }
        },
    }
}

fn find_first_def(es: &Vec<(Linkable, Option<NodeRange>)>, m: &String) -> (r: Option<
    LinkDestination,
>)
    ensures
        match r {
            Some(d) => first_anchor_def(entries_view(es@), 0, m@) == Some(d@),
            None => first_anchor_def(entries_view(es@), 0, m@) is None,
        },
{
    find_first_def_from(es, 0, m)
}

fn find_first_def_from(es: &Vec<(Linkable, Option<NodeRange>)>, i: usize, m: &String) -> (r: Option<
    LinkDestination,
>)
    requires
        i <= es.len(),
    ensures
        match r {
            Some(d) => first_anchor_def(entries_view(es@), i as int, m@) == Some(d@),
            None => first_anchor_def(entries_view(es@), i as int, m@) is None,
        },
    decreases es.len() - i,
{
    if i == es.len() {
        None
    } else {
        proof {
            assert(entries_view(es@)[i as int] == (EntryView { l: es@[i as int].0@, dest: es@[i as int].1 }));
        }
        match &es[i].0 {
            Linkable::Anchor { target: Some(t), markup, .. } => {
                if markup.eq(m) {
                    Some(clone_dest(t))
                } else {
                    find_first_def_from(es, i + 1, m)
                }
            },
            _ => find_first_def_from(es, i + 1, m),
        }
    }
}

fn resolve_entries_exec(es: &Vec<(Linkable, Option<NodeRange>)>, i: usize) -> (r: Vec<
    ResolvedLinkable,
>)
    requires
        i <= es.len(),
    ensures
        rl_views(r@) == resolve_entries(entries_view(es@), i as int),
    decreases es.len() - i,
{
    if i == es.len() {
        let out: Vec<ResolvedLinkable> = Vec::new();
        proof {
            assert(rl_views(out@) =~= resolve_entries(entries_view(es@), i as int));
        }
        out
    } else {
        proof {
            assert(entries_view(es@)[i as int] == (EntryView { l: es@[i as int].0@, dest: es@[i as int].1 }));
        }
        let head: Option<ResolvedLinkable> = match &es[i].0 {
            Linkable::Link { target, range, .. } => Some(
                ResolvedLinkable { target: clone_dest(target), range: *range, dest_range: es[i].1 },
            ),
            Linkable::Anchor { target: Some(t), range, .. } => Some(
                ResolvedLinkable { target: clone_dest(t), range: *range, dest_range: es[i].1 },
            ),
            Linkable::Anchor { target: None, markup, range } => match find_first_def(es, markup) {
                Some(d) => Some(ResolvedLinkable { target: d, range: *range, dest_range: None }),
                None => None,
            },
        };
        let rest = resolve_entries_exec(es, i + 1);
        let ghost restv = rest@;
        match head {
            Some(h) => {
                let ghost hv = h@;
                let mut out = rest;
                out.insert(0, h);
                proof {
                    assert(rl_views(out@) =~= seq![hv] + rl_views(restv));
                }
                out
            },
            None => rest,
        }
    }
}

// ------------------------------------------------------------------
// The document itself.
/// The edit descriptor: the character extents and positions of a splice,
/// for keeping derived state in step with the buffer.
#[derive(Clone, Copy, Debug, PartialEq, Eq, Structural)]
pub struct InputEdit {
    pub start_offset: usize,
    pub old_end_offset: usize,
    pub new_end_offset: usize,
    pub start_position: Position,
    pub old_end_position: Position,
    pub new_end_position: Position,
}

/// One open document.
#[derive(Debug)]
pub struct Document {
    pub text: ropey::Rope,
    pub tree: SyntaxNode,
    pub links: Vec<ResolvedLinkable>,
}

impl Document {
    /// The current text of the document.
    pub open spec fn text_view(self) -> Seq<char> {
        rope_text(self.text)
    }

    /// The document invariant: the tree is the parse of the exact
    /// current text, and the links are derived from that tree.
    pub open spec fn wf(self) -> bool {
        &&& self.tree@ == parse_doc(self.text_view())
        &&& rl_views(self.links@) == doc_links_of(self.tree@, self.text_view())
    }

    /// Opens a document: parses the text and derives its links.
    pub fn new(text: &str) -> (d: Document)
        ensures
            d.wf(),
            d.text_view() == text@,
    {
        let rope = rope_from_str(text);
        let chars = rope_chars(&rope);
        let tree = parse_norg_chars(&chars);
        let entries = collect_entries(&tree, &chars);
        let links = resolve_entries_exec(&entries, 0);
        Document { text: rope, tree, links }
    }

    /// Whether an edit range lies within the current text: both rows
    /// exist, and the resulting character extent is ordered and in
    /// bounds.
    pub open spec fn edit_valid(s: Seq<char>, r: Range) -> bool {
        &&& r.start.row <= nl_count(s)
        &&& r.end.row <= nl_count(s)
        &&& line_start(s, r.start.row as int) + r.start.column <= line_start(
            s,
            r.end.row as int,
        ) + r.end.column <= s.len()
    }

    /// Checks that an edit range lies within the current text.
    pub fn can_edit(&self, range: &Range) -> (r: bool)
        ensures
            r == Self::edit_valid(self.text_view(), *range),
    {
        let lines = crate::rope::rope_len_lines(&self.text);
        if !(range.start.row < lines && range.end.row < lines) {
            return false;
        }
        let len = rope_len_chars(&self.text);
        let sl = rope_line_to_char(&self.text, range.start.row);
        let el = rope_line_to_char(&self.text, range.end.row);
        if sl > usize::MAX - range.start.column || el > usize::MAX - range.end.column {
            return false;
        }
        sl + range.start.column <= el + range.end.column && el + range.end.column <= len
    }

    /// Splices the replacement text over the range and reports the
    /// edit's character extents and positions. The tree and links are
    /// untouched; `update` re-derives them.
    pub fn change_range(&mut self, range: Range, text: &str) -> (edit: InputEdit)
        requires
            Self::edit_valid(old(self).text_view(), range),
        ensures
            ({
                let s = old(self).text_view();
                let a = line_start(s, range.start.row as int) + range.start.column;
                let b = line_start(s, range.end.row as int) + range.end.column;
                let s2 = s.take(a) + text@ + s.skip(b);
                &&& final(self).text_view() == s2
                &&& final(self).tree == old(self).tree
                &&& final(self).links == old(self).links
                &&& edit.start_offset == a
                &&& edit.old_end_offset == b
                &&& edit.new_end_offset == a + text@.len()
                &&& edit.start_position == range.start
                &&& edit.old_end_position == range.end
                &&& edit.new_end_position.row == nl_count(s2.take(a + text@.len()))
                &&& edit.new_end_position.column == a + text@.len() - line_start(
                    s2,
                    nl_count(s2.take(a + text@.len())),
                )
            }),
    {
        // the buffer length fits in usize, which bounds the edit offsets
        let total = rope_len_chars(&self.text);
        let start_char = rope_line_to_char(&self.text, range.start.row) + range.start.column;
        let end_char = rope_line_to_char(&self.text, range.end.row) + range.end.column;
        rope_remove(&mut self.text, start_char, end_char);
        rope_insert(&mut self.text, start_char, text);
        proof {
            let s = old(self).text_view();
            let a = line_start(s, range.start.row as int) + range.start.column;
            let b = line_start(s, range.end.row as int) + range.end.column;
            assert((s.take(a) + s.skip(b)).take(a) =~= s.take(a));
            assert((s.take(a) + s.skip(b)).skip(a) =~= s.skip(b));
            assert(rope_text(self.text) =~= s.take(a) + text@ + s.skip(b));
        }
        // the new buffer length fits in usize, which bounds the new end
        let new_total = rope_len_chars(&self.text);
        let new_end = start_char + text.unicode_len();
        proof {
            crate::rope::lemma_nl_count_take_le(rope_text(self.text), new_end as int);
            crate::rope::lemma_line_start_le(rope_text(self.text), new_end as int);
        }
        let new_row = rope_char_to_line(&self.text, new_end);
        let row_start = rope_line_to_char(&self.text, new_row);
        InputEdit {
            start_offset: start_char,
            old_end_offset: end_char,
            new_end_offset: new_end,
            start_position: range.start,
            old_end_position: range.end,
            new_end_position: Position { row: new_row, column: new_end - row_start },
        }
    }

    /// Replaces the whole text, as a content change without a range
    /// does. The tree and links are untouched; `update` re-derives them.
    pub fn set_text(&mut self, text: &str)
        ensures
            final(self).text_view() == text@,
            final(self).tree == old(self).tree,
            final(self).links == old(self).links,
    {
        self.text = crate::rope::rope_from_str(text);
    }

    /// The internal position for a wire position: the same row, with its
    /// UTF-16 code-unit column converted to a character column within
    /// that row. A row past the text is handed back unchanged.
    pub fn position_from_wire(&self, p: Position) -> (r: Position)
        ensures
            r == crate::rope::wire_to_doc(self.text_view(), p),
    {
        let lines = crate::rope::rope_len_lines(&self.text);
        if p.row >= lines {
            return p;
        }
        proof {
            crate::rope::lemma_line_start_le_len(self.text_view(), p.row as int);
        }
        let chars = rope_chars(&self.text);
        let ls = rope_line_to_char(&self.text, p.row);
        let le = crate::rope::line_end_exec(&chars, ls);
        let column = crate::rope::chars_in_utf16_exec(&chars, ls, le, p.column);
        Position { row: p.row, column }
    }

    /// The wire position for an internal position: the same row, with
    /// its character column converted to a UTF-16 code-unit column
    /// within that row (clamped to the line's end and saturating at the
    /// largest representable column). A row past the text is handed back
    /// unchanged.
    pub fn position_to_wire(&self, p: Position) -> (r: Position)
        ensures
            r == crate::rope::doc_to_wire(self.text_view(), p),
    {
        let lines = crate::rope::rope_len_lines(&self.text);
        if p.row >= lines {
            return p;
        }
        proof {
            crate::rope::lemma_line_start_le_len(self.text_view(), p.row as int);
        }
        let chars = rope_chars(&self.text);
        let ls = rope_line_to_char(&self.text, p.row);
        let le = crate::rope::line_end_exec(&chars, ls);
        let column = crate::rope::utf16_of_chars_exec(&chars, ls, le, p.column);
        Position { row: p.row, column }
    }

    /// Both ends of a wire range converted to internal columns.
    pub fn range_from_wire(&self, r: Range) -> (out: Range)
        ensures
            out == (Range {
                start: crate::rope::wire_to_doc(self.text_view(), r.start),
                end: crate::rope::wire_to_doc(self.text_view(), r.end),
            }),
    {
        Range { start: self.position_from_wire(r.start), end: self.position_from_wire(r.end) }
    }

    /// Both ends of an internal range converted to wire columns.
    pub fn range_to_wire(&self, r: Range) -> (out: Range)
        ensures
            out == (Range {
                start: crate::rope::doc_to_wire(self.text_view(), r.start),
                end: crate::rope::doc_to_wire(self.text_view(), r.end),
            }),
    {
        Range { start: self.position_to_wire(r.start), end: self.position_to_wire(r.end) }
    }

    /// Re-parses the current text and re-derives the links, restoring
    /// the document invariant after edits.
    pub fn update(&mut self)
        ensures
            final(self).wf(),
            final(self).text_view() == old(self).text_view(),
    {
        let chars = rope_chars(&self.text);
        let tree = parse_norg_chars(&chars);
        let entries = collect_entries(&tree, &chars);
        let links = resolve_entries_exec(&entries, 0);
        self.tree = tree;
        self.links = links;
    }

    /// The linkables of the current tree, in document order; malformed
    /// nodes are skipped.
    pub fn iter_linkables(&self) -> (r: Vec<Linkable>)
        ensures
            ({
                let es = linkable_entries(self.tree@, self.text_view());
                &&& r@.len() == es.len()
                &&& forall|i: int| 0 <= i < es.len() ==> #[trigger] r@[i]@ == es[i].l
            }),
    {
        let chars = rope_chars(&self.text);
        let entries = collect_entries(&self.tree, &chars);
        let ghost esv = entries_view(entries@);
        let mut entries = entries;
        let mut out: Vec<Linkable> = Vec::new();
        while entries.len() > 0
            invariant
                out@.len() + entries@.len() == esv.len(),
                forall|i: int| 0 <= i < out@.len() ==> #[trigger] out@[i]@ == esv[i].l,
                forall|i: int|
                    0 <= i < entries@.len() ==> #[trigger] entries@[i].0@ == esv[
                        out@.len() + i
                    ].l,
            decreases entries.len(),
        {
            let (l, _) = entries.remove(0);
            out.push(l);
        }
        out
    }

    /// The resolved linkables of the current tree: each link or anchor
    /// with its settled destination.
    pub fn resolved_linkables(&self) -> (r: Vec<ResolvedLinkable>)
        ensures
            rl_views(r@) == doc_links_of(self.tree@, self.text_view()),
    {
        let chars = rope_chars(&self.text);
        let entries = collect_entries(&self.tree, &chars);
        resolve_entries_exec(&entries, 0)
    }

    /// The first anchor definition in document order whose markup equals
    /// `markup`, if any: its destination and its extent.
    pub fn find_anchor_definition(&self, markup: &String) -> (r: Option<(LinkDestination, NodeRange)>)
        ensures
            ({
                let es = linkable_entries(self.tree@, self.text_view());
                match r {
                    Some(d) => first_def_at(es, 0, markup@) == Some(
                        LinkableView::AnchorV {
                            target: Some(d.0@),
                            markup: markup@,
                            range: d.1,
                        },
                    ),
                    None => first_def_at(es, 0, markup@) is None,
                }
            }),
    {
        let chars = rope_chars(&self.text);
        let entries = collect_entries(&self.tree, &chars);
        match find_first_def_range(&entries, 0, markup) {
            Some(p) => Some(p),
            None => None,
        }
    }
}

// ------------------------------------------------------------------
// The document outline.
/// One outline entry: a name, the construct's full text, its extent, and
/// the entries nested under it.
#[derive(Debug, PartialEq)]
pub struct DocumentSymbol {
    pub name: String,
    pub detail: String,
    pub range: Range,
    pub children: Vec<DocumentSymbol>,
}

pub ghost struct SymView {
    pub name: Seq<char>,
    pub detail: Seq<char>,
    pub range: Range,
    pub children: Seq<SymView>,
}

pub open spec fn sym_view(d: DocumentSymbol) -> SymView
    decreases d,
{
    SymView { name: d.name@, detail: d.detail@, range: d.range, children: syms_view(d.children@) }
}

pub open spec fn syms_view(cs: Seq<DocumentSymbol>) -> Seq<SymView>
    decreases cs,
{
    Seq::new(
        cs.len(),
        |i: int|
            if 0 <= i < cs.len() {
                sym_view(cs[i])
            } else {
                arbitrary()
            },
    )
}

impl View for DocumentSymbol {
    type V = SymView;

    open spec fn view(&self) -> SymView {
        sym_view(*self)
    }
}

/// The outline name a node carries: a section's heading title, or a
/// ranged tag's name, when the name's extent lies within the text.
pub open spec fn sym_name_of(n: SpecNode, s: Seq<char>) -> Option<Seq<char>> {
    if n.kind == NodeKind::Section {
        match find_field(n.children, FieldTag::FieldHeading) {
            Some(h) => match find_field(h.children, FieldTag::FieldTitle) {
                Some(t) => if crate::norg::node_bounds_ok(t, s.len() as int) {
                    Some(node_text(t, s))
                } else {
                    None
                },
                None => None,
            },
            None => None,
        }
    } else if n.kind == NodeKind::RangedTag {
        match find_field(n.children, FieldTag::FieldTitle) {
            Some(t) => if crate::norg::node_bounds_ok(t, s.len() as int) {
                Some(node_text(t, s))
            } else {
                None
            },
            None => None,
        }
    } else {
        None
    }
}

/// The outline entries under `n`, in document order: one entry per
/// section and per ranged tag, recursing into children; other nodes pass
/// their children's entries through.
pub open spec fn symbols_of(n: SpecNode, s: Seq<char>) -> Seq<SymView>
    decreases n, 0int,
{
    match sym_name_of(n, s) {
        Some(name) => if crate::norg::node_bounds_ok(n, s.len() as int) {
            seq![
                SymView {
                    name,
                    detail: node_text(n, s),
                    range: Range { start: n.range.start, end: n.range.end },
                    children: symbols_in(n.children, 0, s),
                },
            ]
        } else {
            symbols_in(n.children, 0, s)
        },
        None => symbols_in(n.children, 0, s),
    }
}

pub open spec fn symbols_in(cs: Seq<SpecNode>, i: int, s: Seq<char>) -> Seq<SymView>
    decreases cs, cs.len() - i,
{
    if !(0 <= i < cs.len()) {
        Seq::empty()
    } else {
        symbols_of(cs[i], s) + symbols_in(cs, i + 1, s)
    }
}

fn node_text_exec(n: &SyntaxNode, source: &Vec<char>) -> (r: String)
    requires
        crate::norg::node_bounds_ok(n@, source@.len() as int),
    ensures
        r@ == node_text(n@, source@),
{
    crate::rope::chars_to_string(
        &crate::norg::slice_chars(source, n.range.start_offset, n.range.end_offset),
    )
}

fn sym_name_exec(n: &SyntaxNode, source: &Vec<char>) -> (r: Option<String>)
    ensures
        match r {
            Some(name) => sym_name_of(n@, source@) == Some(name@),
            None => sym_name_of(n@, source@) is None,
        },
{
    match n.kind {
        NodeKind::Section => {
            match n.child_by_field(FieldTag::FieldHeading) {
                Some(h) => match h.child_by_field(FieldTag::FieldTitle) {
                    Some(t) => {
                        if node_bounds_check(t, source.len()) {
                            Some(node_text_exec(t, source))
                        } else {
                            None
                        }
                    },
                    None => None,
                },
                None => None,
            }
        },
        NodeKind::RangedTag => {
            match n.child_by_field(FieldTag::FieldTitle) {
                Some(t) => {
                    if node_bounds_check(t, source.len()) {
                        Some(node_text_exec(t, source))
                    } else {
                        None
                    }
                },
                None => None,
            }
        },
        _ => None,
    }
}

/// The outline entries under a node: one per section (named by its
/// heading title) and per ranged tag (named by its tag name), recursing
/// into children in document order.
pub fn tree_to_symbols(n: &SyntaxNode, source: &Vec<char>) -> (r: Vec<DocumentSymbol>)
    ensures
        syms_view(r@) == symbols_of(n@, source@),
    decreases *n, 0int,
{
    let name = sym_name_exec(n, source);
    let in_bounds = node_bounds_check(n, source.len());
    let children = symbols_in_exec(&n.children, 0, source);
    match name {
        Some(name) => {
            if in_bounds {
                let detail = node_text_exec(n, source);
                let ghost chv = children@;
                let sym = DocumentSymbol {
                    name,
                    detail,
                    range: Range { start: n.range.start, end: n.range.end },
                    children,
                };
                let mut out: Vec<DocumentSymbol> = Vec::new();
                out.push(sym);
                proof {
                    assert(syms_view(out@) =~= symbols_of(n@, source@));
                }
                out
            } else {
                children
            }
        },
        None => children,
    }
}

fn symbols_in_exec(cs: &Vec<SyntaxNode>, i: usize, source: &Vec<char>) -> (r: Vec<DocumentSymbol>)
    requires
        i <= cs.len(),
    ensures
        syms_view(r@) == symbols_in(crate::syntax::nodes_view(cs@), i as int, source@),
    decreases *cs, cs.len() - i,
{
    if i == cs.len() {
        let out: Vec<DocumentSymbol> = Vec::new();
        proof {
            assert(syms_view(out@) =~= symbols_in(
                crate::syntax::nodes_view(cs@),
                i as int,
                source@,
            ));
        }
        out
    } else {
        let c = &cs[i];
        proof {
            assert(crate::syntax::nodes_view(cs@)[i as int] == c@);
        }
        let own = tree_to_symbols(c, source);
        let rest = symbols_in_exec(cs, i + 1, source);
        let ghost ownv = own@;
        let ghost restv = rest@;
        let mut rest = rest;
        let mut own = own;
        own.append(&mut rest);
        proof {
            assert(syms_view(own@) =~= syms_view(ownv) + syms_view(restv));
        }
        own
    }
}

impl Document {
    /// The outline of the document: one entry per section and per ranged
    /// tag, nested as in the tree, in document order.
    pub fn get_symbol_tree(&self) -> (r: Vec<DocumentSymbol>)
        ensures
            syms_view(r@) == symbols_of(self.tree@, self.text_view()),
    {
        let chars = rope_chars(&self.text);
        tree_to_symbols(&self.tree, &chars)
    }
}

fn find_first_def_range(
    es: &Vec<(Linkable, Option<NodeRange>)>,
    i: usize,
    m: &String,
) -> (r: Option<(LinkDestination, NodeRange)>)
    requires
        i <= es.len(),
    ensures
        match r {
            Some(d) => first_def_at(entries_view(es@), i as int, m@) == Some(
                LinkableView::AnchorV { target: Some(d.0@), markup: m@, range: d.1 },
            ),
            None => first_def_at(entries_view(es@), i as int, m@) is None,
        },
    decreases es.len() - i,
{
    if i == es.len() {
        None
    } else {
        proof {
            assert(entries_view(es@)[i as int] == (EntryView { l: es@[i as int].0@, dest: es@[i as int].1 }));
        }
        match &es[i].0 {
            Linkable::Anchor { target: Some(t), markup, range } => {
                if markup.eq(m) {
                    Some((clone_dest(t), *range))
                } else {
                    find_first_def_range(es, i + 1, m)
                }
            },
            _ => find_first_def_range(es, i + 1, m),
        }
    }
}

} // verus!
