//! The grammar of the subset of the markup the analysis reads: headings
//! opening nested sections, ranged tag blocks, and inline links
//! (`{target}` with an optional `[description]`) and anchors
//! (`[markup]` with an optional `{target}`). Parsing always succeeds
//! structurally; text that fits no construct simply produces no node.

use vstd::prelude::*;

use crate::norg::{find_ch, find_ch_exec, imax, star_run, star_run_exec};
use crate::range::NodeRange;
use crate::rope::{pos_at, pos_of, str_chars};
use crate::syntax::{node_view, nodes_view, FieldTag, NodeKind, SpecNode, SyntaxNode};

verus! {

/// The smaller of two integers.
pub open spec fn imin(a: int, b: int) -> int {
    if a <= b {
        a
    } else {
        b
    }
}

/// The extent [a, b) with its (row, column) positions.
pub open spec fn range_of(s: Seq<char>, a: int, b: int) -> NodeRange {
    NodeRange {
        start_offset: a as usize,
        end_offset: b as usize,
        start: pos_of(s, a),
        end: pos_of(s, b),
    }
}

fn mk_range(v: &Vec<char>, a: usize, b: usize) -> (r: NodeRange)
    requires
        a <= b <= v@.len(),
    ensures
        r == range_of(v@, a as int, b as int),
{
    NodeRange { start_offset: a, end_offset: b, start: pos_at(v, a), end: pos_at(v, b) }
}

/// The first index in [i, end) holding `c`, or `end`.
pub open spec fn find_to(s: Seq<char>, i: int, end: int, c: char) -> int
    decreases end - i,
{
    if i < 0 || i >= end || i >= s.len() {
        end
    } else if s[i] == c {
        i
    } else {
        find_to(s, i + 1, end, c)
    }
}

fn find_to_exec(v: &Vec<char>, i: usize, end: usize, c: char) -> (r: usize)
    requires
        i <= end <= v@.len(),
    ensures
        i <= r <= end,
        r as int == find_to(v@, i as int, end as int, c),
    decreases end - i,
{
    if i == end {
        end
    } else if v[i] == c {
        i
    } else {
        find_to_exec(v, i + 1, end, c)
    }
}

/// A target's node kind by its first character: the scope markers open a
/// scoped target, anything else is a raw target.
pub open spec fn target_kind(s: Seq<char>, a: int, b: int) -> NodeKind {
    if a < b && 0 <= a < s.len() && (s[a] == ':' || s[a] == '$' || s[a] == '*' || s[a] == '?') {
        NodeKind::ScopedTarget
    } else {
        NodeKind::RawTarget
    }
}

fn target_kind_exec(v: &Vec<char>, a: usize, b: usize) -> (r: NodeKind)
    requires
        a <= b <= v@.len(),
    ensures
        r == target_kind(v@, a as int, b as int),
{
    if a < b && (v[a] == ':' || v[a] == '$' || v[a] == '*' || v[a] == '?') {
        NodeKind::ScopedTarget
    } else {
        NodeKind::RawTarget
    }
}

// ------------------------------------------------------------------
// Inline constructs.
/// A target child node over [a, b).
pub open spec fn target_node(s: Seq<char>, a: int, b: int) -> SpecNode {
    SpecNode {
        kind: target_kind(s, a, b),
        field: FieldTag::FieldTarget,
        range: range_of(s, a, b),
        children: Seq::empty(),
    }
}

/// A markup child node over [a, b).
pub open spec fn markup_node(s: Seq<char>, a: int, b: int) -> SpecNode {
    SpecNode {
        kind: NodeKind::Markup,
        field: FieldTag::FieldMarkup,
        range: range_of(s, a, b),
        children: Seq::empty(),
    }
}

/// The link starting at the '{' at `i`, whose '}' stands at `k < end`:
/// the node and the offset just after it. A `[description]` right after
/// the braces belongs to the link.
pub open spec fn link_at(s: Seq<char>, i: int, k: int, end: int) -> (SpecNode, int) {
    if k + 1 < end && s[k + 1] == '[' {
        let m = imax(k + 2, find_to(s, k + 2, end, ']'));
        if m < end {
            (
                SpecNode {
                    kind: NodeKind::Link,
                    field: FieldTag::NoField,
                    range: range_of(s, i, m + 1),
                    children: seq![target_node(s, i + 1, k), markup_node(s, k + 2, m)],
                },
                m + 1,
            )
        } else {
            (
                SpecNode {
                    kind: NodeKind::Link,
                    field: FieldTag::NoField,
                    range: range_of(s, i, k + 1),
                    children: seq![target_node(s, i + 1, k)],
                },
                k + 1,
            )
        }
    } else {
        (
            SpecNode {
                kind: NodeKind::Link,
                field: FieldTag::NoField,
                range: range_of(s, i, k + 1),
                children: seq![target_node(s, i + 1, k)],
            },
            k + 1,
        )
    }
}

/// The anchor starting at the '[' at `i`, whose ']' stands at `k < end`:
/// the node and the offset just after it. A `{target}` right after the
/// brackets makes the anchor a definition.
pub open spec fn anchor_at(s: Seq<char>, i: int, k: int, end: int) -> (SpecNode, int) {
    if k + 1 < end && s[k + 1] == '{' {
        let m = imax(k + 2, find_to(s, k + 2, end, '}'));
        if m < end {
            (
                SpecNode {
                    kind: NodeKind::Anchor,
                    field: FieldTag::NoField,
                    range: range_of(s, i, m + 1),
                    children: seq![markup_node(s, i + 1, k), target_node(s, k + 2, m)],
                },
                m + 1,
            )
        } else {
            (
                SpecNode {
                    kind: NodeKind::Anchor,
                    field: FieldTag::NoField,
                    range: range_of(s, i, k + 1),
                    children: seq![markup_node(s, i + 1, k)],
                },
                k + 1,
            )
        }
    } else {
        (
            SpecNode {
                kind: NodeKind::Anchor,
                field: FieldTag::NoField,
                range: range_of(s, i, k + 1),
                children: seq![markup_node(s, i + 1, k)],
            },
            k + 1,
        )
    }
}

/// The inline constructs of [i, end): links and anchors, in text order.
pub open spec fn parse_inline(s: Seq<char>, i: int, end: int) -> Seq<SpecNode>
    decreases end - i,
{
    if !(0 <= i && i < end && end <= s.len()) {
        Seq::empty()
    } else if s[i] == '{' {
        let k = imax(i + 1, find_to(s, i + 1, end, '}'));
        if k >= end {
            parse_inline(s, i + 1, end)
        } else {
            let ln = link_at(s, i, k, end);
            seq![ln.0] + parse_inline(s, ln.1, end)
        }
    } else if s[i] == '[' {
        let k = imax(i + 1, find_to(s, i + 1, end, ']'));
        if k >= end {
            parse_inline(s, i + 1, end)
        } else {
            let an = anchor_at(s, i, k, end);
            seq![an.0] + parse_inline(s, an.1, end)
        }
    } else {
        parse_inline(s, i + 1, end)
    }
}

fn target_node_exec(v: &Vec<char>, a: usize, b: usize) -> (n: SyntaxNode)
    requires
        a <= b <= v@.len(),
    ensures
        n@ == target_node(v@, a as int, b as int),
{
    let n = SyntaxNode {
        kind: target_kind_exec(v, a, b),
        field: FieldTag::FieldTarget,
        range: mk_range(v, a, b),
        children: Vec::new(),
    };
    proof {
        assert(nodes_view(n.children@) =~= Seq::<SpecNode>::empty());
    }
    n
}

fn markup_node_exec(v: &Vec<char>, a: usize, b: usize) -> (n: SyntaxNode)
    requires
        a <= b <= v@.len(),
    ensures
        n@ == markup_node(v@, a as int, b as int),
{
    let n = SyntaxNode {
        kind: NodeKind::Markup,
        field: FieldTag::FieldMarkup,
        range: mk_range(v, a, b),
        children: Vec::new(),
    };
    proof {
        assert(nodes_view(n.children@) =~= Seq::<SpecNode>::empty());
    }
    n
}

fn link_at_exec(v: &Vec<char>, i: usize, k: usize, end: usize) -> (r: (SyntaxNode, usize))
    requires
        i < k < end <= v@.len(),
    ensures
        r.0@ == link_at(v@, i as int, k as int, end as int).0,
        r.1 as int == link_at(v@, i as int, k as int, end as int).1,
        i < r.1 <= end,
{
    let target = target_node_exec(v, i + 1, k);
    let ghost tv = target@;
    if k + 1 < end && v[k + 1] == '[' {
        let m = find_to_exec(v, k + 2, end, ']');
        if m < end {
            let markup = markup_node_exec(v, k + 2, m);
            let ghost mv = markup@;
            let mut ch: Vec<SyntaxNode> = Vec::new();
            ch.push(target);
            ch.push(markup);
            let n = SyntaxNode {
                kind: NodeKind::Link,
                field: FieldTag::NoField,
                range: mk_range(v, i, m + 1),
                children: ch,
            };
            proof {
                assert(nodes_view(n.children@) =~= seq![tv, mv]);
            }
            (n, m + 1)
        } else {
            let mut ch: Vec<SyntaxNode> = Vec::new();
            ch.push(target);
            let n = SyntaxNode {
                kind: NodeKind::Link,
                field: FieldTag::NoField,
                range: mk_range(v, i, k + 1),
                children: ch,
            };
            proof {
                assert(nodes_view(n.children@) =~= seq![tv]);
            }
            (n, k + 1)
        }
    } else {
        let mut ch: Vec<SyntaxNode> = Vec::new();
        ch.push(target);
        let n = SyntaxNode {
            kind: NodeKind::Link,
            field: FieldTag::NoField,
            range: mk_range(v, i, k + 1),
            children: ch,
        };
        proof {
            assert(nodes_view(n.children@) =~= seq![tv]);
        }
        (n, k + 1)
    }
}

fn anchor_at_exec(v: &Vec<char>, i: usize, k: usize, end: usize) -> (r: (SyntaxNode, usize))
    requires
        i < k < end <= v@.len(),
    ensures
        r.0@ == anchor_at(v@, i as int, k as int, end as int).0,
        r.1 as int == anchor_at(v@, i as int, k as int, end as int).1,
        i < r.1 <= end,
{
    let markup = markup_node_exec(v, i + 1, k);
    let ghost mv = markup@;
    if k + 1 < end && v[k + 1] == '{' {
        let m = find_to_exec(v, k + 2, end, '}');
        if m < end {
            let target = target_node_exec(v, k + 2, m);
            let ghost tv = target@;
            let mut ch: Vec<SyntaxNode> = Vec::new();
            ch.push(markup);
            ch.push(target);
            let n = SyntaxNode {
                kind: NodeKind::Anchor,
                field: FieldTag::NoField,
                range: mk_range(v, i, m + 1),
                children: ch,
            };
            proof {
                assert(nodes_view(n.children@) =~= seq![mv, tv]);
            }
            (n, m + 1)
        } else {
            let mut ch: Vec<SyntaxNode> = Vec::new();
            ch.push(markup);
            let n = SyntaxNode {
                kind: NodeKind::Anchor,
                field: FieldTag::NoField,
                range: mk_range(v, i, k + 1),
                children: ch,
            };
            proof {
                assert(nodes_view(n.children@) =~= seq![mv]);
            }
            (n, k + 1)
        }
    } else {
        let mut ch: Vec<SyntaxNode> = Vec::new();
        ch.push(markup);
        let n = SyntaxNode {
            kind: NodeKind::Anchor,
            field: FieldTag::NoField,
            range: mk_range(v, i, k + 1),
            children: ch,
        };
        proof {
            assert(nodes_view(n.children@) =~= seq![mv]);
        }
        (n, k + 1)
    }
}

#[verifier::rlimit(100)]
#[verifier::spinoff_prover]
fn parse_inline_exec(v: &Vec<char>, i: usize, end: usize) -> (r: Vec<SyntaxNode>)
    requires
        i <= end <= v@.len(),
    ensures
        nodes_view(r@) == parse_inline(v@, i as int, end as int),
    decreases end - i,
{
    if i >= end {
        let out: Vec<SyntaxNode> = Vec::new();
        proof {
            assert(nodes_view(out@) =~= parse_inline(v@, i as int, end as int));
        }
        out
    } else if v[i] == '{' {
        let k = find_to_exec(v, i + 1, end, '}');
        if k >= end {
            parse_inline_exec(v, i + 1, end)
        } else {
            let (node, next) = link_at_exec(v, i, k, end);
            let rest = parse_inline_exec(v, next, end);
            let ghost restv = rest@;
            let mut out = rest;
            out.insert(0, node);
            proof {
                assert(nodes_view(out@) =~= seq![node_view(node)] + nodes_view(restv));
            }
            out
        }
    } else if v[i] == '[' {
        let k = find_to_exec(v, i + 1, end, ']');
        if k >= end {
            parse_inline_exec(v, i + 1, end)
        } else {
            let (node, next) = anchor_at_exec(v, i, k, end);
            let rest = parse_inline_exec(v, next, end);
            let ghost restv = rest@;
            let mut out = rest;
            out.insert(0, node);
            proof {
                assert(nodes_view(out@) =~= seq![node_view(node)] + nodes_view(restv));
            }
            out
        }
    } else {
        parse_inline_exec(v, i + 1, end)
    }
}

// ------------------------------------------------------------------
// Blocks: headings opening sections, ranged tags, paragraphs.
/// The heading level of the line [i, e): the length of the leading '*'
/// run when a space follows it, else 0.
pub open spec fn heading_level(s: Seq<char>, i: int, e: int) -> int {
    let r = star_run(s, i, e);
    if r >= 1 && i + r < e && s[i + r] == ' ' {
        r
    } else {
        0
    }
}

fn heading_level_exec(v: &Vec<char>, i: usize, e: usize) -> (r: usize)
    requires
        i <= e <= v@.len(),
    ensures
        r as int == heading_level(v@, i as int, e as int),
        r > 0 ==> i + r + 1 <= e,
{
    let run = star_run_exec(v, i, e);
    if run >= 1 && e - (i + run) > 0 && v[i + run] == ' ' {
        run
    } else {
        0
    }
}

/// Whether the line [i, e) is exactly `@end`.
pub open spec fn is_tag_end(s: Seq<char>, i: int, e: int) -> bool {
    &&& 0 <= i
    &&& e <= s.len()
    &&& e - i == 4
    &&& s[i] == '@'
    &&& s[i + 1] == 'e'
    &&& s[i + 2] == 'n'
    &&& s[i + 3] == 'd'
}

fn is_tag_end_exec(v: &Vec<char>, i: usize, e: usize) -> (r: bool)
    requires
        i <= e <= v@.len(),
    ensures
        r == is_tag_end(v@, i as int, e as int),
{
    e - i == 4 && v[i] == '@' && v[i + 1] == 'e' && v[i + 2] == 'n' && v[i + 3] == 'd'
}

/// Whether the line [i, e) opens a ranged tag: it starts with '@' and is
/// not the closing `@end` line.
pub open spec fn is_tag_start(s: Seq<char>, i: int, e: int) -> bool {
    0 <= i < e <= s.len() && s[i] == '@' && !is_tag_end(s, i, e)
}

/// The line start just after the closing `@end` line at or after
/// line-start `i`, or the end of the text.
pub open spec fn tag_block_end(s: Seq<char>, i: int) -> int
    decreases s.len() - i,
{
    if !(0 <= i < s.len()) {
        s.len() as int
    } else {
        let e = imax(i, find_ch(s, i, '\n'));
        let nxt = if e < s.len() {
            e + 1
        } else {
            s.len() as int
        };
        if is_tag_end(s, i, e) {
            nxt
        } else {
            tag_block_end(s, nxt)
        }
    }
}

fn tag_block_end_exec(v: &Vec<char>, i: usize) -> (r: usize)
    requires
        i <= v@.len(),
    ensures
        i <= r <= v@.len(),
        r as int == tag_block_end(v@, i as int),
    decreases v@.len() - i,
{
    if i == v.len() {
        i
    } else {
        let e = find_ch_exec(v, i, '\n');
        let nxt = if e < v.len() {
            e + 1
        } else {
            v.len()
        };
        if is_tag_end_exec(v, i, e) {
            nxt
        } else {
            tag_block_end_exec(v, nxt)
        }
    }
}

/// The title child of a heading line [i, e) with level `hl`.
pub open spec fn title_node(s: Seq<char>, i: int, e: int, hl: int) -> SpecNode {
    SpecNode {
        kind: NodeKind::Title,
        field: FieldTag::FieldTitle,
        range: range_of(s, i + hl + 1, e),
        children: parse_inline(s, i + hl + 1, e),
    }
}

/// The heading child of a section: the heading line [i, e) with its
/// title.
pub open spec fn heading_node(s: Seq<char>, i: int, e: int, hl: int) -> SpecNode {
    SpecNode {
        kind: NodeKind::Heading,
        field: FieldTag::FieldHeading,
        range: range_of(s, i, e),
        children: seq![title_node(s, i, e, hl)],
    }
}

/// A section node: from its heading line [i, e) of level `hl` through
/// `j`, with the blocks under it.
pub open spec fn section_node(
    s: Seq<char>,
    i: int,
    e: int,
    hl: int,
    j: int,
    inner: Seq<SpecNode>,
) -> SpecNode {
    SpecNode {
        kind: NodeKind::Section,
        field: FieldTag::NoField,
        range: range_of(s, i, j),
        children: seq![heading_node(s, i, e, hl)] + inner,
    }
}

/// A ranged tag node from its opening line [i, e) through `jj`, with the
/// tag name after the '@' as its title child.
pub open spec fn tag_node(s: Seq<char>, i: int, e: int, jj: int) -> SpecNode {
    SpecNode {
        kind: NodeKind::RangedTag,
        field: FieldTag::NoField,
        range: range_of(s, i, jj),
        children: seq![
            SpecNode {
                kind: NodeKind::Title,
                field: FieldTag::FieldTitle,
                range: range_of(s, i + 1, e),
                children: Seq::empty(),
            },
        ],
    }
}

/// A paragraph node over the line [i, e), holding its inline constructs.
pub open spec fn para_node(s: Seq<char>, i: int, e: int) -> SpecNode {
    SpecNode {
        kind: NodeKind::Paragraph,
        field: FieldTag::NoField,
        range: range_of(s, i, e),
        children: parse_inline(s, i, e),
    }
}

fn section_node_exec(
    v: &Vec<char>,
    i: usize,
    e: usize,
    hl: usize,
    j: usize,
    inner: Vec<SyntaxNode>,
) -> (n: SyntaxNode)
    requires
        i + hl + 1 <= e <= v@.len(),
        i <= j <= v@.len(),
        hl >= 1,
    ensures
        n@ == section_node(v@, i as int, e as int, hl as int, j as int, nodes_view(inner@)),
{
    let title = SyntaxNode {
        kind: NodeKind::Title,
        field: FieldTag::FieldTitle,
        range: mk_range(v, i + hl + 1, e),
        children: parse_inline_exec(v, i + hl + 1, e),
    };
    let ghost titlev = title@;
    let mut hch: Vec<SyntaxNode> = Vec::new();
    hch.push(title);
    let heading = SyntaxNode {
        kind: NodeKind::Heading,
        field: FieldTag::FieldHeading,
        range: mk_range(v, i, e),
        children: hch,
    };
    let ghost headingv = heading@;
    let ghost innerv = inner@;
    let mut sch: Vec<SyntaxNode> = Vec::new();
    sch.push(heading);
    let mut inner = inner;
    sch.append(&mut inner);
    let n = SyntaxNode {
        kind: NodeKind::Section,
        field: FieldTag::NoField,
        range: mk_range(v, i, j),
        children: sch,
    };
    proof {
        assert(titlev == title_node(v@, i as int, e as int, hl as int));
        assert(nodes_view(heading.children@) =~= seq![titlev]);
        assert(headingv == heading_node(v@, i as int, e as int, hl as int));
        assert(nodes_view(n.children@) =~= seq![headingv] + nodes_view(innerv));
    }
    n
}

fn tag_node_exec(v: &Vec<char>, i: usize, e: usize, jj: usize) -> (n: SyntaxNode)
    requires
        i < e <= v@.len(),
        i <= jj <= v@.len(),
    ensures
        n@ == tag_node(v@, i as int, e as int, jj as int),
{
    let name = SyntaxNode {
        kind: NodeKind::Title,
        field: FieldTag::FieldTitle,
        range: mk_range(v, i + 1, e),
        children: Vec::new(),
    };
    let ghost namev = name@;
    let mut tch: Vec<SyntaxNode> = Vec::new();
    tch.push(name);
    let n = SyntaxNode {
        kind: NodeKind::RangedTag,
        field: FieldTag::NoField,
        range: mk_range(v, i, jj),
        children: tch,
    };
    proof {
        assert(nodes_view(name.children@) =~= Seq::<SpecNode>::empty());
        assert(nodes_view(n.children@) =~= seq![namev]);
    }
    n
}

fn para_node_exec(v: &Vec<char>, i: usize, e: usize) -> (n: SyntaxNode)
    requires
        i <= e <= v@.len(),
    ensures
        n@ == para_node(v@, i as int, e as int),
{
    SyntaxNode {
        kind: NodeKind::Paragraph,
        field: FieldTag::NoField,
        range: mk_range(v, i, e),
        children: parse_inline_exec(v, i, e),
    }
}

/// The blocks from line-start `i` under a section of heading level
/// `lvl`, together with the offset where they stop: the end of the text,
/// or the start of the first heading line of level at most `lvl`.
pub open spec fn parse_blocks(s: Seq<char>, i: int, lvl: int) -> (Seq<SpecNode>, int)
    decreases s.len() - i,
{
    if !(0 <= i < s.len()) {
        (Seq::empty(), i)
    } else {
        let e = imax(i, find_ch(s, i, '\n'));
        let nxt = if e < s.len() {
            e + 1
        } else {
            s.len() as int
        };
        let hl = heading_level(s, i, e);
        if hl >= 1 && hl <= lvl {
            (Seq::empty(), i)
        } else if hl >= 1 {
            let inner = parse_blocks(s, nxt, hl);
            let j = imin(s.len() as int, imax(nxt, inner.1));
            let rest = parse_blocks(s, j, lvl);
            (seq![section_node(s, i, e, hl, j, inner.0)] + rest.0, rest.1)
        } else if is_tag_start(s, i, e) {
            let jj = imin(s.len() as int, imax(nxt, tag_block_end(s, i)));
            let rest = parse_blocks(s, jj, lvl);
            (seq![tag_node(s, i, e, jj)] + rest.0, rest.1)
        } else {
            let rest = parse_blocks(s, nxt, lvl);
            (seq![para_node(s, i, e)] + rest.0, rest.1)
        }
    }
}

/// The facts the block-branch helpers carry about the current line: `e`
/// is the line's end, `nxt` the next line's start, `hl` the heading
/// level.
pub open spec fn line_facts(s: Seq<char>, i: int, e: int, nxt: int, hl: int) -> bool {
    &&& 0 <= i < s.len()
    &&& e == imax(i, find_ch(s, i, '\n'))
    &&& i <= e <= s.len()
    &&& nxt == (if e < s.len() {
        e + 1
    } else {
        s.len() as int
    })
    &&& hl == heading_level(s, i, e)
}

#[verifier::rlimit(100)]
#[verifier::spinoff_prover]
fn parse_blocks_exec(v: &Vec<char>, i: usize, lvl: usize) -> (r: (Vec<SyntaxNode>, usize))
    requires
        i <= v@.len(),
    ensures
        nodes_view(r.0@) == parse_blocks(v@, i as int, lvl as int).0,
        r.1 as int == parse_blocks(v@, i as int, lvl as int).1,
        i <= r.1 <= v@.len(),
    decreases v@.len() - i, 3int,
{
    if i == v.len() {
        let out: Vec<SyntaxNode> = Vec::new();
        proof {
            assert(nodes_view(out@) =~= parse_blocks(v@, i as int, lvl as int).0);
        }
        (out, i)
    } else {
        let e = find_ch_exec(v, i, '\n');
        let nxt = if e < v.len() {
            e + 1
        } else {
            v.len()
        };
        let hl = heading_level_exec(v, i, e);
        if hl >= 1 && hl <= lvl {
            let out: Vec<SyntaxNode> = Vec::new();
            proof {
                assert(nodes_view(out@) =~= parse_blocks(v@, i as int, lvl as int).0);
            }
            (out, i)
        } else if hl >= 1 {
            blocks_heading_branch(v, i, e, nxt, hl, lvl)
        } else if i < e && v[i] == '@' && !is_tag_end_exec(v, i, e) {
            blocks_tag_branch(v, i, e, nxt, lvl)
        } else {
            blocks_para_branch(v, i, e, nxt, lvl)
        }
    }
}

#[verifier::rlimit(100)]
#[verifier::spinoff_prover]
fn blocks_heading_branch(v: &Vec<char>, i: usize, e: usize, nxt: usize, hl: usize, lvl: usize) -> (r: (
    Vec<SyntaxNode>,
    usize,
))
    requires
        line_facts(v@, i as int, e as int, nxt as int, hl as int),
        nxt <= v@.len(),
        hl >= 1,
        !(hl <= lvl),
        i + hl + 1 <= e,
    ensures
        nodes_view(r.0@) == parse_blocks(v@, i as int, lvl as int).0,
        r.1 as int == parse_blocks(v@, i as int, lvl as int).1,
        i <= r.1 <= v@.len(),
    decreases v@.len() - i, 2int,
{
    let (inner, j) = parse_blocks_exec(v, nxt, hl);
    let ghost innerv = inner@;
    let section = section_node_exec(v, i, e, hl, j, inner);
    let (rest, endi) = parse_blocks_exec(v, j, lvl);
    let ghost restv = rest@;
    let mut out = rest;
    out.insert(0, section);
    proof {
        assert(nodes_view(out@) =~= seq![node_view(section)] + nodes_view(restv));
    }
    (out, endi)
}

#[verifier::rlimit(100)]
#[verifier::spinoff_prover]
fn blocks_tag_branch(v: &Vec<char>, i: usize, e: usize, nxt: usize, lvl: usize) -> (r: (
    Vec<SyntaxNode>,
    usize,
))
    requires
        line_facts(v@, i as int, e as int, nxt as int, heading_level(v@, i as int, e as int)),
        nxt <= v@.len(),
        heading_level(v@, i as int, e as int) == 0,
        is_tag_start(v@, i as int, e as int),
    ensures
        nodes_view(r.0@) == parse_blocks(v@, i as int, lvl as int).0,
        r.1 as int == parse_blocks(v@, i as int, lvl as int).1,
        i <= r.1 <= v@.len(),
    decreases v@.len() - i, 2int,
{
    let j = tag_block_end_exec(v, i);
    let jj = if j < nxt {
        nxt
    } else {
        j
    };
    let tag = tag_node_exec(v, i, e, jj);
    let (rest, endi) = parse_blocks_exec(v, jj, lvl);
    let ghost restv = rest@;
    let mut out = rest;
    out.insert(0, tag);
    proof {
        assert(nodes_view(out@) =~= seq![node_view(tag)] + nodes_view(restv));
    }
    (out, endi)
}

#[verifier::rlimit(100)]
#[verifier::spinoff_prover]
fn blocks_para_branch(v: &Vec<char>, i: usize, e: usize, nxt: usize, lvl: usize) -> (r: (
    Vec<SyntaxNode>,
    usize,
))
    requires
        line_facts(v@, i as int, e as int, nxt as int, heading_level(v@, i as int, e as int)),
        nxt <= v@.len(),
        heading_level(v@, i as int, e as int) == 0,
        !is_tag_start(v@, i as int, e as int),
    ensures
        nodes_view(r.0@) == parse_blocks(v@, i as int, lvl as int).0,
        r.1 as int == parse_blocks(v@, i as int, lvl as int).1,
        i <= r.1 <= v@.len(),
    decreases v@.len() - i, 2int,
{
    let para = para_node_exec(v, i, e);
    let (rest, endi) = parse_blocks_exec(v, nxt, lvl);
    let ghost restv = rest@;
    let mut out = rest;
    out.insert(0, para);
    proof {
        assert(nodes_view(out@) =~= seq![node_view(para)] + nodes_view(restv));
    }
    (out, endi)
}

/// The whole document's tree: a document node covering the text, with
/// the blocks as children.
pub open spec fn parse_doc(s: Seq<char>) -> SpecNode {
    SpecNode {
        kind: NodeKind::Document,
        field: FieldTag::NoField,
        range: range_of(s, 0, s.len() as int),
        children: parse_blocks(s, 0, 0).0,
    }
}

/// Parses a document from its characters.
pub fn parse_norg_chars(v: &Vec<char>) -> (t: SyntaxNode)
    ensures
        t@ == parse_doc(v@),
{
    let (children, _) = parse_blocks_exec(v, 0, 0);
    SyntaxNode {
        kind: NodeKind::Document,
        field: FieldTag::NoField,
        range: mk_range(v, 0, v.len()),
        children,
    }
}

/// Parses a document. Parsing always succeeds structurally: text that
/// fits no construct simply produces no node.
pub fn parse_norg(text: &str) -> (t: SyntaxNode)
    ensures
        t@ == parse_doc(text@),
{
    let v = str_chars(text);
    parse_norg_chars(&v)
}

} // verus!
