//! Resolution and cross-reference queries: following a destination to a
//! concrete location, go-to-definition, find-references over the
//! workspace, and the rename rewrite.

use vstd::prelude::*;
use vstd::string::*;

use crate::document::{
    first_def_at, linkable_entries, rl_views, Document, RlView,
};
use crate::norg::{
    dest_of_node_text, node_bounds_ok, node_text, DestView, LinkDestination,
    LinkableView, LwView,
};
use crate::range::{Position, Range};
use crate::rope::{chars_to_string, rope_chars, str_chars};
use crate::session::{lookup_doc, Session};
use crate::syntax::{classify_for_decl, find_field, FieldTag, SpecSyntax, Syntax, SyntaxNode};
use crate::uri::{url_join_of, url_join_str, url_norm, url_parse_norm};
use crate::workspace::Workspace;

verus! {

/// A concrete location: a document URI and a range in it. Two locations
/// are equal exactly when both parts are.
#[derive(Debug, Clone, PartialEq)]
pub struct Location {
    pub uri: String,
    pub range: Range,
}

pub ghost struct LocView {
    pub uri: Seq<char>,
    pub range: Range,
}

impl View for Location {
    type V = LocView;

    open spec fn view(&self) -> LocView {
        LocView { uri: self.uri@, range: self.range }
    }
}

/// The views of a sequence of locations.
pub open spec fn loc_views(ls: Seq<Location>) -> Seq<LocView> {
    Seq::new(
        ls.len(),
        |i: int|
            if 0 <= i < ls.len() {
                ls[i]@
            } else {
                arbitrary()
            },
    )
}

/// Why a destination yields no location.
#[derive(Debug, Clone, Copy, PartialEq, Eq, Structural)]
pub enum ResolveError {
    /// No target: the URI does not parse, the join fails, or no
    /// workspace is available.
    NotFound,
    /// The destination form is not supported: a named-workspace root, or
    /// a pure in-file scope.
    Unsupported,
}

/// One replacement of a text range in a document.
#[derive(Debug, Clone, PartialEq)]
pub struct TextEdit {
    pub range: Range,
    pub new_text: String,
}

pub ghost struct TeView {
    pub range: Range,
    pub new_text: Seq<char>,
}

impl View for TextEdit {
    type V = TeView;

    open spec fn view(&self) -> TeView {
        TeView { range: self.range, new_text: self.new_text@ }
    }
}

pub open spec fn te_views(ls: Seq<TextEdit>) -> Seq<TeView> {
    Seq::new(
        ls.len(),
        |i: int|
            if 0 <= i < ls.len() {
                ls[i]@
            } else {
                arbitrary()
            },
    )
}

/// The zero-width range at the document start.
pub open spec fn zero_range() -> Range {
    Range {
        start: Position { row: 0, column: 0 },
        end: Position { row: 0, column: 0 },
    }
}

/// A path with the format's file extension appended when absent.
pub open spec fn norg_suffixed(p: Seq<char>) -> Seq<char> {
    if p.len() >= 4 && p.subrange(p.len() - 4, p.len() as int) == seq!['n', 'o', 'r', 'g'] {
        p
    } else {
        p + seq!['.', 'n', 'o', 'r', 'g']
    }
}

/// Where a destination leads from an origin document, under an optional
/// current workspace. In priority order: an opaque URI parses as an
/// absolute URL; a rootless file path joins onto the origin; a
/// current-workspace path joins onto the workspace root; a
/// named-workspace root and a pure in-file scope are unsupported. A
/// found file gets the zero-width range at its start.
pub open spec fn resolve_spec(
    ws: Option<Workspace>,
    origin: Seq<char>,
    d: DestView,
) -> Result<LocView, ResolveError> {
    match d {
        DestView::UriV(u) => match url_norm(u) {
            Some(t) => Ok(LocView { uri: t, range: zero_range() }),
            None => Err(ResolveError::NotFound),
        },
        DestView::ScopedV { file: Some(f), .. } => {
            let real_path = norg_suffixed(f.path);
            match f.root {
                None => match url_join_of(origin, real_path) {
                    Some(t) => Ok(LocView { uri: t, range: zero_range() }),
                    None => Err(ResolveError::NotFound),
                },
                Some(LwView::CurrentV) => match ws {
                    Some(w) => match url_join_of(w.path@, real_path) {
                        Some(t) => Ok(LocView { uri: t, range: zero_range() }),
                        None => Err(ResolveError::NotFound),
                    },
                    None => Err(ResolveError::NotFound),
                },
                Some(LwView::WorkspaceV(_)) => Err(ResolveError::Unsupported),
            }
        },
        DestView::ScopedV { file: None, .. } => Err(ResolveError::Unsupported),
    }
}

fn norg_suffixed_exec(p: &String) -> (r: String)
    ensures
        r@ == norg_suffixed(p@),
{
    let v = str_chars(p.as_str());
    let n = v.len();
    let has = n >= 4 && v[n - 4] == 'n' && v[n - 3] == 'o' && v[n - 2] == 'r' && v[n - 1] == 'g';
    if has {
        proof {
            assert(p@.subrange(p@.len() - 4, p@.len() as int) =~= seq!['n', 'o', 'r', 'g']);
        }
        p.clone()
    } else {
        proof {
            if p@.len() >= 4 && p@.subrange(p@.len() - 4, p@.len() as int) == seq![
                'n',
                'o',
                'r',
                'g',
            ] {
                assert(p@[p@.len() - 4] == 'n');
            }
            reveal_strlit(".norg");
        }
        let mut s = p.clone();
        s.append(".norg");
        proof {
            assert(s@ =~= norg_suffixed(p@));
        }
        s
    }
}

/// Follows a destination from an origin document to a concrete
/// location, using the session's workspace for workspace-rooted paths.
/// The result is exactly what the resolution rules give: an error never
/// becomes a panic.
pub fn follow_link_target(session: &Session, origin: &String, target: &LinkDestination) -> (r:
    Result<Location, ResolveError>)
    ensures
        match r {
            Ok(loc) => resolve_spec(session.spec_workspace(), origin@, target@) == Ok::<
                LocView,
                ResolveError,
            >(loc@),
            Err(e) => resolve_spec(session.spec_workspace(), origin@, target@) == Err::<
                LocView,
                ResolveError,
            >(e),
        },
{
    let zero = Range {
        start: Position { row: 0, column: 0 },
        end: Position { row: 0, column: 0 },
    };
    match target {
        LinkDestination::Uri(u) => match url_parse_norm(u.as_str()) {
            Some(t) => Ok(Location { uri: t, range: zero }),
            None => Err(ResolveError::NotFound),
        },
        LinkDestination::Scoped { file: Some(f), .. } => {
            let real_path = norg_suffixed_exec(&f.path);
            match &f.root {
                None => match url_join_str(origin.as_str(), real_path.as_str()) {
                    Some(t) => Ok(Location { uri: t, range: zero }),
                    None => Err(ResolveError::NotFound),
                },
                Some(crate::norg::LinkWorkspace::Current) => match session.workspace_ref() {
                    Some(w) => match url_join_str(w.path.as_str(), real_path.as_str()) {
                        Some(t) => Ok(Location { uri: t, range: zero }),
                        None => Err(ResolveError::NotFound),
                    },
                    None => Err(ResolveError::NotFound),
                },
                Some(crate::norg::LinkWorkspace::Workspace(_)) => Err(ResolveError::Unsupported),
            }
        },
        LinkDestination::Scoped { file: None, .. } => Err(ResolveError::Unsupported),
    }
}

/// Whether two locations name the same place.
pub fn same_location(a: &Location, b: &Location) -> (r: bool)
    ensures
        r == (a@ == b@),
{
    a.uri.eq(&b.uri) && a.range == b.range
}

/// The definition a position leads to, as the resolution rules give it:
/// from a link or anchor definition, its destination resolved; from an
/// anchor reference, the extent of the first anchor definition in
/// document order sharing its markup; from anything else, nothing.
pub open spec fn definition_spec(
    d: Document,
    ws: Option<Workspace>,
    uri: Seq<char>,
    pos: Position,
) -> Option<LocView> {
    let s = d.text_view();
    match crate::syntax::classify_at_spec(d.tree@, pos) {
        None => None,
        Some(SpecSyntax::SectionV(_)) => None,
        Some(SpecSyntax::LinkV(n)) => definition_from_target(n, d, ws, uri),
        Some(SpecSyntax::AnchorDefV(n)) => definition_from_target(n, d, ws, uri),
        Some(SpecSyntax::AnchorRefV(n)) => match find_field(n.children, FieldTag::FieldMarkup) {
            None => None,
            Some(m) => if !node_bounds_ok(m, s.len() as int) {
                None
            } else {
                match first_def_at(linkable_entries(d.tree@, s), 0, node_text(m, s)) {
                    Some(LinkableView::AnchorV { range, .. }) => Some(
                        LocView { uri, range: Range { start: range.start, end: range.end } },
                    ),
                    _ => None,
                }
            },
        },
    }
}

/// The location a construct's own target field resolves to, if it has
/// one that lies within the text, parses, and resolves.
pub open spec fn definition_from_target(
    n: crate::syntax::SpecNode,
    d: Document,
    ws: Option<Workspace>,
    uri: Seq<char>,
) -> Option<LocView> {
    let s = d.text_view();
    match find_field(n.children, FieldTag::FieldTarget) {
        None => None,
        Some(t) => if !node_bounds_ok(t, s.len() as int) {
            None
        } else {
            match dest_of_node_text(t.kind, node_text(t, s)) {
                None => None,
                Some(dv) => match resolve_spec(ws, uri, dv) {
                    Ok(loc) => Some(loc),
                    Err(_) => None,
                },
            }
        },
    }
}

/// Go-to-definition: finds the construct at the position in the open
/// document and follows it. Without a current workspace the query is
/// unsupported and the result absent; anything else that cannot produce
/// a location is an absent result too, never a panic.
pub fn definition(session: &Session, uri: &String, pos: Position) -> (r: Option<Vec<Location>>)
    ensures
        match session.spec_workspace() {
            None => r is None,
            Some(_) => match session.spec_get(uri@) {
                None => r is None,
                Some(d) => match r {
                    Some(locs) => definition_spec(d, session.spec_workspace(), uri@, pos)
                        matches Some(lv) && loc_views(locs@) == seq![lv],
                    None => definition_spec(d, session.spec_workspace(), uri@, pos) is None,
                },
            },
        },
{
    if session.workspace_ref().is_none() {
        return None;
    }
    let doc = match session.get_document(uri) {
        Some(d) => d,
        None => {
            return None;
        },
    };
    let chars = rope_chars(&doc.text);
    let syntax = match classify_for_decl(&doc.tree, pos) {
        Some(s) => s,
        None => {
            return None;
        },
    };
    let loc: Option<Location> = match syntax {
        Syntax::Link(node) => definition_from_target_exec(node, &chars, session, uri),
        Syntax::AnchorDefinition(node) => definition_from_target_exec(node, &chars, session, uri),
        Syntax::AnchorReference(node) => {
            match node.child_by_field(FieldTag::FieldMarkup) {
                None => None,
                Some(m) => {
                    if !(m.range.start_offset <= m.range.end_offset && m.range.end_offset
                        <= chars.len()) {
                        None
                    } else {
                        let markup = chars_to_string(
                            &crate::norg::slice_chars(
                                &chars,
                                m.range.start_offset,
                                m.range.end_offset,
                            ),
                        );
                        match doc.find_anchor_definition(&markup) {
                            Some(p) => Some(
                                Location { uri: uri.clone(), range: p.1.to_range() },
                            ),
                            None => None,
                        }
                    }
                },
            }
        },
        Syntax::Section(_) => None,
    };
    match loc {
        Some(l) => {
            let ghost lv = l@;
            let mut out: Vec<Location> = Vec::new();
            out.push(l);
            proof {
                assert(loc_views(out@) =~= seq![lv]);
            }
            Some(out)
        },
        None => None,
    }
}

fn definition_from_target_exec(
    node: &SyntaxNode,
    chars: &Vec<char>,
    session: &Session,
    uri: &String,
) -> (r: Option<Location>)
    ensures
        ({
            let s = chars@;
            let res = ({
                match find_field(node@.children, FieldTag::FieldTarget) {
                    None => None,
                    Some(t) => if !node_bounds_ok(t, s.len() as int) {
                        None
                    } else {
                        match dest_of_node_text(t.kind, node_text(t, s)) {
                            None => None,
                            Some(dv) => match resolve_spec(session.spec_workspace(), uri@, dv) {
                                Ok(loc) => Some(loc),
                                Err(_) => None,
                            },
                        }
                    },
                }
            });
            match r {
                Some(l) => res == Some(l@),
                None => res is None,
            }
        }),
{
    let target_node = match node.child_by_field(FieldTag::FieldTarget) {
        Some(t) => t,
        None => {
            return None;
        },
    };
    if !(target_node.range.start_offset <= target_node.range.end_offset
        && target_node.range.end_offset <= chars.len()) {
        return None;
    }
    let target = match LinkDestination::try_from_node(target_node, chars) {
        Ok(d) => d,
        Err(_) => {
            return None;
        },
    };
    match follow_link_target(session, uri, &target) {
        Ok(loc) => Some(loc),
        Err(_) => None,
    }
}

// ------------------------------------------------------------------
// Workspace-wide reference search.
/// The references to `target` among a document's links from `j` on: the
/// locations of exactly those links whose destination resolves to
/// `target`.
pub open spec fn doc_refs(
    ws: Option<Workspace>,
    uri: Seq<char>,
    links: Seq<RlView>,
    j: int,
    target: LocView,
) -> Seq<LocView>
    decreases links.len() - j,
{
    if !(0 <= j < links.len()) {
        Seq::empty()
    } else {
        let own: Seq<LocView> = if resolve_spec(ws, uri, links[j].target) == Ok::<
            LocView,
            ResolveError,
        >(target) {
            seq![
                LocView {
                    uri,
                    range: Range { start: links[j].range.start, end: links[j].range.end },
                },
            ]
        } else {
            Seq::empty()
        };
        own + doc_refs(ws, uri, links, j + 1, target)
    }
}

/// The document the scan uses for a member file: the open copy when the
/// session has one, else the one read from disk.
pub open spec fn scan_doc(sess: Session, uri: Seq<char>, fallback: Document) -> Document {
    match lookup_doc(sess.docs(), uri) {
        Some(d) => d,
        None => fallback,
    }
}

/// The references to `target` across the member documents from `i` on,
/// in corpus order.
pub open spec fn scan_refs(
    sess: Session,
    corpus: Seq<(String, Document)>,
    i: int,
    target: LocView,
) -> Seq<LocView>
    decreases corpus.len() - i,
{
    if !(0 <= i < corpus.len()) {
        Seq::empty()
    } else {
        let d = scan_doc(sess, corpus[i].0@, corpus[i].1);
        doc_refs(sess.spec_workspace(), corpus[i].0@, rl_views(d.links@), 0, target) + scan_refs(
            sess,
            corpus,
            i + 1,
            target,
        )
    }
}

fn doc_refs_exec(
    session: &Session,
    uri: &String,
    links: &Vec<crate::document::ResolvedLinkable>,
    j: usize,
    target: &Location,
) -> (r: Vec<Location>)
    requires
        j <= links.len(),
    ensures
        loc_views(r@) == doc_refs(session.spec_workspace(), uri@, rl_views(links@), j as int, target@),
    decreases links.len() - j,
{
    if j == links.len() {
        let out: Vec<Location> = Vec::new();
        proof {
            assert(loc_views(out@) =~= doc_refs(
                session.spec_workspace(),
                uri@,
                rl_views(links@),
                j as int,
                target@,
            ));
        }
        out
    } else {
        proof {
            assert(rl_views(links@)[j as int] == links@[j as int]@);
        }
        let own: Option<Location> = match follow_link_target(session, uri, &links[j].target) {
            Ok(loc) => {
                let here = Location { uri: uri.clone(), range: links[j].range.to_range() };
                if same_location(&loc, target) {
                    Some(here)
                } else {
                    None
                }
            },
            Err(_) => None,
        };
        let rest = doc_refs_exec(session, uri, links, j + 1, target);
        let ghost restv = rest@;
        match own {
            Some(l) => {
                let ghost lv = l@;
                let mut out = rest;
                out.insert(0, l);
                proof {
                    assert(loc_views(out@) =~= seq![lv] + loc_views(restv));
                }
                out
            },
            None => rest,
        }
    }
}

/// Lists every location in the workspace corpus whose link resolves to
/// `target`: for each member document (preferring the session's open
/// copy) each link that resolves to `target` contributes its own
/// location, in corpus and document order.
pub fn list_references(
    session: &Session,
    corpus: &Vec<(String, Document)>,
    target: &Location,
) -> (r: Vec<Location>)
    ensures
        loc_views(r@) == scan_refs(*session, corpus@, 0, target@),
{
    list_references_from(session, corpus, 0, target)
}

fn list_references_from(
    session: &Session,
    corpus: &Vec<(String, Document)>,
    i: usize,
    target: &Location,
) -> (r: Vec<Location>)
    requires
        i <= corpus.len(),
    ensures
        loc_views(r@) == scan_refs(*session, corpus@, i as int, target@),
    decreases corpus.len() - i,
{
    if i == corpus.len() {
        let out: Vec<Location> = Vec::new();
        proof {
            assert(loc_views(out@) =~= scan_refs(*session, corpus@, i as int, target@));
        }
        out
    } else {
        let uri = &corpus[i].0;
        let doc = match session.get_document(uri) {
            Some(d) => d,
            None => &corpus[i].1,
        };
        let own = doc_refs_exec(session, uri, &doc.links, 0, target);
        let rest = list_references_from(session, corpus, i + 1, target);
        let ghost ownv = own@;
        let ghost restv = rest@;
        let mut own = own;
        let mut rest = rest;
        own.append(&mut rest);
        proof {
            assert(loc_views(own@) =~= loc_views(ownv) + loc_views(restv));
        }
        own
    }
}

/// The place the construct at the position stands for, when asking for
/// its references: a link or anchor definition resolves its target; a
/// section is itself the target; an anchor reference has none.
pub open spec fn origin_loc_spec(
    d: Document,
    ws: Option<Workspace>,
    uri: Seq<char>,
    pos: Position,
) -> Option<LocView> {
    match crate::syntax::classify_at_spec(d.tree@, pos) {
        None => None,
        Some(SpecSyntax::LinkV(n)) => definition_from_target(n, d, ws, uri),
        Some(SpecSyntax::AnchorDefV(n)) => definition_from_target(n, d, ws, uri),
        Some(SpecSyntax::SectionV(n)) => Some(
            LocView { uri, range: Range { start: n.range.start, end: n.range.end } },
        ),
        Some(SpecSyntax::AnchorRefV(_)) => None,
    }
}

/// Find-references: resolves the construct at the position to a target
/// location, then lists every link in the workspace corpus that
/// resolves there. Without a current workspace the query is unsupported
/// and the result absent.
pub fn references(
    session: &Session,
    corpus: &Vec<(String, Document)>,
    req_uri: &String,
    pos: Position,
) -> (r: Option<Vec<Location>>)
    ensures
        match session.spec_workspace() {
            None => r is None,
            Some(_) => match session.spec_get(req_uri@) {
                None => r is None,
                Some(d) => match origin_loc_spec(d, session.spec_workspace(), req_uri@, pos) {
                    None => r is None,
                    Some(t) => match r {
                        Some(locs) => loc_views(locs@) == scan_refs(*session, corpus@, 0, t),
                        None => false,
                    },
                },
            },
        },
{
    if session.workspace_ref().is_none() {
        return None;
    }
    let doc = match session.get_document(req_uri) {
        Some(d) => d,
        None => {
            return None;
        },
    };
    let chars = rope_chars(&doc.text);
    let syntax = match classify_for_decl(&doc.tree, pos) {
        Some(s) => s,
        None => {
            return None;
        },
    };
    let origin_loc: Location = match syntax {
        Syntax::Link(node) => match definition_from_target_exec(node, &chars, session, req_uri) {
            Some(l) => l,
            None => {
                return None;
            },
        },
        Syntax::AnchorDefinition(node) => match definition_from_target_exec(
            node,
            &chars,
            session,
            req_uri,
        ) {
            Some(l) => l,
            None => {
                return None;
            },
        },
        Syntax::Section(node) => Location { uri: req_uri.clone(), range: node.range.to_range() },
        Syntax::AnchorReference(_) => {
            return None;
        },
    };
    Some(list_references(session, corpus, &origin_loc))
}

// ------------------------------------------------------------------
// Rename rewriting.
/// The views of grouped text edits.
pub open spec fn edit_groups_view(gs: Seq<(String, Vec<TextEdit>)>) -> Seq<
    (Seq<char>, Seq<TeView>),
> {
    Seq::new(
        gs.len(),
        |i: int|
            if 0 <= i < gs.len() {
                (gs[i].0@, te_views(gs[i].1@))
            } else {
                arbitrary()
            },
    )
}

/// The edit a link takes under the rename pairs from `k` on: when the
/// link's destination is an opaque URI standing in the document's own
/// text and it resolves to a pair's old URI, the destination span is
/// replaced with the new URI; the first pair that applies wins. Scoped
/// destinations are path-relative and left untouched.
pub open spec fn edit_for_link(
    ws: Option<Workspace>,
    uri: Seq<char>,
    l: RlView,
    renames: Seq<(String, String)>,
    k: int,
) -> Seq<TeView>
    decreases renames.len() - k,
{
    if !(0 <= k < renames.len()) {
        Seq::empty()
    } else {
        let applies = (l.target is UriV) && (l.dest_range is Some) && (match resolve_spec(
            ws,
            uri,
            l.target,
        ) {
            Ok(loc) => loc.uri == renames[k].0@,
            Err(_) => false,
        });
        if applies {
            seq![
                TeView {
                    range: Range {
                        start: l.dest_range->Some_0.start,
                        end: l.dest_range->Some_0.end,
                    },
                    new_text: renames[k].1@,
                },
            ]
        } else {
            edit_for_link(ws, uri, l, renames, k + 1)
        }
    }
}

/// The edits a document's links take from `j` on, in document order.
pub open spec fn doc_edits(
    ws: Option<Workspace>,
    uri: Seq<char>,
    links: Seq<RlView>,
    j: int,
    renames: Seq<(String, String)>,
) -> Seq<TeView>
    decreases links.len() - j,
{
    if !(0 <= j < links.len()) {
        Seq::empty()
    } else {
        edit_for_link(ws, uri, links[j], renames, 0) + doc_edits(ws, uri, links, j + 1, renames)
    }
}

/// The workspace-wide edit set from corpus index `i` on: for each member
/// document (preferring the session's open copy) its edits, grouped
/// under its URI; documents with no edits contribute nothing.
pub open spec fn rename_spec(
    sess: Session,
    corpus: Seq<(String, Document)>,
    i: int,
    renames: Seq<(String, String)>,
) -> Seq<(Seq<char>, Seq<TeView>)>
    decreases corpus.len() - i,
{
    if !(0 <= i < corpus.len()) {
        Seq::empty()
    } else {
        let d = scan_doc(sess, corpus[i].0@, corpus[i].1);
        let es = doc_edits(sess.spec_workspace(), corpus[i].0@, rl_views(d.links@), 0, renames);
        (if es.len() > 0 {
            seq![(corpus[i].0@, es)]
        } else {
            Seq::empty()
        }) + rename_spec(sess, corpus, i + 1, renames)
    }
}

fn edit_for_link_exec(
    session: &Session,
    uri: &String,
    l: &crate::document::ResolvedLinkable,
    renames: &Vec<(String, String)>,
    k: usize,
) -> (r: Option<TextEdit>)
    requires
        k <= renames.len(),
    ensures
        match r {
            Some(e) => edit_for_link(session.spec_workspace(), uri@, l@, renames@, k as int)
                == seq![e@],
            None => edit_for_link(session.spec_workspace(), uri@, l@, renames@, k as int)
                == Seq::<TeView>::empty(),
        },
    decreases renames.len() - k,
{
    if k == renames.len() {
        None
    } else {
        let is_uri = match &l.target {
            LinkDestination::Uri(_) => true,
            _ => false,
        };
        let applies = is_uri && l.dest_range.is_some() && (match follow_link_target(
            session,
            uri,
            &l.target,
        ) {
            Ok(loc) => loc.uri.eq(&renames[k].0),
            Err(_) => false,
        });
        if applies {
            let dr = match &l.dest_range {
                Some(d) => *d,
                None => unreached(),
            };
            let e = TextEdit { range: dr.to_range(), new_text: renames[k].1.clone() };
            let ghost ev = e@;
            proof {
                assert(edit_for_link(session.spec_workspace(), uri@, l@, renames@, k as int)
                    =~= seq![ev]);
            }
            Some(e)
        } else {
            edit_for_link_exec(session, uri, l, renames, k + 1)
        }
    }
}

fn doc_edits_exec(
    session: &Session,
    uri: &String,
    links: &Vec<crate::document::ResolvedLinkable>,
    j: usize,
    renames: &Vec<(String, String)>,
) -> (r: Vec<TextEdit>)
    requires
        j <= links.len(),
    ensures
        te_views(r@) == doc_edits(
            session.spec_workspace(),
            uri@,
            rl_views(links@),
            j as int,
            renames@,
        ),
    decreases links.len() - j,
{
    if j == links.len() {
        let out: Vec<TextEdit> = Vec::new();
        proof {
            assert(te_views(out@) =~= doc_edits(
                session.spec_workspace(),
                uri@,
                rl_views(links@),
                j as int,
                renames@,
            ));
        }
        out
    } else {
        proof {
            assert(rl_views(links@)[j as int] == links@[j as int]@);
        }
        let own = edit_for_link_exec(session, uri, &links[j], renames, 0);
        let rest = doc_edits_exec(session, uri, links, j + 1, renames);
        let ghost restv = rest@;
        match own {
            Some(e) => {
                let ghost ev = e@;
                let mut out = rest;
                out.insert(0, e);
                proof {
                    assert(te_views(out@) =~= seq![ev] + te_views(restv));
                }
                out
            },
            None => rest,
        }
    }
}

/// The rename rewrite: for each rename pair, every link in the corpus
/// whose resolved location's URI equals the old URI gets a text edit
/// replacing only its destination span with the new URI, grouped by
/// origin document. Only opaque-URI destinations are rewritten; scoped
/// destinations are path-relative and left untouched.
pub fn will_rename_files(
    session: &Session,
    corpus: &Vec<(String, Document)>,
    renames: &Vec<(String, String)>,
) -> (r: Vec<(String, Vec<TextEdit>)>)
    ensures
        edit_groups_view(r@) == rename_spec(*session, corpus@, 0, renames@),
{
    will_rename_from(session, corpus, 0, renames)
}

fn will_rename_from(
    session: &Session,
    corpus: &Vec<(String, Document)>,
    i: usize,
    renames: &Vec<(String, String)>,
) -> (r: Vec<(String, Vec<TextEdit>)>)
    requires
        i <= corpus.len(),
    ensures
        edit_groups_view(r@) == rename_spec(*session, corpus@, i as int, renames@),
    decreases corpus.len() - i,
{
    if i == corpus.len() {
        let out: Vec<(String, Vec<TextEdit>)> = Vec::new();
        proof {
            assert(edit_groups_view(out@) =~= rename_spec(*session, corpus@, i as int, renames@));
        }
        out
    } else {
        let uri = &corpus[i].0;
        let doc = match session.get_document(uri) {
            Some(d) => d,
            None => &corpus[i].1,
        };
        let edits = doc_edits_exec(session, uri, &doc.links, 0, renames);
        let rest = will_rename_from(session, corpus, i + 1, renames);
        let ghost restv = rest@;
        if edits.len() > 0 {
            let ghost ev = te_views(edits@);
            let pair = (uri.clone(), edits);
            let ghost pv = (pair.0@, te_views(pair.1@));
            let mut out = rest;
            out.insert(0, pair);
            proof {
                assert(edit_groups_view(out@) =~= seq![pv] + edit_groups_view(restv));
            }
            out
        } else {
            rest
        }
    }
}

} // verus!
