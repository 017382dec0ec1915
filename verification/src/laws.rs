//! Laws of the library, stated over the same spec functions its
//! contracts use and proved once for all inputs.

use vstd::prelude::*;

use crate::document::{rl_views, Document};
use crate::neorg::{resolve_spec, scan_doc, scan_refs, doc_refs, LocView, ResolveError};
use crate::norg::{
    dest_text, lemma_find_ch_absent, lemma_find_ch_at, parse_dest_text, DestView, LwView,
    ScopeView,
};
use crate::range::Range;
use crate::session::Session;
use crate::workspace::Workspace;

verus! {

/// The destination forms the rename feature round-trips: an opaque URI
/// whose text is non-empty and does not open with a scope marker, and a
/// current- or named-workspace file reference with an empty scope whose
/// path holds no ':' (a named root also needs a non-empty name free of
/// '/' and ':').
pub open spec fn round_trippable(v: DestView) -> bool {
    match v {
        DestView::UriV(u) => u.len() > 0 && u[0] != ':' && u[0] != '$' && u[0] != '*' && u[0]
            != '?',
        DestView::ScopedV { file: Some(f), scope } => scope.len() == 0 && (forall|i: int|
            0 <= i < f.path.len() ==> f.path[i] != ':') && match f.root {
            Some(LwView::CurrentV) => true,
            Some(LwView::WorkspaceV(n)) => n.len() > 0 && forall|i: int|
                0 <= i < n.len() ==> n[i] != '/' && n[i] != ':',
            None => false,
        },
        DestView::ScopedV { file: None, .. } => false,
    }
}

/// Round-trip: for every destination of a form the rename feature
/// serializes, parsing the serialization gives the value back.
pub proof fn lemma_destination_round_trip(v: DestView)
    requires
        round_trippable(v),
    ensures
        parse_dest_text(dest_text(v)) == Some(v),
{
    match v {
        DestView::UriV(u) => {},
        DestView::ScopedV { file: Some(f), scope } => {
            let s = dest_text(v);
            assert(crate::norg::scopes_tail_text(scope) =~= Seq::<char>::empty());
            match f.root {
                Some(LwView::CurrentV) => {
                    assert(s =~= seq!['$', '/'] + f.path);
                    assert forall|k: int| 0 <= k < s.len() implies s[k] != ':' by {
                        if k >= 2 {
                            assert(s[k] == f.path[k - 2]);
                        }
                    }
                    lemma_find_ch_absent(s, 0, ':');
                    let fr = crate::norg::parse_file_ref(s.subrange(0, s.len() as int));
                    assert(s.subrange(0, s.len() as int) =~= s);
                    assert(s.skip(2) =~= f.path);
                    assert(fr == f);
                    assert(scope =~= Seq::<ScopeView>::empty());
                },
                Some(LwView::WorkspaceV(n)) => {
                    assert(s =~= seq!['$'] + n + seq!['/'] + f.path);
                    assert forall|k: int| 0 <= k < s.len() implies s[k] != ':' by {
                        if 1 <= k < 1 + n.len() as int {
                            assert(s[k] == n[k - 1]);
                        } else if k >= 2 + n.len() as int {
                            assert(s[k] == f.path[k - 2 - n.len() as int]);
                        }
                    }
                    lemma_find_ch_absent(s, 0, ':');
                    let fr = crate::norg::parse_file_ref(s.subrange(0, s.len() as int));
                    assert(s.subrange(0, s.len() as int) =~= s);
                    assert(s[1] == n[0]);
                    assert(s[1] != '/');
                    assert forall|k: int| 1 <= k < 1 + n.len() as int implies s[k] != '/' by {
                        assert(s[k] == n[k - 1]);
                    }
                    assert(s[1 + n.len() as int] == '/');
                    lemma_find_ch_at(s, 1, '/', 1 + n.len() as int);
                    assert(s.subrange(1, 1 + n.len() as int) =~= n);
                    assert(s.skip(2 + n.len() as int) =~= f.path);
                    assert(fr == f);
                    assert(scope =~= Seq::<ScopeView>::empty());
                },
                None => {},
            }
        },
        DestView::ScopedV { file: None, .. } => {},
    }
}

/// Edit/reparse consistency, reparse half: two documents holding the
/// same text, each satisfying the document invariant (as `new` and
/// `update` establish), have the same tree and the same link list —
/// re-parsing after edits gives exactly what parsing the final text
/// from scratch gives. The buffer half of the law — that the buffer
/// after a sequence of edits equals the naive splices on a plain
/// character sequence — is the `ensures` of `Session::update_document`
/// and `Document::change_range`.
pub proof fn lemma_reparse_consistency(d1: Document, d2: Document)
    requires
        d1.wf(),
        d2.wf(),
        d1.text_view() == d2.text_view(),
    ensures
        d1.tree@ == d2.tree@,
        rl_views(d1.links@) == rl_views(d2.links@),
{
}

/// Resolution determinism: resolving the same destination from the same
/// origin under the same workspace twice yields identical locations.
/// `follow_link_target`'s contract pins each result to `resolve_spec`,
/// a function of the inputs alone.
pub proof fn lemma_resolution_deterministic(
    ws: Option<Workspace>,
    origin: Seq<char>,
    d: DestView,
    r1: Result<LocView, ResolveError>,
    r2: Result<LocView, ResolveError>,
)
    requires
        r1 == resolve_spec(ws, origin, d),
        r2 == resolve_spec(ws, origin, d),
    ensures
        r1 == r2,
{
}

/// Whether a destination is a file reference rooted at the current
/// workspace (`$/`).
pub open spec fn current_rooted(d: DestView) -> bool {
    match d {
        DestView::ScopedV { file: Some(f), .. } => f.root == Some(LwView::CurrentV),
        _ => false,
    }
}

/// The current-workspace rule: a `$/`-rooted destination resolves
/// against the workspace root alone — the origin document plays no part
/// — and, when a workspace is current, it resolves to the root joined
/// with the extension-suffixed path, at the zero-width starting range.
pub proof fn lemma_current_root_ignores_origin(
    ws: Option<Workspace>,
    o1: Seq<char>,
    o2: Seq<char>,
    d: DestView,
)
    requires
        current_rooted(d),
    ensures
        resolve_spec(ws, o1, d) == resolve_spec(ws, o2, d),
        d matches DestView::ScopedV { file: Some(f), .. } ==> (ws matches Some(w)
            ==> resolve_spec(ws, o1, d) == (match crate::uri::url_join_of(
            w.path@,
            crate::neorg::norg_suffixed(f.path),
        ) {
            Some(t) => Ok::<LocView, ResolveError>(
                LocView { uri: t, range: crate::neorg::zero_range() },
            ),
            None => Err::<LocView, ResolveError>(ResolveError::NotFound),
        })),
{
}

/// A document's own references to `target` from index `j` include the
/// location of any of its links at or after `j` that resolves there.
proof fn lemma_doc_refs_mem(
    ws: Option<Workspace>,
    uri: Seq<char>,
    links: Seq<crate::document::RlView>,
    j0: int,
    j: int,
    target: LocView,
)
    requires
        0 <= j0 <= j < links.len(),
        resolve_spec(ws, uri, links[j].target) == Ok::<LocView, ResolveError>(target),
    ensures
        doc_refs(ws, uri, links, j0, target).contains(
            LocView { uri, range: Range { start: links[j].range.start, end: links[j].range.end } },
        ),
    decreases j - j0,
{
    let loc = LocView {
        uri,
        range: Range { start: links[j].range.start, end: links[j].range.end },
    };
    if j0 == j {
        assert(doc_refs(ws, uri, links, j0, target)[0] == loc);
    } else {
        lemma_doc_refs_mem(ws, uri, links, j0 + 1, j, target);
        let tail = doc_refs(ws, uri, links, j0 + 1, target);
        let k = choose|k: int| 0 <= k < tail.len() && tail[k] == loc;
        if resolve_spec(ws, uri, links[j0].target) == Ok::<LocView, ResolveError>(target) {
            assert(doc_refs(ws, uri, links, j0, target)[1 + k] == tail[k]);
        } else {
            assert(doc_refs(ws, uri, links, j0, target)[k] == tail[k]);
        }
    }
}

/// The workspace scan's results from index `i0` include every result of
/// the member document at index `i`.
proof fn lemma_scan_refs_mem(
    sess: Session,
    corpus: Seq<(String, Document)>,
    i0: int,
    i: int,
    target: LocView,
    loc: LocView,
)
    requires
        0 <= i0 <= i < corpus.len(),
        ({
            let d = scan_doc(sess, corpus[i].0@, corpus[i].1);
            doc_refs(sess.spec_workspace(), corpus[i].0@, rl_views(d.links@), 0, target).contains(
                loc,
            )
        }),
    ensures
        scan_refs(sess, corpus, i0, target).contains(loc),
    decreases i - i0,
{
    let d0 = scan_doc(sess, corpus[i0].0@, corpus[i0].1);
    let own = doc_refs(sess.spec_workspace(), corpus[i0].0@, rl_views(d0.links@), 0, target);
    let rest = scan_refs(sess, corpus, i0 + 1, target);
    if i0 == i {
        let k = choose|k: int| 0 <= k < own.len() && own[k] == loc;
        assert(scan_refs(sess, corpus, i0, target)[k] == own[k]);
    } else {
        lemma_scan_refs_mem(sess, corpus, i0 + 1, i, target, loc);
        let k = choose|k: int| 0 <= k < rest.len() && rest[k] == loc;
        assert(scan_refs(sess, corpus, i0, target)[own.len() + k] == rest[k]);
    }
}

/// Reference symmetry: when a member document (the session's open copy
/// when there is one) holds a link that resolves to `target`, the
/// workspace-wide reference list for `target` contains that link's
/// location.
pub proof fn lemma_reference_symmetry(
    sess: Session,
    corpus: Seq<(String, Document)>,
    i: int,
    j: int,
    target: LocView,
)
    requires
        0 <= i < corpus.len(),
        ({
            let d = scan_doc(sess, corpus[i].0@, corpus[i].1);
            &&& 0 <= j < d.links@.len()
            &&& resolve_spec(sess.spec_workspace(), corpus[i].0@, rl_views(d.links@)[j].target)
                == Ok::<LocView, ResolveError>(target)
        }),
    ensures
        ({
            let d = scan_doc(sess, corpus[i].0@, corpus[i].1);
            let l = rl_views(d.links@)[j];
            scan_refs(sess, corpus, 0, target).contains(
                LocView {
                    uri: corpus[i].0@,
                    range: Range { start: l.range.start, end: l.range.end },
                },
            )
        }),
{
    let d = scan_doc(sess, corpus[i].0@, corpus[i].1);
    let l = rl_views(d.links@)[j];
    lemma_doc_refs_mem(
        sess.spec_workspace(),
        corpus[i].0@,
        rl_views(d.links@),
        0,
        j,
        target,
    );
    lemma_scan_refs_mem(
        sess,
        corpus,
        0,
        i,
        target,
        LocView { uri: corpus[i].0@, range: Range { start: l.range.start, end: l.range.end } },
    );
}

} // verus!
