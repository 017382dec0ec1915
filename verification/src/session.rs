//! The session: the shared registry of open documents, keyed by URI
//! text, plus the workspace the client opened. Every read and write of
//! an open document goes through it.

use vstd::prelude::*;
use vstd::string::*;

use crate::document::Document;
use crate::range::Range;
use crate::rope::{line_start, nl_count};
use crate::workspace::Workspace;

verus! {

/// One content change, as the wire carries it: an optional range whose
/// columns count UTF-16 code units, and the replacement text. A change
/// without a range replaces the whole document.
#[derive(Debug)]
pub struct ChangeEvent {
    pub range: Option<Range>,
    pub text: String,
}

pub ghost struct CeView {
    pub range: Option<Range>,
    pub text: Seq<char>,
}

impl View for ChangeEvent {
    type V = CeView;

    open spec fn view(&self) -> CeView {
        CeView { range: self.range, text: self.text@ }
    }
}

pub open spec fn ce_views(cs: Seq<ChangeEvent>) -> Seq<CeView> {
    Seq::new(
        cs.len(),
        |i: int|
            if 0 <= i < cs.len() {
                cs[i]@
            } else {
                arbitrary()
            },
    )
}

/// Why a session operation failed.
#[derive(Debug, Clone, Copy, PartialEq, Eq, Structural)]
pub enum SessionError {
    /// No open document has the given URI.
    DocumentNotFound,
    /// An edit range lay outside the document at the time it applied.
    InvalidEdit,
}

/// The document a URI maps to in a list of open documents.
pub open spec fn lookup_doc(es: Seq<(String, Document)>, uri: Seq<char>) -> Option<Document>
    decreases es.len(),
{
    if es.len() == 0 {
        None
    } else if es[0].0@ == uri {
        Some(es[0].1)
    } else {
        lookup_doc(es.drop_first(), uri)
    }
}

/// The keys of a document list are distinct.
pub open spec fn distinct_keys(es: Seq<(String, Document)>) -> bool {
    forall|i: int, j: int| 0 <= i < j < es.len() ==> (#[trigger] es[i].0@) != (#[trigger] es[j].0@)
}

/// Removing the entry at `idx` removes exactly its key from the mapping.
proof fn lemma_lookup_remove(es: Seq<(String, Document)>, idx: int, u: Seq<char>)
    requires
        distinct_keys(es),
        0 <= idx < es.len(),
    ensures
        lookup_doc(es.remove(idx), u) == if u == es[idx].0@ {
            None::<Document>
        } else {
            lookup_doc(es, u)
        },
    decreases es.len(),
{
    assert forall|a: int, b: int| 0 <= a < b < es.drop_first().len() implies (
    #[trigger] es.drop_first()[a].0@) != (#[trigger] es.drop_first()[b].0@) by {
        assert(es.drop_first()[a] == es[a + 1]);
        assert(es.drop_first()[b] == es[b + 1]);
    }
    if es.len() > 0 {
        if idx == 0 {
            assert(es.remove(0) =~= es.drop_first());
            if u == es[0].0@ {
                assert forall|i: int| 0 <= i < es.drop_first().len() implies (
                #[trigger] es.drop_first()[i].0@) != u by {
                    assert(es.drop_first()[i] == es[i + 1]);
                }
                lemma_lookup_none_when_absent(es.drop_first(), u);
            }
        } else {
            assert(es.remove(idx).drop_first() =~= es.drop_first().remove(idx - 1));
            assert(es.remove(idx)[0] == es[0]);
            assert(es.drop_first()[idx - 1] == es[idx]);
            lemma_lookup_remove(es.drop_first(), idx - 1, u);
        }
    }
}

/// A helper fact: with distinct keys, looking up the key of the removed
/// head in the tail fails.
proof fn lemma_lookup_none_when_absent(es: Seq<(String, Document)>, u: Seq<char>)
    ensures
        (forall|i: int| 0 <= i < es.len() ==> (#[trigger] es[i].0@) != u) ==> lookup_doc(es, u)
            is None,
    decreases es.len(),
{
    if es.len() > 0 {
        lemma_lookup_none_when_absent(es.drop_first(), u);
    }
}

/// Appending an entry adds exactly its key to the mapping, shadowed by
/// nothing when the key was absent.
proof fn lemma_lookup_push(es: Seq<(String, Document)>, w: (String, Document), u: Seq<char>)
    ensures
        lookup_doc(es.push(w), u) == match lookup_doc(es, u) {
            Some(d) => Some(d),
            None => if w.0@ == u {
                Some(w.1)
            } else {
                None
            },
        },
    decreases es.len(),
{
    if es.len() == 0 {
        assert(es.push(w)[0] == w);
        assert(es.push(w).drop_first() =~= Seq::<(String, Document)>::empty());
        assert(lookup_doc(es.push(w).drop_first(), u) is None);
    } else {
        assert(es.push(w)[0] == es[0]);
        assert(es.push(w).drop_first() =~= es.drop_first().push(w));
        lemma_lookup_push(es.drop_first(), w, u);
        if es[0].0@ == u {
            assert(lookup_doc(es.push(w), u) == Some(es[0].1));
            assert(lookup_doc(es, u) == Some(es[0].1));
        } else {
            assert(lookup_doc(es.push(w), u) == lookup_doc(es.drop_first().push(w), u));
            assert(lookup_doc(es, u) == lookup_doc(es.drop_first(), u));
        }
    }
}

/// The text after folding the changes from `i` on over `s`, in order,
/// each against the text the previous one left: exactly the naive
/// splices on a plain character sequence, with each range's UTF-16
/// columns first converted to character columns against that text. A
/// change without a range replaces the whole text; a change whose range
/// falls outside the text at its turn makes the whole fold invalid.
pub open spec fn apply_changes(s: Seq<char>, cs: Seq<CeView>, i: int) -> Option<Seq<char>>
    decreases cs.len() - i,
{
    if !(0 <= i < cs.len()) {
        Some(s)
    } else {
        match cs[i].range {
            None => apply_changes(cs[i].text, cs, i + 1),
            Some(r0) => {
                let r = Range {
                    start: crate::rope::wire_to_doc(s, r0.start),
                    end: crate::rope::wire_to_doc(s, r0.end),
                };
                if Document::edit_valid(s, r) {
                    let a = line_start(s, r.start.row as int) + r.start.column;
                    let b = line_start(s, r.end.row as int) + r.end.column;
                    apply_changes(s.take(a) + cs[i].text + s.skip(b), cs, i + 1)
                } else {
                    None
                }
            },
        }
    }
}

/// The registry of open documents.
#[derive(Debug)]
pub struct Index {
    documents: Vec<(String, Document)>,
}

/// The shared state of one running session: the open documents and the
/// workspace the client opened, if any.
#[derive(Debug)]
pub struct Session {
    index: Index,
    pub workspace: Option<Workspace>,
}

impl Session {
    /// The open documents.
    pub closed spec fn docs(self) -> Seq<(String, Document)> {
        self.index.documents@
    }

    /// The workspace the client opened, if any.
    pub closed spec fn spec_workspace(self) -> Option<Workspace> {
        self.workspace
    }

    /// The document open under a URI.
    pub open spec fn spec_get(self, uri: Seq<char>) -> Option<Document> {
        lookup_doc(self.docs(), uri)
    }

    /// The session invariant: one entry per URI.
    pub open spec fn wf(self) -> bool {
        distinct_keys(self.docs())
    }

    /// A fresh session with no open documents.
    pub fn with_workspace(workspace: Option<Workspace>) -> (r: Self)
        ensures
            r.wf(),
            r.spec_workspace() == workspace,
            forall|u: Seq<char>| r.spec_get(u) is None,
    {
        let r = Session { index: Index { documents: Vec::new() }, workspace };
        proof {
            assert(forall|u: Seq<char>| r.spec_get(u) is None);
        }
        r
    }

    /// The workspace the client opened, if any.
    pub fn workspace_ref(&self) -> (r: &Option<Workspace>)
        ensures
            *r == self.spec_workspace(),
    {
        &self.workspace
    }

    fn find_index(&self, url: &String) -> (r: Option<usize>)
        ensures
            match r {
                Some(i) => i < self.docs().len() && self.docs()[i as int].0@ == url@ && forall|
                    k: int,
                |
                    0 <= k < i ==> (#[trigger] self.docs()[k].0@) != url@,
                None => forall|i: int|
                    0 <= i < self.docs().len() ==> (#[trigger] self.docs()[i].0@) != url@,
            },
    {
        let mut i: usize = 0;
        while i < self.index.documents.len()
            invariant
                i <= self.docs().len(),
                forall|k: int| 0 <= k < i ==> (#[trigger] self.docs()[k].0@) != url@,
            decreases self.docs().len() - i,
        {
            if self.index.documents[i].0.eq(url) {
                return Some(i);
            }
            i = i + 1;
        }
        None
    }

    /// Opens (or replaces) a document under a URI.
    pub fn insert_document(&mut self, url: String, document: Document) -> (r: Result<
        (),
        SessionError,
    >)
        requires
            old(self).wf(),
        ensures
            r is Ok,
            final(self).wf(),
            final(self).spec_workspace() == old(self).spec_workspace(),
            final(self).spec_get(url@) == Some(document),
            forall|u: Seq<char>|
                u != url@ ==> #[trigger] final(self).spec_get(u) == old(self).spec_get(u),
    {
        let ghost oldes = self.docs();
        match self.find_index(&url) {
            Some(i) => {
                let _ = self.index.documents.remove(i);
                proof {
                    assert forall|u: Seq<char>| true implies lookup_doc(
                        oldes.remove(i as int),
                        u,
                    ) == (if u == oldes[i as int].0@ {
                        None::<Document>
                    } else {
                        lookup_doc(oldes, u)
                    }) by {
                        lemma_lookup_remove(oldes, i as int, u);
                    }
                }
            },
            None => {
                proof {
                    assert forall|u: Seq<char>| true implies lookup_doc(self.docs(), u)
                        == lookup_doc(oldes, u) by {}
                }
            },
        }
        let ghost mid = self.docs();
        proof {
            assert forall|u: Seq<char>| lookup_doc(mid, u) is Some implies lookup_doc(
                oldes,
                u,
            ) == lookup_doc(mid, u) by {}
            assert(forall|i: int|
                0 <= i < mid.len() ==> (#[trigger] mid[i].0@) != url@);
        }
        let ghost pair = (url, document);
        self.index.documents.push((url, document));
        proof {
            assert forall|u: Seq<char>| true implies lookup_doc(mid.push(pair), u) == (match
                lookup_doc(mid, u) {
                Some(d) => Some(d),
                None => if pair.0@ == u {
                    Some(pair.1)
                } else {
                    None
                },
            }) by {
                lemma_lookup_push(mid, pair, u);
            }
            lemma_lookup_none_when_absent(mid, url@);
        }
        Ok(())
    }

    /// The open document under a URI, if any.
    pub fn get_document<'a>(&'a self, url: &String) -> (r: Option<&'a Document>)
        ensures
            match r {
                Some(d) => self.spec_get(url@) == Some(*d),
                None => self.spec_get(url@) is None,
            },
    {
        match self.find_index(url) {
            Some(i) => {
                proof {
                    lemma_lookup_at(self.docs(), i as int, url@);
                }
                Some(&self.index.documents[i].1)
            },
            None => {
                proof {
                    lemma_lookup_none_when_absent(self.docs(), url@);
                }
                None
            },
        }
    }

    /// Applies an ordered list of content changes to the document open
    /// under a URI, each against the buffer the previous one left, then
    /// re-parses: one atomic edit-then-reparse sequence. Range columns
    /// arrive as the wire's UTF-16 code units and are converted against
    /// the buffer each change applies to; a change without a range
    /// replaces the whole text. It fails with `DocumentNotFound`,
    /// changing nothing, exactly when no document is open under the URI;
    /// it fails with `InvalidEdit`, re-parsing what was applied so far,
    /// exactly when a change's converted range falls outside the buffer
    /// at the time it applies.
    pub fn update_document(&mut self, url: &String, changes: Vec<ChangeEvent>) -> (r: Result<
        (),
        SessionError,
    >)
        requires
            old(self).wf(),
        ensures
            final(self).wf(),
            final(self).spec_workspace() == old(self).spec_workspace(),
            forall|u: Seq<char>|
                u != url@ ==> #[trigger] final(self).spec_get(u) == old(self).spec_get(u),
            match r {
                Ok(()) => {
                    &&& old(self).spec_get(url@) is Some
                    &&& apply_changes(
                        old(self).spec_get(url@)->Some_0.text_view(),
                        ce_views(changes@),
                        0,
                    ) is Some
                    &&& match final(self).spec_get(url@) {
                        Some(d2) => d2.wf() && Some(d2.text_view()) == apply_changes(
                            old(self).spec_get(url@)->Some_0.text_view(),
                            ce_views(changes@),
                            0,
                        ),
                        None => false,
                    }
                },
                Err(SessionError::DocumentNotFound) => {
                    &&& old(self).spec_get(url@) is None
                    &&& *final(self) == *old(self)
                },
                Err(SessionError::InvalidEdit) => {
                    &&& old(self).spec_get(url@) is Some
                    &&& apply_changes(
                        old(self).spec_get(url@)->Some_0.text_view(),
                        ce_views(changes@),
                        0,
                    ) is None
                    &&& match final(self).spec_get(url@) {
                        Some(d2) => d2.wf(),
                        None => false,
                    }
                },
            },
    {
        let ghost oldes = self.docs();
        let idx = match self.find_index(url) {
            Some(i) => i,
            None => {
                proof {
                    lemma_lookup_none_when_absent(self.docs(), url@);
                }
                return Err(SessionError::DocumentNotFound);
            },
        };
        proof {
            lemma_lookup_at(oldes, idx as int, url@);
        }
        let (key, doc) = self.index.documents.remove(idx);
        let mut doc = doc;
        let ghost s0 = doc.text_view();
        let ghost cviews = ce_views(changes@);
        let mut i: usize = 0;
        let mut ok = true;
        while i < changes.len() && ok
            invariant
                i <= changes.len(),
                cviews == ce_views(changes@),
                ok ==> apply_changes(s0, cviews, 0) == apply_changes(
                    doc.text_view(),
                    cviews,
                    i as int,
                ),
                !ok ==> apply_changes(s0, cviews, 0) is None,
            decreases changes.len() - i,
        {
            proof {
                assert(cviews[i as int] == changes@[i as int]@);
            }
            match &changes[i].range {
                None => {
                    doc.set_text(changes[i].text.as_str());
                },
                Some(r0) => {
                    let r = doc.range_from_wire(*r0);
                    if doc.can_edit(&r) {
                        let _ = doc.change_range(r, changes[i].text.as_str());
                    } else {
                        ok = false;
                    }
                },
            }
            i = i + 1;
        }
        doc.update();
        let ghost mid = self.docs();
        let pair = (key, doc);
        proof {
            assert forall|u: Seq<char>| true implies lookup_doc(oldes.remove(idx as int), u) == (
            if u == url@ {
                None::<Document>
            } else {
                lookup_doc(oldes, u)
            }) by {
                lemma_lookup_remove(oldes, idx as int, u);
            }
            assert forall|a: int, b: int| 0 <= a < b < mid.len() implies (#[trigger] mid[a].0@)
                != (#[trigger] mid[b].0@) by {
                if b < idx {
                    assert(mid[a] == oldes[a]);
                    assert(mid[b] == oldes[b]);
                } else if a < idx {
                    assert(mid[a] == oldes[a]);
                    assert(mid[b] == oldes[b + 1]);
                } else {
                    assert(mid[a] == oldes[a + 1]);
                    assert(mid[b] == oldes[b + 1]);
                }
            }
            assert forall|k: int| 0 <= k < mid.len() implies (#[trigger] mid[k].0@) != url@ by {
                if k < idx {
                    assert(mid[k] == oldes[k]);
                } else {
                    assert(mid[k] == oldes[k + 1]);
                }
            }
        }
        let result = if ok {
            Ok(())
        } else {
            Err(SessionError::InvalidEdit)
        };
        self.index.documents.push(pair);
        proof {
            assert forall|u: Seq<char>| true implies lookup_doc(mid.push(pair), u) == (match
                lookup_doc(mid, u) {
                Some(d) => Some(d),
                None => if pair.0@ == u {
                    Some(pair.1)
                } else {
                    None
                },
            }) by {
                lemma_lookup_push(mid, pair, u);
            }
            lemma_lookup_none_when_absent(mid, url@);
        }
        result
    }

    /// Closes the document under a URI, if one is open; the other
    /// documents are untouched.
    pub fn remove_document(&mut self, url: &String) -> (r: Result<(), SessionError>)
        requires
            old(self).wf(),
        ensures
            r is Ok,
            final(self).wf(),
            final(self).spec_workspace() == old(self).spec_workspace(),
            final(self).spec_get(url@) is None,
            forall|u: Seq<char>|
                u != url@ ==> #[trigger] final(self).spec_get(u) == old(self).spec_get(u),
    {
        let ghost oldes = self.docs();
        match self.find_index(url) {
            Some(i) => {
                let _ = self.index.documents.remove(i);
                proof {
                    assert forall|u: Seq<char>| true implies lookup_doc(
                        oldes.remove(i as int),
                        u,
                    ) == (if u == oldes[i as int].0@ {
                        None::<Document>
                    } else {
                        lookup_doc(oldes, u)
                    }) by {
                        lemma_lookup_remove(oldes, i as int, u);
                    }
                    lemma_lookup_none_when_absent(self.docs(), url@);
                }
            },
            None => {
                proof {
                    lemma_lookup_none_when_absent(oldes, url@);
                }
            },
        }
        Ok(())
    }
}

/// The document found at a scan index is the lookup's answer.
proof fn lemma_lookup_at(es: Seq<(String, Document)>, i: int, u: Seq<char>)
    requires
        0 <= i < es.len(),
        es[i].0@ == u,
        forall|k: int| 0 <= k < i ==> (#[trigger] es[k].0@) != u,
    ensures
        lookup_doc(es, u) == Some(es[i].1),
    decreases i,
{
    if i > 0 {
        assert(es.drop_first()[i - 1] == es[i]);
        lemma_lookup_at(es.drop_first(), i - 1, u);
    }
}

} // verus!
