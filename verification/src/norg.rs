//! The link and anchor model: typed destinations, their textual grammar,
//! and the serialization that inverts it for the forms rename rewrites.

use vstd::prelude::*;
use vstd::string::*;

use crate::range::NodeRange;
use crate::rope::{chars_to_string, str_chars};
use crate::syntax::{find_field, lemma_find_field_mem, FieldTag, NodeKind, SpecNode, SyntaxNode};

verus! {

/// The root a scoped file reference is resolved against.
#[derive(Debug, Clone, PartialEq)]
pub enum LinkWorkspace {
    /// `$/`: the workspace holding the referencing document.
    Current,
    /// `$name/`: the named workspace.
    Workspace(String),
}

/// A file referenced by a link: an optional root and a path.
#[derive(Debug, Clone, PartialEq)]
pub struct NorgFile {
    pub root: Option<LinkWorkspace>,
    pub path: String,
}

/// One in-file locator of a scoped destination.
#[derive(Debug, Clone, PartialEq)]
pub enum LinkScope {
    /// A heading locator: the level and the heading text.
    Heading(u16, String),
    /// A wiki-style locator: `? text`.
    WikiHeading(String),
}

/// A parsed link destination.
#[derive(Debug, Clone, PartialEq)]
pub enum LinkDestination {
    /// An opaque external URI.
    Uri(String),
    /// A scoped destination: an optional file plus in-file locators.
    /// A value with no file must have a non-empty scope.
    Scoped { file: Option<NorgFile>, scope: Vec<LinkScope> },
}

/// Why a node or a destination text failed to convert.
#[derive(Debug, Clone, Copy, PartialEq, Eq, Structural)]
pub enum NorgError {
    /// A link node without a target field.
    MissingTarget,
    /// An anchor node without a markup field.
    MissingMarkup,
    /// The node is neither a link nor an anchor.
    NotLinkable,
    /// The node is not a destination-bearing node.
    UnsupportedTarget,
    /// The scoped destination text does not follow the grammar.
    InvalidScope,
}

// ------------------------------------------------------------------
// Mathematical shapes of the model types.
pub ghost enum LwView {
    CurrentV,
    WorkspaceV(Seq<char>),
}

pub ghost struct FileView {
    pub root: Option<LwView>,
    pub path: Seq<char>,
}

pub ghost enum ScopeView {
    HeadingV(u16, Seq<char>),
    WikiV(Seq<char>),
}

pub ghost enum DestView {
    UriV(Seq<char>),
    ScopedV { file: Option<FileView>, scope: Seq<ScopeView> },
}

impl View for LinkWorkspace {
    type V = LwView;

    open spec fn view(&self) -> LwView {
        match *self {
            LinkWorkspace::Current => LwView::CurrentV,
            LinkWorkspace::Workspace(n) => LwView::WorkspaceV(n@),
        }
    }
}

impl View for NorgFile {
    type V = FileView;

    open spec fn view(&self) -> FileView {
        FileView {
            root: match self.root {
                Some(r) => Some(r@),
                None => None,
            },
            path: self.path@,
        }
    }
}

impl View for LinkScope {
    type V = ScopeView;

    open spec fn view(&self) -> ScopeView {
        match *self {
            LinkScope::Heading(l, t) => ScopeView::HeadingV(l, t@),
            LinkScope::WikiHeading(t) => ScopeView::WikiV(t@),
        }
    }
}

/// The views of a sequence of scope entries, in order.
pub open spec fn scopes_view(sc: Seq<LinkScope>) -> Seq<ScopeView> {
    Seq::new(
        sc.len(),
        |i: int|
            if 0 <= i < sc.len() {
                sc[i]@
            } else {
                arbitrary()
            },
    )
}

impl View for LinkDestination {
    type V = DestView;

    open spec fn view(&self) -> DestView {
        match self {
            LinkDestination::Uri(u) => DestView::UriV(u@),
            LinkDestination::Scoped { file, scope } => DestView::ScopedV {
                file: match file {
                    Some(f) => Some(f@),
                    None => None,
                },
                scope: scopes_view(scope@),
            },
        }
    }
}

// ------------------------------------------------------------------
// The destination text grammar, as spec functions over characters.
/// The larger of two integers.
pub open spec fn imax(a: int, b: int) -> int {
    if a >= b {
        a
    } else {
        b
    }
}

/// The first index at or after `i` holding `c`, or `s.len()`.
pub open spec fn find_ch(s: Seq<char>, i: int, c: char) -> int
    decreases s.len() - i,
{
    if i < 0 || i >= s.len() {
        s.len() as int
    } else if s[i] == c {
        i
    } else {
        find_ch(s, i + 1, c)
    }
}

/// When `c` does not occur at or after `i`, the search runs to the end.
pub proof fn lemma_find_ch_absent(s: Seq<char>, i: int, c: char)
    requires
        0 <= i,
        forall|k: int| i <= k < s.len() ==> s[k] != c,
    ensures
        find_ch(s, i, c) == s.len(),
    decreases s.len() - i,
{
    if i < s.len() {
        lemma_find_ch_absent(s, i + 1, c);
    }
}

/// When `c` first occurs at `j`, the search finds `j`.
pub proof fn lemma_find_ch_at(s: Seq<char>, i: int, c: char, j: int)
    requires
        0 <= i <= j < s.len(),
        s[j] == c,
        forall|k: int| i <= k < j ==> s[k] != c,
    ensures
        find_ch(s, i, c) == j,
    decreases j - i,
{
    if i < j {
        lemma_find_ch_at(s, i + 1, c, j);
    }
}

/// The number of consecutive '*' characters from `i`, stopping at `end`.
pub open spec fn star_run(s: Seq<char>, i: int, end: int) -> int
    decreases end - i,
{
    if i < 0 || i >= end || i >= s.len() {
        0
    } else if s[i] == '*' {
        1 + star_run(s, i + 1, end)
    } else {
        0
    }
}

/// The first index at or after `i` (below `end`) holding something other
/// than a space.
pub open spec fn skip_spaces(s: Seq<char>, i: int, end: int) -> int
    decreases end - i,
{
    if 0 <= i < end && i < s.len() && s[i] == ' ' {
        skip_spaces(s, i + 1, end)
    } else {
        i
    }
}

/// `end` moved left past trailing spaces, not below `i`.
pub open spec fn trim_end(s: Seq<char>, i: int, end: int) -> int
    decreases end - i,
{
    if i < end && 0 <= end - 1 < s.len() && s[end - 1] == ' ' {
        trim_end(s, i, end - 1)
    } else {
        end
    }
}

/// Classification of a raw file-reference text by its prefix: `$/` is the
/// current workspace, `$name` (name: up to the first '/') a named
/// workspace with the rest as path, anything else a rootless path.
pub open spec fn parse_file_ref(t: Seq<char>) -> FileView {
    if t.len() >= 2 && t[0] == '$' && t[1] == '/' {
        FileView { root: Some(LwView::CurrentV), path: t.skip(2) }
    } else if t.len() >= 1 && t[0] == '$' {
        let sl = imax(1, find_ch(t, 1, '/'));
        FileView {
            root: Some(LwView::WorkspaceV(t.subrange(1, sl))),
            path: if sl < t.len() {
                t.skip(sl + 1)
            } else {
                Seq::empty()
            },
        }
    } else {
        FileView { root: None, path: t }
    }
}

/// One scope entry over the trimmed extent [lo, hi): a run of '*' then a
/// space then text is a heading locator; '?' then a space then text a
/// wiki locator.
pub open spec fn parse_scope_entry(s: Seq<char>, lo: int, hi: int) -> Option<ScopeView> {
    if lo < 0 || hi > s.len() || lo >= hi {
        None
    } else if s[lo] == '?' {
        if lo + 2 < hi && s[lo + 1] == ' ' {
            Some(ScopeView::WikiV(s.subrange(lo + 2, hi)))
        } else {
            None
        }
    } else {
        let r = star_run(s, lo, hi);
        if 1 <= r <= 0xFFFF && lo + r + 1 < hi && s[lo + r] == ' ' {
            Some(ScopeView::HeadingV(r as u16, s.subrange(lo + r + 1, hi)))
        } else {
            None
        }
    }
}

/// The scope entries from `i` on: segments separated by ':', each trimmed
/// of surrounding spaces; any malformed segment makes the whole scope
/// invalid.
pub open spec fn parse_scopes_from(s: Seq<char>, i: int) -> Option<Seq<ScopeView>>
    decreases s.len() - i,
{
    if i < 0 || i > s.len() {
        None
    } else {
        let k = imax(i, find_ch(s, i, ':'));
        let lo = skip_spaces(s, i, k);
        let hi = trim_end(s, lo, k);
        match parse_scope_entry(s, lo, hi) {
            None => None,
            Some(e) => if k >= s.len() {
                Some(seq![e])
            } else {
                match parse_scopes_from(s, k + 1) {
                    None => None,
                    Some(rest) => Some(seq![e] + rest),
                }
            },
        }
    }
}

/// The scope entries from `i` on, where all-blank text means no entries.
pub open spec fn scope_list(s: Seq<char>, i: int) -> Option<Seq<ScopeView>> {
    if skip_spaces(s, i, s.len() as int) >= s.len() {
        Some(Seq::empty())
    } else {
        parse_scopes_from(s, i)
    }
}

/// A scoped destination text: `:file:scope`, `$-rooted-file` with an
/// optional `:scope`, or a pure scope. A destination with neither a file
/// nor a scope entry is invalid.
pub open spec fn parse_scoped_text(s: Seq<char>) -> Option<DestView> {
    if s.len() == 0 {
        None
    } else if s[0] == ':' {
        let k = imax(1, find_ch(s, 1, ':'));
        if k >= s.len() {
            None
        } else {
            let f = parse_file_ref(s.subrange(1, k));
            match scope_list(s, k + 1) {
                None => None,
                Some(sc) => Some(DestView::ScopedV { file: Some(f), scope: sc }),
            }
        }
    } else if s[0] == '$' {
        let k = find_ch(s, 0, ':');
        let f = parse_file_ref(s.subrange(0, k));
        let sc = if k >= s.len() {
            Some(Seq::<ScopeView>::empty())
        } else {
            scope_list(s, k + 1)
        };
        match sc {
            None => None,
            Some(sc) => Some(DestView::ScopedV { file: Some(f), scope: sc }),
        }
    } else if s[0] == '*' || s[0] == '?' {
        match scope_list(s, 0) {
            None => None,
            Some(sc) => if sc.len() == 0 {
                None
            } else {
                Some(DestView::ScopedV { file: None, scope: sc })
            },
        }
    } else {
        None
    }
}

/// A destination text: scoped when it starts with one of the scope
/// markers, otherwise an opaque URI. Empty text is invalid.
pub open spec fn parse_dest_text(s: Seq<char>) -> Option<DestView> {
    if s.len() == 0 {
        None
    } else if s[0] == ':' || s[0] == '$' || s[0] == '*' || s[0] == '?' {
        parse_scoped_text(s)
    } else {
        Some(DestView::UriV(s))
    }
}

// ------------------------------------------------------------------
// Serialization: the canonical text of a destination.
pub open spec fn root_text(r: LwView) -> Seq<char> {
    match r {
        LwView::CurrentV => seq!['$', '/'],
        LwView::WorkspaceV(n) => seq!['$'] + n + seq!['/'],
    }
}

pub open spec fn file_text(f: FileView) -> Seq<char> {
    match f.root {
        Some(r) => root_text(r) + f.path,
        None => f.path,
    }
}

pub open spec fn scope_entry_text(e: ScopeView) -> Seq<char> {
    match e {
        ScopeView::HeadingV(l, t) => Seq::new(l as nat, |i: int| '*') + seq![' '] + t,
        ScopeView::WikiV(t) => seq!['?', ' '] + t,
    }
}

/// Scope entries each preceded by the ` : ` separator.
pub open spec fn scopes_tail_text(sc: Seq<ScopeView>) -> Seq<char>
    decreases sc.len(),
{
    if sc.len() == 0 {
        Seq::empty()
    } else {
        seq![' ', ':', ' '] + scope_entry_text(sc[0]) + scopes_tail_text(sc.drop_first())
    }
}

/// The canonical text of a destination: the file text first if present,
/// then the scope entries joined with ` : ` separators.
pub open spec fn dest_text(d: DestView) -> Seq<char> {
    match d {
        DestView::UriV(u) => u,
        DestView::ScopedV { file: Some(f), scope } => file_text(f) + scopes_tail_text(scope),
        DestView::ScopedV { file: None, scope } => if scope.len() == 0 {
            Seq::empty()
        } else {
            scope_entry_text(scope[0]) + scopes_tail_text(scope.drop_first())
        },
    }
}

// ------------------------------------------------------------------
// Executable forms of the grammar, each proved equal to its spec.
/// The characters of `v` in [from, to).
pub fn slice_chars(v: &Vec<char>, from: usize, to: usize) -> (r: Vec<char>)
    requires
        from <= to <= v@.len(),
    ensures
        r@ == v@.subrange(from as int, to as int),
{
    let mut out: Vec<char> = Vec::new();
    let mut j: usize = from;
    while j < to
        invariant
            from <= j <= to <= v@.len(),
            out@ == v@.subrange(from as int, j as int),
        decreases to - j,
    {
        out.push(v[j]);
        j = j + 1;
        proof {
            assert(v@.subrange(from as int, j as int) =~= v@.subrange(
                from as int,
                j as int - 1,
            ).push(v@[j as int - 1]));
        }
    }
    out
}

pub(crate) fn find_ch_exec(v: &Vec<char>, i: usize, c: char) -> (r: usize)
    requires
        i <= v@.len(),
    ensures
        i <= r <= v@.len(),
        r as int == find_ch(v@, i as int, c),
    decreases v@.len() - i,
{
    if i == v.len() {
        i
    } else if v[i] == c {
        i
    } else {
        find_ch_exec(v, i + 1, c)
    }
}

pub(crate) fn star_run_exec(v: &Vec<char>, i: usize, end: usize) -> (r: usize)
    requires
        i <= end <= v@.len(),
    ensures
        i + r <= end,
        r as int == star_run(v@, i as int, end as int),
    decreases end - i,
{
    if i == end {
        0
    } else if v[i] == '*' {
        1 + star_run_exec(v, i + 1, end)
    } else {
        0
    }
}

fn skip_spaces_exec(v: &Vec<char>, i: usize, end: usize) -> (r: usize)
    requires
        i <= end <= v@.len(),
    ensures
        i <= r <= end,
        r as int == skip_spaces(v@, i as int, end as int),
    decreases end - i,
{
    if i < end && v[i] == ' ' {
        skip_spaces_exec(v, i + 1, end)
    } else {
        i
    }
}

fn trim_end_exec(v: &Vec<char>, i: usize, end: usize) -> (r: usize)
    requires
        i <= end <= v@.len(),
    ensures
        i <= r <= end,
        r as int == trim_end(v@, i as int, end as int),
    decreases end - i,
{
    if i < end && v[end - 1] == ' ' {
        trim_end_exec(v, i, end - 1)
    } else {
        end
    }
}

fn parse_file_ref_exec(v: &Vec<char>) -> (f: NorgFile)
    ensures
        f@ == parse_file_ref(v@),
{
    if v.len() >= 2 && v[0] == '$' && v[1] == '/' {
        let path = chars_to_string(&slice_chars(v, 2, v.len()));
        proof {
            assert(v@.subrange(2, v@.len() as int) =~= v@.skip(2));
        }
        NorgFile { root: Some(LinkWorkspace::Current), path }
    } else if v.len() >= 1 && v[0] == '$' {
        let sl = find_ch_exec(v, 1, '/');
        let name = chars_to_string(&slice_chars(v, 1, sl));
        let path = if sl < v.len() {
            let p = chars_to_string(&slice_chars(v, sl + 1, v.len()));
            proof {
                assert(v@.subrange(sl as int + 1, v@.len() as int) =~= v@.skip(sl as int + 1));
            }
            p
        } else {
            String::new()
        };
        NorgFile { root: Some(LinkWorkspace::Workspace(name)), path }
    } else {
        let path = chars_to_string(&slice_chars(v, 0, v.len()));
        proof {
            assert(v@.subrange(0, v@.len() as int) =~= v@);
        }
        NorgFile { root: None, path }
    }
}

fn parse_scope_entry_exec(v: &Vec<char>, lo: usize, hi: usize) -> (r: Option<LinkScope>)
    requires
        lo <= hi <= v@.len(),
    ensures
        match r {
            Some(e) => parse_scope_entry(v@, lo as int, hi as int) == Some(e@),
            None => parse_scope_entry(v@, lo as int, hi as int) is None,
        },
{
    if lo >= hi {
        None
    } else if v[lo] == '?' {
        if hi - lo > 2 && v[lo + 1] == ' ' {
            Some(LinkScope::WikiHeading(chars_to_string(&slice_chars(v, lo + 2, hi))))
        } else {
            None
        }
    } else {
        let run = star_run_exec(v, lo, hi);
        if 1 <= run && run <= 0xFFFF && hi - (lo + run) > 1 && v[lo + run] == ' ' {
            Some(
                LinkScope::Heading(
                    run as u16,
                    chars_to_string(&slice_chars(v, lo + run + 1, hi)),
                ),
            )
        } else {
            None
        }
    }
}

fn parse_scopes_from_exec(v: &Vec<char>, i: usize) -> (r: Option<Vec<LinkScope>>)
    requires
        i <= v@.len(),
    ensures
        match r {
            Some(es) => parse_scopes_from(v@, i as int) == Some(scopes_view(es@)),
            None => parse_scopes_from(v@, i as int) is None,
        },
    decreases v@.len() - i,
{
    let k = find_ch_exec(v, i, ':');
    let lo = skip_spaces_exec(v, i, k);
    let hi = trim_end_exec(v, lo, k);
    match parse_scope_entry_exec(v, lo, hi) {
        None => None,
        Some(e) => {
            if k == v.len() {
                let mut out: Vec<LinkScope> = Vec::new();
                out.push(e);
                proof {
                    assert(scopes_view(out@) =~= seq![e@]);
                }
                Some(out)
            } else {
                match parse_scopes_from_exec(v, k + 1) {
                    None => None,
                    Some(rest) => {
                        let ghost rest0 = rest@;
                        let mut rest = rest;
                        rest.insert(0, e);
                        proof {
                            assert(scopes_view(rest@) =~= seq![e@] + scopes_view(rest0));
                        }
                        Some(rest)
                    },
                }
            }
        },
    }
}

fn scope_list_exec(v: &Vec<char>, i: usize) -> (r: Option<Vec<LinkScope>>)
    requires
        i <= v@.len(),
    ensures
        match r {
            Some(es) => scope_list(v@, i as int) == Some(scopes_view(es@)),
            None => scope_list(v@, i as int) is None,
        },
{
    if skip_spaces_exec(v, i, v.len()) == v.len() {
        let out: Vec<LinkScope> = Vec::new();
        proof {
            assert(scopes_view(out@) =~= Seq::<ScopeView>::empty());
        }
        Some(out)
    } else {
        parse_scopes_from_exec(v, i)
    }
}

fn parse_scoped_exec(v: &Vec<char>) -> (r: Option<LinkDestination>)
    ensures
        match r {
            Some(d) => parse_scoped_text(v@) == Some(d@),
            None => parse_scoped_text(v@) is None,
        },
{
    if v.len() == 0 {
        None
    } else if v[0] == ':' {
        let k = find_ch_exec(v, 1, ':');
        if k >= v.len() {
            None
        } else {
            let file = parse_file_ref_exec(&slice_chars(v, 1, k));
            match scope_list_exec(v, k + 1) {
                None => None,
                Some(sc) => Some(LinkDestination::Scoped { file: Some(file), scope: sc }),
            }
        }
    } else if v[0] == '$' {
        let k = find_ch_exec(v, 0, ':');
        let file = parse_file_ref_exec(&slice_chars(v, 0, k));
        let sc = if k >= v.len() {
            let out: Vec<LinkScope> = Vec::new();
            proof {
                assert(scopes_view(out@) =~= Seq::<ScopeView>::empty());
            }
            Some(out)
        } else {
            scope_list_exec(v, k + 1)
        };
        match sc {
            None => None,
            Some(sc) => Some(LinkDestination::Scoped { file: Some(file), scope: sc }),
        }
    } else if v[0] == '*' || v[0] == '?' {
        match scope_list_exec(v, 0) {
            None => None,
            Some(sc) => {
                if sc.len() == 0 {
                    None
                } else {
                    Some(LinkDestination::Scoped { file: None, scope: sc })
                }
            },
        }
    } else {
        None
    }
}

impl LinkDestination {
    /// Parses a destination from its text form: scoped when it starts
    /// with a scope marker, otherwise an opaque URI; empty text is
    /// invalid.
    pub fn parse_text(text: &str) -> (r: Option<LinkDestination>)
        ensures
            match r {
                Some(d) => parse_dest_text(text@) == Some(d@),
                None => parse_dest_text(text@) is None,
            },
    {
        let v = str_chars(text);
        if v.len() == 0 {
            None
        } else if v[0] == ':' || v[0] == '$' || v[0] == '*' || v[0] == '?' {
            parse_scoped_exec(&v)
        } else {
            Some(LinkDestination::Uri(String::from_str(text)))
        }
    }
}

// ------------------------------------------------------------------
// Executable serialization.
impl LinkWorkspace {
    /// The canonical text of the root marker.
    pub fn to_string(&self) -> (r: String)
        ensures
            r@ == root_text(self@),
    {
        match self {
            LinkWorkspace::Current => {
                proof {
                    reveal_strlit("$/");
                }
                let s = String::from_str("$/");
                proof {
                    assert(s@ =~= root_text(self@));
                }
                s
            },
            LinkWorkspace::Workspace(n) => {
                proof {
                    reveal_strlit("$");
                    reveal_strlit("/");
                }
                let mut s = String::from_str("$");
                s.append(n.as_str());
                s.append("/");
                proof {
                    assert(s@ =~= root_text(self@));
                }
                s
            },
        }
    }
}

impl NorgFile {
    /// The canonical text of the file reference: the root marker, if any,
    /// followed by the path.
    pub fn to_string(&self) -> (r: String)
        ensures
            r@ == file_text(self@),
    {
        match &self.root {
            Some(root) => {
                let mut s = root.to_string();
                s.append(self.path.as_str());
                s
            },
            None => self.path.clone(),
        }
    }
}

/// `n` stars.
pub open spec fn stars(n: nat) -> Seq<char> {
    Seq::new(n, |i: int| '*')
}

fn star_string(l: u16) -> (r: String)
    ensures
        r@ == stars(l as nat),
{
    let mut v: Vec<char> = Vec::new();
    let mut i: usize = 0;
    while i < l as usize
        invariant
            i <= l as usize,
            v@ == stars(i as nat),
        decreases l as usize - i,
    {
        v.push('*');
        i = i + 1;
        proof {
            assert(v@ =~= stars(i as nat));
        }
    }
    chars_to_string(&v)
}

impl LinkScope {
    /// The canonical text of the scope entry: the level's stars or `?`,
    /// a space, and the text.
    pub fn to_string(&self) -> (r: String)
        ensures
            r@ == scope_entry_text(self@),
    {
        match self {
            LinkScope::Heading(l, t) => {
                proof {
                    reveal_strlit(" ");
                }
                let mut s = star_string(*l);
                s.append(" ");
                s.append(t.as_str());
                proof {
                    assert(s@ =~= scope_entry_text(self@));
                }
                s
            },
            LinkScope::WikiHeading(t) => {
                proof {
                    reveal_strlit("? ");
                }
                let mut s = String::from_str("? ");
                s.append(t.as_str());
                proof {
                    assert(s@ =~= scope_entry_text(self@));
                }
                s
            },
        }
    }
}

fn scopes_tail_string(sc: &Vec<LinkScope>, i: usize) -> (r: String)
    requires
        i <= sc.len(),
    ensures
        r@ == scopes_tail_text(scopes_view(sc@).skip(i as int)),
    decreases sc.len() - i,
{
    if i == sc.len() {
        proof {
            assert(scopes_view(sc@).skip(i as int) =~= Seq::<ScopeView>::empty());
        }
        String::new()
    } else {
        proof {
            reveal_strlit(" : ");
        }
        let mut s = String::from_str(" : ");
        let e = sc[i].to_string();
        s.append(e.as_str());
        let rest = scopes_tail_string(sc, i + 1);
        s.append(rest.as_str());
        proof {
            assert(scopes_view(sc@).skip(i as int)[0] == sc@[i as int]@);
            assert(scopes_view(sc@).skip(i as int).drop_first() =~= scopes_view(sc@).skip(
                i as int + 1,
            ));
            assert(s@ =~= scopes_tail_text(scopes_view(sc@).skip(i as int)));
        }
        s
    }
}

impl LinkDestination {
    /// The canonical text of the destination; it inverts parsing for the
    /// forms rename rewrites.
    pub fn to_string(&self) -> (r: String)
        ensures
            r@ == dest_text(self@),
    {
        match self {
            LinkDestination::Uri(u) => u.clone(),
            LinkDestination::Scoped { file: Some(f), scope } => {
                let mut s = f.to_string();
                let t = scopes_tail_string(scope, 0);
                s.append(t.as_str());
                proof {
                    assert(scopes_view(scope@).skip(0) =~= scopes_view(scope@));
                }
                s
            },
            LinkDestination::Scoped { file: None, scope } => {
                if scope.len() == 0 {
                    String::new()
                } else {
                    let mut s = scope[0].to_string();
                    let t = scopes_tail_string(scope, 1);
                    s.append(t.as_str());
                    proof {
                        assert(scopes_view(scope@)[0] == scope@[0]@);
                        assert(scopes_view(scope@).drop_first() =~= scopes_view(scope@).skip(1));
                    }
                    s
                }
            },
        }
    }
}

// ------------------------------------------------------------------
// Linkables: the constructs that point somewhere or can be pointed to.
/// A syntactic construct that either points somewhere (a link, or an
/// anchor reference) or can be pointed to (an anchor definition).
#[derive(Debug, Clone, PartialEq)]
pub enum Linkable {
    Link { target: LinkDestination, markup: Option<String>, range: NodeRange },
    Anchor { target: Option<LinkDestination>, markup: String, range: NodeRange },
}

pub ghost enum LinkableView {
    LinkV { target: DestView, markup: Option<Seq<char>>, range: NodeRange },
    AnchorV { target: Option<DestView>, markup: Seq<char>, range: NodeRange },
}

impl View for Linkable {
    type V = LinkableView;

    open spec fn view(&self) -> LinkableView {
        match self {
            Linkable::Link { target, markup, range } => LinkableView::LinkV {
                target: target@,
                markup: match markup {
                    Some(m) => Some(m@),
                    None => None,
                },
                range: *range,
            },
            Linkable::Anchor { target, markup, range } => LinkableView::AnchorV {
                target: match target {
                    Some(t) => Some(t@),
                    None => None,
                },
                markup: markup@,
                range: *range,
            },
        }
    }
}

/// The text of the node's extent.
pub open spec fn node_text(n: SpecNode, s: Seq<char>) -> Seq<char> {
    s.subrange(n.range.start_offset as int, n.range.end_offset as int)
}

/// The node's extent lies within a text of length `len`.
pub open spec fn node_bounds_ok(n: SpecNode, len: int) -> bool {
    n.range.start_offset <= n.range.end_offset <= len
}

/// The node and its direct children lie within a text of length `len`.
pub open spec fn shallow_bounds(n: SpecNode, len: int) -> bool {
    node_bounds_ok(n, len) && forall|i: int|
        0 <= i < n.children.len() ==> node_bounds_ok(#[trigger] n.children[i], len)
}

/// What a destination-bearing node means: a raw target is an opaque URI,
/// a scoped target follows the scoped grammar, anything else is invalid.
pub open spec fn dest_of_node_text(kind: NodeKind, t: Seq<char>) -> Option<DestView> {
    match kind {
        NodeKind::RawTarget => Some(DestView::UriV(t)),
        NodeKind::ScopedTarget => parse_scoped_text(t),
        _ => None,
    }
}

/// The error a destination-bearing node yields when it has no meaning.
pub open spec fn dest_err_of(kind: NodeKind) -> NorgError {
    if kind == NodeKind::ScopedTarget {
        NorgError::InvalidScope
    } else {
        NorgError::UnsupportedTarget
    }
}

/// What a link or anchor node means, reading its target and markup
/// fields from the source text.
pub open spec fn linkable_of_node(n: SpecNode, s: Seq<char>) -> Option<LinkableView> {
    match n.kind {
        NodeKind::Link => match find_field(n.children, FieldTag::FieldTarget) {
            None => None,
            Some(t) => match dest_of_node_text(t.kind, node_text(t, s)) {
                None => None,
                Some(d) => Some(
                    LinkableView::LinkV {
                        target: d,
                        markup: match find_field(n.children, FieldTag::FieldMarkup) {
                            Some(m) => Some(node_text(m, s)),
                            None => None,
                        },
                        range: n.range,
                    },
                ),
            },
        },
        NodeKind::Anchor => match find_field(n.children, FieldTag::FieldMarkup) {
            None => None,
            Some(m) => match find_field(n.children, FieldTag::FieldTarget) {
                None => Some(
                    LinkableView::AnchorV { target: None, markup: node_text(m, s), range: n.range },
                ),
                Some(t) => match dest_of_node_text(t.kind, node_text(t, s)) {
                    None => None,
                    Some(d) => Some(
                        LinkableView::AnchorV {
                            target: Some(d),
                            markup: node_text(m, s),
                            range: n.range,
                        },
                    ),
                },
            },
        },
        _ => None,
    }
}

/// The error a node yields when it has no linkable meaning.
pub open spec fn linkable_err_of(n: SpecNode, s: Seq<char>) -> NorgError {
    match n.kind {
        NodeKind::Link => match find_field(n.children, FieldTag::FieldTarget) {
            None => NorgError::MissingTarget,
            Some(t) => dest_err_of(t.kind),
        },
        NodeKind::Anchor => match find_field(n.children, FieldTag::FieldMarkup) {
            None => NorgError::MissingMarkup,
            Some(m) => match find_field(n.children, FieldTag::FieldTarget) {
                None => NorgError::MissingMarkup,
                Some(t) => dest_err_of(t.kind),
            },
        },
        _ => NorgError::NotLinkable,
    }
}

impl LinkDestination {
    /// Reads the destination out of a destination-bearing syntax node:
    /// `Ok` exactly when the node is a raw target or a scoped target
    /// whose text follows the grammar, with the error saying which of
    /// the two failed.
    pub fn try_from_node(node: &SyntaxNode, source: &Vec<char>) -> (r: Result<
        LinkDestination,
        NorgError,
    >)
        requires
            node_bounds_ok(node@, source@.len() as int),
        ensures
            match r {
                Ok(d) => dest_of_node_text(node@.kind, node_text(node@, source@)) == Some(d@),
                Err(e) => dest_of_node_text(node@.kind, node_text(node@, source@)) is None && e
                    == dest_err_of(node@.kind),
            },
    {
        let text = slice_chars(source, node.range.start_offset, node.range.end_offset);
        match node.kind {
            NodeKind::RawTarget => Ok(LinkDestination::Uri(chars_to_string(&text))),
            NodeKind::ScopedTarget => match parse_scoped_exec(&text) {
                Some(d) => Ok(d),
                None => Err(NorgError::InvalidScope),
            },
            _ => Err(NorgError::UnsupportedTarget),
        }
    }
}

impl Linkable {
    /// The extent of the linkable in its document.
    pub open spec fn spec_range(self) -> NodeRange {
        match self {
            Linkable::Link { range, .. } => range,
            Linkable::Anchor { range, .. } => range,
        }
    }

    pub fn range(&self) -> (r: NodeRange)
        ensures
            r == self.spec_range(),
    {
        match self {
            Linkable::Link { range, .. } => *range,
            Linkable::Anchor { range, .. } => *range,
        }
    }

    /// Reads a link or anchor node into the typed model: a link needs a
    /// target field, an anchor a markup field; the error says what was
    /// missing or malformed.
    pub fn try_from_node(node: &SyntaxNode, source: &Vec<char>) -> (r: Result<Linkable, NorgError>)
        requires
            shallow_bounds(node@, source@.len() as int),
        ensures
            match r {
                Ok(l) => linkable_of_node(node@, source@) == Some(l@),
                Err(e) => linkable_of_node(node@, source@) is None && e == linkable_err_of(
                    node@,
                    source@,
                ),
            },
    {
        match node.kind {
            NodeKind::Link => {
                let target_node = match node.child_by_field(FieldTag::FieldTarget) {
                    Some(t) => t,
                    None => {
                        return Err(NorgError::MissingTarget);
                    },
                };
                proof {
                    lemma_find_field_mem(node@.children, FieldTag::FieldTarget);
                }
                let target = match LinkDestination::try_from_node(target_node, source) {
                    Ok(d) => d,
                    Err(e) => {
                        return Err(e);
                    },
                };
                let markup = match node.child_by_field(FieldTag::FieldMarkup) {
                    Some(m) => {
                        proof {
                            lemma_find_field_mem(node@.children, FieldTag::FieldMarkup);
                        }
                        Some(
                            chars_to_string(
                                &slice_chars(source, m.range.start_offset, m.range.end_offset),
                            ),
                        )
                    },
                    None => None,
                };
                Ok(Linkable::Link { target, markup, range: node.range })
            },
            NodeKind::Anchor => {
                let markup_node = match node.child_by_field(FieldTag::FieldMarkup) {
                    Some(m) => m,
                    None => {
                        return Err(NorgError::MissingMarkup);
                    },
                };
                proof {
                    lemma_find_field_mem(node@.children, FieldTag::FieldMarkup);
                }
                let target = match node.child_by_field(FieldTag::FieldTarget) {
                    Some(t) => {
                        proof {
                            lemma_find_field_mem(node@.children, FieldTag::FieldTarget);
                        }
                        match LinkDestination::try_from_node(t, source) {
                            Ok(d) => Some(d),
                            Err(e) => {
                                return Err(e);
                            },
                        }
                    },
                    None => None,
                };
                let markup = chars_to_string(
                    &slice_chars(source, markup_node.range.start_offset, markup_node.range.end_offset),
                );
                Ok(Linkable::Anchor { target, markup, range: node.range })
            },
            _ => Err(NorgError::NotLinkable),
        }
    }
}

} // verus!
