//! The document text buffer: a rope from the `ropey` crate, kept behind
//! trusted wrappers whose contracts speak of the buffer's contents as a
//! sequence of characters. The crate is built without its optional
//! line-break features, so the only line break is '\n'.

use vstd::prelude::*;

verus! {

#[verifier::external_type_specification]
#[verifier::external_body]
pub struct ExRope(ropey::Rope);

/// The characters a rope holds, in order.
pub uninterp spec fn rope_text(r: ropey::Rope) -> Seq<char>;

/// The number of line breaks ('\n') in `s`.
pub open spec fn nl_count(s: Seq<char>) -> int
    decreases s.len(),
{
    if s.len() == 0 {
        0
    } else {
        nl_count(s.drop_last()) + if s.last() == '\n' {
            1int
        } else {
            0int
        }
    }
}

/// The index of the first '\n' at or after `i`, or `s.len()` if there is
/// none.
pub open spec fn line_end_at(s: Seq<char>, i: int) -> int
    decreases s.len() - i,
{
    if i < 0 || i >= s.len() {
        s.len() as int
    } else if s[i] == '\n' {
        i
    } else {
        line_end_at(s, i + 1)
    }
}

/// The character index where the given line starts; for the line index
/// one past the last line this is `s.len()`.
pub open spec fn line_start(s: Seq<char>, line: int) -> int
    decreases line,
{
    if line <= 0 {
        0
    } else {
        let e = line_end_at(s, line_start(s, line - 1));
        if e < s.len() {
            e + 1
        } else {
            s.len() as int
        }
    }
}

/// Line starts never pass the end of the text.
pub proof fn lemma_line_start_le_len(s: Seq<char>, l: int)
    requires
        0 <= l,
    ensures
        line_start(s, l) <= s.len(),
    decreases l,
{
    if l > 0 {
        lemma_line_start_le_len(s, l - 1);
    }
}

pub(crate) fn line_end_exec(v: &Vec<char>, i: usize) -> (r: usize)
    requires
        i <= v@.len(),
    ensures
        i <= r <= v@.len(),
        r as int == line_end_at(v@, i as int),
    decreases v@.len() - i,
{
    if i == v.len() {
        i
    } else if v[i] == '\n' {
        i
    } else {
        line_end_exec(v, i + 1)
    }
}

/// A prefix of a text has at most as many line breaks as the whole.
pub proof fn lemma_nl_count_take_le(s: Seq<char>, n: int)
    requires
        0 <= n <= s.len(),
    ensures
        nl_count(s.take(n)) <= nl_count(s),
    decreases s.len() - n,
{
    if n == s.len() {
        assert(s.take(n) =~= s);
    } else {
        lemma_nl_count_take_le(s, n + 1);
        assert(s.take(n + 1).drop_last() =~= s.take(n));
    }
}

/// The first line break at or after a non-negative index is itself at a
/// non-negative index.
pub proof fn lemma_line_end_at_nonneg(s: Seq<char>, i: int)
    requires
        0 <= i,
    ensures
        line_end_at(s, i) >= 0,
    decreases s.len() - i,
{
    if 0 <= i < s.len() && s[i] != '\n' {
        lemma_line_end_at_nonneg(s, i + 1);
    }
}

/// Line starts are non-negative.
pub proof fn lemma_line_start_nonneg(s: Seq<char>, l: int)
    requires
        0 <= l,
    ensures
        line_start(s, l) >= 0,
    decreases l,
{
    if l > 0 {
        lemma_line_start_nonneg(s, l - 1);
        lemma_line_end_at_nonneg(s, line_start(s, l - 1));
    }
}

/// The first line break at or after `p` comes no later than a known
/// break at `off`.
pub proof fn lemma_line_end_at_le(s: Seq<char>, p: int, off: int)
    requires
        0 <= p <= off < s.len(),
        s[off] == '\n',
    ensures
        p <= line_end_at(s, p) <= off,
    decreases off - p,
{
    if s[p] != '\n' {
        lemma_line_end_at_le(s, p + 1, off);
    }
}

/// The start of the line holding offset `off` is at most `off`.
pub proof fn lemma_line_start_le(s: Seq<char>, off: int)
    requires
        0 <= off <= s.len(),
    ensures
        0 <= nl_count(s.take(off)),
        line_start(s, nl_count(s.take(off))) <= off,
    decreases off,
{
    if off == 0 {
        assert(s.take(0) =~= Seq::<char>::empty());
    } else {
        lemma_line_start_le(s, off - 1);
        assert(s.take(off).drop_last() =~= s.take(off - 1));
        if s.take(off).last() == '\n' {
            lemma_line_start_nonneg(s, nl_count(s.take(off - 1)));
            lemma_line_end_at_le(s, line_start(s, nl_count(s.take(off - 1))), off - 1);
        }
    }
}

/// The start of the line holding offset `off`: the position just after
/// the last '\n' before `off`, or 0.
pub open spec fn last_break(s: Seq<char>, off: int) -> int
    decreases off,
{
    if off <= 0 {
        0
    } else if 0 <= off - 1 < s.len() && s[off - 1] == '\n' {
        off
    } else {
        last_break(s, off - 1)
    }
}

/// The (row, column) position of character offset `off`.
pub open spec fn pos_of(s: Seq<char>, off: int) -> crate::range::Position {
    crate::range::Position {
        row: nl_count(s.take(off)) as usize,
        column: (off - last_break(s, off)) as usize,
    }
}

/// Computes the (row, column) position of a character offset.
pub fn pos_at(v: &Vec<char>, off: usize) -> (p: crate::range::Position)
    requires
        off <= v@.len(),
    ensures
        p == pos_of(v@, off as int),
{
    let mut row: usize = 0;
    let mut lstart: usize = 0;
    let mut j: usize = 0;
    while j < off
        invariant
            j <= off <= v@.len(),
            row <= j,
            lstart <= j,
            row as int == nl_count(v@.take(j as int)),
            lstart as int == last_break(v@, j as int),
        decreases off - j,
    {
        if v[j] == '\n' {
            row = row + 1;
            lstart = j + 1;
        }
        j = j + 1;
        proof {
            assert(v@.take(j as int).drop_last() =~= v@.take(j as int - 1));
        }
    }
    crate::range::Position { row, column: off - lstart }
}

// ------------------------------------------------------------------
// Wire coordinates: the protocol counts columns in UTF-16 code units,
// the document model in characters. The conversions below translate
// between the two within one line.
/// The number of UTF-16 code units a character occupies: two for a
/// supplementary-plane character, one otherwise.
pub open spec fn utf16_width(c: char) -> int {
    if (c as u32) >= 0x10000 {
        2int
    } else {
        1int
    }
}

/// The number of whole characters of s[i..e) that fit within `u` UTF-16
/// code units: the character column for wire column `u`. A column past
/// the line's end, or inside a surrogate pair, stops at the last whole
/// character.
pub open spec fn chars_in_utf16(s: Seq<char>, i: int, e: int, u: int) -> int
    decreases e - i,
{
    if i < 0 || i >= e || i >= s.len() || u < utf16_width(s[i]) {
        0
    } else {
        1 + chars_in_utf16(s, i + 1, e, u - utf16_width(s[i]))
    }
}

/// The UTF-16 length of the first `n` characters of s[i..e): the wire
/// column for character column `n` (clamped to the line's end).
pub open spec fn utf16_of_chars(s: Seq<char>, i: int, e: int, n: int) -> int
    decreases e - i,
{
    if i < 0 || i >= e || i >= s.len() || n <= 0 {
        0
    } else {
        utf16_width(s[i]) + utf16_of_chars(s, i + 1, e, n - 1)
    }
}

pub(crate) fn chars_in_utf16_exec(v: &Vec<char>, i: usize, e: usize, u: usize) -> (r: usize)
    requires
        i <= e <= v@.len(),
    ensures
        i + r <= e,
        r as int == chars_in_utf16(v@, i as int, e as int, u as int),
    decreases e - i,
{
    if i == e {
        0
    } else {
        let w: usize = if (v[i] as u32) >= 0x10000 {
            2
        } else {
            1
        };
        if u < w {
            0
        } else {
            1 + chars_in_utf16_exec(v, i + 1, e, u - w)
        }
    }
}

pub(crate) fn utf16_of_chars_exec(v: &Vec<char>, i: usize, e: usize, n: usize) -> (r: usize)
    requires
        i <= e <= v@.len(),
    ensures
        r as int == crate::parser::imin(
            utf16_of_chars(v@, i as int, e as int, n as int),
            usize::MAX as int,
        ),
    decreases e - i,
{
    if i == e || n == 0 {
        0
    } else {
        let w: usize = if (v[i] as u32) >= 0x10000 {
            2
        } else {
            1
        };
        let rest = utf16_of_chars_exec(v, i + 1, e, n - 1);
        if rest > usize::MAX - w {
            usize::MAX
        } else {
            w + rest
        }
    }
}

/// The position for a wire position: the same row, with the UTF-16
/// code-unit column turned into a character column within that row. A
/// row past the text is handed back unchanged.
pub open spec fn wire_to_doc(s: Seq<char>, p: crate::range::Position) -> crate::range::Position {
    if p.row > nl_count(s) {
        p
    } else {
        let ls = line_start(s, p.row as int);
        let le = line_end_at(s, ls);
        crate::range::Position {
            row: p.row,
            column: chars_in_utf16(s, ls, le, p.column as int) as usize,
        }
    }
}

/// The wire position for a position: the same row, with the character
/// column turned into a UTF-16 code-unit column within that row
/// (saturating at the largest representable column). A row past the
/// text is handed back unchanged.
pub open spec fn doc_to_wire(s: Seq<char>, p: crate::range::Position) -> crate::range::Position {
    if p.row > nl_count(s) {
        p
    } else {
        let ls = line_start(s, p.row as int);
        let le = line_end_at(s, ls);
        crate::range::Position {
            row: p.row,
            column: crate::parser::imin(
                utf16_of_chars(s, ls, le, p.column as int),
                usize::MAX as int,
            ) as usize,
        }
    }
}

/// Relies on ropey::Rope::from_str: builds a rope holding the characters
/// of `text`.
#[verifier::external_body]
pub fn rope_from_str(text: &str) -> (r: ropey::Rope)
    ensures
        rope_text(r) == text@,
{
    ropey::Rope::from_str(text)
}

/// Relies on ropey::Rope::len_chars: the total number of characters.
#[verifier::external_body]
pub fn rope_len_chars(r: &ropey::Rope) -> (n: usize)
    ensures
        n == rope_text(*r).len(),
{
    r.len_chars()
}

/// Relies on ropey::Rope::len_lines: one more than the number of line
/// breaks.
#[verifier::external_body]
pub fn rope_len_lines(r: &ropey::Rope) -> (n: usize)
    ensures
        n == nl_count(rope_text(*r)) + 1,
{
    r.len_lines()
}

/// Relies on ropey::Rope::insert: splices `text` in at character index
/// `at`. It panics only on an out-of-bounds index, which the contract
/// rules out.
#[verifier::external_body]
pub fn rope_insert(r: &mut ropey::Rope, at: usize, text: &str)
    requires
        at <= rope_text(*old(r)).len(),
    ensures
        rope_text(*final(r)) == rope_text(*old(r)).take(at as int) + text@ + rope_text(
            *old(r),
        ).skip(at as int),
{
    r.insert(at, text)
}

/// Relies on ropey::Rope::remove: removes the characters in [from, to).
/// It panics only on a backwards or out-of-bounds range, which the
/// contract rules out.
#[verifier::external_body]
pub fn rope_remove(r: &mut ropey::Rope, from: usize, to: usize)
    requires
        from <= to <= rope_text(*old(r)).len(),
    ensures
        rope_text(*final(r)) == rope_text(*old(r)).take(from as int) + rope_text(*old(r)).skip(
            to as int,
        ),
{
    r.remove(from..to)
}

/// Relies on ropey::Rope::line_to_char: the character index where the
/// given line starts; the line index one past the last line maps to one
/// past the end of the text.
#[verifier::external_body]
pub fn rope_line_to_char(r: &ropey::Rope, line: usize) -> (n: usize)
    requires
        line <= nl_count(rope_text(*r)) + 1,
    ensures
        n == line_start(rope_text(*r), line as int),
{
    r.line_to_char(line)
}

/// Relies on ropey::Rope::char_to_line: the line holding the character at
/// the given index (one past the end maps to the last line).
#[verifier::external_body]
pub fn rope_char_to_line(r: &ropey::Rope, at: usize) -> (n: usize)
    requires
        at <= rope_text(*r).len(),
    ensures
        n == nl_count(rope_text(*r).take(at as int)),
{
    r.char_to_line(at)
}

/// Relies on ropey::Rope::chars: hands the characters out in order.
#[verifier::external_body]
pub fn rope_chars(r: &ropey::Rope) -> (v: Vec<char>)
    ensures
        v@ == rope_text(*r),
{
    r.chars().collect()
}

/// Relies on str::chars: the characters of the slice, in order.
#[verifier::external_body]
pub fn str_chars(s: &str) -> (v: Vec<char>)
    ensures
        v@ == s@,
{
    s.chars().collect()
}

/// Relies on String::from_iter over characters: builds the string of
/// exactly the characters handed to it.
#[verifier::external_body]
pub fn chars_to_string(v: &Vec<char>) -> (s: String)
    ensures
        s@ == v@,
{
    v.iter().collect()
}

} // verus!
