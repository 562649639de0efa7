//! The text model of a `ropey::Rope` and the contracts of the rope methods
//! that the editor calls.
//!
//! A rope is viewed as the sequence of its chars (`rope_text`). Lines follow
//! ropey's default line-break rules (the `unicode_lines` feature): a line
//! starts at index 0 and right after every line break, and a line break is
//! one of LF, VT, FF, CR, NEL, LS, PS, with CR LF counting as one break.
use vstd::prelude::*;

use ropey::{Rope, RopeSlice};

verus! {

#[verifier::external_type_specification]
#[verifier::external_body]
pub struct ExRope(ropey::Rope);

#[verifier::external_type_specification]
#[verifier::external_body]
pub struct ExRopeSlice<'a>(ropey::RopeSlice<'a>);

/// The chars that a rope holds, in order.
pub uninterp spec fn rope_text(r: Rope) -> Seq<char>;

/// The chars that a rope slice holds, in order.
pub uninterp spec fn slice_text(s: RopeSlice) -> Seq<char>;

/// A char that ends a line on its own (CR is one too, unless an LF follows it).
pub open spec fn is_line_break_char(c: char) -> bool {
    c == '\n' || c == '\u{0B}' || c == '\u{0C}' || c == '\r' || c == '\u{85}' || c == '\u{2028}'
        || c == '\u{2029}'
}

/// Index `k` of `s` is the last char of a line break.
pub open spec fn ends_line_break(s: Seq<char>, k: int) -> bool {
    &&& 0 <= k < s.len()
    &&& is_line_break_char(s[k])
    &&& !(s[k] == '\r' && k + 1 < s.len() && s[k + 1] == '\n')
}

/// The start indices of the lines that begin at or before index `n`.
pub open spec fn line_starts_upto(s: Seq<char>, n: nat) -> Seq<int>
    decreases n,
{
    if n == 0 {
        seq![0int]
    } else {
        let prev = line_starts_upto(s, (n - 1) as nat);
        if ends_line_break(s, n - 1) {
            prev.push(n as int)
        } else {
            prev
        }
    }
}

/// The start index of every line of `s`, in order.
pub open spec fn line_starts(s: Seq<char>) -> Seq<int> {
    line_starts_upto(s, s.len())
}

/// The number of lines of `s` (one more than its line breaks).
pub open spec fn line_count(s: Seq<char>) -> nat {
    line_starts(s).len()
}

/// The char index at which line `i` starts; one past the last line this is
/// the length of `s`.
pub open spec fn line_start(s: Seq<char>, i: int) -> int {
    if 0 <= i < line_count(s) {
        line_starts(s)[i]
    } else {
        s.len() as int
    }
}

/// The chars of line `i`, its line break included.
pub open spec fn line_text(s: Seq<char>, i: int) -> Seq<char> {
    s.subrange(line_start(s, i), line_start(s, i + 1))
}

proof fn lemma_line_starts_upto(s: Seq<char>, n: nat)
    requires
        n <= s.len(),
    ensures
        line_starts_upto(s, n).len() >= 1,
        line_starts_upto(s, n)[0] == 0,
        forall|i: int|
            0 <= i < line_starts_upto(s, n).len() ==> 0 <= #[trigger] line_starts_upto(s, n)[i]
                <= n,
        forall|i: int, j: int|
            0 <= i < j < line_starts_upto(s, n).len() ==> line_starts_upto(s, n)[i]
                < line_starts_upto(s, n)[j],
    decreases n,
{
    if n > 0 {
        lemma_line_starts_upto(s, (n - 1) as nat);
    }
}

/// Line starts are strictly increasing from 0 and never pass the end of the text.
pub proof fn lemma_line_starts(s: Seq<char>)
    ensures
        line_count(s) >= 1,
        line_start(s, 0) == 0,
        forall|i: int| #![trigger line_start(s, i)] 0 <= line_start(s, i) <= s.len(),
        forall|i: int, j: int|
            #![trigger line_start(s, i), line_start(s, j)]
            0 <= i < j <= line_count(s) ==> line_start(s, i) < line_start(s, j) || (j
                == line_count(s) && line_start(s, i) <= line_start(s, j)),
{
    lemma_line_starts_upto(s, s.len());
}

proof fn lemma_line_starts_upto_len(s: Seq<char>, n: nat)
    ensures
        line_starts_upto(s, n).len() <= n + 1,
    decreases n,
{
    if n > 0 {
        lemma_line_starts_upto_len(s, (n - 1) as nat);
    }
}

/// A text has at most one line more than it has chars.
pub proof fn lemma_line_count_bound(s: Seq<char>)
    ensures
        line_count(s) <= s.len() + 1,
{
    lemma_line_starts_upto_len(s, s.len());
}

proof fn lemma_upto_prefix(s: Seq<char>, n: nat, m: nat)
    requires
        n <= m,
    ensures
        line_starts_upto(s, n).len() <= line_starts_upto(s, m).len(),
        forall|j: int|
            0 <= j < line_starts_upto(s, n).len() ==> #[trigger] line_starts_upto(s, m)[j]
                == line_starts_upto(s, n)[j],
        forall|j: int|
            line_starts_upto(s, n).len() <= j < line_starts_upto(s, m).len() ==> #[trigger] line_starts_upto(
                s,
                m,
            )[j] > n,
    decreases m - n,
{
    if m > n {
        lemma_upto_prefix(s, n, (m - 1) as nat);
    }
}

proof fn lemma_upto_same(a: Seq<char>, b: Seq<char>, n: nat)
    requires
        forall|k: int| 0 <= k < n ==> ends_line_break(a, k) == ends_line_break(b, k),
    ensures
        line_starts_upto(a, n) == line_starts_upto(b, n),
    decreases n,
{
    if n > 0 {
        lemma_upto_same(a, b, (n - 1) as nat);
    }
}

/// Inserting a char that is not a line break at or after the start of line
/// `row` leaves where that line starts, and it stays a line.
pub proof fn lemma_insert_keeps_line_start(t: Seq<char>, row: int, i: int, ch: char)
    requires
        0 <= row < line_count(t),
        line_start(t, row) <= i <= t.len(),
        !is_line_break_char(ch),
    ensures
        row < line_count(t.insert(i, ch)),
        line_start(t.insert(i, ch), row) == line_start(t, row),
{
    let t1 = t.insert(i, ch);
    let st = line_start(t, row);
    lemma_line_starts_upto(t, t.len());
    // The prefix on which both texts agree about line breaks.
    let n: nat = if st < i { (i - 1) as nat } else { i as nat };
    assert forall|k: int| 0 <= k < n implies ends_line_break(t1, k) == ends_line_break(t, k) by {
        assert(t1[k] == t[k]);
        if k + 1 < i {
            assert(t1[k + 1] == t[k + 1]);
        } else {
            // Here k + 1 == i, a line starts at i in t, and the char after
            // the break is the inserted one, not LF.
            assert(k + 1 == i && st == i);
            assert(t1[k + 1] == ch);
            let ls = line_starts_upto(t, t.len());
            assert(ls[row] == i);
            if row > 0 {
                assert(ls[row - 1] < ls[row]);
            }
            lemma_upto_prefix(t, i as nat, t.len());
            lemma_upto_prefix(t, (i - 1) as nat, i as nat);
            lemma_line_starts_upto(t, (i - 1) as nat);
            lemma_line_starts_upto(t, i as nat);
            // The entry `i` comes from step i of the construction.
            assert(line_starts_upto(t, i as nat).len() > line_starts_upto(t, (i - 1) as nat).len()) by {
                if line_starts_upto(t, i as nat).len() <= row {
                    assert(ls[row] > i);
                }
                if line_starts_upto(t, i as nat) == line_starts_upto(t, (i - 1) as nat) {
                    assert(line_starts_upto(t, (i - 1) as nat)[row] <= i - 1);
                }
            }
            assert(ends_line_break(t, i - 1));
        }
    }
    lemma_upto_same(t1, t, n);
    lemma_line_starts_upto(t, n);
    lemma_line_starts_upto(t1, t1.len());
    lemma_upto_prefix(t, n, t.len());
    lemma_upto_prefix(t1, n, t1.len());
    // Line `row` starts at or before n, so it is among the common starts.
    assert(row < line_starts_upto(t, n).len()) by {
        if row >= line_starts_upto(t, n).len() {
            assert(line_starts_upto(t, t.len())[row] > n);
        }
    }
}

/// The number of bytes of a char in UTF-8.
pub open spec fn utf8_len(c: char) -> nat {
    if (c as u32) < 0x80 {
        1
    } else if (c as u32) < 0x800 {
        2
    } else if (c as u32) < 0x10000 {
        3
    } else {
        4
    }
}

/// The number of bytes of a text in UTF-8.
pub open spec fn byte_len(s: Seq<char>) -> nat
    decreases s.len(),
{
    if s.len() == 0 {
        0
    } else {
        utf8_len(s[0]) + byte_len(s.skip(1))
    }
}

/// The index of the char that holds byte `b` of the UTF-8 encoding of `s`;
/// the length of `s` for the byte just past the end.
pub open spec fn char_at_byte(s: Seq<char>, b: int) -> int
    decreases s.len(),
{
    if s.len() == 0 || b < utf8_len(s[0]) {
        0
    } else {
        1 + char_at_byte(s.skip(1), b - utf8_len(s[0]))
    }
}

/// A line is no longer than the whole text.
pub proof fn lemma_line_text_len(s: Seq<char>, i: int)
    requires
        0 <= i < line_count(s),
    ensures
        line_text(s, i).len() <= s.len(),
        0 <= line_start(s, i) <= line_start(s, i + 1) <= s.len(),
{
    lemma_line_starts(s);
    assert(line_start(s, i) < line_start(s, i + 1) || line_start(s, i) <= line_start(s, i + 1));
}

/// Ropey's `Rope::from_str`: the rope holds exactly the chars of `text`.
pub assume_specification[ ropey::Rope::from_str ](text: &str) -> (r: Rope)
    ensures
        rope_text(r) == text@,
;

/// Ropey's `Rope::len_chars`: the number of chars in the rope.
pub assume_specification[ ropey::Rope::len_chars ](r: &Rope) -> (n: usize)
    ensures
        n == rope_text(*r).len(),
;

/// Ropey's `Rope::len_lines`: one more than the number of line breaks.
pub assume_specification[ ropey::Rope::len_lines ](r: &Rope) -> (n: usize)
    ensures
        n == line_count(rope_text(*r)),
;

/// Ropey's `Rope::line_to_char`: the char index where a line starts; one past
/// the last line gives the length. It panics beyond that.
pub assume_specification[ ropey::Rope::line_to_char ](r: &Rope, line_idx: usize) -> (n: usize)
    requires
        line_idx <= line_count(rope_text(*r)),
    ensures
        n == line_start(rope_text(*r), line_idx as int),
        n <= rope_text(*r).len() <= usize::MAX,
;

/// Ropey's `Rope::char`: the char at an index; it panics out of bounds.
pub assume_specification[ ropey::Rope::char ](r: &Rope, char_idx: usize) -> (c: char)
    requires
        char_idx < rope_text(*r).len(),
    ensures
        c == rope_text(*r)[char_idx as int],
;

/// Ropey's `Rope::line`: the slice of one line, its line break included; it
/// panics when the line does not exist.
pub assume_specification<'a>[ ropey::Rope::line ](r: &'a Rope, line_idx: usize) -> (s: RopeSlice<'a>)
    requires
        line_idx < line_count(rope_text(*r)),
    ensures
        slice_text(s) == line_text(rope_text(*r), line_idx as int),
;

/// Ropey's `Rope::insert_char`: inserts one char at a char index (panics past the end).
pub assume_specification[ ropey::Rope::insert_char ](r: &mut Rope, char_idx: usize, ch: char)
    requires
        char_idx <= rope_text(*old(r)).len(),
    ensures
        rope_text(*final(r)) == rope_text(*old(r)).insert(char_idx as int, ch),
;

/// Ropey's `Rope::insert`: inserts a string at a char index (panics past the end).
pub assume_specification[ ropey::Rope::insert ](r: &mut Rope, char_idx: usize, text: &str)
    requires
        char_idx <= rope_text(*old(r)).len(),
    ensures
        rope_text(*final(r)) == rope_text(*old(r)).take(char_idx as int) + text@ + rope_text(
            *old(r),
        ).skip(char_idx as int),
;

/// Ropey's `Rope::len_bytes`: the length of the text in UTF-8 bytes.
pub assume_specification[ ropey::Rope::len_bytes ](r: &Rope) -> (n: usize)
    ensures
        n == byte_len(rope_text(*r)),
;

/// Ropey's `Rope::line_to_byte`: the byte index where a line starts; one past
/// the last line gives the byte length. It panics beyond that.
pub assume_specification[ ropey::Rope::line_to_byte ](r: &Rope, line_idx: usize) -> (n: usize)
    requires
        line_idx <= line_count(rope_text(*r)),
    ensures
        n == byte_len(rope_text(*r).take(line_start(rope_text(*r), line_idx as int))),
;

/// Ropey's `Rope::byte_to_char`: the index of the char that a byte belongs
/// to (the byte just past the end gives the length). It panics beyond that.
pub assume_specification[ ropey::Rope::byte_to_char ](r: &Rope, byte_idx: usize) -> (n: usize)
    requires
        byte_idx <= byte_len(rope_text(*r)),
    ensures
        n == char_at_byte(rope_text(*r), byte_idx as int),
;

/// Ropey's `Rope::clone`: a rope with the same text.
pub assume_specification[ <ropey::Rope as Clone>::clone ](r: &Rope) -> (c: Rope)
    ensures
        rope_text(c) == rope_text(*r),
;

/// Ropey's `RopeSlice::len_chars`: the number of chars in the slice.
pub assume_specification<'a>[ ropey::RopeSlice::<'a>::len_chars ](s: &RopeSlice<'a>) -> (n: usize)
    ensures
        n == slice_text(*s).len(),
;

/// Ropey's `RopeSlice::char`: the char at an index of the slice; it panics out of bounds.
pub assume_specification<'a>[ ropey::RopeSlice::<'a>::char ](s: &RopeSlice<'a>, char_idx: usize) -> (c: char)
    requires
        char_idx < slice_text(*s).len(),
    ensures
        c == slice_text(*s)[char_idx as int],
;

/// Ropey's `Rope::remove` on the range `start..end`: removes those chars. It
/// panics when `start > end` or `end` is past the end.
#[verifier::external_body]
pub(crate) fn rope_remove(r: &mut Rope, start: usize, end: usize)
    requires
        start <= end <= rope_text(*old(r)).len(),
    ensures
        rope_text(*final(r)) == rope_text(*old(r)).take(start as int) + rope_text(*old(r)).skip(
            end as int,
        ),
{
    r.remove(start..end)
}

/// Ropey's `Display` for `Rope` through `to_string`: a `String` of the rope's chars.
#[verifier::external_body]
pub(crate) fn rope_to_string(r: &Rope) -> (s: String)
    ensures
        s@ == rope_text(*r),
{
    r.to_string()
}

} // verus!
