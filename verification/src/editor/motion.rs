//! Where the cursor motions over words, paragraphs and chars of a line go.
use vstd::prelude::*;

use crate::buffer::rope::{lemma_line_text_len, line_count, line_text, rope_text};
use crate::buffer::{display_len, is_word_char, line_display_len, spec_is_word_char};
use crate::editor::document::{spec_line_len, Document};
use crate::editor::selection::Position;

verus! {

/// The chars of line `row` without its line break.
pub open spec fn line_chars(t: Seq<char>, row: int) -> Seq<char> {
    line_text(t, row).take(display_len(line_text(t, row)) as int)
}

/// The class of a char for word motions: 0 for blanks, 1 for word chars (any
/// non-blank for WORD motions, `big`), 2 for other chars.
pub open spec fn char_class(c: char, big: bool) -> u8 {
    if c == ' ' || c == '\t' || c == '\n' || c == '\r' {
        0
    } else if big || spec_is_word_char(c) {
        1
    } else {
        2
    }
}

/// The first index from `i` on whose char is not of class `k` (or the end).
pub open spec fn run_end(s: Seq<char>, i: nat, k: u8, big: bool) -> nat
    decreases s.len() - i,
{
    if i < s.len() && char_class(s[i as int], big) == k {
        run_end(s, i + 1, k, big)
    } else {
        i
    }
}

/// The start of the run of class-`k` chars that ends just before `i`.
pub open spec fn run_start(s: Seq<char>, i: nat, k: u8, big: bool) -> nat
    decreases i,
{
    if 0 < i <= s.len() && char_class(s[i - 1], big) == k {
        run_start(s, (i - 1) as nat, k, big)
    } else {
        i
    }
}

/// The first non-blank column of a line (its length when it is all blank).
pub open spec fn first_non_blank(s: Seq<char>) -> nat {
    run_end(s, 0, 0, false)
}

/// `w`: past the rest of the word (or punctuation run) under column `col`
/// and the blanks after it; `None` when that reaches the end of the line.
pub open spec fn word_forward(s: Seq<char>, col: nat, big: bool) -> Option<nat> {
    if col >= s.len() {
        None
    } else {
        let k = char_class(s[col as int], big);
        let j = if k == 0 {
            col
        } else {
            run_end(s, col, k, big)
        };
        let j2 = run_end(s, j, 0, big);
        if j2 < s.len() {
            Some(j2)
        } else {
            None
        }
    }
}

/// `b`: back over blanks before column `col`, then to the start of the word
/// (or punctuation run) there; `None` when nothing but blanks precede it.
pub open spec fn word_backward(s: Seq<char>, col: nat, big: bool) -> Option<nat> {
    let c = if col <= s.len() {
        col
    } else {
        s.len()
    };
    let j = run_start(s, c, 0, big);
    if j == 0 {
        None
    } else {
        Some(run_start(s, j, char_class(s[j - 1], big), big))
    }
}

/// `e` from index `start` on: past blanks, to the last char of the word (or
/// punctuation run) there; `None` when only blanks remain.
pub open spec fn word_end_from(s: Seq<char>, start: nat, big: bool) -> Option<nat> {
    let j = run_end(s, start, 0, big);
    if j >= s.len() {
        None
    } else {
        Some((run_end(s, j, char_class(s[j as int], big), big) - 1) as nat)
    }
}

/// The first index from `i` on holding `ch`.
pub open spec fn find_from(s: Seq<char>, i: nat, ch: char) -> Option<nat>
    decreases s.len() - i,
{
    if i >= s.len() {
        None
    } else if s[i as int] == ch {
        Some(i)
    } else {
        find_from(s, i + 1, ch)
    }
}

/// The last index before `i` holding `ch`.
pub open spec fn find_before(s: Seq<char>, i: nat, ch: char) -> Option<nat>
    decreases i,
{
    if i == 0 || i > s.len() {
        None
    } else if s[i - 1] == ch {
        Some((i - 1) as nat)
    } else {
        find_before(s, (i - 1) as nat, ch)
    }
}

/// The first empty line from row `r` on, or the last line.
pub open spec fn next_empty_row(t: Seq<char>, r: nat) -> nat
    decreases line_count(t) - r,
{
    if r + 1 >= line_count(t) {
        if line_count(t) > 0 {
            (line_count(t) - 1) as nat
        } else {
            0
        }
    } else if spec_line_len(t, r as int) == 0 {
        r
    } else {
        next_empty_row(t, r + 1)
    }
}

/// The last empty line at row `r` or before it, or the first line.
pub open spec fn prev_empty_row(t: Seq<char>, r: nat) -> nat
    decreases r,
{
    if r == 0 {
        0
    } else if spec_line_len(t, r as int) == 0 {
        r
    } else {
        prev_empty_row(t, (r - 1) as nat)
    }
}

/// The chars of line `row` without its line break.
pub fn line_chars_of(doc: &Document, row: usize) -> (v: Vec<char>)
    requires
        row < line_count(doc.text()),
    ensures
        v@ == line_chars(doc.text(), row as int),
{
    let line = doc.rope.line(row);
    let n = line_display_len(line);
    proof {
        lemma_line_text_len(doc.text(), row as int);
    }
    let mut v: Vec<char> = Vec::new();
    let mut i = 0usize;
    while i < n
        invariant
            i <= n,
            n == display_len(line_text(doc.text(), row as int)),
            n <= line_text(doc.text(), row as int).len(),
            crate::buffer::rope::slice_text(line) == line_text(doc.text(), row as int),
            v@ == line_text(doc.text(), row as int).take(i as int),
        decreases n - i,
    {
        v.push(line.char(i));
        i += 1;
        proof {
            assert(v@ =~= line_text(doc.text(), row as int).take(i as int));
        }
    }
    v
}

fn class_of(c: char, big: bool) -> (k: u8)
    ensures
        k == char_class(c, big),
{
    if c == ' ' || c == '\t' || c == '\n' || c == '\r' {
        0
    } else if big || is_word_char(c) {
        1
    } else {
        2
    }
}

pub fn run_end_exec(s: &Vec<char>, i: usize, k: u8, big: bool) -> (r: usize)
    requires
        i <= s@.len(),
    ensures
        r == run_end(s@, i as nat, k, big),
        i <= r <= s@.len(),
{
    let mut j = i;
    while j < s.len() && class_of(s[j], big) == k
        invariant
            i <= j <= s@.len(),
            run_end(s@, i as nat, k, big) == run_end(s@, j as nat, k, big),
        decreases s@.len() - j,
    {
        j += 1;
    }
    j
}

pub fn run_start_exec(s: &Vec<char>, i: usize, k: u8, big: bool) -> (r: usize)
    requires
        i <= s@.len(),
    ensures
        r == run_start(s@, i as nat, k, big),
        r <= i,
{
    let mut j = i;
    while j > 0 && class_of(s[j - 1], big) == k
        invariant
            j <= i <= s@.len(),
            run_start(s@, i as nat, k, big) == run_start(s@, j as nat, k, big),
        decreases j,
    {
        j -= 1;
    }
    j
}

pub fn word_forward_exec(s: &Vec<char>, col: usize, big: bool) -> (r: Option<usize>)
    ensures
        r == (match word_forward(s@, col as nat, big) {
            Some(j) => Some(j as usize),
            None => None::<usize>,
        }),
{
    if col >= s.len() {
        return None;
    }
    let k = class_of(s[col], big);
    let j = if k == 0 {
        col
    } else {
        run_end_exec(s, col, k, big)
    };
    let j2 = run_end_exec(s, j, 0, big);
    if j2 < s.len() {
        Some(j2)
    } else {
        None
    }
}

pub fn word_backward_exec(s: &Vec<char>, col: usize, big: bool) -> (r: Option<usize>)
    ensures
        r == (match word_backward(s@, col as nat, big) {
            Some(j) => Some(j as usize),
            None => None::<usize>,
        }),
{
    let c = if col <= s.len() {
        col
    } else {
        s.len()
    };
    let j = run_start_exec(s, c, 0, big);
    if j == 0 {
        None
    } else {
        let k = class_of(s[j - 1], big);
        Some(run_start_exec(s, j, k, big))
    }
}

pub fn word_end_from_exec(s: &Vec<char>, start: usize, big: bool) -> (r: Option<usize>)
    requires
        start <= s@.len(),
    ensures
        r == (match word_end_from(s@, start as nat, big) {
            Some(j) => Some(j as usize),
            None => None::<usize>,
        }),
{
    let j = run_end_exec(s, start, 0, big);
    if j >= s.len() {
        None
    } else {
        let k = class_of(s[j], big);
        let e = run_end_exec(s, j + 1, k, big);
        Some(e - 1)
    }
}

pub fn find_from_exec(s: &Vec<char>, i: usize, ch: char) -> (r: Option<usize>)
    ensures
        r == (match find_from(s@, i as nat, ch) {
            Some(j) => Some(j as usize),
            None => None::<usize>,
        }),
{
    let mut j = i;
    while j < s.len()
        invariant
            i <= j,
            find_from(s@, i as nat, ch) == find_from(s@, j as nat, ch),
        decreases s@.len() - j,
    {
        if s[j] == ch {
            return Some(j);
        }
        j += 1;
    }
    None
}

pub fn find_before_exec(s: &Vec<char>, i: usize, ch: char) -> (r: Option<usize>)
    ensures
        r == (match find_before(s@, i as nat, ch) {
            Some(j) => Some(j as usize),
            None => None::<usize>,
        }),
{
    if i > s.len() {
        return None;
    }
    let mut j = i;
    while j > 0
        invariant
            j <= i <= s@.len(),
            find_before(s@, i as nat, ch) == find_before(s@, j as nat, ch),
        decreases j,
    {
        if s[j - 1] == ch {
            return Some(j - 1);
        }
        j -= 1;
    }
    None
}

pub fn next_empty_row_exec(doc: &Document, r: usize) -> (n: usize)
    ensures
        n == next_empty_row(doc.text(), r as nat),
{
    let lc = doc.line_count();
    let mut i = r;
    while i < lc && i + 1 < lc && doc.line_len(i) != 0
        invariant
            r <= i,
            lc == line_count(doc.text()),
            next_empty_row(doc.text(), r as nat) == next_empty_row(doc.text(), i as nat),
        decreases lc - i,
    {
        i += 1;
    }
    if i >= lc || i + 1 >= lc {
        if lc > 0 {
            lc - 1
        } else {
            0
        }
    } else {
        i
    }
}

pub fn prev_empty_row_exec(doc: &Document, r: usize) -> (n: usize)
    ensures
        n == prev_empty_row(doc.text(), r as nat),
{
    let mut i = r;
    while i > 0 && doc.line_len(i) != 0
        invariant
            i <= r,
            prev_empty_row(doc.text(), r as nat) == prev_empty_row(doc.text(), i as nat),
        decreases i,
    {
        i -= 1;
    }
    i
}

} // verus!
