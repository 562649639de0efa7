//! Soft wrapping of document lines into screen segments.
//!
//! A line is laid out char by char: a char of width `w` goes on the current
//! segment when it fits (`col + w <= text_width`), otherwise it starts a new
//! segment. The chars that start a new segment are the line's break points.
use vstd::prelude::*;

use ropey::{Rope, RopeSlice};

use crate::buffer;
use crate::buffer::display_len;
use crate::buffer::rope::{lemma_line_count_bound, lemma_line_starts, lemma_line_text_len, line_count, line_text, rope_text, slice_text};

verus! {

/// A single screen line segment produced by wrapping a document line.
#[derive(Debug, Clone, Copy)]
pub struct WrapSegment {
    pub doc_row: usize,
    /// 0 = first segment of the line
    pub segment_index: usize,
    /// Start character index in the document line (inclusive)
    pub char_start: usize,
    /// End character index in the document line (exclusive)
    pub char_end: usize,
}

/// What unicode-width's `UnicodeWidthChar::width` gives for a char.
pub uninterp spec fn spec_unicode_width(c: char) -> Option<usize>;

/// unicode-width's `UnicodeWidthChar::width`. Its result is the named width
/// from Unicode's tables; the source shows that control chars (below U+0020
/// and U+007F..U+009F) give `None`, printable ASCII gives 1, and no width
/// exceeds 3. Which width other chars get is not stated.
#[verifier::external_body]
fn unicode_width(c: char) -> (r: Option<usize>)
    ensures
        r == spec_unicode_width(c),
        (c as u32) < 0x20 || (0x7f <= (c as u32) < 0xa0) ==> r is None,
        0x20 <= (c as u32) < 0x7f ==> r == Some(1usize),
        r matches Some(w) ==> w <= 3,
{
    unicode_width::UnicodeWidthChar::width(c)
}

/// Display width of a char on screen: a tab counts as 1, a char without a
/// width (a control char) as 1.
pub open spec fn spec_char_width(c: char) -> nat {
    if c == '\t' {
        1
    } else {
        match spec_unicode_width(c) {
            Some(w) => w as nat,
            None => 1,
        }
    }
}

/// Display width of a single character (tab counts as 1).
pub(crate) fn char_width(ch: char) -> (w: u16)
    ensures
        w == spec_char_width(ch),
        w <= 3,
{
    if ch == '\t' {
        1
    } else {
        match unicode_width(ch) {
            Some(w) => w as u16,
            None => 1,
        }
    }
}

/// The column reached after laying out the first `n` chars of `t`.
pub open spec fn col_after(t: Seq<char>, tw: nat, n: nat) -> nat
    decreases n,
{
    if n == 0 {
        0
    } else {
        let c = col_after(t, tw, (n - 1) as nat);
        let w = spec_char_width(t[n - 1]);
        if c + w > tw {
            w
        } else {
            c + w
        }
    }
}

/// Char `i` of `t` does not fit on the current segment and starts a new one.
pub open spec fn wraps_at(t: Seq<char>, tw: nat, i: int) -> bool {
    col_after(t, tw, i as nat) + spec_char_width(t[i]) > tw
}

/// The break points among the first `n` chars of `t`, in order.
pub open spec fn breaks_upto(t: Seq<char>, tw: nat, n: nat) -> Seq<int>
    decreases n,
{
    if n == 0 {
        Seq::empty()
    } else {
        let b = breaks_upto(t, tw, (n - 1) as nat);
        if wraps_at(t, tw, n - 1) {
            b.push(n - 1)
        } else {
            b
        }
    }
}

/// The break points of a whole line (its line break excluded).
pub open spec fn line_breaks(line: Seq<char>, tw: nat) -> Seq<int> {
    breaks_upto(line, tw, display_len(line))
}

/// The number of screen lines that a line occupies.
pub open spec fn spec_wrap_count(line: Seq<char>, tw: nat) -> nat {
    if tw == 0 {
        1
    } else {
        line_breaks(line, tw).len() + 1
    }
}

/// The segments of one line: segment `k` runs from the `k`-th break point (0
/// for the first) to the next one (the line's display length for the last).
pub open spec fn line_segments(line: Seq<char>, doc_row: nat, tw: nat) -> Seq<WrapSegment> {
    let len = display_len(line);
    if len == 0 || tw == 0 {
        seq![WrapSegment { doc_row: doc_row as usize, segment_index: 0, char_start: 0, char_end: 0 }]
    } else {
        let b = line_breaks(line, tw);
        Seq::new(
            b.len() + 1,
            |k: int|
                WrapSegment {
                    doc_row: doc_row as usize,
                    segment_index: k as usize,
                    char_start: (if k == 0 {
                        0
                    } else {
                        b[k - 1]
                    }) as usize,
                    char_end: (if k < b.len() {
                        b[k]
                    } else {
                        len as int
                    }) as usize,
                },
        )
    }
}

/// Break points are increasing, below `n`, and a prefix of those of a longer prefix.
proof fn lemma_breaks(t: Seq<char>, tw: nat, n: nat, m: nat)
    requires
        n <= m,
    ensures
        breaks_upto(t, tw, n).len() <= n,
        breaks_upto(t, tw, n).len() <= breaks_upto(t, tw, m).len(),
        forall|k: int|
            0 <= k < breaks_upto(t, tw, n).len() ==> #[trigger] breaks_upto(t, tw, n)[k]
                == breaks_upto(t, tw, m)[k],
        forall|k: int|
            0 <= k < breaks_upto(t, tw, n).len() ==> 0 <= #[trigger] breaks_upto(t, tw, n)[k]
                < n,
        forall|j: int, k: int|
            0 <= j < k < breaks_upto(t, tw, n).len() ==> breaks_upto(t, tw, n)[j]
                < breaks_upto(t, tw, n)[k],
    decreases m,
{
    if m > n {
        lemma_breaks(t, tw, n, (m - 1) as nat);
    } else if n > 0 {
        lemma_breaks(t, tw, (n - 1) as nat, (n - 1) as nat);
    }
}

/// A char index never lies past the last segment of its line.
pub proof fn lemma_breaks_len(line: Seq<char>, tw: nat, idx: nat)
    ensures
        spec_wrap_pos(line, idx, tw).0 < spec_wrap_count(line, tw),
{
    let len = display_len(line);
    let target = if idx <= len {
        idx
    } else {
        len
    };
    lemma_breaks(line, tw, target, len);
}

/// A line has at most one more screen line than chars.
pub proof fn lemma_wrap_count_bound(line: Seq<char>, tw: nat)
    ensures
        1 <= spec_wrap_count(line, tw) <= display_len(line) + 1,
        display_len(line) <= line.len(),
{
    lemma_breaks(line, tw, display_len(line), display_len(line));
}

/// How many screen lines a document line occupies when wrapped.
/// Empty lines and lines fitting within text_width occupy 1 screen line.
pub fn wrap_count(line: RopeSlice, text_width: u16) -> (n: usize)
    requires
        text_width <= 65532,
        display_len(slice_text(line)) < usize::MAX,
    ensures
        n == spec_wrap_count(slice_text(line), text_width as nat),
{
    let ghost t = slice_text(line);
    let ghost tw = text_width as nat;
    if text_width == 0 {
        return 1;
    }
    let line_len = buffer::line_display_len(line);
    if line_len == 0 {
        return 1;
    }
    let mut segments = 1usize;
    let mut col: u16 = 0;
    for i in 0..line_len
        invariant
            line_len == display_len(t),
            line_len <= t.len(),
            t == slice_text(line),
            tw == text_width,
            text_width <= 65532,
            segments == breaks_upto(t, tw, i as nat).len() + 1,
            line_len < usize::MAX,
            col == col_after(t, tw, i as nat),
            col <= text_width || col <= 3,
    {
        proof {
            lemma_breaks(t, tw, i as nat, i as nat);
        }
        let ch = line.char(i);
        let w = char_width(ch);
        // CJK character that doesn't fit on this segment → start new segment
        if w > 1 && col + w > text_width && col > 0 {
            segments += 1;
            col = w;
        } else if col + w > text_width {
            segments += 1;
            col = w;
        } else {
            col += w;
        }
    }
    segments
}

/// The (segment, column) that char index `idx` maps to: the number of break
/// points before it and the column reached by the chars before it.
pub open spec fn spec_wrap_pos(line: Seq<char>, idx: nat, tw: nat) -> (nat, nat) {
    if tw == 0 {
        (0, 0)
    } else {
        let target = if idx <= display_len(line) {
            idx
        } else {
            display_len(line)
        };
        (breaks_upto(line, tw, target).len(), col_after(line, tw, target))
    }
}

/// Convert a character index within a line to (segment_index, display_column_within_segment).
pub fn char_to_wrap_pos(line: RopeSlice, char_idx: usize, text_width: u16) -> (r: (usize, u16))
    requires
        text_width <= 65532,
    ensures
        (r.0 as nat, r.1 as nat) == spec_wrap_pos(slice_text(line), char_idx as nat, text_width as nat),
{
    let ghost t = slice_text(line);
    let ghost tw = text_width as nat;
    if text_width == 0 {
        return (0, 0);
    }
    let line_len = buffer::line_display_len(line);
    let target = if char_idx < line_len {
        char_idx
    } else {
        line_len
    };
    let mut segment = 0usize;
    let mut col: u16 = 0;
    for i in 0..target
        invariant
            line_len == display_len(t),
            line_len <= t.len(),
            target <= line_len,
            t == slice_text(line),
            tw == text_width,
            text_width <= 65532,
            segment == breaks_upto(t, tw, i as nat).len(),
            col == col_after(t, tw, i as nat),
            col <= text_width || col <= 3,
    {
        proof {
            lemma_breaks(t, tw, i as nat, i as nat);
        }
        let ch = line.char(i);
        let w = char_width(ch);
        if w > 1 && col + w > text_width && col > 0 {
            segment += 1;
            col = w;
        } else if col + w > text_width {
            segment += 1;
            col = w;
        } else {
            col += w;
        }
    }
    (segment, col)
}

/// Scanning segment chars from `i`: the first char that reaches column
/// `target`, or the last char of the segment when the segment ends first
/// (never before `lo`), or the last char of the line.
pub open spec fn scan_segment(t: Seq<char>, tw: nat, target: nat, lo: int, i: int, len: int) -> int
    decreases len - i,
{
    if i >= len {
        len - 1
    } else if wraps_at(t, tw, i) {
        if i - 1 > lo {
            i - 1
        } else {
            lo
        }
    } else if col_after(t, tw, i as nat) >= target {
        i
    } else {
        scan_segment(t, tw, target, lo, i + 1, len)
    }
}

/// The char index that (segment, column) maps back to.
pub open spec fn spec_wrap_pos_to_char(line: Seq<char>, segment: nat, target: nat, tw: nat) -> int {
    let len = display_len(line) as int;
    let b = line_breaks(line, tw);
    if tw == 0 || len == 0 {
        0
    } else if segment == 0 {
        scan_segment(line, tw, target, 0, 0, len)
    } else if segment - 1 < b.len() {
        if target == 0 {
            b[segment - 1]
        } else {
            scan_segment(line, tw, target, b[segment - 1], b[segment - 1] + 1, len)
        }
    } else {
        len - 1
    }
}

/// Convert (segment_index, target_display_column) back to a character index.
/// Used for vertical cursor movement within wrapped lines.
pub fn wrap_pos_to_char(line: RopeSlice, segment: usize, target_col: u16, text_width: u16) -> (r:
    usize)
    requires
        text_width <= 65532,
    ensures
        r == spec_wrap_pos_to_char(slice_text(line), segment as nat, target_col as nat, text_width as nat),
{
    let ghost t = slice_text(line);
    let ghost tw = text_width as nat;
    let ghost tc = target_col as nat;
    if text_width == 0 {
        return 0;
    }
    let line_len = buffer::line_display_len(line);
    if line_len == 0 {
        return 0;
    }
    let ghost len = line_len as int;
    let ghost spec_r = spec_wrap_pos_to_char(t, segment as nat, tc, tw);
    proof {
        lemma_breaks(t, tw, 0, line_len as nat);
    }
    let mut cur_segment = 0usize;
    let mut col: u16 = 0;
    let mut seg_start_char = 0usize;

    let mut i = 0usize;
    while i < line_len
        invariant
            line_len == display_len(t),
            line_len <= t.len(),
            len == line_len,
            t == slice_text(line),
            tw == text_width,
            tc == target_col,
            text_width <= 65532,
            spec_r == spec_wrap_pos_to_char(t, segment as nat, tc, tw),
            text_width > 0,
            line_len > 0,
            i <= line_len,
            col == col_after(t, tw, i as nat),
            col <= text_width || col <= 3,
            cur_segment <= segment,
            cur_segment < segment ==> cur_segment == breaks_upto(t, tw, i as nat).len(),
            cur_segment == segment ==> spec_r == scan_segment(t, tw, tc, seg_start_char as int, i as int, len),
            cur_segment == segment ==> seg_start_char <= i,
        decreases line_len - i,
    {
        proof {
            lemma_breaks(t, tw, i as nat, line_len as nat);
            lemma_breaks(t, tw, (i + 1) as nat, line_len as nat);
        }
        if cur_segment == segment {
            // We're on the target segment
            let ch = line.char(i);
            let w = char_width(ch);
            // Check if this character would push us to the next segment
            let would_wrap = if w > 1 && col + w > text_width && col > 0 {
                true
            } else {
                col + w > text_width
            };
            if would_wrap {
                // We've run out of space on this segment without reaching target_col.
                // Return the last char in this segment.
                let prev = if i > 0 { i - 1 } else { 0 };
                return if prev > seg_start_char { prev } else { seg_start_char };
            }
            if col >= target_col {
                return i;
            }
            col += w;
        } else {
            let ch = line.char(i);
            let w = char_width(ch);
            if w > 1 && col + w > text_width && col > 0 {
                cur_segment += 1;
                col = w;
                if cur_segment == segment {
                    seg_start_char = i;
                    col = w;
                    proof {
                        assert(breaks_upto(t, tw, (i + 1) as nat) == breaks_upto(t, tw, i as nat).push(
                            i as int,
                        ));
                        assert(breaks_upto(t, tw, (i + 1) as nat)[segment - 1] == i);
                        assert(line_breaks(t, tw) == breaks_upto(t, tw, line_len as nat));
                        assert(segment - 1 < line_breaks(t, tw).len());
                        assert(line_breaks(t, tw)[segment - 1] == i);
                        if target_col == 0 {
                            assert(spec_r == i);
                        } else {
                            assert(spec_r == scan_segment(t, tw, tc, i as int, i + 1, len));
                        }
                    }
                    if target_col == 0 {
                        return i;
                    }
                }
                i += 1;
                continue;
            }
            if col + w > text_width {
                cur_segment += 1;
                col = w;
                if cur_segment == segment {
                    seg_start_char = i;
                    col = w;
                    proof {
                        assert(breaks_upto(t, tw, (i + 1) as nat) == breaks_upto(t, tw, i as nat).push(
                            i as int,
                        ));
                        assert(breaks_upto(t, tw, (i + 1) as nat)[segment - 1] == i);
                        assert(line_breaks(t, tw) == breaks_upto(t, tw, line_len as nat));
                        assert(segment - 1 < line_breaks(t, tw).len());
                        assert(line_breaks(t, tw)[segment - 1] == i);
                        if target_col == 0 {
                            assert(spec_r == i);
                        } else {
                            assert(spec_r == scan_segment(t, tw, tc, i as int, i + 1, len));
                        }
                    }
                    if target_col == 0 {
                        return i;
                    }
                }
            } else {
                col += w;
            }
        }
        i += 1;
    }
    // If segment is beyond available segments, return end of line
    if cur_segment < segment {
        return line_len - 1;
    }
    // Past end of segment — clamp to last char
    line_len - 1
}

/// All segments of the lines `a..b`, in order.
pub open spec fn rows_segments(text: Seq<char>, a: int, b: int, tw: nat) -> Seq<WrapSegment>
    decreases b - a,
{
    if b <= a {
        Seq::empty()
    } else {
        rows_segments(text, a, b - 1, tw) + line_segments(line_text(text, b - 1), (b - 1) as nat, tw)
    }
}

/// The screen lines shown from segment `start_seg` of line `start_row` on, at
/// most `height` of them (a zero height still shows the first of them).
pub open spec fn spec_screen_map(
    text: Seq<char>,
    start_row: nat,
    start_seg: nat,
    tw: nat,
    height: nat,
) -> Seq<WrapSegment> {
    let n = line_count(text);
    if start_row >= n {
        Seq::empty()
    } else {
        let first = line_segments(line_text(text, start_row as int), start_row, tw);
        let first_shown = if start_seg <= first.len() {
            first.skip(start_seg as int)
        } else {
            Seq::empty()
        };
        let all = first_shown + rows_segments(text, (start_row + 1) as int, n as int, tw);
        if height == 0 {
            // one segment is placed before the height is checked
            take_at_most(first_shown, 1)
        } else {
            take_at_most(all, height)
        }
    }
}

/// The first `n` items of `s`, or all of `s` when it is shorter.
pub open spec fn take_at_most<A>(s: Seq<A>, n: nat) -> Seq<A> {
    if n <= s.len() {
        s.take(n as int)
    } else {
        s
    }
}

proof fn lemma_rows_prefix(text: Seq<char>, a: int, d: int, n: int, tw: nat)
    requires
        a <= d <= n,
    ensures
        rows_segments(text, a, d, tw).len() <= rows_segments(text, a, n, tw).len(),
        rows_segments(text, a, n, tw).take(rows_segments(text, a, d, tw).len() as int)
            == rows_segments(text, a, d, tw),
    decreases n - d,
{
    if d < n {
        lemma_rows_prefix(text, a, d, n - 1, tw);
        let p = rows_segments(text, a, d, tw);
        let q = rows_segments(text, a, n - 1, tw);
        let r = rows_segments(text, a, n, tw);
        assert(r.take(q.len() as int) =~= q);
        assert(r.take(p.len() as int) =~= q.take(p.len() as int));
    } else {
        assert(rows_segments(text, a, n, tw).take(rows_segments(text, a, d, tw).len() as int)
            =~= rows_segments(text, a, d, tw));
    }
}

/// Build a screen map of WrapSegments starting from (start_doc_row, start_wrap_segment)
/// for up to screen_height screen lines.
pub fn build_screen_map(
    rope: &Rope,
    start_doc_row: usize,
    start_wrap_segment: usize,
    text_width: u16,
    screen_height: u16,
) -> (r: Vec<WrapSegment>)
    requires
        text_width <= 65532,
        rope_text(*rope).len() < usize::MAX,
    ensures
        r@ == spec_screen_map(
            rope_text(*rope),
            start_doc_row as nat,
            start_wrap_segment as nat,
            text_width as nat,
            screen_height as nat,
        ),
{
    let ghost text = rope_text(*rope);
    let ghost tw = text_width as nat;
    let ghost h = screen_height as int;
    let mut result = Vec::with_capacity(screen_height as usize);
    let line_count = rope.len_lines();
    let mut doc_row = start_doc_row;

    if doc_row >= line_count {
        assert(result@ =~= spec_screen_map(text, start_doc_row as nat, start_wrap_segment as nat, tw, h as nat));
        return result;
    }
    proof {
        lemma_line_starts(text);
    }

    // For the first line, we may skip some segments
    proof {
        lemma_line_text_len(text, doc_row as int);
    }
    let first_line = rope.line(doc_row);
    let segments = build_line_segments(first_line, doc_row, text_width);
    let ghost first_shown = if start_wrap_segment <= segments@.len() {
        segments@.skip(start_wrap_segment as int)
    } else {
        Seq::empty()
    };
    let ghost full = first_shown + rows_segments(text, start_doc_row + 1, line_count as int, tw);
    proof {
        lemma_rows_prefix(text, start_doc_row + 1, start_doc_row + 1, line_count as int, tw);
        assert(full.take(first_shown.len() as int) =~= first_shown);
    }
    let mut k = start_wrap_segment;
    while k < segments.len()
        invariant
            start_wrap_segment <= k,
            k <= segments@.len() || k == start_wrap_segment,
            start_wrap_segment <= segments@.len() ==> first_shown == segments@.skip(
                start_wrap_segment as int,
            ),
            result@ == (if start_wrap_segment <= segments@.len() {
                segments@.subrange(start_wrap_segment as int, k as int)
            } else {
                Seq::empty()
            }),
            result@.len() < h || (h == 0 && result@.len() == 0),
            h == screen_height,
            full.take(first_shown.len() as int) == first_shown,
            first_shown.len() <= full.len(),
            first_shown == (if start_wrap_segment <= segments@.len() {
                segments@.skip(start_wrap_segment as int)
            } else {
                Seq::empty()
            }),
            text == rope_text(*rope),
            tw == text_width,
            start_doc_row < crate::buffer::rope::line_count(text),
            line_count == crate::buffer::rope::line_count(text),
            segments@ == line_segments(line_text(text, start_doc_row as int), start_doc_row as nat, tw),
            full == first_shown + rows_segments(text, start_doc_row + 1, line_count as int, tw),
        decreases segments@.len() - k,
    {
        result.push(segments[k]);
        proof {
            assert(result@ =~= segments@.subrange(start_wrap_segment as int, k + 1));
        }
        if result.len() >= screen_height as usize {
            proof {
                assert(segments@ == line_segments(line_text(text, start_doc_row as int), start_doc_row as nat, tw));
                if h == 0 {
                    assert(result@ =~= first_shown.take(1));
                } else {
                    assert(result@ =~= first_shown.take(h));
                    assert(full.take(h) =~= first_shown.take(h));
                }
            }
            return result;
        }
        k += 1;
    }
    proof {
        if start_wrap_segment <= segments@.len() {
            assert(result@ =~= first_shown);
        } else {
            assert(result@ =~= first_shown);
        }
    }
    doc_row += 1;

    while doc_row < line_count && result.len() < screen_height as usize
        invariant
            text == rope_text(*rope),
            line_count == crate::buffer::rope::line_count(text),
            text.len() < usize::MAX,
            text_width <= 65532,
            tw == text_width,
            h == screen_height,
            start_doc_row < doc_row <= line_count,
            result@ == first_shown + rows_segments(text, start_doc_row + 1, doc_row as int, tw),
            full == first_shown + rows_segments(text, start_doc_row + 1, line_count as int, tw),
            first_shown == (if start_wrap_segment <= line_segments(line_text(text, start_doc_row as int), start_doc_row as nat, tw).len() {
                line_segments(line_text(text, start_doc_row as int), start_doc_row as nat, tw).skip(start_wrap_segment as int)
            } else {
                Seq::empty()
            }),
            result@.len() <= h,
        decreases line_count - doc_row,
    {
        proof {
            lemma_line_text_len(text, doc_row as int);
        }
        let line = rope.line(doc_row);
        let segments = build_line_segments(line, doc_row, text_width);
        let ghost before = result@;
        let mut j = 0usize;
        while j < segments.len()
            invariant
                0 <= j <= segments@.len(),
                result@ == before + segments@.take(j as int),
                result@.len() < h,
                h == screen_height,
                text == rope_text(*rope),
                line_count == crate::buffer::rope::line_count(text),
                tw == text_width,
                start_doc_row < doc_row < line_count,
                before == first_shown + rows_segments(text, start_doc_row + 1, doc_row as int, tw),
                full == first_shown + rows_segments(text, start_doc_row + 1, line_count as int, tw),
                segments@ == line_segments(line_text(text, doc_row as int), doc_row as nat, tw),
                first_shown == (if start_wrap_segment <= line_segments(line_text(text, start_doc_row as int), start_doc_row as nat, tw).len() {
                    line_segments(line_text(text, start_doc_row as int), start_doc_row as nat, tw).skip(start_wrap_segment as int)
                } else {
                    Seq::empty()
                }),

            decreases segments@.len() - j,
        {
            result.push(segments[j]);
            proof {
                assert(result@ =~= before + segments@.take(j + 1));
            }
            if result.len() >= screen_height as usize {
                proof {
                    lemma_rows_prefix(text, start_doc_row + 1, doc_row + 1, line_count as int, tw);
                    let p = first_shown + rows_segments(text, start_doc_row + 1, doc_row + 1, tw);
                    assert(p =~= before + segments@);
                    assert(full.take(p.len() as int) =~= p);
                    assert(result@ =~= p.take(h));
                    assert(full.take(h) =~= p.take(h));
                }
                return result;
            }
            j += 1;
        }
        proof {
            assert(result@ =~= first_shown + rows_segments(text, start_doc_row + 1, doc_row + 1, tw));
        }
        doc_row += 1;
    }
    proof {
        lemma_rows_prefix(text, start_doc_row + 1, doc_row as int, line_count as int, tw);
        assert(segments@ == line_segments(line_text(text, start_doc_row as int), start_doc_row as nat, tw));
        let rs = rows_segments(text, start_doc_row + 1, doc_row as int, tw);
        assert(full.take((first_shown + rs).len() as int) =~= first_shown + rs);
        if h == 0 {
            assert(first_shown.len() == 0);
            assert(result@ =~= take_at_most(first_shown, 1));
        } else if doc_row >= line_count {
            assert(result@ =~= full);
            if full.len() == h {
                assert(full.take(h) =~= full);
            }
        } else {
            assert(result@.len() == h);
            assert(full.take(h) =~= result@);
        }
    }
    result
}

/// Build all WrapSegments for a single document line.
fn build_line_segments(line: RopeSlice, doc_row: usize, text_width: u16) -> (r: Vec<WrapSegment>)
    requires
        text_width <= 65532,
        display_len(slice_text(line)) < usize::MAX,
    ensures
        r@ == line_segments(slice_text(line), doc_row as nat, text_width as nat),
{
    let ghost t = slice_text(line);
    let ghost tw = text_width as nat;
    let line_len = buffer::line_display_len(line);
    if line_len == 0 || text_width == 0 {
        return vec![WrapSegment { doc_row, segment_index: 0, char_start: 0, char_end: 0 }];
    }

    let mut segments: Vec<WrapSegment> = Vec::new();
    let mut seg_start = 0usize;
    let mut seg_idx = 0usize;
    let mut col: u16 = 0;

    for i in 0..line_len
        invariant
            line_len == display_len(t),
            line_len <= t.len(),
            line_len < usize::MAX,
            t == slice_text(line),
            tw == text_width,
            text_width <= 65532,
            col == col_after(t, tw, i as nat),
            col <= text_width || col <= 3,
            seg_idx == breaks_upto(t, tw, i as nat).len(),
            segments@.len() == seg_idx,
            seg_start == (if seg_idx == 0 {
                0
            } else {
                breaks_upto(t, tw, i as nat)[seg_idx - 1]
            }),
            forall|k: int|
                0 <= k < seg_idx ==> #[trigger] segments@[k] == (WrapSegment {
                    doc_row: doc_row,
                    segment_index: k as usize,
                    char_start: (if k == 0 {
                        0
                    } else {
                        breaks_upto(t, tw, i as nat)[k - 1]
                    }) as usize,
                    char_end: breaks_upto(t, tw, i as nat)[k] as usize,
                }),
    {
        proof {
            lemma_breaks(t, tw, i as nat, (i + 1) as nat);
        }
        let ch = line.char(i);
        let w = char_width(ch);

        let need_wrap = if w > 1 && col + w > text_width && col > 0 {
            true
        } else {
            col + w > text_width
        };

        if need_wrap {
            segments.push(
                WrapSegment { doc_row, segment_index: seg_idx, char_start: seg_start, char_end: i },
            );
            seg_idx += 1;
            seg_start = i;
            col = w;
        } else {
            col += w;
        }
    }

    // Final segment
    segments.push(
        WrapSegment { doc_row, segment_index: seg_idx, char_start: seg_start, char_end: line_len },
    );
    proof {
        let b = breaks_upto(t, tw, line_len as nat);
        assert(b == line_breaks(t, tw));
        assert(segments@ =~= line_segments(t, doc_row as nat, tw));
    }
    segments
}

/// A line takes as many screen lines as it has segments.
pub proof fn law_wrap_count_is_segment_count(line: Seq<char>, doc_row: nat, tw: nat)
    ensures
        spec_wrap_count(line, tw) == line_segments(line, doc_row, tw).len(),
{
    if display_len(line) == 0 {
        assert(line_breaks(line, tw) =~= Seq::<int>::empty());
    }
}

/// The segments of a line tile it: the first starts at 0, each starts where
/// the previous ends, the last ends at the display length, and each is
/// numbered by its position.
pub proof fn law_segments_tile_line(line: Seq<char>, doc_row: nat, tw: nat)
    requires
        display_len(line) <= usize::MAX,
        doc_row <= usize::MAX,
    ensures
        ({
            let s = line_segments(line, doc_row, tw);
            &&& s.len() >= 1
            &&& s[0].char_start == 0
            &&& s[s.len() - 1].char_end == display_len(line) || (tw == 0 && s[s.len() - 1].char_end
                == 0)
            &&& forall|k: int| 0 <= k < s.len() ==> #[trigger] s[k].segment_index == k
            &&& forall|k: int| 0 <= k < s.len() ==> #[trigger] s[k].doc_row == doc_row
            &&& forall|k: int| 0 <= k < s.len() ==> #[trigger] s[k].char_start <= s[k].char_end
            &&& forall|k: int| 0 < k < s.len() ==> #[trigger] s[k].char_start == s[k - 1].char_end
        }),
{
    let len = display_len(line);
    lemma_breaks(line, tw, len, len);
    let s = line_segments(line, doc_row, tw);
    if len > 0 && tw > 0 {
        let b = line_breaks(line, tw);
        assert forall|k: int| 0 <= k < s.len() implies #[trigger] s[k].char_start
            <= s[k].char_end by {
            if 0 < k < b.len() {
                assert(b[k - 1] < b[k]);
            }
        }
    }
}

/// The segment that `char_to_wrap_pos` reports for a char index counts the
/// break points before it: it is the segment whose start lies before the
/// index and whose end is at or after it (segment 0 for index 0).
pub proof fn law_wrap_pos_in_segment(line: Seq<char>, doc_row: nat, tw: nat, idx: nat)
    requires
        tw > 0,
        0 < idx <= display_len(line),
        display_len(line) <= usize::MAX,
        doc_row <= usize::MAX,
    ensures
        ({
            let s = line_segments(line, doc_row, tw);
            let k = spec_wrap_pos(line, idx, tw).0 as int;
            &&& 0 <= k < s.len()
            &&& s[k].char_start < idx <= s[k].char_end
        }),
{
    let len = display_len(line);
    let b = line_breaks(line, tw);
    lemma_breaks(line, tw, idx, len);
    lemma_breaks(line, tw, len, len);
    let k = breaks_upto(line, tw, idx).len() as int;
    let bi = breaks_upto(line, tw, idx);
    // every break before idx is among the first k breaks, every later one is at or after idx
    if k < b.len() {
        if b[k] < idx {
            lemma_break_listed(line, tw, b[k], idx, len);
            let j = choose|j: int| 0 <= j < bi.len() && bi[j] == b[k];
            assert(b[j] == b[k]);
            assert(j < k);
        }
    }
    if k > 0 {
        assert(b[k - 1] == bi[k - 1]);
    }
}

/// A break point below `n` is listed among the break points of the first `n` chars.
proof fn lemma_break_listed(t: Seq<char>, tw: nat, p: int, n: nat, m: nat)
    requires
        0 <= p < n <= m,
        breaks_upto(t, tw, m).contains(p),
    ensures
        exists|j: int| 0 <= j < breaks_upto(t, tw, n).len() && breaks_upto(t, tw, n)[j] == p,
    decreases m,
{
    lemma_breaks(t, tw, (m - 1) as nat, (m - 1) as nat);
    let prev = breaks_upto(t, tw, (m - 1) as nat);
    let cur = breaks_upto(t, tw, m);
    if m == n {
        let j = choose|j: int| 0 <= j < cur.len() && cur[j] == p;
        assert(cur[j] == p);
    } else {
        if wraps_at(t, tw, m - 1) {
            let j = choose|j: int| 0 <= j < cur.len() && cur[j] == p;
            if j == prev.len() {
                assert(cur[j] == m - 1);
                assert(false);
            }
            assert(prev[j] == p);
            assert(prev.contains(p));
        }
        lemma_break_listed(t, tw, p, n, (m - 1) as nat);
    }
}


proof fn lemma_rows_segments_rows(text: Seq<char>, a: int, b: int, tw: nat)
    requires
        0 <= a,
        b <= usize::MAX + 1,
    ensures
        forall|k: int|
            0 <= k < rows_segments(text, a, b, tw).len() ==> a <= (#[trigger] rows_segments(
                text,
                a,
                b,
                tw,
            )[k]).doc_row < b,
    decreases b - a,
{
    if b > a {
        lemma_rows_segments_rows(text, a, b - 1, tw);
        let p = rows_segments(text, a, b - 1, tw);
        let q = line_segments(line_text(text, b - 1), (b - 1) as nat, tw);
        let r = rows_segments(text, a, b, tw);
        assert(r == p + q);
        assert forall|k: int| 0 <= k < r.len() implies a <= (#[trigger] r[k]).doc_row < b by {
            if k < p.len() {
                assert(r[k] == p[k]);
            } else {
                assert(r[k] == q[k - p.len()]);
            }
        }
    }
}

/// Every screen line of the screen map shows an existing line of the text,
/// and its char range lies within that line's display length.
pub proof fn lemma_screen_map_rows(text: Seq<char>, start_row: nat, start_seg: nat, tw: nat, height: nat)
    requires
        text.len() < usize::MAX,
    ensures
        forall|k: int|
            0 <= k < spec_screen_map(text, start_row, start_seg, tw, height).len() ==> (
            #[trigger] spec_screen_map(text, start_row, start_seg, tw, height)[k]).doc_row
                < line_count(text),
{
    lemma_line_count_bound(text);
    let n = line_count(text);
    if start_row < n {
        let first = line_segments(line_text(text, start_row as int), start_row, tw);
        let first_shown = if start_seg <= first.len() {
            first.skip(start_seg as int)
        } else {
            Seq::empty()
        };
        lemma_rows_segments_rows(text, (start_row + 1) as int, n as int, tw);
        let rest = rows_segments(text, (start_row + 1) as int, n as int, tw);
        let all = first_shown + rest;
        assert forall|k: int| 0 <= k < all.len() implies (#[trigger] all[k]).doc_row < n by {
            if k < first_shown.len() {
                assert(all[k] == first[k + start_seg]);
            } else {
                assert(all[k] == rest[k - first_shown.len()]);
            }
        }
        let m = spec_screen_map(text, start_row, start_seg, tw, height);
        assert forall|k: int| 0 <= k < m.len() implies (#[trigger] m[k]).doc_row < n by {
            if height == 0 {
                assert(m[k] == first_shown[k]);
                assert(all[k] == first_shown[k]);
            } else {
                assert(m[k] == all[k]);
            }
        }
    }
}

} // verus!
