//! The viewport over a document: scroll offsets and size.
use vstd::prelude::*;

use ropey::Rope;

use crate::buffer::rope::{lemma_line_text_len, line_count, line_text, rope_text};
use crate::editor::selection::Position;
use crate::editor::wrap;
use crate::editor::wrap::{lemma_breaks_len, spec_wrap_count, spec_wrap_pos};

verus! {

#[derive(Debug)]
pub struct View {
    pub offset_row: usize,
    pub offset_col: usize,
    pub width: u16,
    pub height: u16,
    /// Which wrap segment of offset_row is at the top of the screen.
    pub offset_wrap: usize,
    pub wrap: bool,
}

impl Clone for View {
    fn clone(&self) -> (v: View)
        ensures
            v == *self,
    {
        *self
    }
}

impl Copy for View {}

impl Default for View {
    fn default() -> (v: View)
        ensures
            v.offset_row == 0 && v.offset_col == 0 && v.width == 0 && v.height == 0 && v.offset_wrap
                == 0 && !v.wrap,
    {
        View { offset_row: 0, offset_col: 0, width: 0, height: 0, offset_wrap: 0, wrap: false }
    }
}

/// The scroll margin actually used: at most half the height.
pub open spec fn effective_scrolloff(scroll_off: nat, height: nat) -> nat {
    if scroll_off <= height / 2 {
        scroll_off
    } else {
        height / 2
    }
}

/// `a - b`, or 0 when `b > a`.
pub open spec fn sat_sub(a: int, b: int) -> int {
    if a >= b {
        a - b
    } else {
        0
    }
}

/// The first visible row after scrolling vertically for a cursor on `row`:
/// first keep `so` rows above the cursor, then keep `so` rows below it.
pub open spec fn scrolled_row(offset: int, row: int, height: int, so: int) -> int {
    let r1 = if row < offset + so {
        sat_sub(row, so)
    } else {
        offset
    };
    if row >= r1 + height - so {
        sat_sub(row, height - 1 - so)
    } else {
        r1
    }
}

/// The first visible column after scrolling horizontally for a cursor on `col`.
pub open spec fn scrolled_col(offset: int, col: int, width: int) -> int {
    let c1 = if col < offset {
        col
    } else {
        offset
    };
    if col >= c1 + width {
        sat_sub(col, width - 1)
    } else {
        c1
    }
}


/// The number of screen lines of document line `d`.
pub open spec fn line_wraps(text: Seq<char>, tw: nat, d: int) -> nat {
    spec_wrap_count(line_text(text, d), tw)
}

/// The number of screen lines of the document lines before line `r`.
pub open spec fn rows_before(text: Seq<char>, tw: nat, r: nat) -> nat
    decreases r,
{
    if r == 0 {
        0
    } else {
        rows_before(text, tw, (r - 1) as nat) + line_wraps(text, tw, r - 1)
    }
}

/// The index of screen line `seg` of document line `row`, counting the
/// screen lines of the whole document from 0.
pub open spec fn screen_index(text: Seq<char>, tw: nat, row: nat, seg: nat) -> int {
    rows_before(text, tw, row) + seg as int
}

/// A (line, segment) pair that names a screen line: an existing segment of
/// an existing line, or the position just past the last line.
pub open spec fn is_canonical(text: Seq<char>, tw: nat, row: nat, seg: nat) -> bool {
    ||| row < line_count(text) && seg < line_wraps(text, tw, row as int)
    ||| row == line_count(text) && seg == 0
}

/// The segment of the cursor's line on which the cursor stands.
pub open spec fn cursor_segment(text: Seq<char>, tw: nat, cursor: Position) -> nat {
    spec_wrap_pos(line_text(text, cursor.row as int), cursor.col as nat, tw).0
}

/// The screen index of the cursor.
pub open spec fn cursor_index(text: Seq<char>, tw: nat, cursor: Position) -> int {
    screen_index(text, tw, cursor.row as nat, cursor_segment(text, tw, cursor))
}

/// The screen index of the first line shown.
pub open spec fn top_index(v: View, text: Seq<char>, tw: nat) -> int {
    screen_index(text, tw, v.offset_row as nat, v.offset_wrap as nat)
}

/// Every line takes at least one screen line, so screen lines grow with lines.
proof fn lemma_rows_before_mono(text: Seq<char>, tw: nat, a: nat, b: nat)
    requires
        a <= b,
    ensures
        rows_before(text, tw, a) + (b - a) <= rows_before(text, tw, b),
    decreases b,
{
    if b > a {
        lemma_rows_before_mono(text, tw, a, (b - 1) as nat);
    }
}

/// A cursor on an existing line stands on one of that line's segments.
proof fn lemma_cursor_segment(text: Seq<char>, tw: nat, cursor: Position)
    requires
        cursor.row < line_count(text),
    ensures
        cursor_segment(text, tw, cursor) < line_wraps(text, tw, cursor.row as int),
        is_canonical(text, tw, cursor.row as nat, cursor_segment(text, tw, cursor)),
        cursor_index(text, tw, cursor) < rows_before(text, tw, line_count(text)),
{
    lemma_breaks_len(line_text(text, cursor.row as int), tw, cursor.col as nat);
    lemma_rows_before_mono(text, tw, (cursor.row + 1) as nat, line_count(text));
}

/// A canonical pair lies within the document's screen lines.
proof fn lemma_canonical_bound(text: Seq<char>, tw: nat, row: nat, seg: nat)
    requires
        is_canonical(text, tw, row, seg),
    ensures
        0 <= screen_index(text, tw, row, seg) <= rows_before(text, tw, line_count(text)),
        row < line_count(text) ==> screen_index(text, tw, row, seg) < rows_before(
            text,
            tw,
            line_count(text),
        ),
{
    if row < line_count(text) {
        lemma_rows_before_mono(text, tw, (row + 1) as nat, line_count(text));
    }
}

/// Screen index order follows (line, segment) order for canonical pairs.
proof fn lemma_index_order(text: Seq<char>, tw: nat, r1: nat, s1: nat, r2: nat, s2: nat)
    requires
        is_canonical(text, tw, r1, s1),
        r1 < r2,
    ensures
        screen_index(text, tw, r1, s1) < screen_index(text, tw, r2, s2),
{
    lemma_rows_before_mono(text, tw, (r1 + 1) as nat, r2);
}

/// Scrolling for the cursor a second time, with the same cursor and margin,
/// changes neither offset: what `ensure_cursor_visible` sets is already
/// settled.
pub proof fn law_ensure_cursor_visible_idempotent(v: View, cursor: Position, scroll_off: nat)
    requires
        v.height >= 1,
        v.width >= 1,
    ensures
        ({
            let so = effective_scrolloff(scroll_off, v.height as nat) as int;
            let row1 = scrolled_row(v.offset_row as int, cursor.row as int, v.height as int, so);
            let col1 = scrolled_col(v.offset_col as int, cursor.col as int, v.width as int);
            &&& scrolled_row(row1, cursor.row as int, v.height as int, so) == row1
            &&& scrolled_col(col1, cursor.col as int, v.width as int) == col1
        }),
{
}

impl View {
    /// Scrolls so that the cursor is on screen, keeping `scroll_off` rows of
    /// margin above and below it where the height allows.
    pub fn ensure_cursor_visible(&mut self, cursor: &Position, scroll_off: usize)
        requires
            old(self).height >= 1,
            old(self).width >= 1,
            old(self).offset_row + old(self).height <= usize::MAX,
            cursor.row + old(self).height <= usize::MAX,
            old(self).offset_col + old(self).width <= usize::MAX,
            cursor.col + old(self).width <= usize::MAX,
        ensures
            ({
                let so = effective_scrolloff(scroll_off as nat, old(self).height as nat) as int;
                &&& final(self).offset_row == scrolled_row(
                    old(self).offset_row as int,
                    cursor.row as int,
                    old(self).height as int,
                    so,
                )
                &&& final(self).offset_col == scrolled_col(
                    old(self).offset_col as int,
                    cursor.col as int,
                    old(self).width as int,
                )
                &&& final(self).width == old(self).width
                &&& final(self).height == old(self).height
                &&& final(self).offset_wrap == old(self).offset_wrap
                &&& final(self).wrap == old(self).wrap
                // the cursor ends up on screen, with the margin below it kept
                &&& final(self).offset_row <= cursor.row
                &&& cursor.row < final(self).offset_row + old(self).height
                &&& final(self).offset_col <= cursor.col
                &&& cursor.col < final(self).offset_col + old(self).width
                &&& cursor.row + so < final(self).offset_row + old(self).height
                // and the margin above it, where the height leaves room for both
                &&& 2 * so < old(self).height ==> cursor.row - final(self).offset_row >= (if so
                    <= cursor.row {
                    so
                } else {
                    cursor.row as int
                })
            }),
    {
        let scrolloff = if scroll_off < self.height as usize / 2 {
            scroll_off
        } else {
            self.height as usize / 2
        };

        // Vertical scrolling
        if cursor.row < self.offset_row + scrolloff {
            self.offset_row = cursor.row.saturating_sub(scrolloff);
        }
        if cursor.row >= self.offset_row + self.height as usize - scrolloff {
            self.offset_row = cursor.row.saturating_sub(self.height as usize - 1 - scrolloff);
        }

        // Horizontal scrolling
        if cursor.col < self.offset_col {
            self.offset_col = cursor.col;
        }
        if cursor.col >= self.offset_col + self.width as usize {
            self.offset_col = cursor.col.saturating_sub(self.width as usize - 1);
        }
    }

    /// Ensure cursor is visible when wrap mode is active.
    /// `text_width` is the available width for text (area.width - gutter_width).
    pub fn ensure_cursor_visible_wrapped(
        &mut self,
        cursor: &Position,
        scroll_off: usize,
        rope: &Rope,
        text_width: u16,
    )
        requires
            text_width <= 65532,
            rope_text(*rope).len() + 65536 <= usize::MAX,
            cursor.row < line_count(rope_text(*rope)),
            is_canonical(
                rope_text(*rope),
                text_width as nat,
                old(self).offset_row as nat,
                old(self).offset_wrap as nat,
            ),
        ensures
            ({
                let text = rope_text(*rope);
                let tw = text_width as nat;
                let h = old(self).height as int;
                let so = effective_scrolloff(scroll_off as nat, old(self).height as nat) as int;
                let base = top_index(*old(self), text, tw);
                let ci = cursor_index(text, tw, *cursor);
                let total = rows_before(text, tw, line_count(text));
                let top = top_index(*final(self), text, tw);
                &&& final(self).offset_col == 0
                &&& final(self).width == old(self).width
                &&& final(self).height == old(self).height
                &&& final(self).wrap == old(self).wrap
                &&& if text_width == 0 || h == 0 {
                    final(self).offset_row == old(self).offset_row && final(self).offset_wrap
                        == old(self).offset_wrap
                } else {
                    &&& is_canonical(
                        text,
                        tw,
                        final(self).offset_row as nat,
                        final(self).offset_wrap as nat,
                    )
                    &&& top == (if base <= ci < base + h {
                        if ci - base >= h - so {
                            ci - (h - 1 - so)
                        } else if ci - base < so {
                            sat_sub(ci, so)
                        } else {
                            base
                        }
                    } else if ci < base {
                        sat_sub(ci, so)
                    } else {
                        sat_sub(ci, sat_sub(h - 1, so))
                    })
                    // the cursor ends up on screen
                    &&& top <= ci < top + h
                }
            }),
    {
        let ghost text = rope_text(*rope);
        let ghost tw = text_width as nat;
        // In wrap mode, horizontal offset is always 0
        self.offset_col = 0;

        if text_width == 0 || self.height == 0 {
            return;
        }

        let scrolloff = if scroll_off < self.height as usize / 2 {
            scroll_off
        } else {
            self.height as usize / 2
        };
        let ghost base = top_index(*self, text, tw);
        let ghost ci = cursor_index(text, tw, *cursor);
        let ghost h = self.height as int;
        proof {
            lemma_cursor_segment(text, tw, *cursor);
            lemma_line_text_len(text, cursor.row as int);
        }

        // Calculate cursor's screen row relative to viewport top
        let cursor_screen_row = self.cursor_screen_row(cursor, rope, text_width);

        if let Some(screen_row) = cursor_screen_row {
            // Cursor is below visible area (or below scrolloff zone at bottom)
            if screen_row >= self.height as usize - scrolloff {
                let overshoot = screen_row - (self.height as usize - 1 - scrolloff);
                self.scroll_down_by(overshoot, rope, text_width);
            }
            // Cursor is above scrolloff zone at top
            else if screen_row < scrolloff {
                let undershoot = scrolloff - screen_row;
                self.scroll_up_by(undershoot, rope, text_width);
            }
        } else {
            // Cursor is completely off screen — need to reposition
            // Check if cursor is above viewport
            proof {
                if cursor.row < self.offset_row {
                    lemma_index_order(
                        text,
                        tw,
                        cursor.row as nat,
                        cursor_segment(text, tw, *cursor),
                        self.offset_row as nat,
                        self.offset_wrap as nat,
                    );
                }
                if cursor.row > self.offset_row {
                    lemma_index_order(
                        text,
                        tw,
                        self.offset_row as nat,
                        self.offset_wrap as nat,
                        cursor.row as nat,
                        cursor_segment(text, tw, *cursor),
                    );
                }
            }
            if cursor.row < self.offset_row || (cursor.row == self.offset_row && self.offset_wrap > 0
                && {
                let line = rope.line(cursor.row);
                let (seg, _) = wrap::char_to_wrap_pos(line, cursor.col, text_width);
                seg < self.offset_wrap
            }) {
                // Cursor is above — put cursor at scrolloff from top
                let line = rope.line(cursor.row);
                let (cursor_seg, _) = wrap::char_to_wrap_pos(line, cursor.col, text_width);
                self.offset_row = cursor.row;
                self.offset_wrap = cursor_seg.saturating_sub(scrolloff);
                // If we can't go back enough segments in this line, go to previous lines
                if cursor_seg < scrolloff {
                    let mut remaining = scrolloff - cursor_seg;
                    self.offset_wrap = 0;
                    while self.offset_row > 0 && remaining > 0
                        invariant
                            text == rope_text(*rope),
                            tw == text_width,
                            text_width <= 65532,
                            text.len() < usize::MAX,
                            self.offset_row < line_count(text),
                            is_canonical(text, tw, self.offset_row as nat, self.offset_wrap as nat),
                            top_index(*self, text, tw) - remaining == ci - scrolloff,
                            remaining > 0 ==> self.offset_wrap == 0,
                            self.offset_col == 0,
                            self.width == old(self).width,
                            self.height == old(self).height,
                            self.wrap == old(self).wrap,
                        decreases remaining,
                    {
                        self.offset_row -= 1;
                        proof {
                            lemma_line_text_len(text, self.offset_row as int);
                        }
                        let prev_line = rope.line(self.offset_row);
                        let wc = wrap::wrap_count(prev_line, text_width);
                        if wc <= remaining {
                            remaining -= wc;
                        } else {
                            self.offset_wrap = wc - remaining;
                            remaining = 0;
                        }
                    }
                }
            } else {
                // Cursor is below — put cursor at scrolloff from bottom
                self.position_cursor_near_bottom(cursor, scrolloff, rope, text_width);
            }
        }
    }

    /// Returns the cursor's screen row (0-based from viewport top), or None if off-screen.
    fn cursor_screen_row(&self, cursor: &Position, rope: &Rope, text_width: u16) -> (r: Option<
        usize,
    >)
        requires
            text_width <= 65532,
            rope_text(*rope).len() + 65536 <= usize::MAX,
            is_canonical(rope_text(*rope), text_width as nat, self.offset_row as nat, self.offset_wrap as nat),
        ensures
            ({
                let text = rope_text(*rope);
                let tw = text_width as nat;
                let base = top_index(*self, text, tw);
                let ci = cursor_index(text, tw, *cursor);
                r == (if self.offset_row <= cursor.row < line_count(text) && base <= ci < base
                    + self.height {
                    Some((ci - base) as usize)
                } else {
                    None
                })
            }),
    {
        let ghost text = rope_text(*rope);
        let ghost tw = text_width as nat;
        let ghost base = top_index(*self, text, tw);
        let ghost ci = cursor_index(text, tw, *cursor);
        if cursor.row < self.offset_row {
            return None;
        }
        proof {
            crate::buffer::rope::lemma_line_starts(text);
        }

        let mut screen_row = 0usize;
        let line_count = rope.len_lines();
        let last = if cursor.row < line_count.saturating_sub(1) {
            cursor.row
        } else {
            line_count.saturating_sub(1)
        };

        // Count screen rows from viewport start to cursor
        let mut doc_row = self.offset_row;
        while doc_row <= last
            invariant
                text == rope_text(*rope),
                tw == text_width,
                text_width <= 65532,
                text.len() < usize::MAX,
                line_count == crate::buffer::rope::line_count(text),
                line_count >= 1,
                last < line_count,
                last <= cursor.row,
                cursor.row < line_count ==> last == cursor.row,
                self.offset_row <= doc_row,
                doc_row <= cursor.row,
                doc_row <= last + 1 || doc_row == self.offset_row,
                text.len() + 65536 <= usize::MAX,
                is_canonical(text, tw, self.offset_row as nat, self.offset_wrap as nat),
                base == top_index(*self, text, tw),
                ci == cursor_index(text, tw, *cursor),
                doc_row == self.offset_row ==> screen_row == 0,
                doc_row > self.offset_row ==> screen_row == rows_before(text, tw, doc_row as nat)
                    - base,
                doc_row > self.offset_row ==> screen_row < self.height,
            decreases last + 1 - doc_row,
        {
            proof {
                lemma_line_text_len(text, doc_row as int);
            }
            let line = rope.line(doc_row);
            let wc = wrap::wrap_count(line, text_width);
            proof {
                lemma_breaks_len(line_text(text, doc_row as int), tw, cursor.col as nat);
                crate::editor::wrap::lemma_wrap_count_bound(line_text(text, doc_row as int), tw);
            }
            let start_seg = if doc_row == self.offset_row {
                self.offset_wrap
            } else {
                0
            };

            if doc_row == cursor.row {
                let (cursor_seg, _) = wrap::char_to_wrap_pos(line, cursor.col, text_width);
                if cursor_seg < start_seg {
                    return None;
                }
                let row = screen_row + cursor_seg - start_seg;
                if row >= self.height as usize {
                    return None;
                }
                return Some(row);
            }

            screen_row += wc - start_seg;
            if screen_row >= self.height as usize {
                proof {
                    lemma_rows_before_mono(text, tw, (doc_row + 1) as nat, cursor.row as nat);
                }
                return None;
            }
            doc_row += 1;
        }
        proof {
            if self.offset_row <= cursor.row && cursor.row < line_count {
                assert(false);
            }
        }
        None
    }

    /// Scroll the viewport down by `n` screen lines.
    fn scroll_down_by(&mut self, n: usize, rope: &Rope, text_width: u16)
        requires
            text_width <= 65532,
            rope_text(*rope).len() < usize::MAX,
            is_canonical(rope_text(*rope), text_width as nat, old(self).offset_row as nat, old(self).offset_wrap as nat),
        ensures
            ({
                let text = rope_text(*rope);
                let tw = text_width as nat;
                let total = rows_before(text, tw, line_count(text));
                let target = top_index(*old(self), text, tw) + n;
                &&& is_canonical(text, tw, final(self).offset_row as nat, final(self).offset_wrap as nat)
                &&& top_index(*final(self), text, tw) == (if target <= total { target } else { total as int })
                &&& final(self).offset_col == old(self).offset_col
                &&& final(self).width == old(self).width
                &&& final(self).height == old(self).height
                &&& final(self).wrap == old(self).wrap
            }),
    {
        let ghost text = rope_text(*rope);
        let ghost tw = text_width as nat;
        let ghost target = top_index(*self, text, tw) + n;
        let line_count = rope.len_lines();
        let mut remaining = n;

        while remaining > 0 && self.offset_row < line_count
            invariant
                text == rope_text(*rope),
                tw == text_width,
                text_width <= 65532,
                text.len() < usize::MAX,
                line_count == crate::buffer::rope::line_count(text),
                is_canonical(text, tw, self.offset_row as nat, self.offset_wrap as nat),
                top_index(*self, text, tw) + remaining == target,
                self.offset_col == old(self).offset_col,
                self.width == old(self).width,
                self.height == old(self).height,
                self.wrap == old(self).wrap,
            decreases line_count - self.offset_row, remaining,
        {
            proof {
                lemma_line_text_len(text, self.offset_row as int);
            }
            let line = rope.line(self.offset_row);
            let wc = wrap::wrap_count(line, text_width);
            let segs_left = wc - self.offset_wrap;

            if segs_left <= remaining {
                remaining -= segs_left;
                self.offset_row += 1;
                self.offset_wrap = 0;
            } else {
                self.offset_wrap += remaining;
                remaining = 0;
            }
        }
        proof {
            lemma_canonical_bound(text, tw, self.offset_row as nat, self.offset_wrap as nat);
        }
    }

    /// Scroll the viewport up by `n` screen lines.
    fn scroll_up_by(&mut self, n: usize, rope: &Rope, text_width: u16)
        requires
            text_width <= 65532,
            rope_text(*rope).len() < usize::MAX,
            is_canonical(rope_text(*rope), text_width as nat, old(self).offset_row as nat, old(self).offset_wrap as nat),
        ensures
            ({
                let text = rope_text(*rope);
                let tw = text_width as nat;
                &&& is_canonical(text, tw, final(self).offset_row as nat, final(self).offset_wrap as nat)
                &&& top_index(*final(self), text, tw) == sat_sub(top_index(*old(self), text, tw), n as int)
                &&& final(self).offset_col == old(self).offset_col
                &&& final(self).width == old(self).width
                &&& final(self).height == old(self).height
                &&& final(self).wrap == old(self).wrap
            }),
    {
        let ghost text = rope_text(*rope);
        let ghost tw = text_width as nat;
        let ghost target = top_index(*self, text, tw) - n;
        let mut remaining = n;

        while remaining > 0
            invariant
                text == rope_text(*rope),
                tw == text_width,
                text_width <= 65532,
                text.len() < usize::MAX,
                is_canonical(text, tw, self.offset_row as nat, self.offset_wrap as nat),
                top_index(*self, text, tw) - remaining == target,
                self.offset_col == old(self).offset_col,
                self.width == old(self).width,
                self.height == old(self).height,
                self.wrap == old(self).wrap,
            ensures
                remaining == 0 || (self.offset_row == 0 && self.offset_wrap == 0),
                is_canonical(text, tw, self.offset_row as nat, self.offset_wrap as nat),
                top_index(*self, text, tw) - remaining == target,
                self.offset_col == old(self).offset_col,
                self.width == old(self).width,
                self.height == old(self).height,
                self.wrap == old(self).wrap,
            decreases remaining,
        {
            if self.offset_wrap > 0 {
                let go_back = if remaining < self.offset_wrap {
                    remaining
                } else {
                    self.offset_wrap
                };
                self.offset_wrap -= go_back;
                remaining -= go_back;
            } else if self.offset_row > 0 {
                self.offset_row -= 1;
                proof {
                    lemma_line_text_len(text, self.offset_row as int);
                }
                let line = rope.line(self.offset_row);
                let wc = wrap::wrap_count(line, text_width);
                if wc <= remaining {
                    remaining -= wc;
                    // offset_wrap stays 0, continue to previous line
                } else {
                    self.offset_wrap = wc - remaining;
                    remaining = 0;
                }
            } else {
                break;
            }
        }
    }

    /// Position viewport so cursor is near the bottom with scrolloff.
    fn position_cursor_near_bottom(
        &mut self,
        cursor: &Position,
        scrolloff: usize,
        rope: &Rope,
        text_width: u16,
    )
        requires
            text_width <= 65532,
            rope_text(*rope).len() < usize::MAX,
            cursor.row < line_count(rope_text(*rope)),
        ensures
            ({
                let text = rope_text(*rope);
                let tw = text_width as nat;
                let target = sat_sub(sat_sub(old(self).height as int, 1), scrolloff as int);
                &&& is_canonical(text, tw, final(self).offset_row as nat, final(self).offset_wrap as nat)
                &&& top_index(*final(self), text, tw) == sat_sub(cursor_index(text, tw, *cursor), target)
                &&& final(self).offset_col == old(self).offset_col
                &&& final(self).width == old(self).width
                &&& final(self).height == old(self).height
                &&& final(self).wrap == old(self).wrap
            }),
    {
        let ghost text = rope_text(*rope);
        let ghost tw = text_width as nat;
        // We want cursor to be at screen row (height - 1 - scrolloff)
        let target_from_top = (self.height as usize).saturating_sub(1).saturating_sub(scrolloff);

        // Start from cursor position and go backwards target_from_top screen lines
        proof {
            lemma_line_text_len(text, cursor.row as int);
            lemma_cursor_segment(text, tw, *cursor);
        }
        let line = rope.line(cursor.row);
        let (cursor_seg, _) = wrap::char_to_wrap_pos(line, cursor.col, text_width);

        let mut row = cursor.row;
        let mut seg = cursor_seg;
        let mut to_go = target_from_top;
        let ghost goal = cursor_index(text, tw, *cursor) - target_from_top;

        while to_go > 0
            invariant
                text == rope_text(*rope),
                tw == text_width,
                text_width <= 65532,
                text.len() < usize::MAX,
                is_canonical(text, tw, row as nat, seg as nat),
                screen_index(text, tw, row as nat, seg as nat) - to_go == goal,
            ensures
                to_go == 0 || (row == 0 && seg == 0),
                is_canonical(text, tw, row as nat, seg as nat),
                screen_index(text, tw, row as nat, seg as nat) - to_go == goal,
            decreases to_go,
        {
            if seg > 0 {
                let go_back = if to_go < seg {
                    to_go
                } else {
                    seg
                };
                seg -= go_back;
                to_go -= go_back;
            } else if row > 0 {
                row -= 1;
                proof {
                    lemma_line_text_len(text, row as int);
                }
                let prev_line = rope.line(row);
                let wc = wrap::wrap_count(prev_line, text_width);
                if wc <= to_go {
                    to_go -= wc;
                    seg = 0;
                } else {
                    seg = wc - to_go;
                    to_go = 0;
                }
            } else {
                break;
            }
        }

        self.offset_row = row;
        self.offset_wrap = seg;
    }
}

} // verus!
