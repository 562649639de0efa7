//! The hover popup: the server's description of the symbol under the cursor,
//! line by line in a frame above the cursor (or below it).
use vstd::prelude::*;
use vstd::string::StringExecFns;
use vstd::utf8::encode_utf8;

use crate::editor::pane::AreaRect;
use crate::editor::selection::Position;
use crate::ui::completion::index_sub;
use crate::ui::editor_view::{line_number_width, num_digits};
use crate::ui::popup::{max_int, min_int, sat_sub};

verus! {

/// The pieces of `s` between newlines (one more than it has newlines).
pub open spec fn split_newlines(s: Seq<char>) -> Seq<Seq<char>>
    decreases s.len(),
{
    if s.len() == 0 {
        seq![Seq::empty()]
    } else {
        let rest = split_newlines(s.drop_last());
        if s.last() == '\n' {
            rest.push(Seq::empty())
        } else {
            rest.update(rest.len() - 1, rest.last().push(s.last()))
        }
    }
}

/// A line without the carriage return of a `\r\n` ending.
pub open spec fn strip_cr(l: Seq<char>) -> Seq<char> {
    if l.len() > 0 && l.last() == '\r' {
        l.drop_last()
    } else {
        l
    }
}

/// The lines of a text: split at `\n` and at `\r\n`, the line endings left
/// out; a final line ending adds no empty line.
pub open spec fn text_lines(s: Seq<char>) -> Seq<Seq<char>> {
    let p = split_newlines(s);
    let n = p.len() as int;
    Seq::new((n - 1) as nat, |i: int| strip_cr(p[i])) + if p[n - 1].len() > 0 {
        seq![p[n - 1]]
    } else {
        Seq::empty()
    }
}

proof fn lemma_split_newlines(s: Seq<char>)
    ensures
        split_newlines(s).len() >= 1,
    decreases s.len(),
{
    if s.len() > 0 {
        lemma_split_newlines(s.drop_last());
    }
}

/// The lines of `s`.
pub fn lines_of(s: &str) -> (r: Vec<String>)
    ensures
        r@.map_values(|l: String| l@) == text_lines(s@),
{
    let n = s.unicode_len();
    let mut out: Vec<String> = Vec::new();
    let mut start = 0usize;
    let mut i = 0usize;
    proof {
        assert(s@.take(0) =~= Seq::<char>::empty());
    }
    while i < n
        invariant
            n == s@.len(),
            start <= i <= n,
            split_newlines(s@.take(i as int)).len() == out@.len() + 1,
            forall|j: int| 0 <= j < out@.len() ==> #[trigger] out@[j]@ == strip_cr(
                split_newlines(s@.take(i as int))[j],
            ),
            split_newlines(s@.take(i as int)).last() == s@.subrange(start as int, i as int),
        decreases n - i,
    {
        let ghost before = split_newlines(s@.take(i as int));
        proof {
            lemma_split_newlines(s@.take(i as int));
            assert(s@.take(i + 1).drop_last() =~= s@.take(i as int));
        }
        let c = s.get_char(i);
        if c == '\n' {
            let end = if i > start && s.get_char(i - 1) == '\r' {
                i - 1
            } else {
                i
            };
            let line = String::from_str(s.substring_char(start, end));
            proof {
                let piece = s@.subrange(start as int, i as int);
                assert(line@ =~= strip_cr(piece));
            }
            out.push(line);
            start = i + 1;
            proof {
                let after = split_newlines(s@.take(i + 1));
                assert(after == before.push(Seq::empty()));
                assert(s@.subrange(start as int, i + 1) =~= Seq::<char>::empty());
                assert forall|j: int| 0 <= j < out@.len() implies #[trigger] out@[j]@ == strip_cr(
                    after[j],
                ) by {}
            }
        } else {
            proof {
                let after = split_newlines(s@.take(i + 1));
                assert(after == before.update(before.len() - 1, before.last().push(c)));
                assert(s@.subrange(start as int, i + 1) =~= s@.subrange(start as int, i as int).push(c));
            }
        }
        i += 1;
    }
    proof {
        assert(s@.take(n as int) =~= s@);
        lemma_split_newlines(s@);
    }
    if start < n {
        out.push(String::from_str(s.substring_char(start, n)));
    }
    proof {
        let p = split_newlines(s@);
        let want = text_lines(s@);
        assert(out@.map_values(|l: String| l@) =~= want);
    }
    out
}

pub struct HoverPopup<'a> {
    pub showing: bool,
    pub hover_text: Option<&'a str>,
    /// The number of lines of the document, which sets the gutter's width.
    pub line_count: usize,
    pub cursor: Position,
    /// The first line and column shown.
    pub offset_row: usize,
    pub offset_col: usize,
}

/// The popup as laid out: its frame and the text of each row inside it.
pub struct HoverLayout {
    pub rect: AreaRect,
    pub lines: Vec<String>,
}

pub open spec fn hover_view(l: HoverLayout) -> (AreaRect, Seq<Seq<char>>) {
    (l.rect, l.lines@.map_values(|s: String| s@))
}

/// The length in bytes of a line, as an index.
pub open spec fn line_bytes(l: Seq<char>) -> usize {
    encode_utf8(l).len() as usize
}

/// The longest of the first `k` lines, in bytes.
pub open spec fn longest(lines: Seq<Seq<char>>, k: nat) -> usize
    decreases k,
{
    if k == 0 || k > lines.len() {
        0
    } else {
        let rest = longest(lines, (k - 1) as nat);
        if line_bytes(lines[k - 1]) > rest {
            line_bytes(lines[k - 1])
        } else {
            rest
        }
    }
}

impl<'a> HoverPopup<'a> {
    pub fn new(
        showing: bool,
        hover_text: Option<&'a str>,
        line_count: usize,
        cursor: Position,
        offset_row: usize,
        offset_col: usize,
    ) -> (p: Self)
        ensures
            p.showing == showing,
            p.hover_text == hover_text,
            p.line_count == line_count,
            p.cursor == cursor,
            p.offset_row == offset_row,
            p.offset_col == offset_col,
    {
        Self { showing, hover_text, line_count, cursor, offset_row, offset_col }
    }

    /// The gutter: the digits of the line count and two columns more.
    pub fn gutter_width(&self) -> (w: u16)
        ensures
            w == num_digits(self.line_count as nat) + 2,
    {
        line_number_width(self.line_count)
    }

    /// The lines to show, when there is a text to show.
    pub open spec fn shown_lines(&self) -> Option<Seq<Seq<char>>> {
        match self.hover_text {
            Some(t) => if self.showing && t@.len() > 0 && text_lines(t@).len() > 0 {
                Some(text_lines(t@))
            } else {
                None
            },
            None => None,
        }
    }

    pub open spec fn cursor_x(&self, area: AreaRect) -> int {
        area.x + num_digits(self.line_count as nat) + 2 + (index_sub(self.cursor.col, self.offset_col) as u16)
    }

    pub open spec fn cursor_y(&self, area: AreaRect) -> int {
        area.y + (index_sub(self.cursor.row, self.offset_row) as u16)
    }

    /// The frame for `lines`: as wide as the longest line and 4 (at most 4
    /// columns less than the area), as high as the lines and 2 (at most 2 rows
    /// less than the area); above the cursor where it fits, else below it
    /// (kept in the area); at the cursor's column, or further left to stay in
    /// the area.
    pub open spec fn spec_rect(&self, area: AreaRect, lines: Seq<Seq<char>>) -> AreaRect {
        let w = min_int(((longest(lines, lines.len()) as u16) + 4) as int, sat_sub(area.width, 4));
        let h = min_int(((lines.len() as u16) + 2) as int, sat_sub(area.height, 2));
        let cx = self.cursor_x(area);
        let cy = self.cursor_y(area);
        AreaRect {
            x: min_int(cx, max_int(area.x + area.width - w, 0)) as u16,
            y: (if cy >= h + area.y {
                cy - h
            } else {
                min_int(cy + 1, max_int(area.y + area.height - h, 0))
            }) as u16,
            width: w as u16,
            height: h as u16,
        }
    }

    /// The rows of text: each line cut to the frame's inner width, as many
    /// as fit inside the frame and the area.
    pub open spec fn spec_layout(&self, area: AreaRect) -> Option<(AreaRect, Seq<Seq<char>>)> {
        match self.shown_lines() {
            None => None,
            Some(lines) => {
                let rect = self.spec_rect(area, lines);
                let count = min_int(
                    min_int(sat_sub(rect.height, 2), lines.len() as int),
                    max_int(area.y + area.height - rect.y - 1, 0),
                );
                let width = sat_sub(rect.width, 4);
                Some(
                    (
                        rect,
                        Seq::new(
                            count as nat,
                            |i: int|
                                if lines[i].len() > width {
                                    lines[i].take(width)
                                } else {
                                    lines[i]
                                },
                        ),
                    ),
                )
            },
        }
    }

    /// Lays out the popup in `area`. The cursor's position must be a column
    /// and a row; the longest line in bytes, and the number of lines, must
    /// leave room for the frame in 16 bits.
    pub fn layout(&self, area: AreaRect) -> (r: Option<HoverLayout>)
        requires
            area.fits(),
            self.shown_lines() is Some ==> {
                let lines = self.shown_lines().unwrap();
                &&& self.cursor_x(area) <= u16::MAX
                &&& self.cursor_y(area) <= u16::MAX
                &&& (longest(lines, lines.len()) as u16) + 4 <= u16::MAX
                &&& (lines.len() as u16) + 2 <= u16::MAX
            },
        ensures
            match r {
                Some(l) => self.spec_layout(area) == Some(hover_view(l)),
                None => self.spec_layout(area) is None,
            },
    {
        if !self.showing {
            return None;
        }
        let text = match self.hover_text {
            Some(t) => t,
            None => return None,
        };
        if text.unicode_len() == 0 {
            return None;
        }
        let lines = lines_of(text);
        let ghost lv = lines@.map_values(|l: String| l@);
        if lines.len() == 0 {
            return None;
        }
        let mut long: usize = 0;
        let mut i = 0usize;
        while i < lines.len()
            invariant
                lv == lines@.map_values(|l: String| l@),
                i <= lines@.len(),
                long == longest(lv, i as nat),
            decreases lines@.len() - i,
        {
            let b = lines[i].as_str().len();
            assert(b == line_bytes(lv[i as int]));
            if b > long {
                long = b;
            }
            i += 1;
        }
        let gutter = self.gutter_width();
        let dc: usize = if self.cursor.col >= self.offset_col {
            self.cursor.col - self.offset_col
        } else {
            0
        };
        let dr: usize = if self.cursor.row >= self.offset_row {
            self.cursor.row - self.offset_row
        } else {
            0
        };
        let cx: u16 = area.x + gutter + (#[verifier::truncate] (dc as u16));
        let cy: u16 = area.y + (#[verifier::truncate] (dr as u16));
        let want_w: u16 = (#[verifier::truncate] (long as u16)) + 4;
        let w_cap = area.width.saturating_sub(4);
        let width: u16 = if want_w < w_cap {
            want_w
        } else {
            w_cap
        };
        let want_h: u16 = (#[verifier::truncate] (lines.len() as u16)) + 2;
        let h_cap = area.height.saturating_sub(2);
        let height: u16 = if want_h < h_cap {
            want_h
        } else {
            h_cap
        };
        let bottom: u16 = area.y + area.height;
        let y: u16 = if cy >= height + area.y {
            cy - height
        } else {
            let below = cy + 1;
            let last_fit = bottom.saturating_sub(height);
            if below < last_fit {
                below
            } else {
                last_fit
            }
        };
        let right_room = (area.x + area.width).saturating_sub(width);
        let x: u16 = if cx < right_room {
            cx
        } else {
            right_room
        };
        let rect = AreaRect { x, y, width, height };
        assert(rect == self.spec_rect(area, lv));
        let inner_w = width.saturating_sub(4) as usize;
        let inner_h = height.saturating_sub(2) as usize;
        let mut rows: Vec<String> = Vec::new();
        let mut k = 0usize;
        while k < inner_h && k < lines.len() && (y as u32) + 1 + (k as u32) < (bottom as u32)
            invariant
                lv == lines@.map_values(|l: String| l@),
                k <= inner_h,
                k <= lines@.len(),
                rows@.len() == k,
                k <= max_int(bottom - y - 1, 0),
                forall|j: int| 0 <= j < k ==> #[trigger] rows@[j]@ == if lv[j].len() > inner_w {
                    lv[j].take(inner_w as int)
                } else {
                    lv[j]
                },
            decreases inner_h - k,
        {
            let line = lines[k].as_str();
            let len = line.unicode_len();
            let shown = if len > inner_w {
                String::from_str(line.substring_char(0, inner_w))
            } else {
                String::from_str(line)
            };
            proof {
                assert(line@ == lv[k as int]);
                if len > inner_w {
                    assert(shown@ =~= lv[k as int].take(inner_w as int));
                }
            }
            rows.push(shown);
            k += 1;
        }
        let l = HoverLayout { rect, lines: rows };
        proof {
            let want = self.spec_layout(area).unwrap();
            assert(self.shown_lines() == Some(lv));
            assert(hover_view(l).1.len() == want.1.len());
            assert(hover_view(l).1 =~= want.1);
        }
        Some(l)
    }
}

} // verus!
