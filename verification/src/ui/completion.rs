//! The completion popup: up to ten completion labels under the cursor, or
//! above it where there is no room below.
use vstd::prelude::*;
use vstd::utf8::encode_utf8;

use crate::editor::pane::AreaRect;
use crate::editor::selection::Position;
use crate::lsp::LspCompletionItem;
use crate::ui::editor_view::{line_number_width, num_digits};
use crate::ui::popup::{max_int, min_int, sat_sub};

verus! {

pub struct CompletionPopup<'a> {
    pub showing: bool,
    pub items: &'a [LspCompletionItem],
    /// The selected item.
    pub selected: usize,
    /// The number of lines of the document, which sets the gutter's width.
    pub line_count: usize,
    pub cursor: Position,
    /// The first line and column shown.
    pub offset_row: usize,
    pub offset_col: usize,
}

/// The popup as laid out: where it stands, and the items shown (index,
/// label, whether selected).
pub struct CompletionLayout {
    pub rect: AreaRect,
    pub lines: Vec<(usize, String, bool)>,
}

pub struct CompletionLayoutView {
    pub rect: AreaRect,
    pub lines: Seq<(usize, Seq<char>, bool)>,
}

pub open spec fn completion_view(l: CompletionLayout) -> CompletionLayoutView {
    CompletionLayoutView {
        rect: l.rect,
        lines: Seq::new(l.lines@.len(), |i: int| (l.lines@[i].0, l.lines@[i].1@, l.lines@[i].2)),
    }
}

/// `a - b` on indices, or 0 where `b` is larger.
pub open spec fn index_sub(a: usize, b: usize) -> int {
    if a >= b {
        a - b
    } else {
        0
    }
}

/// The columns an item wants: its label's bytes, cut to 16 bits, and one
/// column on each side.
pub open spec fn item_width(item: LspCompletionItem) -> int {
    ((encode_utf8(item.label@).len() as usize) as u16) + 2
}

/// The widest of the first `k` items.
pub open spec fn widest(items: Seq<LspCompletionItem>, k: nat) -> int
    decreases k,
{
    if k == 0 || k > items.len() {
        0
    } else {
        max_int(widest(items, (k - 1) as nat), item_width(items[k - 1]))
    }
}

/// A laid-out row is item `idx`, with its label, marked when selected.
pub open spec fn completion_row(row: (usize, String, bool), idx: int, item: LspCompletionItem, selected: usize) -> bool {
    &&& row.0 == idx
    &&& row.1@ == item.label@
    &&& row.2 == (idx == selected)
}

impl<'a> CompletionPopup<'a> {
    pub fn new(
        showing: bool,
        items: &'a [LspCompletionItem],
        selected: usize,
        line_count: usize,
        cursor: Position,
        offset_row: usize,
        offset_col: usize,
    ) -> (p: Self)
        ensures
            p.showing == showing,
            p.items == items,
            p.selected == selected,
            p.line_count == line_count,
            p.cursor == cursor,
            p.offset_row == offset_row,
            p.offset_col == offset_col,
    {
        Self { showing, items, selected, line_count, cursor, offset_row, offset_col }
    }

    /// The screen column of the cursor: after the gutter, the columns past
    /// the first one shown (cut to 16 bits).
    pub open spec fn cursor_x(&self, area: AreaRect) -> int {
        area.x + num_digits(self.line_count as nat) + 2 + (index_sub(self.cursor.col, self.offset_col) as u16)
    }

    /// The screen row of the cursor.
    pub open spec fn cursor_y(&self, area: AreaRect) -> int {
        area.y + (index_sub(self.cursor.row, self.offset_row) as u16)
    }

    /// How many items the popup has room for.
    pub open spec fn shown(&self) -> int {
        min_int(10, self.items@.len() as int)
    }

    /// The frame: as wide as the widest shown label and 2 (at least 15, at
    /// most the columns from the cursor to the area's width), one row per
    /// shown item; under the cursor, or above it when there is no room
    /// below; starting at the cursor's column, or further left to stay in the
    /// area.
    pub open spec fn spec_rect(&self, area: AreaRect) -> AreaRect {
        let h = self.shown();
        let cx = self.cursor_x(area);
        let cy = self.cursor_y(area);
        let w = min_int(max_int(widest(self.items@, h as nat), 15), sat_sub(area.width, cx as u16));
        AreaRect {
            x: min_int(cx, max_int(area.x + area.width - w, 0)) as u16,
            y: (if cy + 1 + h <= area.y + area.height {
                cy + 1
            } else {
                max_int(cy - h, 0)
            }) as u16,
            width: w as u16,
            height: h as u16,
        }
    }

    /// The first item shown: the list scrolls to keep the selected one in
    /// view.
    pub open spec fn scroll(&self) -> int {
        if self.selected >= self.shown() {
            self.selected - self.shown() + 1
        } else {
            0
        }
    }

    /// How many rows are drawn: the items from the first shown that exist,
    /// at most as many as fit, and none below the area.
    pub open spec fn row_count(&self, area: AreaRect) -> int {
        let n = self.items@.len() as int;
        min_int(
            min_int(self.shown(), max_int(n - self.scroll(), 0)),
            max_int(area.y + area.height - self.spec_rect(area).y, 0),
        )
    }

    pub open spec fn spec_layout(&self, area: AreaRect) -> Option<CompletionLayoutView> {
        if !self.showing || self.items@.len() == 0 {
            None
        } else {
            Some(
                CompletionLayoutView {
                    rect: self.spec_rect(area),
                    lines: Seq::new(
                        self.row_count(area) as nat,
                        |i: int|
                            (
                                (self.scroll() + i) as usize,
                                self.items@[self.scroll() + i].label@,
                                self.scroll() + i == self.selected,
                            ),
                    ),
                },
            )
        }
    }

    /// The gutter: the digits of the line count and two columns more.
    pub fn gutter_width(&self) -> (w: u16)
        ensures
            w == num_digits(self.line_count as nat) + 2,
    {
        line_number_width(self.line_count)
    }

    /// Lays out the popup in `area`. The cursor's position, and the row under
    /// the popup below it, must be columns and rows; so must the width of each
    /// shown label.
    pub fn layout(&self, area: AreaRect) -> (r: Option<CompletionLayout>)
        requires
            area.fits(),
            self.showing && self.items@.len() > 0 ==> {
                &&& self.cursor_x(area) <= u16::MAX
                &&& self.cursor_y(area) + 1 + self.shown() <= u16::MAX
                &&& forall|i: int| 0 <= i < self.shown() ==> #[trigger] item_width(self.items@[i]) <= u16::MAX
            },
        ensures
            match r {
                Some(l) => self.spec_layout(area) == Some(completion_view(l)),
                None => self.spec_layout(area) is None,
            },
    {
        let n = self.items.len();
        if !self.showing || n == 0 {
            return None;
        }
        let gutter = self.gutter_width();
        let dc: usize = if self.cursor.col >= self.offset_col {
            self.cursor.col - self.offset_col
        } else {
            0
        };
        let dr: usize = if self.cursor.row >= self.offset_row {
            self.cursor.row - self.offset_row
        } else {
            0
        };
        let cx: u16 = area.x + gutter + (dc as u16);
        let cy: u16 = area.y + (dr as u16);
        let shown: usize = if n < 10 {
            n
        } else {
            10
        };
        let height = shown as u16;
        // The widest of the shown labels.
        let mut widest_w: u16 = 0;
        let mut i = 0usize;
        while i < shown
            invariant
                shown == self.shown(),
                shown <= n,
                n == self.items@.len(),
                i <= shown,
                widest_w == widest(self.items@, i as nat),
                forall|k: int| 0 <= k < self.shown() ==> #[trigger] item_width(self.items@[k]) <= u16::MAX,
            decreases shown - i,
        {
            let bytes = self.items[i].label.as_str().len();
            assert(item_width(self.items@[i as int]) <= u16::MAX);
            let w = (#[verifier::truncate] (bytes as u16)) + 2;
            assert(w == item_width(self.items@[i as int]));
            if w > widest_w {
                widest_w = w;
            }
            i += 1;
        }
        let base: u16 = if widest_w > 15 {
            widest_w
        } else {
            15
        };
        let room = area.width.saturating_sub(cx);
        let width: u16 = if base < room {
            base
        } else {
            room
        };
        let y: u16 = if (cy as u32) + 1 + (height as u32) <= (area.y as u32) + (area.height as u32) {
            cy + 1
        } else {
            cy.saturating_sub(height)
        };
        let right_room = (area.x + area.width).saturating_sub(width);
        let x: u16 = if cx < right_room {
            cx
        } else {
            right_room
        };
        let rect = AreaRect { x, y, width, height };
        assert(rect == self.spec_rect(area));
        let scroll: usize = if self.selected >= shown {
            self.selected - shown + 1
        } else {
            0
        };
        let bottom: u32 = (area.y as u32) + (area.height as u32);
        let mut lines: Vec<(usize, String, bool)> = Vec::new();
        let mut k = 0usize;
        while k < shown && scroll < n && k < n - scroll && (y as u32) + (k as u32) < bottom
            invariant
                n == self.items@.len(),
                shown == self.shown(),
                shown <= 10,
                scroll == self.scroll(),
                rect == self.spec_rect(area),
                y == rect.y,
                bottom == area.y + area.height,
                k <= shown,
                lines@.len() == k,
                scroll < n ==> k <= n - scroll,
                scroll >= n ==> k == 0,
                k <= max_int(bottom - y, 0),
                forall|j: int| 0 <= j < k ==> #[trigger] completion_row(
                    lines@[j],
                    scroll + j,
                    self.items@[scroll + j],
                    self.selected,
                ),
            decreases shown - k,
        {
            let idx = scroll + k;
            let label = self.items[idx].label.clone();
            let ghost before = lines@;
            lines.push((idx, label, idx == self.selected));
            proof {
                assert(completion_row(lines@[k as int], scroll + k, self.items@[scroll + k], self.selected));
                assert forall|j: int| 0 <= j < k implies #[trigger] lines@[j] == before[j] by {}
            }
            k += 1;
        }
        let l = CompletionLayout { rect, lines };
        proof {
            let want = self.spec_layout(area).unwrap();
            assert(completion_view(l).lines.len() == want.lines.len());
            assert forall|j: int| 0 <= j < want.lines.len() implies completion_view(l).lines[j]
                == want.lines[j] by {
                assert(completion_row(l.lines@[j], scroll + j, self.items@[scroll + j], self.selected));
            }
            assert(completion_view(l).lines =~= want.lines);
        }
        Some(l)
    }
}

} // verus!
