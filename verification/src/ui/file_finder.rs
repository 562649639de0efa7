//! The file finder popup: a frame in the upper middle of the text area with
//! the query on its first row and the matching files below it.
use vstd::prelude::*;
use vstd::string::StringExecFns;

use crate::editor::pane::AreaRect;
use crate::lsp::transport::{decimal, decimal_string};
use crate::ui::popup::{max_int, min_int, sat_sub, scroll_offset, spec_scroll_offset};

verus! {

pub struct FileFinderPopup<'a> {
    pub showing: bool,
    /// What was typed so far.
    pub query: &'a str,
    /// The project files that match the query, in the order listed.
    pub filtered: &'a [String],
    /// How many files the project has.
    pub entry_count: usize,
    /// The selected entry of `filtered`.
    pub selected: usize,
}

/// The popup as laid out.
pub struct FileFinderLayout {
    pub rect: AreaRect,
    /// Whether the query row lies inside the area.
    pub input_row: bool,
    /// The column of the cursor after the query, where it is drawn.
    pub cursor_x: Option<u16>,
    /// The count of matches and of all files, right-aligned in the query row.
    pub count: String,
    pub count_x: u16,
    /// The files shown: index in `filtered`, name, whether selected.
    pub lines: Vec<(usize, String, bool)>,
}

pub struct FileFinderLayoutView {
    pub rect: AreaRect,
    pub input_row: bool,
    pub cursor_x: Option<u16>,
    pub count: Seq<char>,
    pub count_x: u16,
    pub lines: Seq<(usize, Seq<char>, bool)>,
}

pub open spec fn finder_view(l: FileFinderLayout) -> FileFinderLayoutView {
    FileFinderLayoutView {
        rect: l.rect,
        input_row: l.input_row,
        cursor_x: l.cursor_x,
        count: l.count@,
        count_x: l.count_x,
        lines: Seq::new(l.lines@.len(), |i: int| (l.lines@[i].0, l.lines@[i].1@, l.lines@[i].2)),
    }
}

/// The frame of a popup with a query row and a list of `n` items: three
/// fifths of the area wide (at least `min_w` columns, at most 4 less than the
/// area), up to 15 items high with the frame and the query row (at most 2
/// rows less than the area), centred across and a third of the way down.
pub open spec fn query_rect(area: AreaRect, min_w: u16, n: nat) -> AreaRect {
    let w = min_int(max_int(area.width * 3 / 5, min_w as int), sat_sub(area.width, 4));
    let h = min_int(min_int(15, n as int) + 3, sat_sub(area.height, 2));
    AreaRect {
        x: (area.x + sat_sub(area.width, w as u16) / 2) as u16,
        y: (area.y + sat_sub(area.height, h as u16) / 3) as u16,
        width: w as u16,
        height: h as u16,
    }
}

/// The query row of `rect` lies inside the area.
pub open spec fn query_row_shown(area: AreaRect, rect: AreaRect) -> bool {
    rect.y + 1 < area.y + area.height
}

/// The column just after a query of `query_bytes` bytes (cut to 16 bits),
/// after the frame and the prompt.
pub open spec fn query_cursor_col(rect: AreaRect, query_bytes: usize) -> int {
    rect.x + 3 + (query_bytes as u16)
}

/// Where the query row and the list of a query popup go.
pub struct QueryFrame {
    pub rect: AreaRect,
    /// Whether the query row lies inside the area.
    pub input_row: bool,
    /// The column of the cursor after the query, where it is drawn.
    pub cursor_x: Option<u16>,
    /// Where a count of `count_len` chars starts, right-aligned in the query
    /// row.
    pub count_x: u16,
}

pub open spec fn spec_query_frame(
    area: AreaRect,
    min_w: u16,
    n: nat,
    query_bytes: usize,
    count_len: nat,
) -> QueryFrame {
    let rect = query_rect(area, min_w, n);
    let input_row = query_row_shown(area, rect);
    let cx = query_cursor_col(rect, query_bytes);
    QueryFrame {
        rect,
        input_row,
        cursor_x: if input_row && cx < rect.x + rect.width - 1 && cx < area.x + area.width {
            Some(cx as u16)
        } else {
            None
        },
        count_x: max_int(rect.x + rect.width - 1 - count_len, 0) as u16,
    }
}

/// The frame of a query popup. Where the query row shows, the cursor's
/// column must be a column.
pub fn query_frame(area: AreaRect, min_w: u16, n: usize, query_bytes: usize, count_len: usize) -> (f:
    QueryFrame)
    requires
        area.fits(),
        area.width * 3 <= u16::MAX,
        query_row_shown(area, query_rect(area, min_w, n as nat)) ==> query_cursor_col(
            query_rect(area, min_w, n as nat),
            query_bytes,
        ) <= u16::MAX,
    ensures
        f == spec_query_frame(area, min_w, n as nat, query_bytes, count_len as nat),
{
    let three_fifths = area.width * 3 / 5;
    let base: u16 = if three_fifths > min_w {
        three_fifths
    } else {
        min_w
    };
    let w_cap = area.width.saturating_sub(4);
    let width: u16 = if base < w_cap {
        base
    } else {
        w_cap
    };
    let max_items: u16 = if n < 15 {
        n as u16
    } else {
        15
    };
    let h_cap = area.height.saturating_sub(2);
    let height: u16 = if max_items + 3 < h_cap {
        max_items + 3
    } else {
        h_cap
    };
    let x = area.x + area.width.saturating_sub(width) / 2;
    let y = area.y + area.height.saturating_sub(height) / 3;
    let rect = AreaRect { x, y, width, height };
    assert(rect == query_rect(area, min_w, n as nat));
    let input_row = (y as u32) + 1 < (area.y as u32) + (area.height as u32);
    let cursor_x = if input_row {
        let cx = x + 3 + (#[verifier::truncate] (query_bytes as u16));
        if (cx as u32) + 1 < (x as u32) + (width as u32) && (cx as u32) < (area.x as u32) + (
        area.width as u32) {
            Some(cx)
        } else {
            None
        }
    } else {
        None
    };
    let end: usize = (x as usize) + (width as usize);
    let count_x: u16 = if end > count_len {
        (end - count_len - 1) as u16
    } else {
        0
    };
    QueryFrame { rect, input_row, cursor_x, count_x }
}

impl<'a> FileFinderPopup<'a> {
    pub fn new(
        showing: bool,
        query: &'a str,
        filtered: &'a [String],
        entry_count: usize,
        selected: usize,
    ) -> (p: Self)
        ensures
            p.showing == showing,
            p.query == query,
            p.filtered == filtered,
            p.entry_count == entry_count,
            p.selected == selected,
    {
        Self { showing, query, filtered, entry_count, selected }
    }

    /// The frame, at least 30 columns wide (see `query_rect`).
    pub open spec fn spec_rect(&self, area: AreaRect) -> AreaRect {
        query_rect(area, 30, self.filtered@.len())
    }

    /// The query row lies inside the area.
    pub open spec fn spec_input_row(&self, area: AreaRect) -> bool {
        query_row_shown(area, self.spec_rect(area))
    }

    /// The column just after the query.
    pub open spec fn spec_cursor_col(&self, area: AreaRect) -> int {
        query_cursor_col(self.spec_rect(area), self.query.len())
    }

    /// The count of matches over the count of all files.
    pub open spec fn spec_count(&self) -> Seq<char> {
        " "@ + decimal(self.filtered@.len()) + "/"@ + decimal(self.entry_count as nat)
    }

    pub open spec fn spec_layout(&self, area: AreaRect) -> Option<FileFinderLayoutView> {
        let n = self.filtered@.len();
        let frame = spec_query_frame(area, 30, n, self.query.len(), self.spec_count().len());
        let content = sat_sub(frame.rect.height, 3) as usize;
        let scroll = spec_scroll_offset(self.selected, content);
        let count = if content > 0 && scroll < n {
            min_int(n - scroll, content as int)
        } else {
            0
        };
        if !self.showing {
            None
        } else {
            Some(
                FileFinderLayoutView {
                    rect: frame.rect,
                    input_row: frame.input_row,
                    cursor_x: frame.cursor_x,
                    count: self.spec_count(),
                    count_x: frame.count_x,
                    lines: Seq::new(
                        count as nat,
                        |i: int|
                            ((scroll + i) as usize, self.filtered@[scroll + i]@, scroll + i == self.selected),
                    ),
                },
            )
        }
    }

    /// Lays out the popup in `area`. Where the query row shows, the frame
    /// must leave room for it and the cursor column must be a column.
    pub fn layout(&self, area: AreaRect) -> (r: Option<FileFinderLayout>)
        requires
            area.fits(),
            self.showing ==> area.width * 3 <= u16::MAX,
            self.showing && self.spec_input_row(area) ==> {
                &&& self.spec_rect(area).width >= 1
                &&& (self.query@.len() == 0 || self.spec_rect(area).width >= 4)
                &&& self.spec_cursor_col(area) <= u16::MAX
            },
        ensures
            match r {
                Some(l) => self.spec_layout(area) == Some(finder_view(l)),
                None => self.spec_layout(area) is None,
            },
    {
        if !self.showing {
            return None;
        }
        let n = self.filtered.len();
        let mut count = String::from_str(" ");
        let matches = decimal_string(n as u64);
        count.append(matches.as_str());
        count.append("/");
        let all = decimal_string(self.entry_count as u64);
        count.append(all.as_str());
        proof {
            reveal_strlit(" ");
            reveal_strlit("/");
            assert(count@ =~= self.spec_count());
        }
        let count_len = count.as_str().unicode_len();
        let frame = query_frame(area, 30, n, self.query.len(), count_len);
        let rect = frame.rect;
        let input_row = frame.input_row;
        let cursor_x = frame.cursor_x;
        let count_x = frame.count_x;
        let height = rect.height;
        let content = height.saturating_sub(3) as usize;
        let scroll = if content == 0 {
            0
        } else {
            scroll_offset(self.selected, content)
        };
        let mut lines: Vec<(usize, String, bool)> = Vec::new();
        let mut k = 0usize;
        while k < content && scroll < n && k < n - scroll
            invariant
                n == self.filtered@.len(),
                lines@.len() == k,
                k <= content,
                scroll < n ==> k <= n - scroll,
                scroll >= n ==> k == 0,
                content > 0 ==> scroll == spec_scroll_offset(self.selected, content),
                forall|j: int|
                    0 <= j < k ==> #[trigger] lines@[j].0 == scroll + j && lines@[j].1@
                        == self.filtered@[scroll + j]@ && lines@[j].2 == (scroll + j == self.selected),
            decreases content - k,
        {
            let idx = scroll + k;
            let name = self.filtered[idx].clone();
            let ghost before = lines@;
            lines.push((idx, name, idx == self.selected));
            proof {
                assert forall|j: int| 0 <= j < k implies #[trigger] lines@[j] == before[j] by {}
            }
            k += 1;
        }
        let l = FileFinderLayout { rect, input_row, cursor_x, count, count_x, lines };
        proof {
            let want = self.spec_layout(area).unwrap();
            assert(input_row == want.input_row);
            assert(cursor_x == want.cursor_x);
            assert(count_x == want.count_x);
            assert(finder_view(l).lines.len() == want.lines.len());
            assert forall|j: int| 0 <= j < want.lines.len() implies finder_view(l).lines[j]
                == want.lines[j] by {}
            assert(finder_view(l).lines =~= want.lines);
        }
        Some(l)
    }
}

} // verus!

verus! {

/// The selected file is always among the rows shown, marked as selected,
/// when the frame has room for a row.
pub proof fn law_selected_file_shown(p: FileFinderPopup, area: AreaRect)
    requires
        p.showing,
        p.selected < p.filtered@.len(),
        p.spec_rect(area).height > 3,
    ensures
        ({
            let l = p.spec_layout(area).unwrap();
            let i = p.selected - spec_scroll_offset(p.selected, (p.spec_rect(area).height - 3) as usize);
            &&& 0 <= i < l.lines.len()
            &&& l.lines[i].0 == p.selected
            &&& l.lines[i].2
        }),
{
    let content = (p.spec_rect(area).height - 3) as usize;
    crate::ui::popup::law_selected_item_in_view(p.selected, content);
}

} // verus!
