//! The workspace symbols popup: a query row and the symbols found for it,
//! each with its kind, name, file and line.
use vstd::prelude::*;
use vstd::string::StringExecFns;
use vstd::utf8::encode_utf8;

use crate::editor::pane::AreaRect;
use crate::lsp::dispatch::{after_last_slash, after_last_slash_exec};
use crate::lsp::transport::{decimal, decimal_string};
use crate::ui::file_finder::{query_cursor_col, query_frame, query_rect, query_row_shown, spec_query_frame};
use crate::ui::popup::{min_int, sat_sub, scroll_offset, spec_scroll_offset};

verus! {

/// A symbol found in the workspace.
pub struct WorkspaceSymbol {
    pub name: String,
    /// The LSP symbol kind.
    pub kind: u32,
    /// The short name the list shows for the kind.
    pub kind_label: String,
    pub uri: String,
    pub start_line: u32,
}

/// The color of a symbol's kind tag.
#[derive(Debug, Clone, Copy, PartialEq, Eq, Structural)]
pub enum KindColor {
    /// Methods and functions.
    Function,
    /// Structs and classes.
    Type,
    /// Enums and their members.
    Enum,
    /// Interfaces and traits.
    Interface,
    Constant,
    Module,
    Other,
}

pub open spec fn kind_color(kind: u32) -> KindColor {
    if kind == 6 || kind == 12 {
        KindColor::Function
    } else if kind == 23 || kind == 5 {
        KindColor::Type
    } else if kind == 10 || kind == 22 {
        KindColor::Enum
    } else if kind == 11 {
        KindColor::Interface
    } else if kind == 14 {
        KindColor::Constant
    } else if kind == 2 {
        KindColor::Module
    } else {
        KindColor::Other
    }
}

/// A symbol's line in the list: `[kind] name  file:line`, with a one-based
/// line.
pub open spec fn symbol_line(s: WorkspaceSymbol) -> Seq<char> {
    "["@ + s.kind_label@ + "] "@ + s.name@ + "  "@ + after_last_slash(s.uri@) + ":"@ + decimal(
        (s.start_line + 1) as nat,
    )
}

/// How many leading chars of a line take the kind's color: the label's
/// bytes and its two brackets.
pub open spec fn tag_len(s: WorkspaceSymbol) -> usize {
    let n = encode_utf8(s.kind_label@).len() as usize + 2;
    if n <= usize::MAX {
        n as usize
    } else {
        usize::MAX
    }
}

pub struct WorkspaceSymbolsPopup<'a> {
    pub showing: bool,
    pub query: &'a str,
    pub results: &'a [WorkspaceSymbol],
    pub selected: usize,
}

/// A row of the list: the symbol's index, its line, whether it is selected,
/// the color of its kind tag and the tag's length.
pub struct SymbolRow {
    pub index: usize,
    pub text: String,
    pub selected: bool,
    pub color: KindColor,
    pub tag_len: usize,
}

pub struct WorkspaceSymbolsLayout {
    pub rect: AreaRect,
    pub input_row: bool,
    pub cursor_x: Option<u16>,
    /// The number of symbols found, right-aligned in the query row.
    pub count: String,
    pub count_x: u16,
    pub rows: Vec<SymbolRow>,
}

/// Row `row` shows symbol `idx` of `results`.
pub open spec fn shows_symbol(row: SymbolRow, idx: int, s: WorkspaceSymbol, selected: usize) -> bool {
    &&& row.index == idx
    &&& row.text@ == symbol_line(s)
    &&& row.selected == (idx == selected)
    &&& row.color == kind_color(s.kind)
    &&& row.tag_len == tag_len(s)
}

fn symbol_row(index: usize, s: &WorkspaceSymbol, selected: bool) -> (r: SymbolRow)
    ensures
        r.index == index,
        r.text@ == symbol_line(*s),
        r.selected == selected,
        r.color == kind_color(s.kind),
        r.tag_len == tag_len(*s),
{
    let mut text = String::from_str("[");
    text.append(s.kind_label.as_str());
    text.append("] ");
    text.append(s.name.as_str());
    text.append("  ");
    let file = after_last_slash_exec(s.uri.as_str());
    text.append(file.as_str());
    text.append(":");
    let line = decimal_string(s.start_line as u64 + 1);
    text.append(line.as_str());
    proof {
        reveal_strlit("[");
        reveal_strlit("] ");
        reveal_strlit("  ");
        reveal_strlit(":");
    }
    let color = if s.kind == 6 || s.kind == 12 {
        KindColor::Function
    } else if s.kind == 23 || s.kind == 5 {
        KindColor::Type
    } else if s.kind == 10 || s.kind == 22 {
        KindColor::Enum
    } else if s.kind == 11 {
        KindColor::Interface
    } else if s.kind == 14 {
        KindColor::Constant
    } else if s.kind == 2 {
        KindColor::Module
    } else {
        KindColor::Other
    };
    let tag = s.kind_label.as_str().len().saturating_add(2);
    SymbolRow { index, text, selected, color, tag_len: tag }
}

impl<'a> WorkspaceSymbolsPopup<'a> {
    pub fn new(showing: bool, query: &'a str, results: &'a [WorkspaceSymbol], selected: usize) -> (p: Self)
        ensures
            p.showing == showing,
            p.query == query,
            p.results == results,
            p.selected == selected,
    {
        Self { showing, query, results, selected }
    }

    /// The frame, at least 40 columns wide (see `query_rect`).
    pub open spec fn spec_rect(&self, area: AreaRect) -> AreaRect {
        query_rect(area, 40, self.results@.len())
    }

    pub open spec fn spec_count(&self) -> Seq<char> {
        " "@ + decimal(self.results@.len())
    }

    /// The number of rows shown, from the first shown.
    pub open spec fn row_count(&self, area: AreaRect) -> int {
        let n = self.results@.len();
        let content = sat_sub(self.spec_rect(area).height, 3) as usize;
        let scroll = spec_scroll_offset(self.selected, content);
        if content > 0 && scroll < n {
            min_int(n - scroll, content as int)
        } else {
            0
        }
    }

    /// The first symbol shown.
    pub open spec fn first_row(&self, area: AreaRect) -> int {
        spec_scroll_offset(self.selected, sat_sub(self.spec_rect(area).height, 3) as usize) as int
    }

    /// Lays out the popup in `area`: `None` when it is not shown. Where the
    /// query row shows, the frame must leave room for it and the cursor
    /// column must be a column.
    pub fn layout(&self, area: AreaRect) -> (r: Option<WorkspaceSymbolsLayout>)
        requires
            area.fits(),
            self.showing ==> area.width * 3 <= u16::MAX,
            self.showing && query_row_shown(area, self.spec_rect(area)) ==> {
                &&& self.spec_rect(area).width >= 1
                &&& (self.query@.len() == 0 || self.spec_rect(area).width >= 4)
                &&& query_cursor_col(self.spec_rect(area), self.query.len()) <= u16::MAX
            },
        ensures
            match r {
                None => !self.showing,
                Some(l) => {
                    let f = spec_query_frame(
                        area,
                        40,
                        self.results@.len(),
                        self.query.len(),
                        self.spec_count().len(),
                    );
                    &&& self.showing
                    &&& l.rect == f.rect
                    &&& l.input_row == f.input_row
                    &&& l.cursor_x == f.cursor_x
                    &&& l.count@ == self.spec_count()
                    &&& l.count_x == f.count_x
                    &&& l.rows@.len() == self.row_count(area)
                    &&& forall|j: int|
                        0 <= j < l.rows@.len() ==> #[trigger] shows_symbol(
                            l.rows@[j],
                            self.first_row(area) + j,
                            self.results@[self.first_row(area) + j],
                            self.selected,
                        )
                },
            },
    {
        if !self.showing {
            return None;
        }
        let n = self.results.len();
        let mut count = String::from_str(" ");
        let found = decimal_string(n as u64);
        count.append(found.as_str());
        proof {
            reveal_strlit(" ");
        }
        let count_len = count.as_str().unicode_len();
        let frame = query_frame(area, 40, n, self.query.len(), count_len);
        let content = frame.rect.height.saturating_sub(3) as usize;
        let scroll = if content == 0 {
            0
        } else {
            scroll_offset(self.selected, content)
        };
        let mut rows: Vec<SymbolRow> = Vec::new();
        let mut k = 0usize;
        while k < content && scroll < n && k < n - scroll
            invariant
                n == self.results@.len(),
                rows@.len() == k,
                k <= content,
                content == sat_sub(self.spec_rect(area).height, 3),
                scroll < n ==> k <= n - scroll,
                scroll >= n ==> k == 0,
                content > 0 ==> scroll == self.first_row(area),
                forall|j: int|
                    0 <= j < k ==> #[trigger] shows_symbol(
                        rows@[j],
                        scroll + j,
                        self.results@[scroll + j],
                        self.selected,
                    ),
            decreases content - k,
        {
            let idx = scroll + k;
            let row = symbol_row(idx, &self.results[idx], idx == self.selected);
            let ghost before = rows@;
            rows.push(row);
            proof {
                assert forall|j: int| 0 <= j < k implies #[trigger] rows@[j] == before[j] by {}
            }
            k += 1;
        }
        Some(
            WorkspaceSymbolsLayout {
                rect: frame.rect,
                input_row: frame.input_row,
                cursor_x: frame.cursor_x,
                count,
                count_x: frame.count_x,
                rows,
            },
        )
    }
}

} // verus!
