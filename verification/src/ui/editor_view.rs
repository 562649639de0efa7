//! The text area of a pane: gutter, text cells with their looks, cursor and
//! selection marks, line by line.
use vstd::prelude::*;

use crate::buffer;
use crate::buffer::display_len;
use crate::buffer::rope::{line_count, line_text, rope_text, slice_text};
use crate::lsp::transport::{decimal, decimal_string};
use vstd::string::StringExecFns;
use crate::editor::pane::{in_search_match, spec_selection_range, PaneRenderData};
use crate::editor::selection::{pos_le, Position};
use crate::editor::wrap::{
    build_screen_map, char_width, lemma_screen_map_rows, spec_char_width, spec_screen_map, WrapSegment,
};
use ropey::RopeSlice;
use crate::highlight::spec_style_at;
use crate::highlight::style::SyntaxStyle;
use crate::highlight::theme::colored;
use crate::input::mode::Mode;
use crate::lsp::LspDiagnostic;

verus! {

/// The background tint of a line with diagnostics.
#[derive(Debug, Clone, Copy, PartialEq, Eq, Structural)]
pub enum DiagTint {
    NoTint,
    /// A line with an error.
    Error,
    /// A line with a warning (and no error).
    Warning,
}

/// How a text cell looks.
#[derive(Debug, Clone, Copy, PartialEq, Eq, Structural)]
pub enum CellLook {
    /// The block cursor.
    Cursor,
    /// Selected text: its syntax style on the selection color.
    Selected(SyntaxStyle),
    /// A search match.
    SearchMatch,
    /// The bracket matching the one under the cursor: its syntax style,
    /// emphasized.
    MatchingBracket(SyntaxStyle),
    /// Text inside a diagnostic's range: underlined.
    Underlined(SyntaxStyle, DiagTint),
    /// Plain text in its syntax style, on its line's tint.
    Plain(SyntaxStyle, DiagTint),
}

pub struct EditorView<'a> {
    pub data: PaneRenderData<'a>,
}

/// The most severe (lowest) severity among the first `n` diagnostics whose
/// lines cover `row`.
pub open spec fn worst_severity(diags: Seq<LspDiagnostic>, row: usize, n: nat) -> Option<u8>
    decreases n,
{
    if n == 0 || n > diags.len() {
        None
    } else {
        let d = diags[n - 1];
        let prev = worst_severity(diags, row, (n - 1) as nat);
        if d.start_line as usize <= row && row <= d.end_line as usize {
            match prev {
                Some(w) => Some(if d.severity < w {
                    d.severity
                } else {
                    w
                }),
                None => Some(d.severity),
            }
        } else {
            prev
        }
    }
}

/// The tint of a line whose most severe diagnostic has severity `sev`.
pub open spec fn tint_of(sev: Option<u8>) -> DiagTint {
    match sev {
        Some(1u8) => DiagTint::Error,
        Some(2u8) => DiagTint::Warning,
        _ => DiagTint::NoTint,
    }
}

/// Whether `(row, col)` lies in the range of diagnostic `d`.
pub open spec fn in_diagnostic(d: LspDiagnostic, row: usize, col: usize) -> bool {
    &&& d.start_line as usize <= row <= d.end_line as usize
    &&& !(row == d.start_line as usize && col < d.start_col as usize)
    &&& !(row == d.end_line as usize && col >= d.end_col as usize)
}

/// The number of decimal digits of `n`.
pub open spec fn num_digits(n: nat) -> nat
    decreases n,
{
    if n < 10 {
        1
    } else {
        1 + num_digits(n / 10)
    }
}

pub open spec fn pow10(k: nat) -> nat
    decreases k,
{
    if k == 0 {
        1
    } else {
        10 * pow10((k - 1) as nat)
    }
}

proof fn lemma_num_digits_bound(n: nat, k: nat)
    requires
        k >= 1,
        n < pow10(k),
    ensures
        num_digits(n) <= k,
    decreases k,
{
    if n >= 10 {
        assert(k >= 2) by {
            if k == 1 {
                assert(pow10(1) == 10) by {
                    reveal_with_fuel(pow10, 2);
                }
            }
        }
        assert(n / 10 < pow10((k - 1) as nat));
        lemma_num_digits_bound(n / 10, (k - 1) as nat);
    }
}

proof fn lemma_num_digits_small(n: nat)
    requires
        n <= usize::MAX,
    ensures
        1 <= num_digits(n) <= 20,
{
    assert(pow10(20) == 100000000000000000000nat) by {
        reveal_with_fuel(pow10, 21);
    }
    assert(usize::MAX < 100000000000000000000nat);
    lemma_num_digits_bound(n, 20);
}

/// The width of a line-number gutter for `lines` lines: their digits and
/// two columns more.
pub fn line_number_width(lines: usize) -> (w: u16)
    ensures
        w == num_digits(lines as nat) + 2,
{
    let mut digits: u16 = 1;
    let mut rest = lines;
    proof {
        lemma_num_digits_small(lines as nat);
    }
    while rest >= 10
        invariant
            num_digits(lines as nat) == digits - 1 + num_digits(rest as nat),
            1 <= digits <= 20,
            num_digits(lines as nat) <= 20,
        decreases rest,
    {
        assert(num_digits((rest / 10) as nat) >= 1);
        rest = rest / 10;
        digits += 1;
    }
    digits + 2
}

impl<'a> EditorView<'a> {
    pub fn new(data: PaneRenderData<'a>) -> (v: Self)
        ensures
            v.data == data,
    {
        Self { data }
    }

    /// The text of the pane's document.
    pub open spec fn text(&self) -> Seq<char> {
        self.data.document.text()
    }

    /// The gutter: the digits of the line count and two columns more.
    pub fn gutter_width(&self) -> (w: u16)
        ensures
            w == num_digits(line_count(self.text())) + 2,
    {
        line_number_width(self.data.document.line_count())
    }

    pub open spec fn spec_is_selected(&self, row: usize, col: usize) -> bool {
        match spec_selection_range(self.data.mode, self.data.visual_anchor, self.data.cursor) {
            Some((start, end)) => pos_le(start, Position { row, col }) && pos_le(
                Position { row, col },
                end,
            ),
            None => false,
        }
    }

    fn is_selected(&self, row: usize, col: usize) -> (r: bool)
        ensures
            r == self.spec_is_selected(row, col),
    {
        if let Some((start, end)) = self.data.selection_range() {
            let after_start = start.row < row || (start.row == row && start.col <= col);
            let before_end = row < end.row || (row == end.row && col <= end.col);
            after_start && before_end
        } else {
            false
        }
    }

    pub open spec fn spec_severity_at(&self, row: usize) -> Option<u8> {
        worst_severity(self.data.diagnostics@, row, self.data.diagnostics@.len())
    }

    fn diagnostic_severity_at(&self, row: usize) -> (r: Option<u8>)
        ensures
            r == self.spec_severity_at(row),
    {
        let mut worst: Option<u8> = None;
        let mut i = 0usize;
        while i < self.data.diagnostics.len()
            invariant
                i <= self.data.diagnostics@.len(),
                worst == worst_severity(self.data.diagnostics@, row, i as nat),
            decreases self.data.diagnostics@.len() - i,
        {
            let d = &self.data.diagnostics[i];
            if d.start_line as usize <= row && row <= d.end_line as usize {
                let sev = d.severity;
                worst = Some(
                    match worst {
                        Some(w) => if sev < w {
                            sev
                        } else {
                            w
                        },
                        None => sev,
                    },
                );
            }
            i += 1;
        }
        worst
    }

    /// The background tint of a line.
    pub fn diag_tint(&self, doc_row: usize) -> (t: DiagTint)
        ensures
            t == tint_of(self.spec_severity_at(doc_row)),
    {
        match self.diagnostic_severity_at(doc_row) {
            Some(1u8) => DiagTint::Error,
            Some(2u8) => DiagTint::Warning,
            _ => DiagTint::NoTint,
        }
    }

    pub open spec fn spec_in_diag(&self, row: usize, col: usize) -> bool {
        exists|i: int|
            0 <= i < self.data.diagnostics@.len() && in_diagnostic(
                #[trigger] self.data.diagnostics@[i],
                row,
                col,
            )
    }

    fn in_diag(&self, row: usize, col: usize) -> (r: bool)
        ensures
            r == self.spec_in_diag(row, col),
    {
        let mut i = 0usize;
        while i < self.data.diagnostics.len()
            invariant
                i <= self.data.diagnostics@.len(),
                forall|k: int|
                    0 <= k < i ==> !in_diagnostic(#[trigger] self.data.diagnostics@[k], row, col),
            decreases self.data.diagnostics@.len() - i,
        {
            let d = &self.data.diagnostics[i];
            let start_row = d.start_line as usize;
            let end_row = d.end_line as usize;
            let inside = !(row < start_row || row > end_row) && !(row == start_row && col
                < d.start_col as usize) && !(row == end_row && col >= d.end_col as usize);
            if inside {
                return true;
            }
            i += 1;
        }
        false
    }

    /// The syntax style at a document position.
    pub open spec fn spec_highlight(&self, row: usize, col: usize) -> SyntaxStyle {
        if row >= self.data.styles_offset {
            spec_style_at(self.data.line_styles@, (row - self.data.styles_offset) as nat, col as nat)
        } else {
            colored(171, 178, 191)
        }
    }

    /// How the char at a document position looks: the cursor, then the
    /// selection, then a search match, the matching bracket, a diagnostic's
    /// range, and plain text.
    pub open spec fn spec_char_look(&self, row: usize, col: usize) -> CellLook {
        let d = self.data;
        let hl = self.spec_highlight(row, col);
        let tint = tint_of(self.spec_severity_at(row));
        if d.is_active && row == d.cursor.row && col == d.cursor.col && d.mode != Mode::Insert {
            CellLook::Cursor
        } else if self.spec_is_selected(row, col) {
            CellLook::Selected(hl)
        } else if d.search_query@.len() > 0 && in_search_match(d.search_matches@, row, col) {
            CellLook::SearchMatch
        } else if d.matching_bracket == Some(Position { row, col }) {
            CellLook::MatchingBracket(hl)
        } else if self.spec_in_diag(row, col) {
            CellLook::Underlined(hl, tint)
        } else {
            CellLook::Plain(hl, tint)
        }
    }

    fn char_look(&self, doc_row: usize, char_idx: usize) -> (r: CellLook)
        ensures
            r == self.spec_char_look(doc_row, char_idx),
    {
        let is_cursor = self.data.is_active && doc_row == self.data.cursor.row && char_idx
            == self.data.cursor.col && self.data.mode != Mode::Insert;
        if is_cursor {
            return CellLook::Cursor;
        }
        let hl = self.data.highlight_style_at(doc_row, char_idx);
        if self.is_selected(doc_row, char_idx) {
            return CellLook::Selected(hl);
        }
        let tint = self.diag_tint(doc_row);
        if self.data.is_search_match(doc_row, char_idx) {
            return CellLook::SearchMatch;
        }
        let is_matching_bracket = match self.data.matching_bracket {
            Some(pos) => pos.row == doc_row && pos.col == char_idx,
            None => false,
        };
        if is_matching_bracket {
            CellLook::MatchingBracket(hl)
        } else if self.in_diag(doc_row, char_idx) {
            CellLook::Underlined(hl, tint)
        } else {
            CellLook::Plain(hl, tint)
        }
    }
}


// ── The gutter ─────────────────────────────────────────────────────

/// The color of a line number.
#[derive(Debug, Clone, Copy, PartialEq, Eq, Structural)]
pub enum GutterLook {
    Error,
    Warning,
    CursorLine,
    Dim,
}

/// The sign shown over the first gutter column of a line with diagnostics.
#[derive(Debug, Clone, Copy, PartialEq, Eq, Structural)]
pub enum SignKind {
    Error,
    Warning,
    Info,
    Hint,
}

/// The gutter of a screen line: blank on a wrapped continuation, else the
/// line number.
pub struct Gutter {
    /// The line number, right-aligned, and a space; `None` for a blank gutter.
    pub number: Option<String>,
    pub look: GutterLook,
    pub sign: Option<SignKind>,
}

pub struct GutterView {
    pub number: Option<Seq<char>>,
    pub look: GutterLook,
    pub sign: Option<SignKind>,
}

impl View for Gutter {
    type V = GutterView;

    open spec fn view(&self) -> GutterView {
        GutterView {
            number: match self.number {
                Some(t) => Some(t@),
                None => None,
            },
            look: self.look,
            sign: self.sign,
        }
    }
}

/// `s` padded on the left with spaces to at least `w` chars.
pub open spec fn pad_left(s: Seq<char>, w: nat) -> Seq<char> {
    if s.len() >= w {
        s
    } else {
        Seq::new((w - s.len()) as nat, |i: int| ' ') + s
    }
}

pub open spec fn sign_of(sev: Option<u8>) -> Option<SignKind> {
    match sev {
        Some(1u8) => Some(SignKind::Error),
        Some(2u8) => Some(SignKind::Warning),
        Some(3u8) => Some(SignKind::Info),
        Some(_) => Some(SignKind::Hint),
        None => None,
    }
}

impl<'a> EditorView<'a> {
    pub open spec fn spec_gutter(&self, doc_row: usize, gutter_w: u16, is_first_segment: bool) -> GutterView {
        let sev = self.spec_severity_at(doc_row);
        let cursor_line = self.data.is_active && doc_row == self.data.cursor.row;
        if !is_first_segment {
            GutterView { number: None, look: GutterLook::Dim, sign: None }
        } else {
            GutterView {
                number: Some(pad_left(decimal((doc_row + 1) as nat), (gutter_w - 1) as nat) + seq![' ']),
                look: match sev {
                    Some(1u8) => GutterLook::Error,
                    Some(2u8) => GutterLook::Warning,
                    _ => if cursor_line {
                        GutterLook::CursorLine
                    } else {
                        GutterLook::Dim
                    },
                },
                sign: sign_of(sev),
            }
        }
    }

    /// The gutter of a screen line showing `doc_row`.
    pub fn gutter(&self, doc_row: usize, gutter_w: u16, is_first_segment: bool) -> (g: Gutter)
        requires
            gutter_w >= 1,
            doc_row < usize::MAX,
        ensures
            g@ == self.spec_gutter(doc_row, gutter_w, is_first_segment),
    {
        if !is_first_segment {
            return Gutter { number: None, look: GutterLook::Dim, sign: None };
        }
        let sev = self.diagnostic_severity_at(doc_row);
        let digits = decimal_string(doc_row as u64 + 1);
        let n = digits.as_str().unicode_len();
        let width = (gutter_w - 1) as usize;
        let space = " ";
        proof {
            reveal_strlit(" ");
        }
        let mut text = String::new();
        let mut k = n;
        while k < width
            invariant
                n <= k,
                n >= width ==> k == n,
                n < width ==> k <= width,
                text@ =~= Seq::new((k - n) as nat, |i: int| ' '),
                space@ == seq![' '],
            decreases width - k,
        {
            text.append(space);
            k += 1;
        }
        let ghost pad = text@;
        text.append(digits.as_str());
        text.append(space);
        proof {
            assert(text@ =~= pad + decimal((doc_row + 1) as nat) + seq![' ']);
            if n >= width {
                assert(text@ =~= decimal((doc_row + 1) as nat) + seq![' ']);
            } else {
                assert(text@ =~= pad_left(decimal((doc_row + 1) as nat), width as nat) + seq![' ']);
            }
        }
        let cursor_line = self.data.is_active && doc_row == self.data.cursor.row;
        let look = match sev {
            Some(1u8) => GutterLook::Error,
            Some(2u8) => GutterLook::Warning,
            _ => if cursor_line {
                GutterLook::CursorLine
            } else {
                GutterLook::Dim
            },
        };
        let sign = match sev {
            Some(1u8) => Some(SignKind::Error),
            Some(2u8) => Some(SignKind::Warning),
            Some(3u8) => Some(SignKind::Info),
            Some(_) => Some(SignKind::Hint),
            None => None,
        };
        Gutter { number: Some(text), look, sign }
    }
}


// ── Screen lines ───────────────────────────────────────────────────

/// One char drawn in the text area, `x` columns from its left edge.
#[derive(Debug, Clone, Copy, PartialEq, Eq, Structural)]
pub struct TextCell {
    pub x: u16,
    pub ch: char,
    pub look: CellLook,
}

/// A screen line that shows (part of) a document line.
pub struct ScreenLine {
    pub doc_row: usize,
    pub gutter: Gutter,
    pub tint: DiagTint,
    pub cells: Vec<TextCell>,
    /// Where a cursor is drawn on a blank cell, if on this line.
    pub cursor_x: Option<u16>,
    /// Where the selection color starts filling the rest of the line, in
    /// visual line mode.
    pub fill_from: Option<u16>,
}

/// A screen line of the text area.
pub enum ScreenRow {
    Line(ScreenLine),
    /// Past the end of the document: a `~` at this gutter column.
    Tilde(u16),
}

pub struct ScreenLineView {
    pub doc_row: usize,
    pub gutter: GutterView,
    pub tint: DiagTint,
    pub cells: Seq<TextCell>,
    pub cursor_x: Option<u16>,
    pub fill_from: Option<u16>,
}

pub enum ScreenRowView {
    Line(ScreenLineView),
    Tilde(u16),
}

impl View for ScreenLine {
    type V = ScreenLineView;

    open spec fn view(&self) -> ScreenLineView {
        ScreenLineView {
            doc_row: self.doc_row,
            gutter: self.gutter@,
            tint: self.tint,
            cells: self.cells@,
            cursor_x: self.cursor_x,
            fill_from: self.fill_from,
        }
    }
}

impl View for ScreenRow {
    type V = ScreenRowView;

    open spec fn view(&self) -> ScreenRowView {
        match *self {
            ScreenRow::Line(l) => ScreenRowView::Line(l@),
            ScreenRow::Tilde(x) => ScreenRowView::Tilde(x),
        }
    }
}

/// The char shown for a char of the text: a tab shows as a space.
pub open spec fn display_char(c: char) -> char {
    if c == '\t' {
        ' '
    } else {
        c
    }
}

/// The total display width of `line[from..to]`.
pub open spec fn width_sum(line: Seq<char>, from: int, to: int) -> nat
    decreases to - from,
{
    if from >= to {
        0
    } else {
        spec_char_width(line[from]) + width_sum(line, from + 1, to)
    }
}

pub open spec fn min_int(a: int, b: int) -> int {
    if a <= b {
        a
    } else {
        b
    }
}

impl<'a> EditorView<'a> {
    /// The cells of `line[from..to]` laid out from column `x` while the
    /// column is inside the text width `tw`.
    pub open spec fn spec_text_cells(&self, line: Seq<char>, doc_row: usize, from: int, to: int, x: int, tw: int) -> Seq<
        TextCell,
    >
        decreases to - from,
    {
        if from >= to || x >= tw {
            Seq::empty()
        } else {
            seq![
                TextCell {
                    x: x as u16,
                    ch: display_char(line[from]),
                    look: self.spec_char_look(doc_row, from as usize),
                },
            ] + self.spec_text_cells(line, doc_row, from + 1, to, x + spec_char_width(line[from]), tw)
        }
    }

    /// The column after the cells of `spec_text_cells`.
    pub open spec fn spec_text_end(&self, line: Seq<char>, from: int, to: int, x: int, tw: int) -> int
        decreases to - from,
    {
        if from >= to || x >= tw {
            x
        } else {
            self.spec_text_end(line, from + 1, to, x + spec_char_width(line[from]), tw)
        }
    }

    /// The cells of the chars `from..to` of a line, and the column after them.
    fn text_cells(&self, line: &RopeSlice, doc_row: usize, from: usize, to: usize, text_width: u16) -> (r: (
        Vec<TextCell>,
        u16,
    ))
        requires
            to <= slice_text(*line).len(),
            text_width <= 65532,
        ensures
            r.0@ == self.spec_text_cells(slice_text(*line), doc_row, from as int, to as int, 0, text_width as int),
            r.1 == self.spec_text_end(slice_text(*line), from as int, to as int, 0, text_width as int),
    {
        let ghost l = slice_text(*line);
        let ghost tw = text_width as int;
        let mut cells: Vec<TextCell> = Vec::new();
        let mut x: u16 = 0;
        let mut i = from;
        while i < to && x < text_width
            invariant
                l == slice_text(*line),
                to <= l.len(),
                from <= i,
                x <= text_width + 2,
                text_width <= 65532,
                tw == text_width,
                cells@ + self.spec_text_cells(l, doc_row, i as int, to as int, x as int, tw)
                    == self.spec_text_cells(l, doc_row, from as int, to as int, 0, tw),
                self.spec_text_end(l, i as int, to as int, x as int, tw) == self.spec_text_end(
                    l,
                    from as int,
                    to as int,
                    0,
                    tw,
                ),
            decreases to - i,
        {
            let ch = line.char(i);
            let display_ch = if ch == '\t' {
                ' '
            } else {
                ch
            };
            let w = char_width(ch);
            let look = self.char_look(doc_row, i);
            let ghost before = cells@;
            cells.push(TextCell { x, ch: display_ch, look });
            proof {
                assert(cells@ + self.spec_text_cells(l, doc_row, i + 1, to as int, x + w, tw) =~= before
                    + self.spec_text_cells(l, doc_row, i as int, to as int, x as int, tw));
            }
            x = x + w;
            i += 1;
        }
        proof {
            assert(self.spec_text_cells(l, doc_row, i as int, to as int, x as int, tw) =~= Seq::<TextCell>::empty());
            assert(cells@ =~= cells@ + Seq::<TextCell>::empty());
        }
        (cells, x)
    }
}

/// The display width of `line[from..to]`, saturating at the largest column.
fn width_of(line: &RopeSlice, from: usize, to: usize) -> (w: u16)
    requires
        to <= slice_text(*line).len(),
    ensures
        w == min_int(width_sum(slice_text(*line), from as int, to as int) as int, u16::MAX as int),
{
    let ghost l = slice_text(*line);
    let mut w: u16 = 0;
    let mut i = from;
    while i < to
        invariant
            l == slice_text(*line),
            to <= l.len(),
            from <= i || to <= i,
            min_int(w + width_sum(l, i as int, to as int), u16::MAX as int) == min_int(
                width_sum(l, from as int, to as int) as int,
                u16::MAX as int,
            ),
        decreases to - i,
    {
        let cw = char_width(line.char(i));
        w = w.saturating_add(cw);
        i += 1;
    }
    w
}

impl<'a> EditorView<'a> {
    /// The insert cursor past the end of a line is inside the view.
    pub open spec fn insert_cursor_in_view(&self) -> bool {
        !(self.data.is_active && self.data.mode == Mode::Insert)
            || self.data.view.offset_col <= self.data.cursor.col
    }

    /// Screen line `y` without wrapping: document line `offset_row + y` from
    /// column `offset_col`, or a tilde past the end of the document.
    pub open spec fn spec_nowrap_row(&self, y: nat, gutter_w: u16, tw: u16) -> ScreenRowView {
        let d = self.data;
        let t = self.text();
        let doc_row = d.view.offset_row + y;
        if doc_row < line_count(t) {
            let line = line_text(t, doc_row);
            let len = display_len(line);
            let from = d.view.offset_col as int;
            let end_x = self.spec_text_end(line, from, len as int, 0, tw as int);
            ScreenRowView::Line(
                ScreenLineView {
                    doc_row: doc_row as usize,
                    gutter: self.spec_gutter(doc_row as usize, gutter_w, true),
                    tint: tint_of(self.spec_severity_at(doc_row as usize)),
                    cells: self.spec_text_cells(line, doc_row as usize, from, len as int, 0, tw as int),
                    cursor_x: if d.is_active && d.mode == Mode::Insert && doc_row == d.cursor.row
                        && d.cursor.col >= len {
                        Some((d.cursor.col - d.view.offset_col) as u16)
                    } else if d.is_active && d.mode != Mode::Insert && doc_row == d.cursor.row && len
                        == 0 {
                        Some(0u16)
                    } else {
                        None
                    },
                    fill_from: if d.mode == Mode::VisualLine && self.spec_is_selected(doc_row as usize, 0) {
                        Some(end_x as u16)
                    } else {
                        None
                    },
                },
            )
        } else {
            ScreenRowView::Tilde(if gutter_w >= 2 {
                (gutter_w - 2) as u16
            } else {
                0u16
            })
        }
    }

    fn nowrap_row(&self, y: u16, gutter_w: u16, text_width: u16) -> (r: ScreenRow)
        requires
            self.data.view.offset_row + y < usize::MAX,
            gutter_w >= 1,
            text_width <= 65532,
            self.insert_cursor_in_view(),
        ensures
            r@ == self.spec_nowrap_row(y as nat, gutter_w, text_width),
    {
        let doc_row = self.data.view.offset_row + y as usize;
        if doc_row < self.data.document.line_count() {
            let gutter = self.gutter(doc_row, gutter_w, true);
            let tint = self.diag_tint(doc_row);
            let line = self.data.document.rope.line(doc_row);
            let line_len = buffer::line_display_len(line);
            proof {
                crate::buffer::rope::lemma_line_text_len(self.text(), doc_row as int);
            }
            let (cells, end_x) = self.text_cells(&line, doc_row, self.data.view.offset_col, line_len, text_width);
            let d = &self.data;
            let cursor_x = if d.is_active && d.mode == Mode::Insert && doc_row == d.cursor.row
                && d.cursor.col >= line_len {
                Some((d.cursor.col - d.view.offset_col) as u16)
            } else if d.is_active && d.mode != Mode::Insert && doc_row == d.cursor.row && line_len
                == 0 {
                Some(0u16)
            } else {
                None
            };
            let fill_from = if d.mode == Mode::VisualLine && self.is_selected(doc_row, 0) {
                Some(end_x)
            } else {
                None
            };
            ScreenRow::Line(ScreenLine { doc_row, gutter, tint, cells, cursor_x, fill_from })
        } else {
            ScreenRow::Tilde(gutter_w.saturating_sub(2))
        }
    }
}


impl<'a> EditorView<'a> {
    /// The screen line of a wrap segment: its part of the document line, and
    /// on the line's last segment the insert cursor past the end of the line.
    pub open spec fn spec_wrapped_row(&self, seg: WrapSegment, gutter_w: u16, tw: u16) -> ScreenRowView {
        let d = self.data;
        let t = self.text();
        let doc_row = seg.doc_row;
        let line = line_text(t, doc_row as int);
        let len = display_len(line) as int;
        let is_first = seg.segment_index == 0;
        let to = min_int(seg.char_end as int, len);
        let end_x = self.spec_text_end(line, seg.char_start as int, to, 0, tw as int);
        let insert_here = d.is_active && d.mode == Mode::Insert && doc_row == d.cursor.row && d.cursor.col
            >= len && seg.char_end >= len;
        ScreenRowView::Line(
            ScreenLineView {
                doc_row,
                gutter: self.spec_gutter(doc_row, gutter_w, is_first),
                tint: tint_of(self.spec_severity_at(doc_row)),
                cells: self.spec_text_cells(line, doc_row, seg.char_start as int, to, 0, tw as int),
                cursor_x: if insert_here && is_first {
                    Some(
                        min_int(
                            width_sum(line, seg.char_start as int, min_int(d.cursor.col as int, len))
                                as int,
                            u16::MAX as int,
                        ) as u16,
                    )
                } else if insert_here && d.cursor.col >= seg.char_start {
                    Some(end_x as u16)
                } else if d.is_active && d.mode != Mode::Insert && doc_row == d.cursor.row && len == 0
                    && is_first {
                    Some(0u16)
                } else {
                    None
                },
                fill_from: if d.mode == Mode::VisualLine && self.spec_is_selected(doc_row, 0) {
                    Some(end_x as u16)
                } else {
                    None
                },
            },
        )
    }

    fn wrapped_row(&self, seg: WrapSegment, gutter_w: u16, text_width: u16) -> (r: ScreenRow)
        requires
            seg.doc_row < line_count(self.text()),
            seg.doc_row < usize::MAX,
            gutter_w >= 1,
            text_width <= 65532,
        ensures
            r@ == self.spec_wrapped_row(seg, gutter_w, text_width),
    {
        let doc_row = seg.doc_row;
        let is_first = seg.segment_index == 0;
        let gutter = self.gutter(doc_row, gutter_w, is_first);
        let tint = self.diag_tint(doc_row);
        let line = self.data.document.rope.line(doc_row);
        let line_len = buffer::line_display_len(line);
        proof {
            crate::buffer::rope::lemma_line_text_len(self.text(), doc_row as int);
        }
        let to = if seg.char_end < line_len {
            seg.char_end
        } else {
            line_len
        };
        let (cells, end_x) = self.text_cells(&line, doc_row, seg.char_start, to, text_width);
        let d = &self.data;
        let insert_here = d.is_active && d.mode == Mode::Insert && doc_row == d.cursor.row
            && d.cursor.col >= line_len && seg.char_end >= line_len;
        let cursor_x = if insert_here && is_first {
            let upto = if d.cursor.col < line_len {
                d.cursor.col
            } else {
                line_len
            };
            Some(width_of(&line, seg.char_start, upto))
        } else if insert_here && d.cursor.col >= seg.char_start {
            Some(end_x)
        } else if d.is_active && d.mode != Mode::Insert && doc_row == d.cursor.row && line_len == 0
            && is_first {
            Some(0u16)
        } else {
            None
        };
        let fill_from = if d.mode == Mode::VisualLine && self.is_selected(doc_row, 0) {
            Some(end_x)
        } else {
            None
        };
        ScreenRow::Line(ScreenLine { doc_row, gutter, tint, cells, cursor_x, fill_from })
    }

    /// Whether the text area wraps lines: wrapping is on and there is room
    /// for text.
    pub open spec fn wraps(&self, text_width: u16) -> bool {
        self.data.view.wrap && text_width > 0
    }

    /// The text width left beside the gutter.
    pub open spec fn spec_text_width(&self, area_width: u16) -> u16 {
        let g = num_digits(line_count(self.text())) + 2;
        if area_width >= g {
            (area_width - g) as u16
        } else {
            0u16
        }
    }

    /// The screen lines of a text area `area_height` lines high: without
    /// wrapping one per line from the view's first line, with wrapping the
    /// segments of the screen map; then tildes down to the bottom.
    pub open spec fn spec_screen_rows(&self, area_width: u16, area_height: u16) -> Seq<ScreenRowView> {
        let gutter_w = (num_digits(line_count(self.text())) + 2) as u16;
        let tw = self.spec_text_width(area_width);
        if self.wraps(tw) {
            let map = spec_screen_map(
                self.text(),
                self.data.view.offset_row as nat,
                self.data.view.offset_wrap as nat,
                tw as nat,
                area_height as nat,
            );
            Seq::new(
                if map.len() >= area_height {
                    map.len()
                } else {
                    area_height as nat
                },
                |y: int|
                    if y < map.len() {
                        self.spec_wrapped_row(map[y], gutter_w, tw)
                    } else {
                        ScreenRowView::Tilde((gutter_w - 2) as u16)
                    },
            )
        } else {
            Seq::new(area_height as nat, |y: int| self.spec_nowrap_row(y as nat, gutter_w, tw))
        }
    }

    /// Lays out the text area: the gutter width, the text width and the
    /// screen lines from top to bottom.
    pub fn screen_rows(&self, area_width: u16, area_height: u16) -> (r: (u16, u16, Vec<ScreenRow>))
        requires
            self.data.view.offset_row + area_height < usize::MAX,
            self.text().len() < usize::MAX,
            self.insert_cursor_in_view(),
        ensures
            r.0 == num_digits(line_count(self.text())) + 2,
            r.1 == self.spec_text_width(area_width),
            r.2@.len() == self.spec_screen_rows(area_width, area_height).len(),
            forall|y: int| 0 <= y < r.2@.len() ==> #[trigger] r.2@[y]@ == self.spec_screen_rows(area_width, area_height)[y],
    {
        let gutter_w = self.gutter_width();
        let text_width = area_width.saturating_sub(gutter_w);
        let ghost spec_rows = self.spec_screen_rows(area_width, area_height);
        let mut rows: Vec<ScreenRow> = Vec::new();
        proof {
            crate::buffer::rope::lemma_line_count_bound(self.text());
        }
        if self.data.view.wrap && text_width > 0 {
            let map = build_screen_map(
                &self.data.document.rope,
                self.data.view.offset_row,
                self.data.view.offset_wrap,
                text_width,
                area_height,
            );
            proof {
                lemma_screen_map_rows(self.text(), self.data.view.offset_row as nat, self.data.view.offset_wrap as nat, text_width as nat, area_height as nat);
            }
            let mut y = 0usize;
            while y < map.len()
                invariant
                    y <= map@.len(),
                    map@ == spec_screen_map(self.text(), self.data.view.offset_row as nat, self.data.view.offset_wrap as nat, text_width as nat, area_height as nat),
                    forall|k: int| 0 <= k < map@.len() ==> (#[trigger] map@[k]).doc_row < line_count(self.text()),
                    line_count(self.text()) <= self.text().len() + 1,
                    self.text().len() < usize::MAX,
                    gutter_w == num_digits(line_count(self.text())) + 2,
                    text_width == self.spec_text_width(area_width),
                    self.wraps(text_width),
                    spec_rows == self.spec_screen_rows(area_width, area_height),
                    rows@.len() == y,
                    forall|k: int| 0 <= k < y ==> #[trigger] rows@[k]@ == spec_rows[k],
                decreases map@.len() - y,
            {
                let row = self.wrapped_row(map[y], gutter_w, text_width);
                rows.push(row);
                y += 1;
            }
            while y < area_height as usize
                invariant
                    map@.len() <= y,
                    y <= area_height || y == map@.len(),
                    map@ == spec_screen_map(self.text(), self.data.view.offset_row as nat, self.data.view.offset_wrap as nat, text_width as nat, area_height as nat),
                    gutter_w == num_digits(line_count(self.text())) + 2,
                    gutter_w >= 3,
                    text_width == self.spec_text_width(area_width),
                    self.wraps(text_width),
                    spec_rows == self.spec_screen_rows(area_width, area_height),
                    rows@.len() == y,
                    forall|k: int| 0 <= k < y ==> #[trigger] rows@[k]@ == spec_rows[k],
                decreases area_height - y,
            {
                rows.push(ScreenRow::Tilde(gutter_w - 2));
                y += 1;
            }
        } else {
            let mut y: u16 = 0;
            while y < area_height
                invariant
                    y <= area_height,
                    self.data.view.offset_row + area_height < usize::MAX,
                    gutter_w == num_digits(line_count(self.text())) + 2,
                    gutter_w >= 3,
                    text_width == self.spec_text_width(area_width),
                    text_width <= 65532,
                    !self.wraps(text_width),
                    self.insert_cursor_in_view(),
                    spec_rows == self.spec_screen_rows(area_width, area_height),
                    rows@.len() == y,
                    forall|k: int| 0 <= k < y ==> #[trigger] rows@[k]@ == spec_rows[k],
                decreases area_height - y,
            {
                let row = self.nowrap_row(y, gutter_w, text_width);
                rows.push(row);
                y += 1;
            }
        }
        (gutter_w, text_width, rows)
    }
}


/// The text cells of a line stay inside the text width and run left to
/// right: each cell starts at or after `x`, before `tw`, and not before the
/// cells before it.
pub proof fn law_text_cells_inside_width(
    view: EditorView,
    line: Seq<char>,
    doc_row: usize,
    from: int,
    to: int,
    x: int,
    tw: int,
)
    requires
        0 <= x,
        tw <= u16::MAX,
    ensures
        ({
            let cells = view.spec_text_cells(line, doc_row, from, to, x, tw);
            &&& forall|k: int| 0 <= k < cells.len() ==> x <= #[trigger] cells[k].x < tw
            &&& forall|j: int, k: int| 0 <= j < k < cells.len() ==> cells[j].x <= cells[k].x
        }),
    decreases to - from,
{
    if from < to && x < tw {
        let w = spec_char_width(line[from]);
        law_text_cells_inside_width(view, line, doc_row, from + 1, to, x + w, tw);
        let rest = view.spec_text_cells(line, doc_row, from + 1, to, x + w, tw);
        let cells = view.spec_text_cells(line, doc_row, from, to, x, tw);
        assert forall|k: int| 0 < k < cells.len() implies cells[k] == rest[k - 1] by {}
    }
}

} // verus!
