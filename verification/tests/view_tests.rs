use righter::buffer::{is_word_char, line_display_len};
use righter::editor::document::Document;
use righter::editor::pane::{AreaRect, NavigateDir, Pane, PaneNode, PaneRenderData, SplitDirection};
use righter::editor::selection::Position;
use righter::editor::view::View;
use righter::editor::wrap::{build_screen_map, char_to_wrap_pos, wrap_count, wrap_pos_to_char};
use righter::highlight::style::{RgbColor, SyntaxStyle};
use righter::highlight::theme::{default_style, style_for_capture};
use righter::highlight::{highlight_captures, style_at, Capture};
use righter::input::mode::Mode;
use righter::lsp::LspDiagnostic;
use righter::ui::editor_view::{CellLook, DiagTint, EditorView, GutterLook, ScreenRow, SignKind};
use righter::ui::screen::{screen_layout, screen_regions, PaneRegion};

fn doc(text: &str) -> Document {
    let mut d = Document::new_empty();
    d.rope = ropey::Rope::from_str(text);
    d
}

fn render_data<'a>(
    document: &'a Document,
    cursor: Position,
    mode: Mode,
    diagnostics: &'a [LspDiagnostic],
    line_styles: &'a Vec<Vec<(usize, usize, SyntaxStyle)>>,
    search_matches: &'a [(usize, usize, usize)],
    search_query: &'a str,
) -> PaneRenderData<'a> {
    PaneRenderData {
        document,
        cursor,
        view: View::default(),
        mode,
        diagnostics,
        line_styles,
        styles_offset: 0,
        search_matches,
        search_query,
        visual_anchor: None,
        is_active: true,
        matching_bracket: None,
    }
}

// ── Buffer helpers ──────────────────────────────────────────────────

#[test]
fn word_chars() {
    assert!(is_word_char('a'));
    assert!(is_word_char('_'));
    assert!(is_word_char('9'));
    assert!(is_word_char('é'));
    assert!(!is_word_char('-'));
    assert!(!is_word_char(' '));
}

#[test]
fn display_len_of_lines() {
    let r = ropey::Rope::from_str("abc\r\nde\nf");
    assert_eq!(line_display_len(r.line(0)), 3);
    assert_eq!(line_display_len(r.line(1)), 2);
    assert_eq!(line_display_len(r.line(2)), 1);
}

// ── Wrapping ────────────────────────────────────────────────────────

#[test]
fn wrap_counts() {
    let r = ropey::Rope::from_str("abcdefghij\n\n");
    assert_eq!(wrap_count(r.line(0), 4), 3);
    assert_eq!(wrap_count(r.line(0), 10), 1);
    assert_eq!(wrap_count(r.line(1), 4), 1);
    assert_eq!(wrap_count(r.line(0), 0), 1);
    // a wide char that does not fit starts a new segment
    let wide = ropey::Rope::from_str("ab世\n");
    assert_eq!(wrap_count(wide.line(0), 3), 2);
}

#[test]
fn wrap_positions_round_trip() {
    let r = ropey::Rope::from_str("abcdefghij\n");
    assert_eq!(char_to_wrap_pos(r.line(0), 5, 4), (1, 1));
    assert_eq!(wrap_pos_to_char(r.line(0), 1, 1, 4), 5);
    assert_eq!(char_to_wrap_pos(r.line(0), 0, 4), (0, 0));
}

#[test]
fn screen_map_segments() {
    let r = ropey::Rope::from_str("abcdefghij\nxy\n");
    let map = build_screen_map(&r, 0, 1, 4, 3);
    assert_eq!(map.len(), 3);
    assert_eq!((map[0].doc_row, map[0].segment_index, map[0].char_start, map[0].char_end), (0, 1, 4, 8));
    assert_eq!((map[1].doc_row, map[1].segment_index, map[1].char_start, map[1].char_end), (0, 2, 8, 10));
    assert_eq!((map[2].doc_row, map[2].char_start, map[2].char_end), (1, 0, 2));
}

// ── View scrolling ──────────────────────────────────────────────────

#[test]
fn ensure_cursor_visible_scrolls_down_with_margin() {
    let mut v = View { offset_row: 0, offset_col: 0, width: 10, height: 10, offset_wrap: 0, wrap: false };
    v.ensure_cursor_visible(&Position { row: 20, col: 0 }, 3);
    assert_eq!(v.offset_row, 14);
    v.ensure_cursor_visible(&Position { row: 2, col: 25 }, 3);
    assert_eq!(v.offset_row, 0);
    assert_eq!(v.offset_col, 16);
}

#[test]
fn ensure_cursor_visible_wrapped_keeps_cursor_on_screen() {
    let r = ropey::Rope::from_str("aaaaaaaaaaaa\nb\nc\nd\ne\nf\n");
    let mut v = View { offset_row: 0, offset_col: 3, width: 4, height: 3, offset_wrap: 0, wrap: true };
    v.ensure_cursor_visible_wrapped(&Position { row: 4, col: 0 }, 0, &r, 4);
    assert_eq!(v.offset_col, 0);
    let map = build_screen_map(&r, v.offset_row, v.offset_wrap, 4, 3);
    assert!(map.iter().any(|s| s.doc_row == 4));
}

// ── Panes ───────────────────────────────────────────────────────────

#[test]
fn short_horizontal_split_keeps_inner_separator() {
    let t = PaneNode::Split {
        direction: SplitDirection::Horizontal,
        first: Box::new(PaneNode::Split {
            direction: SplitDirection::Vertical,
            first: Box::new(PaneNode::Leaf(1)),
            second: Box::new(PaneNode::Leaf(2)),
        }),
        second: Box::new(PaneNode::Leaf(3)),
    };
    let a = AreaRect::new(0, 0, 80, 3);
    assert_eq!(
        t.layout(a),
        vec![(1, AreaRect::new(0, 0, 40, 3)), (2, AreaRect::new(41, 0, 39, 3))]
    );
    assert_eq!(t.separators(a), vec![(40, 0, 3)]);
}

#[test]
fn pane_split_layout_and_remove() {
    let mut tree = PaneNode::Leaf(1);
    assert!(tree.is_single());
    assert!(tree.split(1, 2, SplitDirection::Vertical));
    assert!(!tree.split(9, 3, SplitDirection::Vertical));
    assert_eq!(tree.leaves(), vec![1, 2]);
    let rects = tree.layout(AreaRect::new(0, 0, 81, 20));
    assert_eq!(rects[0], (1, AreaRect::new(0, 0, 40, 20)));
    assert_eq!(rects[1], (2, AreaRect::new(41, 0, 40, 20)));
    assert_eq!(tree.separators(AreaRect::new(0, 0, 81, 20)), vec![(40, 0, 20)]);
    assert_eq!(tree.find_adjacent(1, NavigateDir::Right, &rects), Some(2));
    assert_eq!(tree.find_adjacent(1, NavigateDir::Left, &rects), None);
    assert!(tree.remove(2));
    assert_eq!(tree.leaves(), vec![1]);
    assert!(tree.is_single());
}

#[test]
fn narrow_split_shows_first_only() {
    let mut tree = PaneNode::Leaf(1);
    tree.split(1, 2, SplitDirection::Horizontal);
    let rects = tree.layout(AreaRect::new(0, 0, 10, 3));
    assert_eq!(rects, vec![(1, AreaRect::new(0, 0, 10, 3))]);
}

#[test]
fn new_pane_is_fresh() {
    let p = Pane::new(3, 1);
    assert_eq!((p.id, p.buffer_idx), (3, 1));
    assert_eq!(p.cursor, Position { row: 0, col: 0 });
    assert!(p.search_query.is_empty());
    assert!(p.syntax_tree.is_none());
}

// ── Render data ─────────────────────────────────────────────────────

#[test]
fn matching_brackets() {
    let d = doc("fn f(a: [u8]) {\n    (1)\n}\n");
    assert_eq!(
        PaneRenderData::compute_matching_bracket(&d, Position { row: 0, col: 4 }),
        Some(Position { row: 0, col: 12 })
    );
    assert_eq!(
        PaneRenderData::compute_matching_bracket(&d, Position { row: 2, col: 0 }),
        Some(Position { row: 0, col: 14 })
    );
    assert_eq!(
        PaneRenderData::compute_matching_bracket(&d, Position { row: 0, col: 14 }),
        Some(Position { row: 2, col: 0 })
    );
    assert_eq!(PaneRenderData::compute_matching_bracket(&d, Position { row: 0, col: 0 }), None);
    let unbalanced = doc("((\n");
    assert_eq!(PaneRenderData::compute_matching_bracket(&unbalanced, Position { row: 0, col: 0 }), None);
}

#[test]
fn selection_and_search_matches() {
    let d = doc("abc\ndef\n");
    let styles = Vec::new();
    let matches = [(1usize, 1usize, 2usize)];
    let mut data = render_data(&d, Position { row: 1, col: 2 }, Mode::Visual, &[], &styles, &matches, "ef");
    assert_eq!(data.selection_range(), None);
    data.visual_anchor = Some(Position { row: 0, col: 1 });
    assert_eq!(data.selection_range(), Some((Position { row: 0, col: 1 }, Position { row: 1, col: 2 })));
    data.mode = Mode::VisualLine;
    assert_eq!(
        data.selection_range(),
        Some((Position { row: 0, col: 0 }, Position { row: 1, col: usize::MAX }))
    );
    assert!(data.is_search_match(1, 2));
    assert!(!data.is_search_match(1, 3));
    data.search_query = "";
    assert!(!data.is_search_match(1, 2));
}

#[test]
fn highlight_lookup() {
    let keyword = style_for_capture("keyword");
    assert_eq!(keyword, SyntaxStyle::default().fg(RgbColor(198, 120, 221)));
    assert_eq!(style_for_capture("comment"), SyntaxStyle::default().fg(RgbColor(92, 99, 112)).italic());
    assert_eq!(style_for_capture("no.such.capture"), default_style());
    let styles = vec![vec![(0usize, 4usize, keyword), (2usize, 3usize, default_style())]];
    assert_eq!(style_at(&styles, 0, 1), keyword);
    assert_eq!(style_at(&styles, 0, 2), default_style());
    assert_eq!(style_at(&styles, 0, 9), default_style());
    assert_eq!(style_at(&styles, 5, 0), default_style());
}

#[test]
fn highlight_spans_from_captures() {
    let r = ropey::Rope::from_str("let é = 1;\n\"a\nb\"\n");
    let caps = vec![
        Capture { name: "keyword".to_string(), start_row: 0, start_col: 0, end_row: 0, end_col: 3 },
        // byte columns 8..9 are after the two-byte char
        Capture { name: "number".to_string(), start_row: 0, start_col: 9, end_row: 0, end_col: 10 },
        Capture { name: "string".to_string(), start_row: 1, start_col: 0, end_row: 2, end_col: 2 },
    ];
    let ls = highlight_captures(&r, &caps, 0, 3);
    assert_eq!(ls.len(), 3);
    assert_eq!(ls[0], vec![(0, 3, style_for_capture("keyword")), (8, 9, style_for_capture("number"))]);
    assert_eq!(ls[1], vec![(0, 3, style_for_capture("string"))]);
    assert_eq!(ls[2], vec![(0, 2, style_for_capture("string"))]);
}

#[test]
fn tree_sitter_highlighting() {
    let mut h = righter::highlight::Highlighter::new().expect("rust grammar loads");
    let r = ropey::Rope::from_str("fn main() {}\n");
    let tree = h.parse(&r, None).expect("parses");
    let ls = h.highlight_lines(&tree, &r, 0, 1).expect("tree fits text");
    assert_eq!(ls.len(), 1);
    assert_eq!(style_at(&ls, 0, 0), style_for_capture("keyword"));
}

// ── Editor view ─────────────────────────────────────────────────────

fn diag(start_line: u32, start_col: u32, end_line: u32, end_col: u32, severity: u8) -> LspDiagnostic {
    LspDiagnostic { start_line, start_col, end_line, end_col, severity, message: String::new() }
}

#[test]
fn editor_view_rows_without_wrap() {
    let d = doc("ab\tc\n\nlast\n");
    let styles = Vec::new();
    let diags = [diag(0, 1, 0, 2, 2)];
    let data = render_data(&d, Position { row: 0, col: 0 }, Mode::Normal, &diags, &styles, &[], "");
    let view = EditorView::new(data);
    assert_eq!(view.gutter_width(), 3);
    let (gw, tw, rows) = view.screen_rows(20, 5);
    assert_eq!((gw, tw), (3, 17));
    assert_eq!(rows.len(), 5);
    match &rows[0] {
        ScreenRow::Line(l) => {
            assert_eq!(l.doc_row, 0);
            assert_eq!(l.gutter.number.as_deref(), Some(" 1 "));
            assert_eq!(l.gutter.look, GutterLook::Warning);
            assert_eq!(l.gutter.sign, Some(SignKind::Warning));
            assert_eq!(l.tint, DiagTint::Warning);
            let chars: String = l.cells.iter().map(|c| c.ch).collect();
            assert_eq!(chars, "ab c");
            assert_eq!(l.cells[0].look, CellLook::Cursor);
            assert!(matches!(l.cells[1].look, CellLook::Underlined(_, DiagTint::Warning)));
            assert!(matches!(l.cells[2].look, CellLook::Plain(_, DiagTint::Warning)));
            assert_eq!(l.cells.iter().map(|c| c.x).collect::<Vec<_>>(), vec![0, 1, 2, 3]);
        }
        ScreenRow::Tilde(_) => panic!("expected a line"),
    }
    match &rows[1] {
        ScreenRow::Line(l) => {
            assert!(l.cells.is_empty());
            assert_eq!(l.cursor_x, None);
            assert_eq!(l.gutter.look, GutterLook::Dim);
        }
        ScreenRow::Tilde(_) => panic!("expected a line"),
    }
    assert!(matches!(rows[3], ScreenRow::Line(_)));
    assert!(matches!(rows[4], ScreenRow::Tilde(1)));
}

#[test]
fn editor_view_rows_with_wrap() {
    let d = doc("abcdefgh\nxy\n");
    let styles = Vec::new();
    let mut data = render_data(&d, Position { row: 1, col: 2 }, Mode::Insert, &[], &styles, &[], "");
    data.view.wrap = true;
    let view = EditorView::new(data);
    let (_, tw, rows) = view.screen_rows(8, 5);
    assert_eq!(tw, 5);
    let lines: Vec<(usize, Option<String>, String, Option<u16>)> = rows
        .iter()
        .filter_map(|r| match r {
            ScreenRow::Line(l) => Some((
                l.doc_row,
                l.gutter.number.clone(),
                l.cells.iter().map(|c| c.ch).collect(),
                l.cursor_x,
            )),
            ScreenRow::Tilde(_) => None,
        })
        .collect();
    assert_eq!(lines.len(), 4);
    assert_eq!(lines[0], (0, Some(" 1 ".to_string()), "abcde".to_string(), None));
    assert_eq!(lines[1], (0, None, "fgh".to_string(), None));
    assert_eq!(lines[2], (1, Some(" 2 ".to_string()), "xy".to_string(), Some(2)));
    assert!(matches!(rows[4], ScreenRow::Tilde(1)));
}

#[test]
fn screen_layout_single_buffer() {
    let tree = PaneNode::Leaf(1);
    let l = screen_layout(AreaRect::new(0, 0, 80, 24), 1, &tree, 1).unwrap();
    assert_eq!(l.tab_bar, None);
    assert_eq!(l.command_line, AreaRect::new(0, 23, 80, 1));
    assert_eq!(l.panes.len(), 1);
    assert_eq!(l.panes[0], PaneRegion { id: 1, editor: AreaRect::new(0, 0, 80, 22), status: AreaRect::new(0, 22, 80, 1) });
    assert_eq!(l.active_editor, AreaRect::new(0, 0, 80, 22));
    assert!(l.separators.is_empty());
}

#[test]
fn screen_layout_tabs_and_split() {
    let mut tree = PaneNode::Leaf(1);
    tree.split(1, 2, SplitDirection::Vertical);
    let l = screen_layout(AreaRect::new(0, 0, 81, 24), 2, &tree, 2).unwrap();
    assert_eq!(l.tab_bar, Some(AreaRect::new(0, 0, 81, 1)));
    assert_eq!(l.command_line, AreaRect::new(0, 23, 81, 1));
    assert_eq!(l.panes.len(), 2);
    assert_eq!(l.panes[1].editor, AreaRect::new(41, 1, 40, 21));
    assert_eq!(l.panes[1].status, AreaRect::new(41, 22, 40, 1));
    assert_eq!(l.active_editor, AreaRect::new(41, 1, 40, 21));
    assert_eq!(l.separators, vec![(40, 1, 22)]);
}

#[test]
fn screen_regions_skip_panes_without_room() {
    let mut tree = PaneNode::Leaf(1);
    tree.split(1, 2, SplitDirection::Horizontal);
    let rows = vec![AreaRect::new(0, 0, 20, 0), AreaRect::new(0, 0, 20, 3), AreaRect::new(0, 3, 20, 1)];
    let l = screen_regions(&rows, false, &tree, 2);
    // Too low to split: only the first pane, and the active one is not shown.
    assert_eq!(l.panes.len(), 1);
    assert_eq!(l.panes[0].id, 1);
    assert_eq!(l.active_editor, AreaRect::new(0, 0, 20, 3));
}
