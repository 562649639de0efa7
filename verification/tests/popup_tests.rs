use righter::editor::pane::AreaRect;
use righter::editor::selection::Position;
use righter::input::mode::Mode;
use righter::lsp::{LspCompletionItem, LspDiagnostic};
use righter::ui::command_line::CommandLine;
use righter::ui::completion::CompletionPopup;
use righter::ui::diagnostics::{diagnostic_label, DiagLineLook, DiagnosticsPopup, DiagnosticsPopupView};
use righter::ui::file_finder::FileFinderPopup;
use righter::ui::hover::{lines_of, HoverPopup};
use righter::ui::popup::{border_char, scroll_offset};
use righter::ui::tab_bar::{TabBar, TabInfo, TabLook};
use righter::ui::workspace_symbols::{KindColor, WorkspaceSymbol, WorkspaceSymbolsPopup};

fn diag(line: u32, col: u32, severity: u8, message: &str) -> LspDiagnostic {
    LspDiagnostic {
        start_line: line,
        start_col: col,
        end_line: line,
        end_col: col + 1,
        severity,
        message: message.to_string(),
    }
}

fn area(width: u16, height: u16) -> AreaRect {
    AreaRect { x: 0, y: 0, width, height }
}

#[test]
fn border_corners_and_edges() {
    assert_eq!(border_char(0, 0, 10, 5), Some('┌'));
    assert_eq!(border_char(9, 0, 10, 5), Some('┐'));
    assert_eq!(border_char(0, 4, 10, 5), Some('└'));
    assert_eq!(border_char(9, 4, 10, 5), Some('┘'));
    assert_eq!(border_char(3, 0, 10, 5), Some('─'));
    assert_eq!(border_char(3, 4, 10, 5), Some('─'));
    assert_eq!(border_char(0, 2, 10, 5), Some('│'));
    assert_eq!(border_char(9, 2, 10, 5), Some('│'));
    assert_eq!(border_char(3, 2, 10, 5), None);
}

#[test]
fn scroll_keeps_selected_in_view() {
    assert_eq!(scroll_offset(0, 5), 0);
    assert_eq!(scroll_offset(4, 5), 0);
    assert_eq!(scroll_offset(5, 5), 1);
    assert_eq!(scroll_offset(12, 5), 8);
    for selected in 0..40usize {
        let s = scroll_offset(selected, 7);
        assert!(s <= selected && selected < s + 7);
    }
}

#[test]
fn label_formats_severity_position_and_message() {
    assert_eq!(diagnostic_label(&diag(0, 4, 1, "bad")).unwrap(), "E    1:5   bad");
    assert_eq!(diagnostic_label(&diag(1233, 101, 2, "w")).unwrap(), "W 1234:102 w");
    assert_eq!(diagnostic_label(&diag(99999, 9999, 3, "i")).unwrap(), "I 100000:10000 i");
    assert_eq!(diagnostic_label(&diag(9, 0, 4, "hint")).unwrap(), "?   10:1   hint");
}

#[test]
fn long_message_is_cut_at_57_bytes() {
    let long = "x".repeat(61);
    let label = diagnostic_label(&diag(0, 0, 1, &long)).unwrap();
    assert_eq!(label, format!("E    1:1   {}...", "x".repeat(57)));
    let sixty = "y".repeat(60);
    let label = diagnostic_label(&diag(0, 0, 1, &sixty)).unwrap();
    assert_eq!(label, format!("E    1:1   {}", sixty));
}

#[test]
fn message_cut_inside_a_char_gives_no_label() {
    // 56 ASCII bytes, then a two-byte char across byte 57.
    let msg = format!("{}é{}", "a".repeat(56), "b".repeat(10));
    assert_eq!(diagnostic_label(&diag(0, 0, 1, &msg)), None);
    // The cut between chars keeps the multi-byte char whole.
    let msg = format!("{}é{}", "a".repeat(55), "b".repeat(10));
    let label = diagnostic_label(&diag(0, 0, 1, &msg)).unwrap();
    assert_eq!(label, format!("E    1:1   {}é...", "a".repeat(55)));
    // No one-based number for the largest position.
    assert_eq!(diagnostic_label(&diag(u32::MAX, 0, 1, "m")), None);
}

#[test]
fn hidden_popup_shows_nothing() {
    let diags = vec![diag(0, 0, 1, "e")];
    assert!(matches!(DiagnosticsPopup::new(false, &diags, 0).layout(area(80, 24)), DiagnosticsPopupView::Hidden));
    let none: Vec<LspDiagnostic> = Vec::new();
    assert!(matches!(DiagnosticsPopup::new(true, &none, 0).layout(area(80, 24)), DiagnosticsPopupView::Hidden));
}

#[test]
fn popup_frame_is_centred_and_sized() {
    let diags = vec![diag(0, 0, 1, "first"), diag(3, 2, 2, "second")];
    let view = DiagnosticsPopup::new(true, &diags, 1).layout(area(80, 24));
    let layout = match view {
        DiagnosticsPopupView::Shown(l) => l,
        _ => panic!("popup not shown"),
    };
    // Two lines and the frame; the labels are short, so the width is 30.
    assert_eq!(layout.rect, AreaRect { x: 25, y: 10, width: 30, height: 4 });
    assert_eq!(layout.title, " Diagnostics (2) ");
    assert_eq!(layout.lines.len(), 2);
    assert_eq!(layout.lines[0], (0, "E    1:1   first".to_string(), false, DiagLineLook::Error));
    assert_eq!(layout.lines[1], (1, "W    4:3   second".to_string(), true, DiagLineLook::Warning));
}

#[test]
fn popup_scrolls_to_selected_and_caps_height() {
    let diags: Vec<LspDiagnostic> = (0..30).map(|i| diag(i, 0, 3, "info")).collect();
    let view = DiagnosticsPopup::new(true, &diags, 25).layout(area(100, 40));
    let layout = match view {
        DiagnosticsPopupView::Shown(l) => l,
        _ => panic!("popup not shown"),
    };
    // At most 20 lines and the frame.
    assert_eq!(layout.rect.height, 22);
    assert_eq!(layout.lines.len(), 20);
    assert_eq!(layout.lines[0].0, 6);
    assert_eq!(layout.lines[19].0, 25);
    assert!(layout.lines[19].2);
    assert_eq!(layout.lines[19].3, DiagLineLook::Other);
    assert_eq!(layout.title, " Diagnostics (30) ");
}

#[test]
fn popup_width_follows_longest_label_and_area() {
    let msg = "m".repeat(50);
    let diags = vec![diag(0, 0, 1, &msg)];
    let view = DiagnosticsPopup::new(true, &diags, 0).layout(area(200, 10));
    match view {
        DiagnosticsPopupView::Shown(l) => {
            // "E    1:1   " is 11 bytes, then the message, then 4 columns.
            assert_eq!(l.rect.width, 65);
            assert_eq!(l.rect.height, 3);
        }
        _ => panic!("popup not shown"),
    }
    let view = DiagnosticsPopup::new(true, &diags, 0).layout(area(40, 10));
    match view {
        DiagnosticsPopupView::Shown(l) => assert_eq!(l.rect.width, 36),
        _ => panic!("popup not shown"),
    }
}

#[test]
fn popup_reports_first_bad_label() {
    let msg = format!("{}é{}", "a".repeat(56), "b".repeat(10));
    let diags = vec![diag(0, 0, 1, "ok"), diag(1, 0, 1, &msg)];
    assert!(matches!(DiagnosticsPopup::new(true, &diags, 0).layout(area(80, 24)), DiagnosticsPopupView::BadLabel(1)));
}

fn names(n: usize) -> Vec<String> {
    (0..n).map(|i| format!("src/file{}.rs", i)).collect()
}

#[test]
fn file_finder_hidden() {
    let files = names(3);
    assert!(FileFinderPopup::new(false, "", &files, 3, 0).layout(area(100, 30)).is_none());
}

#[test]
fn file_finder_frame_query_and_count() {
    let files = names(3);
    let l = FileFinderPopup::new(true, "ab", &files, 10, 1).layout(area(100, 30)).unwrap();
    assert_eq!(l.rect, AreaRect { x: 20, y: 8, width: 60, height: 6 });
    assert!(l.input_row);
    assert_eq!(l.cursor_x, Some(25));
    assert_eq!(l.count, " 3/10");
    assert_eq!(l.count_x, 74);
    assert_eq!(l.lines.len(), 3);
    assert_eq!(l.lines[1], (1, "src/file1.rs".to_string(), true));
    assert!(!l.lines[0].2 && !l.lines[2].2);
}

#[test]
fn file_finder_scrolls_and_caps_at_fifteen() {
    let files = names(40);
    let l = FileFinderPopup::new(true, "", &files, 40, 20).layout(area(100, 30)).unwrap();
    assert_eq!(l.rect.height, 18);
    assert_eq!(l.lines.len(), 15);
    assert_eq!(l.lines[0].0, 6);
    assert_eq!(l.lines[14], (20, "src/file20.rs".to_string(), true));
}

#[test]
fn file_finder_narrow_area_and_long_query() {
    let files = names(1);
    let l = FileFinderPopup::new(true, "", &files, 1, 0).layout(area(20, 10)).unwrap();
    assert_eq!(l.rect.width, 16);
    assert_eq!(l.rect.x, 2);
    // A query that runs past the frame leaves no cursor.
    let long = "q".repeat(80);
    let l = FileFinderPopup::new(true, &long, &files, 1, 0).layout(area(100, 30)).unwrap();
    assert_eq!(l.cursor_x, None);
    // The count is measured in bytes and the cursor after them.
    let l = FileFinderPopup::new(true, "é", &files, 1, 0).layout(area(100, 30)).unwrap();
    assert_eq!(l.cursor_x, Some(20 + 3 + 2));
}

#[test]
fn file_finder_without_matches_shows_no_rows() {
    let none: Vec<String> = Vec::new();
    let l = FileFinderPopup::new(true, "zzz", &none, 7, 0).layout(area(100, 30)).unwrap();
    assert_eq!(l.rect.height, 3);
    assert_eq!(l.count, " 0/7");
    assert!(l.lines.is_empty());
}

fn item(label: &str) -> LspCompletionItem {
    LspCompletionItem { label: label.to_string(), detail: None, insert_text: None, kind: 1 }
}

fn completion<'a>(items: &'a [LspCompletionItem], selected: usize, row: usize, col: usize) -> CompletionPopup<'a> {
    CompletionPopup {
        showing: true,
        items,
        selected,
        line_count: 100,
        cursor: Position { row, col },
        offset_row: 0,
        offset_col: 0,
    }
}

#[test]
fn completion_below_cursor() {
    let items = vec![item("foo"), item("barbaz"), item("x")];
    let p = completion(&items, 1, 3, 10);
    assert_eq!(p.gutter_width(), 5);
    let l = p.layout(area(80, 24)).unwrap();
    assert_eq!(l.rect, AreaRect { x: 15, y: 4, width: 15, height: 3 });
    assert_eq!(l.lines.len(), 3);
    assert_eq!(l.lines[1], (1, "barbaz".to_string(), true));
}

#[test]
fn completion_above_cursor_near_bottom_and_at_right_edge() {
    let items = vec![item("foo"), item("bar"), item("baz")];
    let l = completion(&items, 0, 22, 10).layout(area(80, 24)).unwrap();
    assert_eq!(l.rect.y, 19);
    let l = completion(&items, 0, 3, 70).layout(area(80, 24)).unwrap();
    assert_eq!(l.rect.width, 5);
    assert_eq!(l.rect.x, 75);
}

#[test]
fn completion_scrolls_and_widens() {
    let mut items: Vec<LspCompletionItem> = (0..12).map(|i| item(&format!("item{}", i))).collect();
    items[5] = item("a_rather_long_completion_label");
    let l = completion(&items, 11, 0, 0).layout(area(80, 24)).unwrap();
    assert_eq!(l.rect.height, 10);
    assert_eq!(l.rect.width, 32);
    assert_eq!(l.lines.len(), 10);
    assert_eq!(l.lines[0].0, 2);
    assert_eq!(l.lines[9], (11, "item11".to_string(), true));
    let none: Vec<LspCompletionItem> = Vec::new();
    assert!(completion(&none, 0, 0, 0).layout(area(80, 24)).is_none());
}

#[test]
fn text_lines_split_like_str_lines() {
    for text in ["", "a", "a\n", "a\nb", "a\r\nb\r\n", "\n", "\n\n", "x\r", "one\ntwo\r\n\nthree"] {
        let expected: Vec<String> = text.lines().map(|l| l.to_string()).collect();
        assert_eq!(lines_of(text), expected, "lines of {:?}", text);
    }
}

fn hover<'a>(text: Option<&'a str>, row: usize, col: usize) -> HoverPopup<'a> {
    HoverPopup { showing: true, hover_text: text, line_count: 9, cursor: Position { row, col }, offset_row: 0, offset_col: 0 }
}

#[test]
fn hover_above_cursor() {
    let l = hover(Some("fn foo(x: i32)\nDoes things."), 10, 4).layout(area(80, 24)).unwrap();
    // Gutter of 3, so the cursor is at column 7; two lines and the frame.
    assert_eq!(l.rect, AreaRect { x: 7, y: 6, width: 18, height: 4 });
    assert_eq!(l.lines, vec!["fn foo(x: i32)".to_string(), "Does things.".to_string()]);
}

#[test]
fn hover_below_cursor_and_cut() {
    let long = "w".repeat(100);
    let l = hover(Some(&long), 0, 0).layout(area(40, 10)).unwrap();
    assert_eq!(l.rect.width, 36);
    assert_eq!(l.rect.y, 1);
    assert_eq!(l.lines, vec!["w".repeat(32)]);
    assert!(hover(Some(""), 0, 0).layout(area(40, 10)).is_none());
    assert!(hover(None, 0, 0).layout(area(40, 10)).is_none());
    let mut hidden = hover(Some("x"), 0, 0);
    hidden.showing = false;
    assert!(hidden.layout(area(40, 10)).is_none());
}

#[test]
fn command_line_texts() {
    let line = CommandLine { mode: Mode::Command, command_buffer: "wq", search_query: "", status_message: Some("old") };
    let c = line.content(area(20, 1));
    assert_eq!(c.text, ":wq");
    assert!(c.typing);
    assert_eq!(c.cursor_x, Some(3));
    let line = CommandLine { mode: Mode::Search, command_buffer: "", search_query: "foo", status_message: None };
    assert_eq!(line.content(area(20, 1)).text, "/foo");
    let line = CommandLine { mode: Mode::Normal, command_buffer: "", search_query: "", status_message: Some("saved") };
    let c = line.content(area(20, 1));
    assert_eq!(c.text, "saved");
    assert!(!c.typing);
    assert_eq!(c.cursor_x, None);
    let line = CommandLine { mode: Mode::Insert, command_buffer: "", search_query: "", status_message: None };
    assert_eq!(line.content(area(20, 1)).text, "");
    // The cursor past the right edge is not drawn.
    let line = CommandLine { mode: Mode::Command, command_buffer: "abcdefgh", search_query: "", status_message: None };
    assert_eq!(line.content(area(5, 1)).cursor_x, None);
}

#[test]
fn tab_bar_cells() {
    let tabs = vec![
        TabInfo { name: "a.rs".to_string(), modified: true, current: true },
        TabInfo { name: "b.rs".to_string(), modified: false, current: false },
    ];
    let bar = TabBar { tabs: &tabs };
    let cells = bar.cells(80);
    let text: String = cells.iter().map(|c| c.0).collect();
    assert_eq!(text, " a.rs + │ b.rs │");
    assert_eq!(cells[1], ('a', TabLook::Current));
    assert_eq!(cells[8], ('│', TabLook::Separator));
    assert_eq!(cells[10], ('b', TabLook::Other));
    let cut = bar.cells(5);
    assert_eq!(cut.len(), 5);
    assert_eq!(cut.iter().map(|c| c.0).collect::<String>(), " a.rs");
    assert!(bar.cells(0).is_empty());
}

fn symbol(name: &str, kind: u32, label: &str, uri: &str, line: u32) -> WorkspaceSymbol {
    WorkspaceSymbol { name: name.to_string(), kind, kind_label: label.to_string(), uri: uri.to_string(), start_line: line }
}

#[test]
fn workspace_symbols_layout() {
    let results = vec![
        symbol("main", 12, "fn", "file:///p/src/main.rs", 0),
        symbol("Config", 23, "struct", "file:///p/src/config.rs", 41),
    ];
    let popup = WorkspaceSymbolsPopup { showing: true, query: "fo", results: &results, selected: 1 };
    let l = popup.layout(area(100, 30)).unwrap();
    assert_eq!(l.rect, AreaRect { x: 20, y: 8, width: 60, height: 5 });
    assert!(l.input_row);
    assert_eq!(l.cursor_x, Some(25));
    assert_eq!(l.count, " 2");
    assert_eq!(l.count_x, 77);
    assert_eq!(l.rows.len(), 2);
    assert_eq!(l.rows[0].text, "[fn] main  main.rs:1");
    assert_eq!(l.rows[0].color, KindColor::Function);
    assert_eq!(l.rows[0].tag_len, 4);
    assert!(!l.rows[0].selected);
    assert_eq!(l.rows[1].text, "[struct] Config  config.rs:42");
    assert_eq!(l.rows[1].color, KindColor::Type);
    assert!(l.rows[1].selected);
    // At least 40 columns wide.
    let l = popup.layout(area(50, 20)).unwrap();
    assert_eq!(l.rect.width, 40);
    let hidden = WorkspaceSymbolsPopup { showing: false, query: "", results: &results, selected: 0 };
    assert!(hidden.layout(area(100, 30)).is_none());
}
