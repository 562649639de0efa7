//! The word, paragraph and char motions, the line edits (join, indent,
//! dedent, replace, open a line above), and visual mode with yank, delete and
//! paste through the register.
use vstd::prelude::*;

use crate::buffer::display_len;
use crate::buffer::rope::{lemma_line_count_bound, lemma_line_starts, lemma_line_text_len, line_count, line_start, line_text};
use crate::editor::document::{char_index, spec_line_len};
use crate::editor::motion::{
    char_class, run_end, run_start,
    find_before, find_before_exec, find_from, find_from_exec, first_non_blank, line_chars,
    line_chars_of, next_empty_row, next_empty_row_exec, prev_empty_row, prev_empty_row_exec,
    run_end_exec, word_backward, word_backward_exec, word_end_from, word_end_from_exec,
    word_forward, word_forward_exec,
};
use crate::editor::selection::Position;
use crate::editor::state::{cursor_fits, doc_insert, edited, lemma_cursor_index, spaces, EditorModel, EditorState};
use crate::input::command::{Command, Motion};
use crate::input::dispatch::{at, in_mode, sat_add, sat_sub, saved};
use crate::input::mode::Mode;

verus! {

// ── Motions ────────────────────────────────────────────────────────

/// The motions over words, paragraphs and chars of the line.
pub open spec fn is_text_motion(cmd: Command) -> bool {
    match cmd {
        Command::MoveFirstNonBlank | Command::MoveWordForward | Command::MoveWordBackward
        | Command::MoveWordEnd | Command::MoveWORDForward | Command::MoveWORDBackward
        | Command::MoveWORDEnd | Command::MoveParagraphForward | Command::MoveParagraphBackward
        | Command::FindCharForward(_) | Command::FindCharBackward(_) | Command::TillCharForward(_)
        | Command::TillCharBackward(_) => true,
        _ => false,
    }
}

/// `w`/`W`: the next word on the line, else the first non-blank of the next
/// line, else the end of the last line.
pub open spec fn forward_target(t: Seq<char>, c: Position, big: bool) -> Position {
    let s = line_chars(t, c.row as int);
    match word_forward(s, c.col as nat, big) {
        Some(j) => Position { row: c.row, col: j as usize },
        None => if c.row + 1 < line_count(t) {
            Position {
                row: (c.row + 1) as usize,
                col: first_non_blank(line_chars(t, c.row + 1)) as usize,
            }
        } else {
            Position { row: c.row, col: s.len() as usize }
        },
    }
}

/// `b`/`B`: the start of the word before the cursor on the line, else of the
/// last word of the line above (its start when it has none).
pub open spec fn backward_target(t: Seq<char>, c: Position, big: bool) -> Position {
    let s = line_chars(t, c.row as int);
    match word_backward(s, c.col as nat, big) {
        Some(j) => Position { row: c.row, col: j as usize },
        None => if c.row > 0 {
            let p = line_chars(t, c.row - 1);
            Position {
                row: (c.row - 1) as usize,
                col: match word_backward(p, p.len(), big) {
                    Some(j) => j as usize,
                    None => 0,
                },
            }
        } else {
            Position { row: c.row, col: 0 }
        },
    }
}

/// `e`/`E`: the end of the word after the cursor on the line, else of the
/// first word of the next line, else where the cursor is.
pub open spec fn end_target(t: Seq<char>, c: Position, big: bool) -> Position {
    let s = line_chars(t, c.row as int);
    match word_end_from(s, (c.col + 1) as nat, big) {
        Some(j) => Position { row: c.row, col: j as usize },
        None => if c.row + 1 < line_count(t) {
            Position {
                row: (c.row + 1) as usize,
                col: match word_end_from(line_chars(t, c.row + 1), 0, big) {
                    Some(j) => j as usize,
                    None => 0,
                },
            }
        } else {
            c
        },
    }
}

/// Where a text motion takes the cursor.
#[verifier::opaque]
pub open spec fn text_motion_target(m: EditorModel, cmd: Command) -> Position {
    let t = m.doc.text;
    let c = m.cursor;
    let s = line_chars(t, c.row as int);
    match cmd {
        Command::MoveFirstNonBlank => Position { row: c.row, col: first_non_blank(s) as usize },
        Command::MoveWordForward => forward_target(t, c, false),
        Command::MoveWORDForward => forward_target(t, c, true),
        Command::MoveWordBackward => backward_target(t, c, false),
        Command::MoveWORDBackward => backward_target(t, c, true),
        Command::MoveWordEnd => end_target(t, c, false),
        Command::MoveWORDEnd => end_target(t, c, true),
        Command::MoveParagraphForward => Position {
            row: next_empty_row(t, (c.row + 1) as nat) as usize,
            col: 0,
        },
        Command::MoveParagraphBackward => Position {
            row: if c.row == 0 {
                0
            } else {
                prev_empty_row(t, (c.row - 1) as nat) as usize
            },
            col: 0,
        },
        Command::FindCharForward(ch) => match find_from(s, (c.col + 1) as nat, ch) {
            Some(j) => Position { row: c.row, col: j as usize },
            None => c,
        },
        Command::TillCharForward(ch) => match find_from(s, (c.col + 1) as nat, ch) {
            Some(j) => Position { row: c.row, col: (j - 1) as usize },
            None => c,
        },
        Command::FindCharBackward(ch) => match find_before(s, c.col as nat, ch) {
            Some(j) => Position { row: c.row, col: j as usize },
            None => c,
        },
        Command::TillCharBackward(ch) => match find_before(s, c.col as nat, ch) {
            Some(j) => Position { row: c.row, col: (j + 1) as usize },
            None => c,
        },
        _ => c,
    }
}

proof fn lemma_find_from_bounds(s: Seq<char>, i: nat, ch: char)
    ensures
        find_from(s, i, ch) matches Some(j) ==> i <= j < s.len(),
    decreases s.len() - i,
{
    if i < s.len() && s[i as int] != ch {
        lemma_find_from_bounds(s, i + 1, ch);
    }
}

proof fn lemma_find_before_bounds(s: Seq<char>, i: nat, ch: char)
    ensures
        find_before(s, i, ch) matches Some(j) ==> j < i,
    decreases i,
{
    if i > 0 && i <= s.len() && s[i - 1] != ch {
        lemma_find_before_bounds(s, (i - 1) as nat, ch);
    }
}

fn forward_exec(st: &EditorState, s: &Vec<char>, big: bool) -> (p: Position)
    requires
        cursor_fits(st.doc.text(), st.cursor),
        s@ == line_chars(st.doc.text(), st.cursor.row as int),
    ensures
        p == forward_target(st.doc.text(), st.cursor, big),
{
    let c = st.cursor;
    match word_forward_exec(s, c.col, big) {
        Some(j) => Position { row: c.row, col: j },
        None => {
            let lc = st.doc.line_count();
            if c.row + 1 < lc {
                let nx = line_chars_of(&st.doc, c.row + 1);
                Position { row: c.row + 1, col: run_end_exec(&nx, 0, 0, false) }
            } else {
                Position { row: c.row, col: s.len() }
            }
        },
    }
}

fn backward_exec(st: &EditorState, s: &Vec<char>, big: bool) -> (p: Position)
    requires
        cursor_fits(st.doc.text(), st.cursor),
        s@ == line_chars(st.doc.text(), st.cursor.row as int),
    ensures
        p == backward_target(st.doc.text(), st.cursor, big),
{
    let c = st.cursor;
    match word_backward_exec(s, c.col, big) {
        Some(j) => Position { row: c.row, col: j },
        None => {
            if c.row > 0 {
                let p = line_chars_of(&st.doc, c.row - 1);
                let col = match word_backward_exec(&p, p.len(), big) {
                    Some(j) => j,
                    None => 0,
                };
                Position { row: c.row - 1, col }
            } else {
                Position { row: c.row, col: 0 }
            }
        },
    }
}

fn end_exec(st: &EditorState, s: &Vec<char>, big: bool) -> (p: Position)
    requires
        cursor_fits(st.doc.text(), st.cursor),
        s@ == line_chars(st.doc.text(), st.cursor.row as int),
    ensures
        p == end_target(st.doc.text(), st.cursor, big),
{
    let c = st.cursor;
    let here = if c.col < s.len() {
        word_end_from_exec(s, c.col + 1, big)
    } else {
        None
    };
    match here {
        Some(j) => Position { row: c.row, col: j },
        None => {
            let lc = st.doc.line_count();
            if c.row + 1 < lc {
                let nx = line_chars_of(&st.doc, c.row + 1);
                let col = match word_end_from_exec(&nx, 0, big) {
                    Some(j) => j,
                    None => 0,
                };
                Position { row: c.row + 1, col }
            } else {
                c
            }
        },
    }
}

/// Where a text motion takes the cursor (see `text_motion_target`).
pub fn text_motion_target_exec(state: &EditorState, cmd: Command) -> (p: Position)
    requires
        cursor_fits(state.doc.text(), state.cursor),
    ensures
        p == text_motion_target(state.model(), cmd),
{
    proof {
        reveal(text_motion_target);
    }
    let c = state.cursor;
    proof {
        lemma_line_text_len(state.doc.text(), c.row as int);
    }
    let s = line_chars_of(&state.doc, c.row);
    let lc = state.doc.line_count();
    assert(c.row < lc);
    let target = match cmd {
        Command::MoveFirstNonBlank => Position { row: c.row, col: run_end_exec(&s, 0, 0, false) },
        Command::MoveWordForward => forward_exec(state, &s, false),
        Command::MoveWORDForward => forward_exec(state, &s, true),
        Command::MoveWordBackward => backward_exec(state, &s, false),
        Command::MoveWORDBackward => backward_exec(state, &s, true),
        Command::MoveWordEnd => end_exec(state, &s, false),
        Command::MoveWORDEnd => end_exec(state, &s, true),
        Command::MoveParagraphForward => Position { row: next_empty_row_exec(&state.doc, c.row + 1), col: 0 },
        Command::MoveParagraphBackward => Position {
            row: if c.row == 0 {
                0
            } else {
                prev_empty_row_exec(&state.doc, c.row - 1)
            },
            col: 0,
        },
        Command::FindCharForward(ch) | Command::TillCharForward(ch) => {
            let found = if c.col < s.len() {
                find_from_exec(&s, c.col + 1, ch)
            } else {
                None
            };
            proof {
                lemma_find_from_bounds(s@, (c.col + 1) as nat, ch);
            }
            match found {
                Some(j) => if cmd == Command::FindCharForward(ch) {
                    Position { row: c.row, col: j }
                } else {
                    Position { row: c.row, col: j - 1 }
                },
                None => c,
            }
        },
        Command::FindCharBackward(ch) | Command::TillCharBackward(ch) => {
            proof {
                lemma_find_before_bounds(s@, c.col as nat, ch);
            }
            match find_before_exec(&s, c.col, ch) {
                Some(j) => if cmd == Command::FindCharBackward(ch) {
                    Position { row: c.row, col: j }
                } else {
                    Position { row: c.row, col: j + 1 }
                },
                None => c,
            }
        },
        _ => c,
    };
    target
}

/// Moves the cursor by a text motion (see `text_motion_target`).
pub fn apply_text_motion(state: &mut EditorState, cmd: Command)
    requires
        is_text_motion(cmd),
        cursor_fits(old(state).doc.text(), old(state).cursor),
    ensures
        final(state).model() == at(old(state).model(), text_motion_target(old(state).model(), cmd)),
        final(state).history == old(state).history,
{
    let target = text_motion_target_exec(state, cmd);
    state.cursor = target;
}


// ── Line edits ─────────────────────────────────────────────────────

/// The edits of a line at the cursor (each saves an undo snapshot first).
pub open spec fn is_line_edit(cmd: Command) -> bool {
    match cmd {
        Command::JoinLines | Command::IndentLine | Command::DedentLine | Command::ReplaceChar(_)
        | Command::InsertNewlineAbove => true,
        _ => false,
    }
}

/// Joining line `row` with the next one: the chars from the end of line
/// `row` to the first non-blank of the next line give way to one space (none
/// when either side is empty). `None` on the last line.
pub open spec fn join_edit(t: Seq<char>, row: int) -> Option<(int, int, Seq<char>)> {
    if row + 1 >= line_count(t) {
        None
    } else {
        let cur = line_chars(t, row);
        let nx = line_chars(t, row + 1);
        let ws = first_non_blank(nx);
        let ins = if ws >= nx.len() || cur.len() == 0 {
            Seq::<char>::empty()
        } else {
            seq![' ']
        };
        Some((line_start(t, row) + cur.len(), line_start(t, row + 1) + ws, ins))
    }
}

/// The leading blanks that a dedent removes: at most `tab_width`.
pub open spec fn dedent_count(t: Seq<char>, row: int, tab_width: usize) -> nat {
    let fnb = first_non_blank(line_chars(t, row));
    if tab_width < fnb {
        tab_width as nat
    } else {
        fnb
    }
}

/// What a line edit does.
#[verifier::opaque]
pub open spec fn line_edit_effect(m: EditorModel, cmd: Command) -> EditorModel {
    let t = m.doc.text;
    let c = m.cursor;
    let s = saved(m);
    let ls = line_start(t, c.row as int);
    match cmd {
        Command::JoinLines => match join_edit(t, c.row as int) {
            Some((a, b, ins)) => EditorModel {
                doc: edited(m.doc, t.take(a) + ins + t.skip(b)),
                cursor: Position { row: c.row, col: line_chars(t, c.row as int).len() as usize },
                ..s
            },
            None => m,
        },
        Command::IndentLine => if m.tab_width == 0 {
            m
        } else {
            EditorModel {
                doc: edited(m.doc, t.take(ls) + spaces(m.tab_width as nat) + t.skip(ls)),
                cursor: Position { col: (c.col + m.tab_width) as usize, ..c },
                ..s
            }
        },
        Command::DedentLine => {
            let k = dedent_count(t, c.row as int, m.tab_width);
            if k == 0 {
                m
            } else {
                EditorModel {
                    doc: edited(m.doc, t.take(ls) + t.skip(ls + k)),
                    cursor: Position { col: sat_sub(c.col, k as usize), ..c },
                    ..s
                }
            }
        },
        Command::ReplaceChar(ch) => if c.col < spec_line_len(t, c.row as int) {
            EditorModel { doc: edited(m.doc, t.update(ls + c.col, ch)), ..s }
        } else {
            m
        },
        Command::InsertNewlineAbove => in_mode(
            EditorModel {
                doc: doc_insert(m.doc, Position { row: c.row, col: 0 }, '\n'),
                cursor: Position { row: c.row, col: 0 },
                ..s
            },
            Mode::Insert,
        ),
        _ => m,
    }
}

/// Carries out a line edit (see `line_edit_effect`).
#[verifier::rlimit(40)]
pub fn apply_line_edit(state: &mut EditorState, cmd: Command)
    requires
        is_line_edit(cmd),
        old(state).wf(),
        old(state).doc.version + old(state).tab_width + 1 < i64::MAX,
        old(state).doc.text().len() + old(state).tab_width < usize::MAX,
    ensures
        final(state).model() == line_edit_effect(old(state).model(), cmd),
        final(state).history.wf(),
{
    proof {
        reveal(line_edit_effect);
    }
    let c = state.cursor;
    let ghost t = state.doc.text();
    proof {
        lemma_cursor_index(t, c);
        lemma_line_text_len(t, c.row as int);
        lemma_line_starts(t);
    }
    let lc = state.doc.line_count();
    let ls = state.doc.rope.line_to_char(c.row);
    match cmd {
        Command::JoinLines => {
            if c.row + 1 >= lc {
                return;
            }
            proof {
                lemma_line_text_len(t, c.row + 1);
            }
            let cur = line_chars_of(&state.doc, c.row);
            let nx = line_chars_of(&state.doc, c.row + 1);
            let ls2 = state.doc.rope.line_to_char(c.row + 1);
            let a = ls + cur.len();
            let ws = run_end_exec(&nx, 0, 0, false);
            let b = ls2 + ws;
            state.history.save(&state.doc.rope, c);
            if ws >= nx.len() || cur.len() == 0 {
                let e = "";
                proof {
                    reveal_strlit("");
                    assert(e@ =~= Seq::<char>::empty());
                }
                state.doc.replace_range(a, b, e);
            } else {
                let sp = " ";
                proof {
                    reveal_strlit(" ");
                    assert(sp@ =~= seq![' ']);
                }
                state.doc.replace_range(a, b, sp);
            }
            state.cursor = Position { row: c.row, col: cur.len() };
        },
        Command::IndentLine => {
            let n = state.tab_width;
            if n == 0 {
                return;
            }
            state.history.save(&state.doc.rope, c);
            state.doc.insert_repeated(ls, ' ', n);
            proof {
                assert(Seq::new(n as nat, |i: int| ' ') =~= spaces(n as nat));
            }
            state.cursor = Position { row: c.row, col: c.col + n };
        },
        Command::DedentLine => {
            let s = line_chars_of(&state.doc, c.row);
            let fnb = run_end_exec(&s, 0, 0, false);
            let k = if state.tab_width < fnb {
                state.tab_width
            } else {
                fnb
            };
            if k == 0 {
                return;
            }
            state.history.save(&state.doc.rope, c);
            let e = "";
            proof {
                reveal_strlit("");
                assert(t.take(ls as int) + e@ + t.skip(ls + k) =~= t.take(ls as int) + t.skip(ls + k));
            }
            state.doc.replace_range(ls, ls + k, e);
            state.cursor = Position { row: c.row, col: c.col.saturating_sub(k) };
        },
        Command::ReplaceChar(ch) => {
            let len = state.doc.line_len(c.row);
            if c.col >= len {
                return;
            }
            state.history.save(&state.doc.rope, c);
            state.doc.set_char(ls + c.col, ch);
        },
        _ => {
            state.history.save(&state.doc.rope, c);
            state.doc.insert_newline(Position { row: c.row, col: 0 });
            state.cursor = Position { row: c.row, col: 0 };
            state.keys.mode = Mode::Insert;
        },
    }
}

// ── Visual mode and the register ──────────────────────────────────

/// Visual mode, yanking, deleting a selection, and pasting.
pub open spec fn is_register_command(cmd: Command) -> bool {
    match cmd {
        Command::EnterVisualMode | Command::EnterVisualLineMode | Command::VisualSwapAnchor
        | Command::YankLine | Command::VisualYank | Command::VisualDelete | Command::PasteAfter
        | Command::PasteBefore => true,
        _ => false,
    }
}

/// `p` comes before or at `q` in the text.
pub open spec fn not_after(p: Position, q: Position) -> bool {
    p.row < q.row || (p.row == q.row && p.col <= q.col)
}

/// An index capped at the end of the text.
pub open spec fn cap(x: int, len: nat) -> nat {
    if x <= len {
        if x >= 0 {
            x as nat
        } else {
            0
        }
    } else {
        len
    }
}

/// The chars a selection from `a` to `c` covers, as the range `lo..hi`: from
/// the earlier position through the later one, or their whole lines when
/// `linewise`; capped at the end of the text.
pub open spec fn selection(t: Seq<char>, a: Position, c: Position, linewise: bool) -> (nat, nat) {
    let (p1, p2) = if not_after(a, c) {
        (a, c)
    } else {
        (c, a)
    };
    let lo = if linewise {
        cap(line_start(t, p1.row as int), t.len())
    } else {
        cap(char_index(t, p1), t.len())
    };
    let hi0 = if linewise {
        cap(line_start(t, p2.row + 1), t.len())
    } else {
        cap(char_index(t, p2) + 1, t.len())
    };
    (lo, if hi0 < lo {
        lo
    } else {
        hi0
    })
}

/// The earlier end of a selection.
pub open spec fn selection_start(a: Position, c: Position) -> Position {
    if not_after(a, c) {
        a
    } else {
        c
    }
}

/// Where a paste puts the register: after (or before) the cursor's char, or
/// under (above) the cursor's line when the register holds lines.
pub open spec fn paste_index(m: EditorModel, after: bool) -> int {
    let t = m.doc.text;
    let c = m.cursor;
    if m.register_linewise {
        if after {
            line_start(t, c.row + 1)
        } else {
            line_start(t, c.row as int)
        }
    } else if after && c.col < spec_line_len(t, c.row as int) {
        char_index(t, c) + 1
    } else {
        char_index(t, c)
    }
}

/// What a visual-mode or register command does.
#[verifier::opaque]
pub open spec fn register_effect(m: EditorModel, cmd: Command) -> EditorModel {
    let t = m.doc.text;
    let c = m.cursor;
    match cmd {
        Command::EnterVisualMode => in_mode(EditorModel { visual_anchor: Some(c), ..m }, Mode::Visual),
        Command::EnterVisualLineMode => in_mode(
            EditorModel { visual_anchor: Some(c), ..m },
            Mode::VisualLine,
        ),
        Command::VisualSwapAnchor => match m.visual_anchor {
            Some(a) => EditorModel { visual_anchor: Some(c), cursor: a, ..m },
            None => m,
        },
        Command::YankLine => EditorModel {
            register: line_text(t, c.row as int),
            register_linewise: true,
            ..m
        },
        Command::VisualYank | Command::VisualDelete => match m.visual_anchor {
            Some(a) => {
                let linewise = m.keys.mode == Mode::VisualLine;
                let (lo, hi) = selection(t, a, c, linewise);
                let start = selection_start(a, c);
                let m1 = in_mode(
                    EditorModel {
                        register: t.subrange(lo as int, hi as int),
                        register_linewise: linewise,
                        visual_anchor: None,
                        cursor: if linewise {
                            Position { row: start.row, col: 0 }
                        } else {
                            start
                        },
                        ..m
                    },
                    Mode::Normal,
                );
                if cmd == Command::VisualDelete {
                    EditorModel {
                        doc: edited(m.doc, t.take(lo as int) + t.skip(hi as int)),
                        undo: saved(m).undo,
                        redo: saved(m).redo,
                        ..m1
                    }
                } else {
                    m1
                }
            },
            None => in_mode(m, Mode::Normal),
        },
        Command::PasteAfter | Command::PasteBefore => if m.register.len() == 0 {
            m
        } else {
            let after = cmd == Command::PasteAfter;
            let idx = paste_index(m, after);
            EditorModel {
                doc: edited(m.doc, t.take(idx) + m.register + t.skip(idx)),
                cursor: if m.register_linewise {
                    Position { row: if after { (c.row + 1) as usize } else { c.row }, col: 0 }
                } else if after {
                    Position { col: sat_add(c.col, m.register.len() as usize), ..c }
                } else {
                    Position { col: sat_add(c.col, (m.register.len() - 1) as usize), ..c }
                },
                ..saved(m)
            }
        },
        _ => m,
    }
}

/// The start of line `r`, or the end of the text past its last line.
fn line_start_capped(st: &EditorState, r: usize) -> (n: usize)
    ensures
        n == cap(line_start(st.doc.text(), r as int), st.doc.text().len()),
{
    proof {
        lemma_line_starts(st.doc.text());
    }
    let lc = st.doc.line_count();
    if r <= lc {
        st.doc.rope.line_to_char(r)
    } else {
        st.doc.rope.len_chars()
    }
}

/// The chars that the selection from `a` covers (see `selection`).
fn selection_exec(st: &EditorState, a: Position, linewise: bool) -> (r: (usize, usize))
    ensures
        (r.0 as nat, r.1 as nat) == selection(st.doc.text(), a, st.cursor, linewise),
        r.0 <= r.1 <= st.doc.text().len(),
{
    let c = st.cursor;
    let (p1, p2) = if a.row < c.row || (a.row == c.row && a.col <= c.col) {
        (a, c)
    } else {
        (c, a)
    };
    let len = st.doc.rope.len_chars();
    let ghost t = st.doc.text();
    proof {
        lemma_line_starts(t);
    }
    let lo = if linewise {
        line_start_capped(st, p1.row)
    } else {
        let b = line_start_capped(st, p1.row);
        if p1.col <= len - b {
            b + p1.col
        } else {
            len
        }
    };
    assert(lo == (if linewise {
        cap(line_start(t, p1.row as int), t.len())
    } else {
        cap(char_index(t, p1), t.len())
    }));
    let hi0 = if linewise {
        if p2.row < usize::MAX {
            line_start_capped(st, p2.row + 1)
        } else {
            let lc = st.doc.line_count();
            assert(line_start(t, p2.row + 1) == t.len());
            len
        }
    } else {
        let b = line_start_capped(st, p2.row);
        assert(b == line_start(t, p2.row as int));
        if p2.col < len - b {
            b + p2.col + 1
        } else {
            len
        }
    };
    assert(hi0 == (if linewise {
        cap(line_start(t, p2.row + 1), t.len())
    } else {
        cap(char_index(t, p2) + 1, t.len())
    }));
    (lo, if hi0 < lo {
        lo
    } else {
        hi0
    })
}

/// Carries out a visual-mode or register command (see `register_effect`).
#[verifier::rlimit(60)]
pub fn apply_register_command(state: &mut EditorState, cmd: Command)
    requires
        is_register_command(cmd),
        old(state).wf(),
        old(state).doc.version + 1 < i64::MAX,
    ensures
        final(state).model() == register_effect(old(state).model(), cmd),
        final(state).history.wf(),
{
    proof {
        reveal(register_effect);
    }
    let c = state.cursor;
    let ghost t = state.doc.text();
    proof {
        lemma_cursor_index(t, c);
        lemma_line_text_len(t, c.row as int);
        lemma_line_starts(t);
    }
    match cmd {
        Command::EnterVisualMode => {
            state.visual_anchor = Some(c);
            state.keys.mode = Mode::Visual;
        },
        Command::EnterVisualLineMode => {
            state.visual_anchor = Some(c);
            state.keys.mode = Mode::VisualLine;
        },
        Command::VisualSwapAnchor => {
            if let Some(a) = state.visual_anchor {
                state.visual_anchor = Some(c);
                state.cursor = a;
            }
        },
        Command::YankLine => {
            let lc = state.doc.line_count();
            let ls = state.doc.rope.line_to_char(c.row);
            let ls2 = state.doc.rope.line_to_char(c.row + 1);
            state.register = state.doc.chars_between(ls, ls2);
            state.register_linewise = true;
        },
        Command::VisualYank | Command::VisualDelete => apply_visual_take(state, cmd),
        _ => apply_paste(state, cmd),
    }
}

#[verifier::rlimit(60)]
fn apply_visual_take(state: &mut EditorState, cmd: Command)
    requires
        cmd == Command::VisualYank || cmd == Command::VisualDelete,
        old(state).wf(),
        old(state).doc.version + 1 < i64::MAX,
    ensures
        final(state).model() == register_effect(old(state).model(), cmd),
        final(state).history.wf(),
{
    proof {
        reveal(register_effect);
    }
    let c = state.cursor;
    let ghost t = state.doc.text();
    match state.visual_anchor {
        Some(a) => {
            let linewise = state.keys.mode == Mode::VisualLine;
            let (lo, hi) = selection_exec(state, a, linewise);
            let start = if a.row < c.row || (a.row == c.row && a.col <= c.col) {
                a
            } else {
                c
            };
            state.register = state.doc.chars_between(lo, hi);
            state.register_linewise = linewise;
            state.visual_anchor = None;
            state.cursor = if linewise {
                Position { row: start.row, col: 0 }
            } else {
                start
            };
            state.keys.mode = Mode::Normal;
            if cmd == Command::VisualDelete {
                state.history.save(&state.doc.rope, c);
                let e = "";
                proof {
                    reveal_strlit("");
                    assert(t.take(lo as int) + e@ + t.skip(hi as int) =~= t.take(lo as int) + t.skip(
                        hi as int,
                    ));
                }
                state.doc.replace_range(lo, hi, e);
            }
        },
        None => {
            state.keys.mode = Mode::Normal;
        },
    }
}

#[verifier::rlimit(60)]
fn apply_paste(state: &mut EditorState, cmd: Command)
    requires
        cmd == Command::PasteAfter || cmd == Command::PasteBefore,
        old(state).wf(),
        old(state).doc.version + 1 < i64::MAX,
    ensures
        final(state).model() == register_effect(old(state).model(), cmd),
        final(state).history.wf(),
{
    proof {
        reveal(register_effect);
    }
    let c = state.cursor;
    let ghost t = state.doc.text();
    proof {
        lemma_cursor_index(t, c);
        lemma_line_text_len(t, c.row as int);
        lemma_line_starts(t);
    }
    if state.register.len() == 0 {
        return;
    }
    let after = cmd == Command::PasteAfter;
    let lc = state.doc.line_count();
    let ls = state.doc.rope.line_to_char(c.row);
    let idx = if state.register_linewise {
        if after {
            state.doc.rope.line_to_char(c.row + 1)
        } else {
            ls
        }
    } else if after && c.col < state.doc.line_len(c.row) {
        ls + c.col + 1
    } else {
        ls + c.col
    };
    let n = state.register.len();
    state.history.save(&state.doc.rope, c);
    state.doc.insert_chars(idx, &state.register);
    state.cursor = if state.register_linewise {
        Position { row: if after { c.row + 1 } else { c.row }, col: 0 }
    } else if after {
        Position { row: c.row, col: c.col.saturating_add(n) }
    } else {
        Position { row: c.row, col: c.col.saturating_add(n - 1) }
    };
}


// ── Operators with a motion ────────────────────────────────────────

/// `d`, `c` and `y` with a motion.
pub open spec fn is_operator(cmd: Command) -> bool {
    match cmd {
        Command::DeleteMotion(_) | Command::ChangeMotion(_) | Command::YankMotion(_) => true,
        _ => false,
    }
}

/// The cursor motion that an operator's motion moves by; `None` for whole
/// lines and for the text objects, which this editor does not have.
pub open spec fn motion_command(mo: Motion) -> Option<Command> {
    match mo {
        Motion::WordForward => Some(Command::MoveWordForward),
        Motion::WordEnd => Some(Command::MoveWordEnd),
        Motion::WordBackward => Some(Command::MoveWordBackward),
        Motion::WORDForward => Some(Command::MoveWORDForward),
        Motion::WORDEnd => Some(Command::MoveWORDEnd),
        Motion::WORDBackward => Some(Command::MoveWORDBackward),
        Motion::FirstNonBlank => Some(Command::MoveFirstNonBlank),
        Motion::ParagraphForward => Some(Command::MoveParagraphForward),
        Motion::ParagraphBackward => Some(Command::MoveParagraphBackward),
        Motion::FindForward(c) => Some(Command::FindCharForward(c)),
        Motion::FindBackward(c) => Some(Command::FindCharBackward(c)),
        Motion::TillForward(c) => Some(Command::TillCharForward(c)),
        Motion::TillBackward(c) => Some(Command::TillCharBackward(c)),
        _ => None,
    }
}

/// The motions whose target char is part of what the operator acts on.
pub open spec fn is_inclusive(mo: Motion) -> bool {
    match mo {
        Motion::WordEnd | Motion::WORDEnd | Motion::FindForward(_) | Motion::TillForward(_) => true,
        _ => false,
    }
}

/// What an operator with motion `mo` acts on, as the char range `lo..hi`,
/// whether it is whole lines, and where the cursor goes: the current line
/// for `Line`; to the end of the line for `LineEnd`; from the line start for
/// `LineStart`; else between the cursor and where the motion goes (its
/// target included for the inclusive motions). `None` for text objects.
pub open spec fn operator_range(m: EditorModel, mo: Motion) -> Option<(nat, nat, bool, Position)> {
    let t = m.doc.text;
    let c = m.cursor;
    let len = t.len();
    let a = cap(char_index(t, c), len);
    match mo {
        Motion::Line => {
            let lo = cap(line_start(t, c.row as int), len);
            let hi = cap(line_start(t, c.row + 1), len);
            Some((lo, if hi < lo { lo } else { hi }, true, Position { row: c.row, col: 0 }))
        },
        Motion::LineEnd => {
            let e = cap(line_start(t, c.row as int) + spec_line_len(t, c.row as int), len);
            Some((a, if e < a { a } else { e }, false, c))
        },
        Motion::LineStart => {
            let s0 = cap(line_start(t, c.row as int), len);
            Some((if a < s0 { a } else { s0 }, a, false, Position { row: c.row, col: 0 }))
        },
        _ => match motion_command(mo) {
            Some(mc) => {
                let target = text_motion_target(m, mc);
                let b = cap(char_index(t, target), len);
                if b < a {
                    Some((b, a, false, target))
                } else {
                    let hi = if is_inclusive(mo) && b < len {
                        b + 1
                    } else {
                        b
                    };
                    Some((a, hi as nat, false, c))
                }
            },
            None => None,
        },
    }
}

/// What an operator does: the range goes to the register (and, for `d` and
/// `c`, out of the text, `c` then typing); the cursor goes to its start.
#[verifier::opaque]
pub open spec fn operator_effect(m: EditorModel, cmd: Command) -> EditorModel {
    let t = m.doc.text;
    let (mo, delete, change) = match cmd {
        Command::DeleteMotion(mo) => (mo, true, false),
        Command::ChangeMotion(mo) => (mo, true, true),
        Command::YankMotion(mo) => (mo, false, false),
        _ => (Motion::Line, false, false),
    };
    match operator_range(m, mo) {
        Some((lo, hi, linewise, start)) => {
            let m1 = EditorModel {
                register: t.subrange(lo as int, hi as int),
                register_linewise: linewise,
                cursor: start,
                ..m
            };
            if delete {
                let m2 = EditorModel {
                    doc: edited(m.doc, t.take(lo as int) + t.skip(hi as int)),
                    undo: saved(m).undo,
                    redo: saved(m).redo,
                    ..m1
                };
                if change {
                    in_mode(m2, Mode::Insert)
                } else {
                    m2
                }
            } else {
                m1
            }
        },
        None => EditorModel { status: Some("Not available in this editor"@), ..m },
    }
}

fn index_capped(st: &EditorState, p: Position) -> (n: usize)
    ensures
        n == cap(char_index(st.doc.text(), p), st.doc.text().len()),
{
    proof {
        lemma_line_starts(st.doc.text());
    }
    let len = st.doc.rope.len_chars();
    let b = line_start_capped(st, p.row);
    if p.col <= len - b {
        b + p.col
    } else {
        len
    }
}

fn motion_command_exec(mo: Motion) -> (r: Option<Command>)
    ensures
        r == motion_command(mo),
{
    match mo {
        Motion::WordForward => Some(Command::MoveWordForward),
        Motion::WordEnd => Some(Command::MoveWordEnd),
        Motion::WordBackward => Some(Command::MoveWordBackward),
        Motion::WORDForward => Some(Command::MoveWORDForward),
        Motion::WORDEnd => Some(Command::MoveWORDEnd),
        Motion::WORDBackward => Some(Command::MoveWORDBackward),
        Motion::FirstNonBlank => Some(Command::MoveFirstNonBlank),
        Motion::ParagraphForward => Some(Command::MoveParagraphForward),
        Motion::ParagraphBackward => Some(Command::MoveParagraphBackward),
        Motion::FindForward(c) => Some(Command::FindCharForward(c)),
        Motion::FindBackward(c) => Some(Command::FindCharBackward(c)),
        Motion::TillForward(c) => Some(Command::TillCharForward(c)),
        Motion::TillBackward(c) => Some(Command::TillCharBackward(c)),
        _ => None,
    }
}

fn is_inclusive_exec(mo: Motion) -> (r: bool)
    ensures
        r == is_inclusive(mo),
{
    match mo {
        Motion::WordEnd | Motion::WORDEnd | Motion::FindForward(_) | Motion::TillForward(_) => true,
        _ => false,
    }
}

#[verifier::rlimit(60)]
fn operator_range_exec(state: &EditorState, mo: Motion) -> (r: Option<(usize, usize, bool, Position)>)
    requires
        state.wf(),
    ensures
        match operator_range(state.model(), mo) {
            Some((lo, hi, lw, p)) => r == Some((lo as usize, hi as usize, lw, p)) && lo <= hi
                <= state.doc.text().len(),
            None => r is None,
        },
{
    proof {
        lemma_line_starts(state.doc.text());
    }
    let c = state.cursor;
    let len = state.doc.rope.len_chars();
    let a = index_capped(state, c);
    match mo {
        Motion::Line => {
            let lo = line_start_capped(state, c.row);
            let hi = if c.row < usize::MAX {
                line_start_capped(state, c.row + 1)
            } else {
                len
            };
            let lc = state.doc.line_count();
            proof {
                lemma_line_starts(state.doc.text());
                if c.row == usize::MAX {
                    assert(line_start(state.doc.text(), c.row + 1) == state.doc.text().len());
                }
            }
            Some((lo, if hi < lo { lo } else { hi }, true, Position { row: c.row, col: 0 }))
        },
        Motion::LineEnd => {
            let b = line_start_capped(state, c.row);
            let n = state.doc.line_len(c.row);
            let e = if n <= len - b {
                b + n
            } else {
                len
            };
            Some((a, if e < a { a } else { e }, false, c))
        },
        Motion::LineStart => {
            let s0 = line_start_capped(state, c.row);
            Some((if a < s0 { a } else { s0 }, a, false, Position { row: c.row, col: 0 }))
        },
        _ => match motion_command_exec(mo) {
            Some(mc) => {
                let target = text_motion_target_exec(state, mc);
                let b = index_capped(state, target);
                if b < a {
                    Some((b, a, false, target))
                } else {
                    let hi = if is_inclusive_exec(mo) && b < len {
                        b + 1
                    } else {
                        b
                    };
                    Some((a, hi, false, c))
                }
            },
            None => None,
        },
    }
}

/// Carries out an operator with a motion (see `operator_effect`).
#[verifier::rlimit(80)]
pub fn apply_operator(state: &mut EditorState, cmd: Command)
    requires
        is_operator(cmd),
        old(state).wf(),
        old(state).doc.version + 1 < i64::MAX,
    ensures
        final(state).model() == operator_effect(old(state).model(), cmd),
        final(state).history.wf(),
{
    proof {
        reveal(operator_effect);
    }
    let c = state.cursor;
    let ghost t = state.doc.text();
    let (mo, delete, change) = match cmd {
        Command::DeleteMotion(mo) => (mo, true, false),
        Command::ChangeMotion(mo) => (mo, true, true),
        Command::YankMotion(mo) => (mo, false, false),
        _ => (Motion::Line, false, false),
    };
    let ghost m0 = state.model();
    let len = state.doc.rope.len_chars();
    let rr = operator_range_exec(&*state, mo);
    proof {
        match operator_range(m0, mo) {
            Some(x) => {
                assert(rr == Some((x.0 as usize, x.1 as usize, x.2, x.3)));
                assert(x.0 <= x.1 <= t.len());
            },
            None => {},
        }
    }
    match rr {
        Some((lo, hi, linewise, start)) => {
            state.register = state.doc.chars_between(lo, hi);
            state.register_linewise = linewise;
            state.cursor = start;
            if delete {
                state.history.save(&state.doc.rope, c);
                let e = "";
                proof {
                    reveal_strlit("");
                    assert(t.take(lo as int) + e@ + t.skip(hi as int) =~= t.take(lo as int) + t.skip(
                        hi as int,
                    ));
                }
                state.doc.replace_range(lo, hi, e);
                if change {
                    state.keys.mode = Mode::Insert;
                }
            }
        },
        None => {
            state.status_message = Some("Not available in this editor".to_owned());
        },
    }
}


/// The start of a run of class-`k` chars ending before `i` lies at the start
/// of the line or just after a char of another class, no later than `i`.
proof fn lemma_run_start(s: Seq<char>, i: nat, k: u8, big: bool)
    requires
        i <= s.len(),
    ensures
        run_start(s, i, k, big) <= i,
        run_start(s, i, k, big) == 0 || char_class(s[run_start(s, i, k, big) - 1], big) != k,
        forall|m: int| run_start(s, i, k, big) <= m < i ==> char_class(#[trigger] s[m], big) == k,
    decreases i,
{
    if 0 < i && char_class(s[i - 1], big) == k {
        lemma_run_start(s, (i - 1) as nat, k, big);
    }
}

/// `B` from column `col` of a line lands at the start of a WORD: the line's
/// start or just after a blank, no later than `col`; `None` only when
/// nothing but blanks come before `col`.
proof fn lemma_word_backward_big(s: Seq<char>, col: nat)
    ensures
        word_backward(s, col, true) matches Some(j) ==> j <= col && j <= s.len() && (j == 0
            || char_class(s[j - 1], true) == 0),
{
    let c = if col <= s.len() {
        col
    } else {
        s.len()
    };
    lemma_run_start(s, c, 0, true);
    let j = run_start(s, c, 0, true);
    if j > 0 {
        let k = char_class(s[j - 1], true);
        lemma_run_start(s, j, k, true);
    }
}

/// `B` (back a WORD) never moves forward and lands at the start of a
/// whitespace-delimited WORD: at the start of a line or just after a blank,
/// never inside a run of non-blank chars such as `foo.bar`.
pub proof fn law_word_backward_lands_on_word_start(m: EditorModel)
    requires
        cursor_fits(m.doc.text, m.cursor),
        m.doc.text.len() <= usize::MAX,
    ensures
        ({
            let t = m.doc.text;
            let c = m.cursor;
            let p = text_motion_target(m, Command::MoveWORDBackward);
            let s = line_chars(t, p.row as int);
            &&& p.row < c.row || (p.row == c.row && p.col <= c.col)
            &&& p.col <= s.len()
            &&& p.col == 0 || char_class(s[p.col - 1], true) == 0
        }),
{
    reveal(text_motion_target);
    let t = m.doc.text;
    let c = m.cursor;
    let s = line_chars(t, c.row as int);
    lemma_line_text_len(t, c.row as int);
    assert(display_len(line_text(t, c.row as int)) <= line_text(t, c.row as int).len());
    lemma_word_backward_big(s, c.col as nat);
    if c.row > 0 {
        let p = line_chars(t, c.row - 1);
        lemma_line_text_len(t, c.row - 1);
        assert(display_len(line_text(t, c.row - 1)) <= line_text(t, c.row - 1).len());
        lemma_word_backward_big(p, p.len());
    }
}


/// A word (a WORD, when `big`) starts at index `k` of a line: a non-blank
/// char whose class differs from the char before it.
pub open spec fn word_start(s: Seq<char>, k: int, big: bool) -> bool {
    0 < k < s.len() && char_class(s[k], big) != 0 && char_class(s[k - 1], big) != char_class(s[k], big)
}

proof fn lemma_run_end(s: Seq<char>, i: nat, k: u8, big: bool)
    requires
        i <= s.len(),
    ensures
        i <= run_end(s, i, k, big) <= s.len(),
        forall|m: int| i <= m < run_end(s, i, k, big) ==> char_class(#[trigger] s[m], big) == k,
        run_end(s, i, k, big) == s.len() || char_class(s[run_end(s, i, k, big) as int], big) != k,
    decreases s.len() - i,
{
    if i < s.len() && char_class(s[i as int], big) == k {
        lemma_run_end(s, i + 1, k, big);
    }
}

proof fn lemma_word_forward(s: Seq<char>, col: nat, big: bool)
    requires
        col <= s.len(),
    ensures
        match word_forward(s, col, big) {
            Some(j) => col < j < s.len() && word_start(s, j as int, big) && forall|k: int|
                col < k < j ==> !#[trigger] word_start(s, k, big),
            None => forall|k: int| col < k < s.len() ==> !#[trigger] word_start(s, k, big),
        },
{
    if col < s.len() {
        let kc = char_class(s[col as int], big);
        lemma_run_end(s, col, kc, big);
        let j = if kc == 0 {
            col
        } else {
            run_end(s, col, kc, big)
        };
        lemma_run_end(s, j, 0, big);
        let j2 = run_end(s, j, 0, big);
        assert forall|k: int| col < k < j2 implies !#[trigger] word_start(s, k, big) by {
            if k < j {
                assert(char_class(s[k], big) == kc);
                assert(char_class(s[k - 1], big) == kc);
            } else {
                assert(char_class(s[k], big) == 0);
            }
        }
        if j2 < s.len() {
            if j2 > j {
                assert(char_class(s[j2 - 1], big) == 0);
            } else {
                assert(kc != 0);
                assert(char_class(s[j2 - 1], big) == kc);
            }
            assert(word_start(s, j2 as int, big));
        }
    }
}

/// The chars of `s` before index `j` are blanks, and the char at `j` (if
/// any) is not.
pub open spec fn first_non_blank_at(s: Seq<char>, j: int) -> bool {
    0 <= j <= s.len() && (forall|k: int| 0 <= k < j ==> char_class(#[trigger] s[k], false) == 0) && (j
        == s.len() || char_class(s[j], false) != 0)
}

/// `w` (`W` when `big`): the cursor goes to the next start of a word (a
/// WORD) on its line, with none skipped; when the line has none after the
/// cursor, to the first non-blank of the next line, or to the end of the
/// last line.
pub proof fn law_word_forward_next_start(m: EditorModel, big: bool)
    requires
        cursor_fits(m.doc.text, m.cursor),
        m.doc.text.len() <= usize::MAX,
    ensures
        ({
            let t = m.doc.text;
            let c = m.cursor;
            let p = text_motion_target(
                m,
                if big {
                    Command::MoveWORDForward
                } else {
                    Command::MoveWordForward
                },
            );
            let s = line_chars(t, c.row as int);
            ||| p.row == c.row && c.col < p.col < s.len() && word_start(s, p.col as int, big) && forall|k: int|
                c.col < k < p.col ==> !#[trigger] word_start(s, k, big)
            ||| (forall|k: int| c.col < k < s.len() ==> !#[trigger] word_start(s, k, big)) && (if c.row + 1
                < line_count(t) {
                p.row == c.row + 1 && first_non_blank_at(line_chars(t, c.row + 1), p.col as int)
            } else {
                p.row == c.row && p.col == s.len()
            })
        }),
{
    reveal(text_motion_target);
    let t = m.doc.text;
    let c = m.cursor;
    let s = line_chars(t, c.row as int);
    lemma_line_text_len(t, c.row as int);
    assert(display_len(line_text(t, c.row as int)) <= line_text(t, c.row as int).len());
    lemma_word_forward(s, c.col as nat, big);
    let cmd = if big {
        Command::MoveWORDForward
    } else {
        Command::MoveWordForward
    };
    let p = text_motion_target(m, cmd);
    assert(p == forward_target(t, c, big));
    match word_forward(s, c.col as nat, big) {
        Some(j) => {
            assert(p.row == c.row && p.col == j);
        },
        None => {
            if c.row + 1 < line_count(t) {
                let nx = line_chars(t, c.row + 1);
                lemma_line_text_len(t, c.row + 1);
                assert(display_len(line_text(t, c.row + 1)) <= line_text(t, c.row + 1).len());
                lemma_run_end(nx, 0, 0, false);
                lemma_line_count_bound(t);
                assert(nx.len() <= t.len());
                assert(p.row == c.row + 1);
                assert(p.col == run_end(nx, 0, 0, false));
                assert(first_non_blank_at(nx, p.col as int));
            } else {
                assert(p.row == c.row && p.col == s.len());
            }
        },
    }
}


/// What `b` (`B` when `big`) finds on a line before column `col`: the start
/// of the word (WORD) there, with no word start between it and `col`; or,
/// when nothing but blanks come before `col`, nothing.
proof fn lemma_word_backward(s: Seq<char>, col: nat, big: bool)
    requires
        col <= s.len(),
    ensures
        match word_backward(s, col, big) {
            Some(j) => j < col && char_class(s[j as int], big) != 0 && (j == 0 || char_class(
                s[j - 1],
                big,
            ) != char_class(s[j as int], big)) && forall|k: int| j < k < col ==> !#[trigger] word_start(s, k, big),
            None => forall|k: int| 0 <= k < col ==> char_class(#[trigger] s[k], big) == 0,
        },
{
    lemma_run_start(s, col, 0, big);
    let j = run_start(s, col, 0, big);
    if j > 0 {
        let k = char_class(s[j - 1], big);
        lemma_run_start(s, j, k, big);
        let r = run_start(s, j, k, big);
        assert(char_class(s[r as int], big) == k);
        assert forall|q: int| r < q < col implies !#[trigger] word_start(s, q, big) by {
            if q < j {
                assert(char_class(s[q], big) == k);
                assert(char_class(s[q - 1], big) == k);
            } else {
                assert(char_class(s[q], big) == 0);
            }
        }
    }
}

/// `b` (`B` when `big`): the cursor goes back to the start of the word (the
/// WORD) before it on its line, with no word start skipped; when only blanks
/// precede it, to the start of the last word of the line above (its start
/// when it has none), or to the start of the first line.
pub proof fn law_word_backward_previous_start(m: EditorModel, big: bool)
    requires
        cursor_fits(m.doc.text, m.cursor),
        m.doc.text.len() <= usize::MAX,
    ensures
        ({
            let t = m.doc.text;
            let c = m.cursor;
            let p = text_motion_target(
                m,
                if big {
                    Command::MoveWORDBackward
                } else {
                    Command::MoveWordBackward
                },
            );
            let s = line_chars(t, c.row as int);
            ||| p.row == c.row && p.col < c.col && char_class(s[p.col as int], big) != 0 && (p.col == 0
                || char_class(s[p.col - 1], big) != char_class(s[p.col as int], big)) && forall|k: int|
                p.col < k < c.col ==> !#[trigger] word_start(s, k, big)
            ||| (forall|k: int| 0 <= k < c.col ==> char_class(#[trigger] s[k], big) == 0) && (if c.row > 0 {
                let pl = line_chars(t, c.row - 1);
                &&& p.row == c.row - 1
                &&& p.col == 0 || (p.col < pl.len() && char_class(pl[p.col as int], big) != 0
                    && char_class(pl[p.col - 1], big) != char_class(pl[p.col as int], big) && forall|k: int|
                    p.col < k < pl.len() ==> !#[trigger] word_start(pl, k, big))
            } else {
                p.row == c.row && p.col == 0
            })
        }),
{
    reveal(text_motion_target);
    let t = m.doc.text;
    let c = m.cursor;
    let s = line_chars(t, c.row as int);
    lemma_line_text_len(t, c.row as int);
    assert(display_len(line_text(t, c.row as int)) <= line_text(t, c.row as int).len());
    lemma_word_backward(s, c.col as nat, big);
    let cmd = if big {
        Command::MoveWORDBackward
    } else {
        Command::MoveWordBackward
    };
    let p = text_motion_target(m, cmd);
    assert(p == backward_target(t, c, big));
    match word_backward(s, c.col as nat, big) {
        Some(j) => {
            assert(p.row == c.row && p.col == j);
        },
        None => {
            if c.row > 0 {
                let pl = line_chars(t, c.row - 1);
                lemma_line_text_len(t, c.row - 1);
                assert(display_len(line_text(t, c.row - 1)) <= line_text(t, c.row - 1).len());
                lemma_word_backward(pl, pl.len(), big);
                assert(p.row == c.row - 1);
            }
        },
    }
}


proof fn lemma_find_from(s: Seq<char>, i: nat, ch: char)
    ensures
        match find_from(s, i, ch) {
            Some(j) => i <= j < s.len() && s[j as int] == ch && forall|k: int| i <= k < j ==> s[k] != ch,
            None => forall|k: int| i <= k < s.len() ==> s[k] != ch,
        },
    decreases s.len() - i,
{
    if i < s.len() && s[i as int] != ch {
        lemma_find_from(s, i + 1, ch);
    }
}

proof fn lemma_find_before(s: Seq<char>, i: nat, ch: char)
    requires
        i <= s.len(),
    ensures
        match find_before(s, i, ch) {
            Some(j) => j < i && s[j as int] == ch && forall|k: int| j < k < i ==> s[k] != ch,
            None => forall|k: int| 0 <= k < i ==> s[k] != ch,
        },
    decreases i,
{
    if i > 0 && s[i - 1] != ch {
        lemma_find_before(s, (i - 1) as nat, ch);
    }
}

/// `f`/`t` with char `ch`: the nearest `ch` after the cursor on its line,
/// the cursor landing on it (`f`) or just before it (`t`); `F`/`T`: the
/// nearest `ch` before the cursor, landing on it (`F`) or just after it
/// (`T`). With no such `ch` the cursor stays.
pub proof fn law_find_char(m: EditorModel, ch: char)
    requires
        cursor_fits(m.doc.text, m.cursor),
        m.doc.text.len() <= usize::MAX,
    ensures
        ({
            let t = m.doc.text;
            let c = m.cursor;
            let s = line_chars(t, c.row as int);
            let f = text_motion_target(m, Command::FindCharForward(ch));
            let tf = text_motion_target(m, Command::TillCharForward(ch));
            let fb = text_motion_target(m, Command::FindCharBackward(ch));
            let tb = text_motion_target(m, Command::TillCharBackward(ch));
            &&& f.row == c.row && tf.row == c.row && fb.row == c.row && tb.row == c.row
            &&& if exists|k: int| c.col < k < s.len() && s[k] == ch {
                &&& c.col < f.col < s.len() && s[f.col as int] == ch
                &&& forall|k: int| c.col < k < f.col ==> s[k] != ch
                &&& tf.col + 1 == f.col
            } else {
                f == c && tf == c
            }
            &&& if exists|k: int| 0 <= k < c.col && s[k] == ch {
                &&& fb.col < c.col && s[fb.col as int] == ch
                &&& forall|k: int| fb.col < k < c.col ==> s[k] != ch
                &&& tb.col == fb.col + 1
            } else {
                fb == c && tb == c
            }
        }),
{
    reveal(text_motion_target);
    let t = m.doc.text;
    let c = m.cursor;
    let s = line_chars(t, c.row as int);
    lemma_line_text_len(t, c.row as int);
    assert(display_len(line_text(t, c.row as int)) <= line_text(t, c.row as int).len());
    lemma_find_from(s, (c.col + 1) as nat, ch);
    lemma_find_before(s, c.col as nat, ch);
}


/// A word (a WORD, when `big`) ends at index `k` of a line: a non-blank char
/// that is the last of the line or followed by a char of another class.
pub open spec fn word_end(s: Seq<char>, k: int, big: bool) -> bool {
    0 <= k < s.len() && char_class(s[k], big) != 0 && (k + 1 == s.len() || char_class(s[k + 1], big)
        != char_class(s[k], big))
}

proof fn lemma_word_end_from(s: Seq<char>, start: nat, big: bool)
    requires
        start <= s.len(),
    ensures
        match word_end_from(s, start, big) {
            Some(j) => start <= j && word_end(s, j as int, big) && forall|k: int|
                start <= k < j ==> !#[trigger] word_end(s, k, big),
            None => forall|k: int| start <= k < s.len() ==> !#[trigger] word_end(s, k, big),
        },
{
    lemma_run_end(s, start, 0, big);
    let j0 = run_end(s, start, 0, big);
    if j0 < s.len() {
        let k = char_class(s[j0 as int], big);
        lemma_run_end(s, j0, k, big);
        lemma_run_end(s, j0 + 1, k, big);
        let e = run_end(s, j0, k, big);
        assert(e > j0);
        assert forall|q: int| start <= q < e - 1 implies !#[trigger] word_end(s, q, big) by {
            if q < j0 {
                assert(char_class(s[q], big) == 0);
            } else {
                assert(char_class(s[q], big) == k);
                assert(char_class(s[q + 1], big) == k);
            }
        }
        assert(char_class(s[e - 1], big) == k);
    } else {
        assert forall|q: int| start <= q < s.len() implies !#[trigger] word_end(s, q, big) by {
            assert(char_class(s[q], big) == 0);
        }
    }
}

/// `e` (`E` when `big`): the cursor goes to the next end of a word (a WORD)
/// after it on its line, with none skipped; when the line has none, to the
/// first word end of the next line (its start when it has none), or it
/// stays on the last line.
pub proof fn law_word_end_next_end(m: EditorModel, big: bool)
    requires
        cursor_fits(m.doc.text, m.cursor),
        m.doc.text.len() <= usize::MAX,
    ensures
        ({
            let t = m.doc.text;
            let c = m.cursor;
            let p = text_motion_target(
                m,
                if big {
                    Command::MoveWORDEnd
                } else {
                    Command::MoveWordEnd
                },
            );
            let s = line_chars(t, c.row as int);
            ||| p.row == c.row && c.col < p.col && word_end(s, p.col as int, big) && forall|k: int|
                c.col < k < p.col ==> !#[trigger] word_end(s, k, big)
            ||| (forall|k: int| c.col < k < s.len() ==> !#[trigger] word_end(s, k, big)) && (if c.row + 1
                < line_count(t) {
                let nx = line_chars(t, c.row + 1);
                &&& p.row == c.row + 1
                &&& (word_end(nx, p.col as int, big) && forall|k: int| 0 <= k < p.col ==> !#[trigger] word_end(nx, k, big))
                    || (p.col == 0 && forall|k: int| 0 <= k < nx.len() ==> !#[trigger] word_end(nx, k, big))
            } else {
                p == c
            })
        }),
{
    reveal(text_motion_target);
    let t = m.doc.text;
    let c = m.cursor;
    let s = line_chars(t, c.row as int);
    lemma_line_text_len(t, c.row as int);
    assert(display_len(line_text(t, c.row as int)) <= line_text(t, c.row as int).len());
    let cmd = if big {
        Command::MoveWORDEnd
    } else {
        Command::MoveWordEnd
    };
    let p = text_motion_target(m, cmd);
    assert(p == end_target(t, c, big));
    if c.col + 1 <= s.len() {
        lemma_word_end_from(s, (c.col + 1) as nat, big);
    } else {
        assert(word_end_from(s, (c.col + 1) as nat, big) is None) by {
            lemma_run_end(s, s.len(), 0, big);
        }
    }
    match word_end_from(s, (c.col + 1) as nat, big) {
        Some(j) => {
            assert(p.row == c.row && p.col == j);
        },
        None => {
            if c.row + 1 < line_count(t) {
                let nx = line_chars(t, c.row + 1);
                lemma_line_text_len(t, c.row + 1);
                lemma_line_count_bound(t);
                assert(display_len(line_text(t, c.row + 1)) <= line_text(t, c.row + 1).len());
                lemma_word_end_from(nx, 0, big);
                assert(p.row == c.row + 1);
            }
        },
    }
}


/// `P` puts the register's chars in front of the cursor's char and `p` just
/// after it (charwise; on an empty line both go at the cursor); whole lines
/// go above (`P`) or below (`p`) the cursor's line. The text around them is
/// kept, and an undo snapshot of the old text is saved.
pub proof fn law_paste_places_register(m: EditorModel, after: bool)
    requires
        cursor_fits(m.doc.text, m.cursor),
        m.register.len() > 0,
    ensures
        ({
            let t = m.doc.text;
            let c = m.cursor;
            let r = m.register;
            let m1 = register_effect(
                m,
                if after {
                    Command::PasteAfter
                } else {
                    Command::PasteBefore
                },
            );
            let t1 = m1.doc.text;
            let i = if m.register_linewise {
                if after {
                    line_start(t, c.row + 1)
                } else {
                    line_start(t, c.row as int)
                }
            } else if after && c.col < spec_line_len(t, c.row as int) {
                char_index(t, c) + 1
            } else {
                char_index(t, c)
            };
            &&& 0 <= i <= t.len()
            &&& t1.len() == t.len() + r.len()
            &&& t1.take(i) == t.take(i)
            &&& t1.subrange(i, i + r.len()) == r
            &&& t1.skip(i + r.len()) == t.skip(i)
            &&& m1.undo.last() == (t, c)
        }),
{
    reveal(register_effect);
    let t = m.doc.text;
    let c = m.cursor;
    lemma_cursor_index(t, c);
    lemma_line_text_len(t, c.row as int);
    lemma_line_starts(t);
    let r = m.register;
    let i = paste_index(m, after);
    let t1 = t.take(i) + r + t.skip(i);
    assert(t1.take(i) =~= t.take(i));
    assert(t1.subrange(i, i + r.len()) =~= r);
    assert(t1.skip(i + r.len()) =~= t.skip(i));
}

/// `r` with char `ch` puts `ch` in place of the cursor's char and changes
/// nothing else; past the end of the line it changes nothing.
pub proof fn law_replace_char(m: EditorModel, ch: char)
    requires
        cursor_fits(m.doc.text, m.cursor),
    ensures
        ({
            let t = m.doc.text;
            let c = m.cursor;
            let m1 = line_edit_effect(m, Command::ReplaceChar(ch));
            let t1 = m1.doc.text;
            if c.col < spec_line_len(t, c.row as int) {
                &&& t1.len() == t.len()
                &&& t1[char_index(t, c)] == ch
                &&& forall|k: int| 0 <= k < t.len() && k != char_index(t, c) ==> t1[k] == t[k]
                &&& m1.cursor == c
            } else {
                m1 == m
            }
        }),
{
    reveal(line_edit_effect);
    let t = m.doc.text;
    let c = m.cursor;
    lemma_cursor_index(t, c);
    lemma_line_text_len(t, c.row as int);
    assert(display_len(line_text(t, c.row as int)) <= line_text(t, c.row as int).len());
    assert(c.col < spec_line_len(t, c.row as int) ==> char_index(t, c) < t.len());
}


/// `>>` puts `tab_width` spaces at the start of the cursor's line and moves
/// the cursor right by as many; `<<` removes blanks only, from the start of
/// the line: as many as there are, up to `tab_width`. Each keeps the rest of
/// the text and saves an undo snapshot when it changes the text.
pub proof fn law_indent_dedent(m: EditorModel)
    requires
        cursor_fits(m.doc.text, m.cursor),
        m.cursor.col + m.tab_width <= usize::MAX,
    ensures
        ({
            let t = m.doc.text;
            let c = m.cursor;
            let ls = line_start(t, c.row as int);
            let s = line_chars(t, c.row as int);
            let w = m.tab_width as int;
            let mi = line_edit_effect(m, Command::IndentLine);
            let md = line_edit_effect(m, Command::DedentLine);
            let k = (t.len() - md.doc.text.len()) as int;
            &&& w > 0 ==> mi.doc.text.take(ls) == t.take(ls) && mi.doc.text.subrange(ls, ls + w) == Seq::new(
                w as nat,
                |i: int| ' ',
            ) && mi.doc.text.skip(ls + w) == t.skip(ls) && mi.cursor.col == c.col + w && mi.undo.last()
                == (t, c)
            &&& 0 <= k <= w && k <= s.len()
            &&& md.doc.text == t.take(ls) + t.skip(ls + k)
            &&& forall|j: int| 0 <= j < k ==> char_class(#[trigger] s[j], false) == 0
            &&& k < w ==> k == s.len() || char_class(s[k], false) != 0
            &&& k == 0 ==> md == m
        }),
{
    reveal(line_edit_effect);
    let t = m.doc.text;
    let c = m.cursor;
    lemma_cursor_index(t, c);
    lemma_line_text_len(t, c.row as int);
    assert(display_len(line_text(t, c.row as int)) <= line_text(t, c.row as int).len());
    let ls = line_start(t, c.row as int);
    let s = line_chars(t, c.row as int);
    lemma_run_end(s, 0, 0, false);
    let w = m.tab_width as int;
    if w > 0 {
        let ti = t.take(ls) + spaces(w as nat) + t.skip(ls);
        assert(ti.take(ls) =~= t.take(ls));
        assert(ti.subrange(ls, ls + w) =~= Seq::new(w as nat, |i: int| ' '));
        assert(ti.skip(ls + w) =~= t.skip(ls));
    }
    let k = dedent_count(t, c.row as int, m.tab_width);
    if k > 0 {
        assert((t.take(ls) + t.skip(ls + k)).len() == t.len() - k);
    } else {
        assert(t.take(ls) + t.skip(ls) =~= t);
    }
}


/// `d` with a motion that moves forward (and does not include its target)
/// deletes exactly the chars from the cursor up to where the motion goes,
/// puts them in the register, and leaves the cursor where it was; with a
/// motion that moves back it deletes from the motion's target up to the
/// cursor and the cursor goes to the target. `y` takes the same chars into
/// the register and leaves the text alone.
pub proof fn law_operator_follows_motion(m: EditorModel, mo: Motion)
    requires
        cursor_fits(m.doc.text, m.cursor),
        motion_command(mo) is Some,
        !is_inclusive(mo),
        char_index(m.doc.text, text_motion_target(m, motion_command(mo).unwrap())) <= m.doc.text.len(),
        0 <= char_index(m.doc.text, text_motion_target(m, motion_command(mo).unwrap())),
    ensures
        ({
            let t = m.doc.text;
            let c = m.cursor;
            let target = text_motion_target(m, motion_command(mo).unwrap());
            let a = char_index(t, c);
            let b = char_index(t, target);
            let (lo, hi, start) = if b < a {
                (b, a, target)
            } else {
                (a, b, c)
            };
            let md = operator_effect(m, Command::DeleteMotion(mo));
            let my = operator_effect(m, Command::YankMotion(mo));
            &&& md.doc.text == t.take(lo) + t.skip(hi)
            &&& md.register == t.subrange(lo, hi)
            &&& md.cursor == start
            &&& !md.register_linewise
            &&& my.doc == m.doc
            &&& my.register == t.subrange(lo, hi)
        }),
{
    reveal(operator_effect);
    lemma_cursor_index(m.doc.text, m.cursor);
}

} // verus!
