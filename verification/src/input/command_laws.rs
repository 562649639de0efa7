//! What the basic cursor motions and typing commands do to the cursor and
//! the text.
use vstd::prelude::*;

use crate::buffer::display_len;
use crate::buffer::rope::{lemma_line_text_len, line_count, line_text};
use crate::editor::document::{char_index, spec_line_len};
use crate::editor::selection::Position;
use crate::editor::state::{cursor_fits, lemma_cursor_index, EditorModel};
use crate::input::command::Command;
use crate::input::dispatch::{edit_effect, motion_target};

verus! {

/// `h` and `l` move one column left and right (stopping at column 0), `k`
/// and `j` one row up and down (stopping at row 0), `0` goes to the line's
/// start, `gg` to the first line's start; none of them changes the text.
pub proof fn law_basic_motions(m: EditorModel)
    requires
        m.cursor.col < usize::MAX,
        m.cursor.row < usize::MAX,
    ensures
        ({
            let c = m.cursor;
            &&& motion_target(m, Command::MoveLeft) == Position {
                row: c.row,
                col: if c.col > 0 { (c.col - 1) as usize } else { 0 },
            }
            &&& motion_target(m, Command::MoveRight) == Position { row: c.row, col: (c.col + 1) as usize }
            &&& motion_target(m, Command::MoveUp) == Position {
                row: if c.row > 0 { (c.row - 1) as usize } else { 0 },
                col: c.col,
            }
            &&& motion_target(m, Command::MoveDown) == Position { row: (c.row + 1) as usize, col: c.col }
            &&& motion_target(m, Command::MoveLineStart) == Position { row: c.row, col: 0 }
            &&& motion_target(m, Command::GotoTop) == Position { row: 0, col: 0 }
            &&& motion_target(m, Command::GotoBottom).row == usize::MAX
        }),
{
    reveal(motion_target);
}

/// Typing a char puts it at the cursor, in front of the char that was
/// there, and moves the cursor one column right; an undo snapshot of the
/// old text and cursor is saved first.
pub proof fn law_typing_inserts_at_cursor(m: EditorModel, ch: char)
    requires
        cursor_fits(m.doc.text, m.cursor),
        m.cursor.col < usize::MAX,
    ensures
        ({
            let t = m.doc.text;
            let c = m.cursor;
            let m1 = edit_effect(m, Command::InsertChar(ch));
            let i = char_index(t, c);
            &&& m1.doc.text.len() == t.len() + 1
            &&& m1.doc.text[i] == ch
            &&& m1.doc.text.take(i) == t.take(i)
            &&& m1.doc.text.skip(i + 1) == t.skip(i)
            &&& m1.cursor == Position { row: c.row, col: (c.col + 1) as usize }
            &&& m1.undo.last() == (t, c)
            &&& m1.redo.len() == 0
        }),
{
    reveal(edit_effect);
    let t = m.doc.text;
    let c = m.cursor;
    lemma_cursor_index(t, c);
    let i = char_index(t, c);
    let t1 = t.insert(i, ch);
    assert(t1.take(i) =~= t.take(i));
    assert(t1.skip(i + 1) =~= t.skip(i));
}

/// `x` removes the char under the cursor, keeping the text before and after
/// it, when the cursor is on a char of its line.
pub proof fn law_delete_char_under_cursor(m: EditorModel)
    requires
        cursor_fits(m.doc.text, m.cursor),
        m.cursor.col < spec_line_len(m.doc.text, m.cursor.row as int),
    ensures
        ({
            let t = m.doc.text;
            let c = m.cursor;
            let t1 = edit_effect(m, Command::DeleteCharForward).doc.text;
            let i = char_index(t, c);
            &&& i < t.len()
            &&& t1.len() + 1 == t.len()
            &&& t1.take(i) == t.take(i)
            &&& t1.skip(i) == t.skip(i + 1)
        }),
{
    reveal(edit_effect);
    let t = m.doc.text;
    let c = m.cursor;
    lemma_cursor_index(t, c);
    lemma_line_text_len(t, c.row as int);
    assert(display_len(line_text(t, c.row as int)) <= line_text(t, c.row as int).len());
    let i = char_index(t, c);
    assert(i < t.len());
    let t1 = t.take(i) + t.skip(i + 1);
    assert(t1.take(i) =~= t.take(i));
    assert(t1.skip(i) =~= t.skip(i + 1));
}

} // verus!
