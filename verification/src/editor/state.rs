//! The editor state that the commands act on, as plain values, and how each
//! document edit changes the document.
use vstd::prelude::*;

use crate::buffer::display_len;
use crate::buffer::rope::{
    lemma_insert_keeps_line_start, lemma_line_starts, lemma_line_text_len, line_count,
    line_start, line_text,
};
use crate::editor::document::{char_index, spec_line_len, Document};
use crate::editor::history::History;
use crate::editor::selection::Position;
use crate::input::keymap::{KeymapState, KeymapView};
use crate::input::mode::Mode;
use crate::input::{ChangeTracker, TrackerView};
use crate::key::KeyInput;
use crate::lsp::LspDiagnostic;

verus! {

/// Work that a command leaves to the front end: requests, file and process
/// I/O, and replaying a macro's keys.
#[derive(Debug, Clone)]
pub enum DeferredAction {
    Rename(String),
    DidSave,
    OpenFile(String),
    SyncFileUri,
    ShellCommand(String),
    FormatDocument,
    PlayMacro(char),
    /// Write the document to its file, then quit when `then_quit`.
    Write { then_quit: bool },
}

/// Everything the editing commands read and change.
pub struct EditorState {
    pub doc: Document,
    pub cursor: Position,
    pub keys: KeymapState,
    pub history: History,
    pub tracker: ChangeTracker,
    /// The text typed after `:`.
    pub command_buffer: Vec<char>,
    pub status_message: Option<String>,
    pub diagnostics: Vec<LspDiagnostic>,
    /// The selected entry of the diagnostics list.
    pub diagnostic_index: usize,
    /// The path that the file finder has selected, if it shows one.
    pub file_finder_selection: Option<String>,
    /// Recorded macros; a later entry for a register replaces an earlier one.
    pub macros: Vec<(char, Vec<KeyInput>)>,
    /// The keys of the macro being recorded.
    pub macro_buffer: Vec<KeyInput>,
    pub last_macro: Option<char>,
    /// The rows of the text area (half of it is a half page).
    pub page_height: u16,
    /// The spaces that a tab inserts.
    pub tab_width: usize,
    /// Where a visual selection started.
    pub visual_anchor: Option<Position>,
    /// The text last yanked or deleted, and whether it is whole lines.
    pub register: Vec<char>,
    pub register_linewise: bool,
    /// Whether long lines wrap.
    pub wrap: bool,
}

/// A document as plain values.
pub struct DocModel {
    pub text: Seq<char>,
    pub path: Option<String>,
    pub modified: bool,
    pub version: int,
}

/// The mathematical value of an editor state.
pub struct EditorModel {
    pub doc: DocModel,
    pub cursor: Position,
    pub keys: KeymapView,
    pub undo: Seq<(Seq<char>, Position)>,
    pub redo: Seq<(Seq<char>, Position)>,
    pub tracker: TrackerView,
    pub command_buffer: Seq<char>,
    pub status: Option<Seq<char>>,
    pub diagnostics: Seq<LspDiagnostic>,
    pub diagnostic_index: usize,
    pub file_finder_selection: Option<String>,
    pub macros: Seq<(char, Seq<KeyInput>)>,
    pub macro_buffer: Seq<KeyInput>,
    pub last_macro: Option<char>,
    pub page_height: u16,
    pub tab_width: usize,
    pub visual_anchor: Option<Position>,
    pub register: Seq<char>,
    pub register_linewise: bool,
    pub wrap: bool,
}

/// The model of a document.
pub open spec fn doc_model(d: Document) -> DocModel {
    DocModel { text: d.text(), path: d.path, modified: d.modified, version: d.version as int }
}

/// A document edit: the new text, marked modified, one version on.
pub open spec fn edited(d: DocModel, text: Seq<char>) -> DocModel {
    DocModel { text, modified: true, version: d.version + 1, ..d }
}

/// Typing `ch` at `pos`.
pub open spec fn doc_insert(d: DocModel, pos: Position, ch: char) -> DocModel {
    edited(d, d.text.insert(char_index(d.text, pos), ch))
}

/// Backspace at `pos`: the document and where the cursor goes, if anywhere.
pub open spec fn doc_delete_backward(d: DocModel, pos: Position) -> (DocModel, Option<Position>) {
    let t = d.text;
    let idx = char_index(t, pos);
    if (pos.col == 0 && pos.row == 0) || idx == 0 {
        (d, None)
    } else {
        let t2 = t.take(idx - 1) + t.skip(idx);
        (
            edited(d, t2),
            Some(
                if pos.col > 0 {
                    Position { row: pos.row, col: (pos.col - 1) as usize }
                } else {
                    Position {
                        row: (pos.row - 1) as usize,
                        col: spec_line_len(t2, pos.row - 1) as usize,
                    }
                },
            ),
        )
    }
}

/// Deleting the char at `pos`.
pub open spec fn doc_delete_forward(d: DocModel, pos: Position) -> DocModel {
    let t = d.text;
    let idx = char_index(t, pos);
    if (pos.col >= spec_line_len(t, pos.row as int) && pos.row + 1 >= line_count(t)) || idx
        >= t.len() {
        d
    } else {
        edited(d, t.take(idx) + t.skip(idx + 1))
    }
}

/// Deleting line `row`.
pub open spec fn doc_delete_line(d: DocModel, row: usize) -> DocModel {
    let t = d.text;
    if line_count(t) <= 1 {
        if t.len() > 0 {
            edited(d, seq!['\n'])
        } else {
            d
        }
    } else {
        let start = line_start(t, row as int);
        let end = line_start(t, row + 1);
        if start < end {
            edited(d, t.take(start) + t.skip(end))
        } else {
            d
        }
    }
}

/// `n` spaces.
pub open spec fn spaces(n: nat) -> Seq<char> {
    Seq::new(n, |i: int| ' ')
}

/// Inserting `n` spaces at `pos`, one by one.
pub open spec fn doc_insert_spaces(d: DocModel, pos: Position, n: nat) -> DocModel {
    let i = char_index(d.text, pos);
    if n == 0 {
        d
    } else {
        DocModel {
            text: d.text.take(i) + spaces(n) + d.text.skip(i),
            modified: true,
            version: d.version + n,
            ..d
        }
    }
}

/// The cursor lies on a line of the text, at most at its end.
pub open spec fn cursor_fits(text: Seq<char>, c: Position) -> bool {
    c.row < line_count(text) && c.col <= spec_line_len(text, c.row as int)
}

/// The cursor moved onto the text: onto its last line at most, and onto the
/// last char of its line at most (one past it in insert mode).
pub open spec fn clamped(text: Seq<char>, c: Position, mode: Mode) -> Position {
    let row: usize = if c.row < line_count(text) {
        c.row
    } else {
        (line_count(text) - 1) as usize
    };
    let len = spec_line_len(text, row as int);
    let max_col: nat = if mode == Mode::Insert {
        len
    } else if len > 0 {
        (len - 1) as nat
    } else {
        0
    };
    Position { row, col: if c.col <= max_col { c.col } else { max_col as usize } }
}

/// A cursor on the text lies before its end.
pub proof fn lemma_cursor_index(text: Seq<char>, c: Position)
    requires
        cursor_fits(text, c),
    ensures
        0 <= char_index(text, c) <= text.len(),
        0 <= line_start(text, c.row as int) <= char_index(text, c),
{
    lemma_line_text_len(text, c.row as int);
    assert(display_len(line_text(text, c.row as int)) <= line_text(text, c.row as int).len());
}

/// A clamped cursor fits the text.
pub proof fn lemma_clamped_fits(text: Seq<char>, c: Position, mode: Mode)
    ensures
        cursor_fits(text, clamped(text, c, mode)),
{
    lemma_line_starts(text);
}

impl EditorState {
    /// A fresh state on a document: cursor at the start, normal mode, empty
    /// history, no diagnostics, macros or messages.
    pub fn new(doc: Document, page_height: u16, tab_width: usize) -> (s: Self)
        ensures
            s.wf(),
            s.doc == doc,
            s.cursor == (Position { row: 0, col: 0 }),
            s.keys.mode == Mode::Normal,
            !s.keys.should_quit,
            s.keys.recording_macro is None,
            s.model().undo.len() == 0,
            s.model().redo.len() == 0,
            s.command_buffer@.len() == 0,
            s.status_message is None,
            s.diagnostics@.len() == 0,
            s.diagnostic_index == 0,
            s.file_finder_selection is None,
            s.macros@.len() == 0,
            s.macro_buffer@.len() == 0,
            s.last_macro is None,
            s.page_height == page_height,
            s.tab_width == tab_width,
            s.visual_anchor is None,
            s.register@.len() == 0,
            !s.wrap,
    {
        proof {
            lemma_line_starts(doc.text());
        }
        EditorState {
            doc,
            cursor: Position { row: 0, col: 0 },
            keys: KeymapState::default(),
            history: History::new(),
            tracker: ChangeTracker::new(),
            command_buffer: Vec::new(),
            status_message: None,
            diagnostics: Vec::new(),
            diagnostic_index: 0,
            file_finder_selection: None,
            macros: Vec::new(),
            macro_buffer: Vec::new(),
            last_macro: None,
            page_height,
            tab_width,
            visual_anchor: None,
            register: Vec::new(),
            register_linewise: false,
            wrap: false,
        }
    }

    /// The state as plain values.
    pub open spec fn model(&self) -> EditorModel {
        EditorModel {
            doc: doc_model(self.doc),
            cursor: self.cursor,
            keys: self.keys@,
            undo: self.history.undo_states(),
            redo: self.history.redo_states(),
            tracker: self.tracker@,
            command_buffer: self.command_buffer@,
            status: match self.status_message {
                Some(s) => Some(s@),
                None => None,
            },
            diagnostics: self.diagnostics@,
            diagnostic_index: self.diagnostic_index,
            file_finder_selection: self.file_finder_selection,
            macros: self.macros@.map_values(|e: (char, Vec<KeyInput>)| (e.0, e.1@)),
            macro_buffer: self.macro_buffer@,
            last_macro: self.last_macro,
            page_height: self.page_height,
            tab_width: self.tab_width,
            visual_anchor: self.visual_anchor,
            register: self.register@,
            register_linewise: self.register_linewise,
            wrap: self.wrap,
        }
    }

    /// The history keeps its bound and the cursor is on the text.
    pub open spec fn wf(&self) -> bool {
        &&& self.history.wf()
        &&& cursor_fits(self.doc.text(), self.cursor)
    }

    /// Takes a new list of diagnostics: the list popup closes when it is
    /// empty, and the selection stays within it.
    pub fn set_diagnostics(&mut self, ds: Vec<LspDiagnostic>)
        ensures
            final(self).model() == (EditorModel {
                diagnostics: ds@,
                keys: KeymapView {
                    showing_diagnostics: old(self).keys.showing_diagnostics && ds@.len() > 0,
                    ..old(self).keys@
                },
                diagnostic_index: if old(self).diagnostic_index < ds@.len() {
                    old(self).diagnostic_index
                } else if ds@.len() > 0 {
                    (ds@.len() - 1) as usize
                } else {
                    0
                },
                ..old(self).model()
            }),
            final(self).history == old(self).history,
            final(self).doc == old(self).doc,
            final(self).cursor == old(self).cursor,
    {
        let n = ds.len();
        self.diagnostics = ds;
        if n == 0 {
            self.keys.showing_diagnostics = false;
        }
        if self.diagnostic_index >= n {
            self.diagnostic_index = if n > 0 {
                n - 1
            } else {
                0
            };
        }
    }

    /// Puts the cursor at `pos`, moved onto the text.
    pub fn jump_to(&mut self, pos: Position)
        ensures
            final(self).model() == (EditorModel {
                cursor: clamped(old(self).doc.text(), pos, old(self).keys.mode),
                ..old(self).model()
            }),
            final(self).history == old(self).history,
            final(self).doc == old(self).doc,
            cursor_fits(final(self).doc.text(), final(self).cursor),
    {
        self.cursor = pos;
        self.clamp_cursor();
        proof {
            lemma_clamped_fits(self.doc.text(), pos, self.keys.mode);
        }
    }

    /// Moves the cursor onto the text (see `clamped`).
    pub fn clamp_cursor(&mut self)
        ensures
            final(self).cursor == clamped(old(self).doc.text(), old(self).cursor, old(self).keys.mode),
            final(self).doc == old(self).doc,
            final(self).keys == old(self).keys,
            final(self).history == old(self).history,
            final(self).tracker == old(self).tracker,
            final(self).command_buffer == old(self).command_buffer,
            final(self).status_message == old(self).status_message,
            final(self).diagnostics == old(self).diagnostics,
            final(self).diagnostic_index == old(self).diagnostic_index,
            final(self).file_finder_selection == old(self).file_finder_selection,
            final(self).macros == old(self).macros,
            final(self).macro_buffer == old(self).macro_buffer,
            final(self).last_macro == old(self).last_macro,
            final(self).page_height == old(self).page_height,
            final(self).tab_width == old(self).tab_width,
            final(self).visual_anchor == old(self).visual_anchor,
            final(self).register == old(self).register,
            final(self).register_linewise == old(self).register_linewise,
            final(self).wrap == old(self).wrap,
    {
        proof {
            lemma_line_starts(self.doc.text());
        }
        let last_row = self.doc.line_count() - 1;
        if self.cursor.row > last_row {
            self.cursor.row = last_row;
        }
        let len = self.doc.line_len(self.cursor.row);
        let max_col = if self.keys.mode == Mode::Insert {
            len
        } else if len > 0 {
            len - 1
        } else {
            0
        };
        if self.cursor.col > max_col {
            self.cursor.col = max_col;
        }
    }

    /// Types `n` spaces at the cursor, moving the cursor past them.
    pub fn insert_spaces(&mut self, n: usize)
        requires
            cursor_fits(old(self).doc.text(), old(self).cursor),
            old(self).doc.version + n < i64::MAX,
            old(self).doc.text().len() + n <= usize::MAX,
        ensures
            doc_model(final(self).doc) == doc_insert_spaces(doc_model(old(self).doc), old(self).cursor, n as nat),
            final(self).cursor == (Position { row: old(self).cursor.row, col: (old(self).cursor.col + n) as usize }),
            final(self).keys == old(self).keys,
            final(self).history == old(self).history,
            final(self).tracker == old(self).tracker,
            final(self).command_buffer == old(self).command_buffer,
            final(self).status_message == old(self).status_message,
            final(self).diagnostics == old(self).diagnostics,
            final(self).diagnostic_index == old(self).diagnostic_index,
            final(self).file_finder_selection == old(self).file_finder_selection,
            final(self).macros == old(self).macros,
            final(self).macro_buffer == old(self).macro_buffer,
            final(self).last_macro == old(self).last_macro,
            final(self).page_height == old(self).page_height,
            final(self).tab_width == old(self).tab_width,
            final(self).visual_anchor == old(self).visual_anchor,
            final(self).register == old(self).register,
            final(self).register_linewise == old(self).register_linewise,
            final(self).wrap == old(self).wrap,
    {
        let ghost t = self.doc.text();
        let ghost c = self.cursor;
        let ghost d0 = doc_model(self.doc);
        proof {
            lemma_cursor_index(t, c);
        }
        let ghost i = char_index(t, c);
        assert(c.col + n <= usize::MAX);
        let mut k: usize = 0;
        while k < n
            invariant
                0 <= i <= t.len(),
                t.len() + n <= usize::MAX,
                d0.version + n < i64::MAX,
                c.row < line_count(t),
                line_start(t, c.row as int) <= i,
                i == line_start(t, c.row as int) + c.col,
                k <= n,
                c.col + n <= usize::MAX,
                self.doc.text() == t.take(i) + spaces(k as nat) + t.skip(i),
                self.doc.version == d0.version + k,
                self.doc.path == d0.path,
                k > 0 ==> self.doc.modified,
                k == 0 ==> self.doc.modified == d0.modified,
                self.cursor == (Position { row: c.row, col: (c.col + k) as usize }),
                c.row < line_count(self.doc.text()),
                line_start(self.doc.text(), c.row as int) == line_start(t, c.row as int),
                self.keys == old(self).keys,
                self.history == old(self).history,
                self.tracker == old(self).tracker,
                self.command_buffer == old(self).command_buffer,
                self.status_message == old(self).status_message,
                self.diagnostics == old(self).diagnostics,
                self.diagnostic_index == old(self).diagnostic_index,
                self.file_finder_selection == old(self).file_finder_selection,
                self.macros == old(self).macros,
                self.macro_buffer == old(self).macro_buffer,
                self.last_macro == old(self).last_macro,
                self.page_height == old(self).page_height,
                self.tab_width == old(self).tab_width,
                self.visual_anchor == old(self).visual_anchor,
                self.register == old(self).register,
                self.register_linewise == old(self).register_linewise,
                self.wrap == old(self).wrap,
            decreases n - k,
        {
            let ghost cur = self.doc.text();
            proof {
                assert(cur.len() == t.len() + k);
                assert(char_index(cur, self.cursor) == i + k);
                lemma_insert_keeps_line_start(cur, c.row as int, i + k, ' ');
                assert(cur.insert(i + k, ' ') =~= t.take(i) + spaces((k + 1) as nat) + t.skip(i));
            }
            self.doc.insert_char(self.cursor, ' ');
            self.cursor.col = self.cursor.col + 1;
            k = k + 1;
        }
        proof {
            if n == 0 {
                assert(t.take(i) + spaces(0) + t.skip(i) =~= t);
            }
        }
    }
}

} // verus!
