# righter

The core of a Vim-like text editor, verified with Verus, and a terminal
front end around it.

- `src/` is the verified library: the document and its line model over a
  `ropey::Rope`, undo history, views and line wrapping, pane layout, the
  keymap and change tracking, carrying out a decoded command on the editor
  state (`input::execute`: cursor, word, paragraph and find motions; typing,
  deleting, joining, indenting and replacing; operators with motions;
  visual mode, yank and paste; undo and redo; macros; the command line) and one turn of the front end's loop on a key
  (`input::app_step`), syntax highlighting with tree-sitter, the
  language-server protocol (framing, message classification, response
  parsing, request building, and what each answer does), text edits, and the
  layout of everything the screen shows (text rows, gutter, status line,
  command line, tab bar and the popups). Each public function has a contract
  over mathematical models (`Seq`, `Map`, views of the data types); the
  properties that relate several functions are stated and proved as `law_*`
  proof functions.
- `app/` is the terminal program: it reads and writes files, runs
  rust-analyzer, turns terminal events into keys, performs the actions that
  `app_step` returns, and draws what the library lays out with ratatui.
- `tests/` runs the library on concrete inputs.
