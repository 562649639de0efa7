//! What the screen shows of the editor, decided apart from the terminal
//! library that draws it.
pub mod command_line;
pub mod completion;
pub mod diagnostics;
pub mod editor_view;
pub mod file_finder;
pub mod hover;
pub mod popup;
pub mod screen;
pub mod status_line;
pub mod tab_bar;
pub mod workspace_symbols;
