pub mod document;
pub mod history;
pub mod motion;
pub mod pane;
pub mod selection;
pub mod state;
pub mod text_edits;
pub mod view;
pub mod wrap;
