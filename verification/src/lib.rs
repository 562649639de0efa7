pub mod buffer;
pub mod editor;
pub mod highlight;
pub mod input;
pub mod key;
pub mod lsp;
pub mod ui;
