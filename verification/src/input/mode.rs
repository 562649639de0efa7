//! The editor's modes.
use vstd::prelude::*;

verus! {

#[derive(Debug, Clone, Copy, PartialEq, Eq, Structural)]
pub enum Mode {
    Normal,
    Insert,
    Visual,
    VisualLine,
    Command,
    Search,
}

impl Default for Mode {
    fn default() -> (m: Mode)
        ensures
            m == Mode::Normal,
    {
        Mode::Normal
    }
}

impl Mode {
    pub fn is_visual(&self) -> (r: bool)
        ensures
            r == (*self == Mode::Visual || *self == Mode::VisualLine),
    {
        match self {
            Mode::Visual | Mode::VisualLine => true,
            _ => false,
        }
    }
}

} // verus!
