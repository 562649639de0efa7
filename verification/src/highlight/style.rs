use vstd::prelude::*;

verus! {

/// Frontend-independent syntax style.
/// Converted to ratatui::style::Style (TUI) or egui text color (GUI) at render time.
#[derive(Debug, Clone, Copy, PartialEq, Eq, Structural)]
pub struct SyntaxStyle {
    pub fg: Option<RgbColor>,
    pub italic: bool,
}

#[derive(Debug, Clone, Copy, PartialEq, Eq, Structural)]
pub struct RgbColor(pub u8, pub u8, pub u8);

impl Default for SyntaxStyle {
    fn default() -> (s: SyntaxStyle)
        ensures
            s == (SyntaxStyle { fg: None, italic: false }),
    {
        SyntaxStyle { fg: None, italic: false }
    }
}

impl SyntaxStyle {
    pub fn fg(self, color: RgbColor) -> (s: Self)
        ensures
            s == (SyntaxStyle { fg: Some(color), ..self }),
    {
        let mut s = self;
        s.fg = Some(color);
        s
    }

    pub fn italic(self) -> (s: Self)
        ensures
            s == (SyntaxStyle { italic: true, ..self }),
    {
        let mut s = self;
        s.italic = true;
        s
    }
}

} // verus!
