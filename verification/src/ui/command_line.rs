//! The command line under the status line: what is being typed after `:`
//! or `/`, or else the last status message.
use vstd::prelude::*;
use vstd::string::StringExecFns;

use crate::editor::pane::AreaRect;
use crate::input::mode::Mode;

verus! {

pub struct CommandLine<'a> {
    pub mode: Mode,
    pub command_buffer: &'a str,
    pub search_query: &'a str,
    pub status_message: Option<&'a str>,
}

/// What the command line shows: its text, whether it is being typed (drawn
/// bright, with a cursor) or a message (drawn dim), and the cursor's column
/// where it falls inside the area.
pub struct CommandLineText {
    pub text: String,
    pub typing: bool,
    pub cursor_x: Option<u16>,
}

impl<'a> CommandLine<'a> {
    pub fn new(
        mode: Mode,
        command_buffer: &'a str,
        search_query: &'a str,
        status_message: Option<&'a str>,
    ) -> (c: Self)
        ensures
            c.mode == mode,
            c.command_buffer == command_buffer,
            c.search_query == search_query,
            c.status_message == status_message,
    {
        Self { mode, command_buffer, search_query, status_message }
    }

    pub open spec fn spec_text(&self) -> Seq<char> {
        match self.mode {
            Mode::Command => ":"@ + self.command_buffer@,
            Mode::Search => "/"@ + self.search_query@,
            _ => match self.status_message {
                Some(m) => m@,
                None => Seq::empty(),
            },
        }
    }

    pub open spec fn spec_typing(&self) -> bool {
        self.mode == Mode::Command || self.mode == Mode::Search
    }

    /// The text's length in bytes (cut to 16 bits) after the area's left
    /// edge.
    pub open spec fn spec_cursor_col(&self, area: AreaRect) -> int {
        area.x + (self.typed_bytes() as u16)
    }

    /// The bytes of what is typed, with its leading `:` or `/`.
    pub open spec fn typed_bytes(&self) -> int {
        match self.mode {
            Mode::Command => 1 + self.command_buffer.len(),
            _ => 1 + self.search_query.len(),
        }
    }

    /// Decides what the command line shows in `area`. While typing, the
    /// cursor's column must be a column.
    pub fn content(&self, area: AreaRect) -> (r: CommandLineText)
        requires
            area.fits(),
            self.spec_typing() ==> self.typed_bytes() <= usize::MAX,
            self.spec_typing() ==> self.spec_cursor_col(area) <= u16::MAX,
        ensures
            r.text@ == self.spec_text(),
            r.typing == self.spec_typing(),
            r.cursor_x == if self.spec_typing() && self.spec_cursor_col(area) < area.x + area.width {
                Some(self.spec_cursor_col(area) as u16)
            } else {
                None
            },
    {
        proof {
            reveal_strlit(":");
            reveal_strlit("/");
        }
        let (text, typing, bytes) = match self.mode {
            Mode::Command => {
                let mut t = String::from_str(":");
                t.append(self.command_buffer);
                (t, true, 1 + self.command_buffer.len())
            },
            Mode::Search => {
                let mut t = String::from_str("/");
                t.append(self.search_query);
                (t, true, 1 + self.search_query.len())
            },
            _ => match self.status_message {
                Some(m) => (String::from_str(m), false, 0),
                None => (String::new(), false, 0),
            },
        };
        let cursor_x = if typing {
            let cx = area.x + (#[verifier::truncate] (bytes as u16));
            if (cx as u32) < (area.x as u32) + (area.width as u32) {
                Some(cx)
            } else {
                None
            }
        } else {
            None
        };
        CommandLineText { text, typing, cursor_x }
    }
}

} // verus!
