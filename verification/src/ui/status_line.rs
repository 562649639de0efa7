//! The status line under a pane: mode, file, diagnostic counts and cursor
//! position.
use vstd::prelude::*;
use vstd::string::StringExecFns;

use crate::editor::document::spec_path_file_name;
use crate::editor::pane::PaneRenderData;
use crate::input::mode::Mode;
use crate::lsp::transport::{decimal, decimal_string};
use crate::lsp::LspDiagnostic;

verus! {

/// A status line that can render for a specific pane (active or inactive).
pub struct StatusLine<'a> {
    pub data: PaneRenderData<'a>,
}

/// What a status line shows: on an active pane the mode label at the left,
/// then the file; the position text goes at the right.
pub struct StatusText {
    pub mode_label: Option<String>,
    pub file_info: String,
    pub position: String,
}

/// The label of a mode.
pub open spec fn mode_label(m: Mode) -> Seq<char> {
    match m {
        Mode::Normal => " NORMAL "@,
        Mode::Insert => " INSERT "@,
        Mode::Visual => " VISUAL "@,
        Mode::VisualLine => " V-LINE "@,
        Mode::Command => " COMMAND "@,
        Mode::Search => " SEARCH "@,
    }
}

/// The number of the first `n` diagnostics with severity `sev`.
pub open spec fn count_severity(diags: Seq<LspDiagnostic>, sev: u8, n: nat) -> nat
    decreases n,
{
    if n == 0 || n > diags.len() {
        0
    } else {
        count_severity(diags, sev, (n - 1) as nat) + if diags[n - 1].severity == sev {
            1nat
        } else {
            0nat
        }
    }
}

/// The file's name as the status line shows it.
pub open spec fn shown_name(path: Option<String>) -> Seq<char> {
    match path {
        Some(p) => match spec_path_file_name(p@) {
            Some(n) => n,
            None => "[No Name]"@,
        },
        None => "[No Name]"@,
    }
}

fn count_with_severity(diags: &[LspDiagnostic], sev: u8) -> (n: usize)
    ensures
        n == count_severity(diags@, sev, diags@.len()),
{
    let mut n = 0usize;
    let mut i = 0usize;
    while i < diags.len()
        invariant
            i <= diags@.len(),
            n == count_severity(diags@, sev, i as nat),
            n <= i,
        decreases diags@.len() - i,
    {
        if diags[i].severity == sev {
            n += 1;
        }
        i += 1;
    }
    n
}

impl<'a> StatusLine<'a> {
    pub fn new(data: PaneRenderData<'a>) -> (s: Self)
        ensures
            s.data == data,
    {
        Self { data }
    }

    /// The diagnostic counts shown on the active pane: errors and warnings,
    /// when there is any.
    pub open spec fn spec_diag_text(&self) -> Seq<char> {
        let d = self.data.diagnostics@;
        let errors = count_severity(d, 1, d.len());
        let warnings = count_severity(d, 2, d.len());
        if errors > 0 || warnings > 0 {
            " E:"@ + decimal(errors) + " W:"@ + decimal(warnings)
        } else {
            Seq::empty()
        }
    }

    /// The cursor position, one-based, as `row:col`.
    pub open spec fn spec_row_col(&self) -> Seq<char> {
        decimal((self.data.cursor.row + 1) as nat) + ":"@ + decimal((self.data.cursor.col + 1) as nat)
    }

    pub open spec fn spec_file_info(&self) -> Seq<char> {
        " "@ + shown_name(self.data.document.path) + if self.data.document.modified {
            " [+]"@
        } else {
            Seq::empty()
        }
    }

    pub open spec fn spec_position(&self) -> Seq<char> {
        if self.data.is_active {
            self.spec_diag_text() + " "@ + self.spec_row_col() + " "@
        } else {
            " "@ + self.spec_row_col() + " "@
        }
    }

    /// The texts of the status line.
    pub fn content(&self) -> (r: StatusText)
        requires
            self.data.cursor.row < usize::MAX,
            self.data.cursor.col < usize::MAX,
        ensures
            match r.mode_label {
                Some(l) => self.data.is_active && l@ == mode_label(self.data.mode),
                None => !self.data.is_active,
            },
            r.file_info@ == self.spec_file_info(),
            r.position@ == self.spec_position(),
    {
        proof {
            reveal_strlit(" NORMAL ");
            reveal_strlit(" INSERT ");
            reveal_strlit(" VISUAL ");
            reveal_strlit(" V-LINE ");
            reveal_strlit(" COMMAND ");
            reveal_strlit(" SEARCH ");
            reveal_strlit(" ");
            reveal_strlit(" [+]");
            reveal_strlit(" E:");
            reveal_strlit(" W:");
            reveal_strlit(":");
        }
        let mode_label = if self.data.is_active {
            let label = match self.data.mode {
                Mode::Normal => " NORMAL ",
                Mode::Insert => " INSERT ",
                Mode::Visual => " VISUAL ",
                Mode::VisualLine => " V-LINE ",
                Mode::Command => " COMMAND ",
                Mode::Search => " SEARCH ",
            };
            Some(String::from_str(label))
        } else {
            None
        };
        let mut file_info = String::from_str(" ");
        file_info.append(self.data.document.file_name());
        if self.data.document.modified {
            file_info.append(" [+]");
        }
        let mut row_col = decimal_string(self.data.cursor.row as u64 + 1);
        row_col.append(":");
        let col = decimal_string(self.data.cursor.col as u64 + 1);
        row_col.append(col.as_str());
        let mut position = String::new();
        if self.data.is_active {
            let errors = count_with_severity(self.data.diagnostics, 1);
            let warnings = count_with_severity(self.data.diagnostics, 2);
            if errors > 0 || warnings > 0 {
                position.append(" E:");
                let e = decimal_string(errors as u64);
                position.append(e.as_str());
                position.append(" W:");
                let w = decimal_string(warnings as u64);
                position.append(w.as_str());
            }
        }
        position.append(" ");
        position.append(row_col.as_str());
        position.append(" ");
        proof {
            assert(file_info@ =~= self.spec_file_info());
            assert(position@ =~= self.spec_position());
        }
        StatusText { mode_label, file_info, position }
    }
}

} // verus!
