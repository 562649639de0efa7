//! The diagnostics list popup: one line per diagnostic with its severity,
//! position and message, in a frame centred over the text area.
use vstd::prelude::*;
use vstd::string::StringExecFns;

use crate::buffer::rope::{byte_len, utf8_len};
use crate::editor::pane::AreaRect;
use crate::lsp::transport::{decimal, decimal_string};
use crate::lsp::LspDiagnostic;
use crate::ui::editor_view::pad_left;
use crate::ui::popup::{max_int, min_int, sat_sub, scroll_offset, spec_scroll_offset};

verus! {

pub struct DiagnosticsPopup<'a> {
    pub showing: bool,
    pub diagnostics: &'a [LspDiagnostic],
    /// The selected entry of the list.
    pub selected: usize,
}

/// The color of a list line.
#[derive(Debug, Clone, Copy, PartialEq, Eq, Structural)]
pub enum DiagLineLook {
    Error,
    Warning,
    Other,
}

/// The popup as laid out: its frame, its title, and the lines shown (the
/// index of the diagnostic, its label, whether it is selected, its color).
pub struct DiagnosticsLayout {
    pub rect: AreaRect,
    pub title: String,
    pub lines: Vec<(usize, String, bool, DiagLineLook)>,
}

pub open spec fn severity_icon(sev: u8) -> char {
    if sev == 1 {
        'E'
    } else if sev == 2 {
        'W'
    } else if sev == 3 {
        'I'
    } else {
        '?'
    }
}

pub open spec fn line_look(sev: u8) -> DiagLineLook {
    if sev == 1 {
        DiagLineLook::Error
    } else if sev == 2 {
        DiagLineLook::Warning
    } else {
        DiagLineLook::Other
    }
}

/// `s` padded on the right with spaces to at least `w` chars.
pub open spec fn pad_right(s: Seq<char>, w: nat) -> Seq<char> {
    if s.len() >= w {
        s
    } else {
        s + Seq::new((w - s.len()) as nat, |i: int| ' ')
    }
}

/// The number of chars that make up the first `b` bytes of `m`, when `b`
/// falls between chars.
pub open spec fn chars_in_bytes(m: Seq<char>, b: nat) -> Option<int> {
    if exists|k: int| 0 <= k <= m.len() && byte_len(m.take(k)) == b {
        Some(choose|k: int| 0 <= k <= m.len() && byte_len(m.take(k)) == b)
    } else {
        None
    }
}

/// A message as listed: one of more than 60 bytes is cut to its first 57
/// bytes and `...`; `None` when byte 57 falls inside a char.
pub open spec fn shown_message(m: Seq<char>) -> Option<Seq<char>> {
    if byte_len(m) > 60 {
        match chars_in_bytes(m, 57) {
            Some(k) => Some(m.take(k) + "..."@),
            None => None,
        }
    } else {
        Some(m)
    }
}

/// The list line of a diagnostic: severity letter, one-based line number
/// right-aligned in 4 columns, column number left-aligned in 3, message.
pub open spec fn spec_label(d: LspDiagnostic) -> Option<Seq<char>> {
    match shown_message(d.message@) {
        Some(msg) => if d.start_line < u32::MAX && d.start_col < u32::MAX {
            Some(
                seq![severity_icon(d.severity), ' '] + pad_left(decimal((d.start_line + 1) as nat), 4)
                    + ":"@ + pad_right(decimal((d.start_col + 1) as nat), 3) + " "@ + msg,
            )
        } else {
            None
        },
        None => None,
    }
}

proof fn lemma_byte_len_concat(a: Seq<char>, b: Seq<char>)
    ensures
        byte_len(a + b) == byte_len(a) + byte_len(b),
    decreases a.len(),
{
    if a.len() > 0 {
        assert((a + b).skip(1) =~= a.skip(1) + b);
        lemma_byte_len_concat(a.skip(1), b);
    } else {
        assert(a + b =~= b);
    }
}

proof fn lemma_byte_len_step(s: Seq<char>, k: int)
    requires
        0 <= k < s.len(),
    ensures
        byte_len(s.take(k + 1)) == byte_len(s.take(k)) + utf8_len(s[k]),
{
    assert(s.take(k + 1) =~= s.take(k) + seq![s[k]]);
    lemma_byte_len_concat(s.take(k), seq![s[k]]);
    assert(seq![s[k]].skip(1) =~= Seq::<char>::empty());
    assert(byte_len(Seq::<char>::empty()) == 0);
    assert(byte_len(seq![s[k]]) == utf8_len(s[k]) + byte_len(seq![s[k]].skip(1)));
}

proof fn lemma_byte_len_mono(s: Seq<char>, j: int, k: int)
    requires
        0 <= j <= k <= s.len(),
    ensures
        byte_len(s.take(j)) <= byte_len(s.take(k)),
        j < k ==> byte_len(s.take(j)) < byte_len(s.take(k)),
    decreases k - j,
{
    if j < k {
        lemma_byte_len_mono(s, j, k - 1);
        lemma_byte_len_step(s, k - 1);
    }
}

fn utf8_len_of(c: char) -> (n: usize)
    ensures
        n == utf8_len(c),
{
    let v = c as u32;
    if v < 0x80 {
        1
    } else if v < 0x800 {
        2
    } else if v < 0x10000 {
        3
    } else {
        4
    }
}

/// The message as the list shows it.
fn shown_message_exec(m: &str) -> (r: Option<String>)
    ensures
        match r {
            Some(s) => shown_message(m@) == Some(s@),
            None => shown_message(m@) is None,
        },
{
    let n = m.unicode_len();
    let ghost s = m@;
    // The byte length, up to 61 (all that matters is whether it passes 60).
    let mut total: usize = 0;
    let mut i = 0usize;
    let mut cut: Option<usize> = None;
    while i < n && total <= 60
        invariant
            s == m@,
            n == s.len(),
            i <= n,
            total == byte_len(s.take(i as int)),
            total <= 64,
            match cut {
                Some(k) => k <= i && byte_len(s.take(k as int)) == 57,
                None => forall|k: int| 0 <= k < i ==> #[trigger] byte_len(s.take(k)) != 57,
            },
        decreases n - i,
    {
        if total == 57 && cut.is_none() {
            cut = Some(i);
        }
        proof {
            lemma_byte_len_step(s, i as int);
        }
        total = total + utf8_len_of(m.get_char(i));
        i += 1;
    }
    proof {
        assert(s.take(n as int) =~= s);
        if i < n {
            lemma_byte_len_mono(s, i as int, n as int);
        }
        if total > 60 && cut is None {
            assert forall|k: int| 0 <= k <= s.len() implies #[trigger] byte_len(s.take(k)) != 57 by {
                if k >= i {
                    lemma_byte_len_mono(s, i as int, k);
                }
            }
        }
    }
    if total <= 60 {
        return Some(String::from_str(m));
    }
    match cut {
        Some(k) => {
            let head = m.substring_char(0, k);
            let mut out = String::from_str(head);
            let dots = "...";
            proof {
                reveal_strlit("...");
                assert(byte_len(s) > 60);
                let c = choose|j: int| 0 <= j <= s.len() && byte_len(s.take(j)) == 57;
                assert(0 <= c <= s.len() && byte_len(s.take(c)) == 57);
                if c < k {
                    lemma_byte_len_mono(s, c, k as int);
                } else if c > k {
                    lemma_byte_len_mono(s, k as int, c);
                }
                assert(c == k);
            }
            out.append(dots);
            Some(out)
        },
        None => None,
    }
}


fn spaces(n: usize) -> (r: String)
    ensures
        r@ == Seq::new(n as nat, |i: int| ' '),
{
    let sp = " ";
    proof {
        reveal_strlit(" ");
    }
    let mut out = String::new();
    let mut k = 0usize;
    while k < n
        invariant
            k <= n,
            sp@ == seq![' '],
            out@ =~= Seq::new(k as nat, |i: int| ' '),
        decreases n - k,
    {
        out.append(sp);
        k += 1;
    }
    out
}

/// The list line of a diagnostic; `None` where the message cannot be cut
/// between chars or a position has no one-based number.
pub fn diagnostic_label(d: &LspDiagnostic) -> (r: Option<String>)
    ensures
        match r {
            Some(l) => spec_label(*d) == Some(l@),
            None => spec_label(*d) is None,
        },
{
    let msg = shown_message_exec(d.message.as_str())?;
    if d.start_line == u32::MAX || d.start_col == u32::MAX {
        return None;
    }
    let head = if d.severity == 1 {
        "E "
    } else if d.severity == 2 {
        "W "
    } else if d.severity == 3 {
        "I "
    } else {
        "? "
    };
    proof {
        reveal_strlit("E ");
        reveal_strlit("W ");
        reveal_strlit("I ");
        reveal_strlit("? ");
        reveal_strlit(":");
        reveal_strlit(" ");
    }
    let mut out = String::from_str(head);
    let line = decimal_string(d.start_line as u64 + 1);
    let ln = line.as_str().unicode_len();
    if ln < 4 {
        let pad = spaces(4 - ln);
        out.append(pad.as_str());
    }
    out.append(line.as_str());
    out.append(":");
    let col = decimal_string(d.start_col as u64 + 1);
    out.append(col.as_str());
    let cn = col.as_str().unicode_len();
    if cn < 3 {
        let pad = spaces(3 - cn);
        out.append(pad.as_str());
    }
    out.append(" ");
    out.append(msg.as_str());
    proof {
        let l = decimal((d.start_line + 1) as nat);
        let c = decimal((d.start_col + 1) as nat);
        assert(pad_left(l, 4) =~= if l.len() < 4 { Seq::new((4 - l.len()) as nat, |i: int| ' ') + l } else { l });
        assert(pad_right(c, 3) =~= if c.len() < 3 { c + Seq::new((3 - c.len()) as nat, |i: int| ' ') } else { c });
        assert(out@ =~= seq![severity_icon(d.severity), ' '] + pad_left(l, 4) + ":"@ + pad_right(c, 3) + " "@ + msg@);
    }
    Some(out)
}

/// The number of UTF-8 bytes of a text, saturating at the largest index.
fn byte_count(m: &str) -> (n: usize)
    ensures
        n == if byte_len(m@) <= usize::MAX {
            byte_len(m@)
        } else {
            usize::MAX as nat
        },
{
    let len = m.unicode_len();
    let mut total: usize = 0;
    let mut i = 0usize;
    while i < len
        invariant
            len == m@.len(),
            i <= len,
            total == if byte_len(m@.take(i as int)) <= usize::MAX {
                byte_len(m@.take(i as int))
            } else {
                usize::MAX as nat
            },
        decreases len - i,
    {
        proof {
            lemma_byte_len_step(m@, i as int);
        }
        total = total.saturating_add(utf8_len_of(m.get_char(i)));
        i += 1;
    }
    proof {
        assert(m@.take(len as int) =~= m@);
    }
    total
}


/// What the popup shows.
pub enum DiagnosticsPopupView {
    /// Nothing: the popup is closed or there are no diagnostics.
    Hidden,
    /// A diagnostic whose line cannot be formed (see `diagnostic_label`).
    BadLabel(usize),
    Shown(DiagnosticsLayout),
}

pub struct DiagnosticsLayoutView {
    pub rect: AreaRect,
    pub title: Seq<char>,
    pub lines: Seq<(usize, Seq<char>, bool, DiagLineLook)>,
}

pub open spec fn layout_view(l: DiagnosticsLayout) -> DiagnosticsLayoutView {
    DiagnosticsLayoutView {
        rect: l.rect,
        title: l.title@,
        lines: Seq::new(l.lines@.len(), |i: int| (l.lines@[i].0, l.lines@[i].1@, l.lines@[i].2, l.lines@[i].3)),
    }
}

/// The byte length of a line, saturating at the largest index.
pub open spec fn sat_bytes(s: Seq<char>) -> int {
    if byte_len(s) <= usize::MAX {
        byte_len(s) as int
    } else {
        usize::MAX as int
    }
}

/// The longest of the first `n` labels, in bytes.
pub open spec fn max_label_bytes(labels: Seq<Seq<char>>, n: nat) -> int
    decreases n,
{
    if n == 0 || n > labels.len() {
        0
    } else {
        max_int(max_label_bytes(labels, (n - 1) as nat), sat_bytes(labels[n - 1]))
    }
}

/// A laid-out line is the line of entry `idx`, with its label and color,
/// marked when `idx` is the selected entry.
pub open spec fn shown_line(
    line: (usize, String, bool, DiagLineLook),
    idx: int,
    label: Seq<char>,
    selected: usize,
    d: LspDiagnostic,
) -> bool {
    &&& line.0 == idx
    &&& line.1@ == label
    &&& line.2 == (idx == selected)
    &&& line.3 == line_look(d.severity)
}

impl<'a> DiagnosticsPopup<'a> {
    pub fn new(showing: bool, diagnostics: &'a [LspDiagnostic], selected: usize) -> (p: Self)
        ensures
            p.showing == showing,
            p.diagnostics == diagnostics,
            p.selected == selected,
    {
        Self { showing, diagnostics, selected }
    }

    /// The lines of all diagnostics, when each can be formed.
    pub open spec fn labels(&self) -> Seq<Seq<char>> {
        Seq::new(self.diagnostics@.len(), |i: int| spec_label(self.diagnostics@[i]).unwrap())
    }

    /// The frame of the popup in `area`: up to 20 lines high (and 2 rows
    /// less than the area), as wide as the longest line and 4 more (at least
    /// 30, and 4 columns less than the area), centred.
    pub open spec fn spec_rect(&self, area: AreaRect) -> AreaRect {
        let n = self.diagnostics@.len() as int;
        let h = min_int(min_int(20, n) + 2, sat_sub(area.height, 2));
        let w = min_int(max_int(max_label_bytes(self.labels(), n as nat) + 4, 30), sat_sub(area.width, 4));
        AreaRect {
            x: (area.x + (sat_sub(area.width, w as u16)) / 2) as u16,
            y: (area.y + (sat_sub(area.height, h as u16)) / 2) as u16,
            width: w as u16,
            height: h as u16,
        }
    }

    /// The popup in `area`: the frame, the title with the number of
    /// diagnostics, and the lines that fit, scrolled to keep the selected one
    /// in view.
    pub open spec fn spec_layout(&self, area: AreaRect) -> Option<DiagnosticsLayoutView> {
        let n = self.diagnostics@.len();
        let rect = self.spec_rect(area);
        let content = (rect.height - 2) as usize;
        let scroll = spec_scroll_offset(self.selected, content);
        let count = if scroll < n {
            min_int(n - scroll, content as int)
        } else {
            0
        };
        if !self.showing || n == 0 {
            None
        } else {
            Some(
                DiagnosticsLayoutView {
                    rect,
                    title: " Diagnostics ("@ + decimal(n) + ") "@,
                    lines: Seq::new(
                        count as nat,
                        |i: int|
                            (
                                (scroll + i) as usize,
                                self.labels()[scroll + i],
                                scroll + i == self.selected,
                                line_look(self.diagnostics@[scroll + i].severity),
                            ),
                    ),
                },
            )
        }
    }

    /// Lays out the popup in `area`, which is at least 4 rows high when the
    /// popup shows a non-empty list.
    pub fn layout(&self, area: AreaRect) -> (r: DiagnosticsPopupView)
        requires
            area.fits(),
            self.showing && self.diagnostics@.len() > 0 ==> area.height >= 4,
        ensures
            match r {
                DiagnosticsPopupView::Hidden => !self.showing || self.diagnostics@.len() == 0,
                DiagnosticsPopupView::BadLabel(i) => self.showing && i < self.diagnostics@.len()
                    && spec_label(self.diagnostics@[i as int]) is None && (forall|k: int|
                    0 <= k < i ==> spec_label(#[trigger] self.diagnostics@[k]) is Some),
                DiagnosticsPopupView::Shown(l) => (forall|i: int|
                    0 <= i < self.diagnostics@.len() ==> spec_label(#[trigger] self.diagnostics@[i]) is Some)
                    && self.spec_layout(area) == Some(layout_view(l)),
            },
    {
        let n = self.diagnostics.len();
        if !self.showing || n == 0 {
            return DiagnosticsPopupView::Hidden;
        }
        let mut labels: Vec<String> = Vec::new();
        let mut max_label: usize = 0;
        let mut i = 0usize;
        while i < n
            invariant
                self.showing,
                n == self.diagnostics@.len(),
                i <= n,
                labels@.len() == i,
                forall|k: int| 0 <= k < i ==> spec_label(#[trigger] self.diagnostics@[k]) == Some(labels@[k]@),
                max_label == max_label_bytes(Seq::new(i as nat, |k: int| labels@[k]@), i as nat),
            decreases n - i,
        {
            let label = match diagnostic_label(&self.diagnostics[i]) {
                Some(l) => l,
                None => return DiagnosticsPopupView::BadLabel(i),
            };
            let b = byte_count(label.as_str());
            let ghost before = Seq::new(i as nat, |k: int| labels@[k]@);
            if b > max_label {
                max_label = b;
            }
            labels.push(label);
            proof {
                let after = Seq::new((i + 1) as nat, |k: int| labels@[k]@);
                assert(after.drop_last() =~= before);
                assert(after.take(i as int) =~= before);
                lemma_max_label_prefix(after, before, i as nat);
            }
            i += 1;
        }
        proof {
            assert(Seq::new(n as nat, |k: int| labels@[k]@) =~= self.labels());
        }
        let max_items: u16 = if n < 20 {
            n as u16
        } else {
            20
        };
        let h_cap = area.height - 2;
        let height = if max_items + 2 < h_cap {
            max_items + 2
        } else {
            h_cap
        };
        let w_cap = area.width.saturating_sub(4);
        let wide: usize = if max_label < 26 {
            30
        } else if max_label < 65531 {
            max_label + 4
        } else {
            65535
        };
        let width: u16 = if wide < w_cap as usize {
            wide as u16
        } else {
            w_cap
        };
        let x = area.x + (area.width.saturating_sub(width)) / 2;
        let y = area.y + (area.height.saturating_sub(height)) / 2;
        let rect = AreaRect { x, y, width, height };
        let content = (height - 2) as usize;
        // An empty window shows nothing, wherever it would start.
        let scroll = if content == 0 {
            0
        } else {
            scroll_offset(self.selected, content)
        };
        let mut lines: Vec<(usize, String, bool, DiagLineLook)> = Vec::new();
        let mut k = 0usize;
        while k < content && scroll < n && k < n - scroll
            invariant
                n == self.diagnostics@.len(),
                labels@.len() == n,
                forall|j: int| 0 <= j < n ==> spec_label(#[trigger] self.diagnostics@[j]) == Some(labels@[j]@),
                lines@.len() == k,
                k <= content,
                scroll < n ==> k <= n - scroll,
                scroll >= n ==> k == 0,
                content > 0 ==> scroll == spec_scroll_offset(self.selected, content),
                forall|j: int|
                    0 <= j < k ==> #[trigger] shown_line(
                        lines@[j],
                        scroll + j,
                        labels@[scroll + j]@,
                        self.selected,
                        self.diagnostics@[scroll + j],
                    ),
            decreases content - k,
        {
            let idx = scroll + k;
            let sev = self.diagnostics[idx].severity;
            let look = if sev == 1 {
                DiagLineLook::Error
            } else if sev == 2 {
                DiagLineLook::Warning
            } else {
                DiagLineLook::Other
            };
            let label = labels[idx].clone();
            let ghost before = lines@;
            lines.push((idx, label, idx == self.selected, look));
            proof {
                assert(shown_line(lines@[k as int], scroll + k, labels@[scroll + k]@, self.selected, self.diagnostics@[scroll + k]));
                assert forall|j: int| 0 <= j < k implies #[trigger] lines@[j] == before[j] by {}
            }
            k += 1;
        }
        let mut title = String::from_str(" Diagnostics (");
        let count = decimal_string(n as u64);
        title.append(count.as_str());
        title.append(") ");
        proof {
            reveal_strlit(" Diagnostics (");
            reveal_strlit(") ");
            assert(max_label_bytes(self.labels(), n as nat) == max_label);
            let l = DiagnosticsLayout { rect, title, lines };
            let want = self.spec_layout(area).unwrap();
            assert(rect == self.spec_rect(area));
            assert(layout_view(l).lines.len() == want.lines.len());
            assert forall|j: int| 0 <= j < want.lines.len() implies layout_view(l).lines[j]
                == want.lines[j] by {
                assert(labels@[scroll + j]@ == self.labels()[scroll + j]);
                assert(shown_line(lines@[j], scroll + j, labels@[scroll + j]@, self.selected, self.diagnostics@[scroll + j]));
            }
            assert(layout_view(l).lines =~= want.lines);
        }
        DiagnosticsPopupView::Shown(DiagnosticsLayout { rect, title, lines })
    }
}

proof fn lemma_max_label_prefix(after: Seq<Seq<char>>, before: Seq<Seq<char>>, i: nat)
    requires
        after.len() == i + 1,
        before.len() == i,
        after.drop_last() == before,
    ensures
        max_label_bytes(after, i + 1) == max_int(max_label_bytes(before, i), sat_bytes(after[i as int])),
        max_label_bytes(after, i) == max_label_bytes(before, i),
    decreases i,
{
    lemma_max_label_same(after, before, i);
}

proof fn lemma_max_label_same(a: Seq<Seq<char>>, b: Seq<Seq<char>>, n: nat)
    requires
        n <= a.len(),
        n <= b.len(),
        forall|k: int| 0 <= k < n ==> a[k] == b[k],
    ensures
        max_label_bytes(a, n) == max_label_bytes(b, n),
    decreases n,
{
    if n > 0 {
        lemma_max_label_same(a, b, (n - 1) as nat);
    }
}

} // verus!

verus! {

/// The selected diagnostic is always among the lines shown, marked as
/// selected, when the frame has room for a line.
pub proof fn law_selected_diagnostic_shown(p: DiagnosticsPopup, area: AreaRect)
    requires
        p.showing,
        p.selected < p.diagnostics@.len(),
        p.spec_rect(area).height > 2,
    ensures
        ({
            let l = p.spec_layout(area).unwrap();
            let i = p.selected - spec_scroll_offset(p.selected, (p.spec_rect(area).height - 2) as usize);
            &&& 0 <= i < l.lines.len()
            &&& l.lines[i].0 == p.selected
            &&& l.lines[i].2
        }),
{
    let content = (p.spec_rect(area).height - 2) as usize;
    crate::ui::popup::law_selected_item_in_view(p.selected, content);
}

} // verus!
