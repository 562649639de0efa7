//! Keyboard input: modes, commands, the keymap, and the record of the last
//! change that `.` repeats.
pub mod command;
pub mod command_laws;
pub mod dispatch;
pub mod editing;
pub mod keymap;
pub mod mode;
pub mod recording;

use vstd::prelude::*;

use self::command::Command;

pub use self::dispatch::{app_step, execute};

verus! {

/// The last change, as `.` repeats it.
#[derive(Debug, Clone)]
pub enum LastChange {
    /// A normal-mode command that changed the text.
    NormalCommand(Command),
    /// A command that entered insert mode, and the keys typed until Esc.
    InsertSession { entry_cmd: Command, chars: Vec<char> },
}

/// The mathematical value of a last change.
pub enum LastChangeView {
    NormalCommand(Command),
    InsertSession { entry_cmd: Command, chars: Seq<char> },
}

impl View for LastChange {
    type V = LastChangeView;

    open spec fn view(&self) -> LastChangeView {
        match *self {
            LastChange::NormalCommand(c) => LastChangeView::NormalCommand(c),
            LastChange::InsertSession { entry_cmd, chars } => LastChangeView::InsertSession {
                entry_cmd,
                chars: chars@,
            },
        }
    }
}

/// What the editor keeps to repeat the last change.
pub struct ChangeTracker {
    pub last_change: Option<LastChange>,
    /// Whether an insert session is being recorded.
    pub recording_insert: bool,
    /// The command that started the insert session.
    pub insert_entry_cmd: Option<Command>,
    /// The keys typed in the insert session so far.
    pub insert_record: Vec<char>,
}

/// The mathematical value of a change tracker.
pub struct TrackerView {
    pub last_change: Option<LastChangeView>,
    pub recording_insert: bool,
    pub insert_entry_cmd: Option<Command>,
    pub insert_record: Seq<char>,
}

impl View for ChangeTracker {
    type V = TrackerView;

    open spec fn view(&self) -> TrackerView {
        TrackerView {
            last_change: match self.last_change {
                Some(c) => Some(c@),
                None => None,
            },
            recording_insert: self.recording_insert,
            insert_entry_cmd: self.insert_entry_cmd,
            insert_record: self.insert_record@,
        }
    }
}

/// Normal-mode commands that change the text directly.
pub open spec fn is_normal_change(c: Command) -> bool {
    match c {
        Command::DeleteCharForward | Command::DeleteLine | Command::DeleteMotion(_)
        | Command::IndentLine | Command::DedentLine | Command::JoinLines | Command::ReplaceChar(_)
        | Command::PasteAfter | Command::PasteBefore | Command::ToggleCaseChar
        | Command::CaseChange(_, _) | Command::CaseChangeLine(_) | Command::IncrementNumber
        | Command::DecrementNumber => true,
        _ => false,
    }
}

/// Commands that enter insert mode.
pub open spec fn starts_insert(c: Command) -> bool {
    match c {
        Command::EnterInsertMode | Command::EnterInsertModeAfter | Command::EnterInsertModeLineEnd
        | Command::EnterInsertModeFirstNonBlank | Command::InsertNewlineBelow
        | Command::InsertNewlineAbove | Command::ChangeMotion(_) => true,
        _ => false,
    }
}

/// The key an insert session records for a typing command: the char, a
/// backspace, a newline or a tab.
pub open spec fn recorded_key(c: Command) -> Option<char> {
    match c {
        Command::InsertChar(ch) => Some(ch),
        Command::DeleteCharBackward => Some('\x08'),
        Command::InsertNewline => Some('\n'),
        Command::InsertTab => Some('\t'),
        _ => None,
    }
}

/// How a command updates the record of the last change.
pub open spec fn spec_track_change(t: TrackerView, c: Command) -> TrackerView {
    if is_normal_change(c) {
        TrackerView { last_change: Some(LastChangeView::NormalCommand(c)), ..t }
    } else if starts_insert(c) {
        TrackerView {
            recording_insert: true,
            insert_entry_cmd: Some(c),
            insert_record: Seq::empty(),
            ..t
        }
    } else if t.recording_insert && recorded_key(c) is Some {
        TrackerView { insert_record: t.insert_record.push(recorded_key(c).unwrap()), ..t }
    } else if t.recording_insert && c == Command::ExitToNormalMode {
        match t.insert_entry_cmd {
            Some(e) => TrackerView {
                last_change: Some(
                    LastChangeView::InsertSession { entry_cmd: e, chars: t.insert_record },
                ),
                recording_insert: false,
                insert_entry_cmd: None,
                insert_record: t.insert_record,
            },
            None => TrackerView { recording_insert: false, ..t },
        }
    } else {
        t
    }
}

fn is_normal_change_exec(c: &Command) -> (r: bool)
    ensures
        r == is_normal_change(*c),
{
    match c {
        Command::DeleteCharForward | Command::DeleteLine | Command::DeleteMotion(_)
        | Command::IndentLine | Command::DedentLine | Command::JoinLines | Command::ReplaceChar(_)
        | Command::PasteAfter | Command::PasteBefore | Command::ToggleCaseChar
        | Command::CaseChange(_, _) | Command::CaseChangeLine(_) | Command::IncrementNumber
        | Command::DecrementNumber => true,
        _ => false,
    }
}

fn starts_insert_exec(c: &Command) -> (r: bool)
    ensures
        r == starts_insert(*c),
{
    match c {
        Command::EnterInsertMode | Command::EnterInsertModeAfter | Command::EnterInsertModeLineEnd
        | Command::EnterInsertModeFirstNonBlank | Command::InsertNewlineBelow
        | Command::InsertNewlineAbove | Command::ChangeMotion(_) => true,
        _ => false,
    }
}

fn recorded_key_exec(c: &Command) -> (r: Option<char>)
    ensures
        r == recorded_key(*c),
{
    match c {
        Command::InsertChar(ch) => Some(*ch),
        Command::DeleteCharBackward => Some('\x08'),
        Command::InsertNewline => Some('\n'),
        Command::InsertTab => Some('\t'),
        _ => None,
    }
}

impl ChangeTracker {
    pub fn new() -> (t: Self)
        ensures
            t@.last_change is None,
            !t.recording_insert,
            t.insert_entry_cmd is None,
            t@.insert_record.len() == 0,
    {
        ChangeTracker {
            last_change: None,
            recording_insert: false,
            insert_entry_cmd: None,
            insert_record: Vec::new(),
        }
    }

    /// Tracks changes for `.` (repeat last change).
    pub fn track_change(&mut self, cmd: &Command)
        ensures
            final(self)@ == spec_track_change(old(self)@, *cmd),
    {
        if is_normal_change_exec(cmd) {
            self.last_change = Some(LastChange::NormalCommand(*cmd));
        } else if starts_insert_exec(cmd) {
            self.recording_insert = true;
            self.insert_entry_cmd = Some(*cmd);
            self.insert_record.clear();
        } else if self.recording_insert {
            if let Some(k) = recorded_key_exec(cmd) {
                self.insert_record.push(k);
            } else if *cmd == Command::ExitToNormalMode {
                self.recording_insert = false;
                if let Some(entry) = self.insert_entry_cmd.take() {
                    self.last_change = Some(
                        LastChange::InsertSession { entry_cmd: entry, chars: copy_chars(&self.insert_record) },
                    );
                }
            }
        }
    }
}

fn copy_chars(v: &Vec<char>) -> (r: Vec<char>)
    ensures
        r@ == v@,
{
    let mut out: Vec<char> = Vec::new();
    let mut i = 0usize;
    while i < v.len()
        invariant
            i <= v@.len(),
            out@ == v@.take(i as int),
        decreases v@.len() - i,
    {
        out.push(v[i]);
        i += 1;
        proof {
            assert(out@ =~= v@.take(i as int));
        }
    }
    proof {
        assert(v@.take(v@.len() as int) =~= v@);
    }
    out
}

/// The tracker after the commands `cmds`, in order.
pub open spec fn track_all(t: TrackerView, cmds: Seq<Command>) -> TrackerView
    decreases cmds.len(),
{
    if cmds.len() == 0 {
        t
    } else {
        spec_track_change(track_all(t, cmds.drop_last()), cmds.last())
    }
}

/// The keys recorded for typing commands.
pub open spec fn recorded_keys(cmds: Seq<Command>) -> Seq<char> {
    Seq::new(cmds.len(), |i: int| recorded_key(cmds[i]).unwrap())
}

proof fn lemma_typing_records(t: TrackerView, entry: Command, typed: Seq<Command>, k: int)
    requires
        t.recording_insert,
        t.insert_entry_cmd == Some(entry),
        t.insert_record.len() == 0,
        0 <= k <= typed.len(),
        forall|i: int| 0 <= i < typed.len() ==> #[trigger] recorded_key(typed[i]) is Some,
    ensures
        ({
            let r = track_all(t, typed.take(k));
            &&& r.recording_insert
            &&& r.insert_entry_cmd == Some(entry)
            &&& r.insert_record == recorded_keys(typed.take(k))
        }),
    decreases k,
{
    if k == 0 {
        assert(recorded_keys(typed.take(0)) =~= Seq::<char>::empty());
    } else {
        lemma_typing_records(t, entry, typed, k - 1);
        assert(typed.take(k).drop_last() =~= typed.take(k - 1));
        assert(typed.take(k).last() == typed[k - 1]);
        assert(recorded_key(typed[k - 1]) is Some);
        assert(!is_normal_change(typed[k - 1]));
        assert(!starts_insert(typed[k - 1]));
        assert(recorded_keys(typed.take(k)) =~= recorded_keys(typed.take(k - 1)).push(
            recorded_key(typed[k - 1]).unwrap(),
        ));
    }
}

/// An insert session is what `.` repeats: the command that entered insert
/// mode, then the keys typed (chars, backspaces, newlines, tabs), recorded
/// when Esc leaves insert mode.
pub proof fn law_insert_session_is_recorded(t: TrackerView, entry: Command, typed: Seq<Command>)
    requires
        starts_insert(entry),
        forall|i: int| 0 <= i < typed.len() ==> #[trigger] recorded_key(typed[i]) is Some,
    ensures
        ({
            let after = spec_track_change(
                track_all(spec_track_change(t, entry), typed),
                Command::ExitToNormalMode,
            );
            &&& after.last_change == Some(
                LastChangeView::InsertSession { entry_cmd: entry, chars: recorded_keys(typed) },
            )
            &&& !after.recording_insert
        }),
{
    let t1 = spec_track_change(t, entry);
    lemma_typing_records(t1, entry, typed, typed.len() as int);
    assert(typed.take(typed.len() as int) =~= typed);
}

/// A normal-mode command that changes the text becomes the last change.
pub proof fn law_normal_change_is_recorded(t: TrackerView, c: Command)
    requires
        is_normal_change(c),
    ensures
        spec_track_change(t, c).last_change == Some(LastChangeView::NormalCommand(c)),
{
}

} // verus!
