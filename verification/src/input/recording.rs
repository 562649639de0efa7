//! What macro recording keeps of the keys typed.
use vstd::prelude::*;

use crate::editor::state::EditorModel;
use crate::input::command::Command;
use crate::input::dispatch::{
    command_line_effect, edit_effect, executed, is_completion_command, is_edit, is_motion,
    other_effect, spec_app_step, spec_execute, stops_recording,
};
use crate::input::editing::{
    is_line_edit, is_operator, is_register_command, is_text_motion, line_edit_effect,
    operator_effect, register_effect,
};
use crate::input::keymap::{spec_map_key, KeymapView};
use crate::input::spec_track_change;
use crate::key::KeyInput;

verus! {

/// While a macro is recorded, every key but the one that stops the recording
/// joins the recorded keys, whatever the key does (unless it starts or stops
/// a recording itself).
#[verifier::rlimit(100)]
pub proof fn law_recording_keeps_keys(m: EditorModel, key: KeyInput)
    requires
        m.keys.recording_macro is Some,
        !stops_recording(m, key),
        !(spec_map_key(m.keys, key).1 matches Some(Command::StartMacro(_))),
        spec_map_key(m.keys, key).1 != Some(Command::StopMacro),
    ensures
        spec_app_step(m, key).0.macro_buffer == m.macro_buffer.push(key),
{
    reveal(spec_execute);
    let m1 = EditorModel { macro_buffer: m.macro_buffer.push(key), ..m };
    let (keys2, cmd) = spec_map_key(m1.keys, key);
    let m2 = EditorModel { keys: keys2, ..m1 };
    if let Some(c) = cmd {
        let m3 = if !is_completion_command(c) && m2.keys.showing_completion {
            EditorModel { keys: KeymapView { showing_completion: false, ..m2.keys }, ..m2 }
        } else {
            m2
        };
        let m0 = EditorModel { status: None, tracker: spec_track_change(m3.tracker, c), ..m3 };
        lemma_effects_keep_macro_buffer(m0, c);
    }
}

/// The commands other than starting and stopping a recording leave the
/// recorded keys alone.
proof fn lemma_effects_keep_macro_buffer(m: EditorModel, c: Command)
    requires
        !(c matches Command::StartMacro(_)),
        c != Command::StopMacro,
    ensures
        executed(m, c).0.macro_buffer == m.macro_buffer,
{
    if is_motion(c) || is_text_motion(c) {
    } else if is_edit(c) {
        reveal(edit_effect);
    } else if is_line_edit(c) {
        reveal(line_edit_effect);
    } else if is_register_command(c) {
        reveal(register_effect);
    } else if is_operator(c) {
        reveal(operator_effect);
    } else {
        lemma_other_keeps_macro_buffer(m, c);
    }
}

#[verifier::rlimit(100)]
proof fn lemma_other_keeps_macro_buffer(m: EditorModel, c: Command)
    requires
        !(c matches Command::StartMacro(_)),
        c != Command::StopMacro,
    ensures
        other_effect(m, c).0.macro_buffer == m.macro_buffer,
{
    reveal(other_effect);
    reveal(command_line_effect);
}

} // verus!
