//! Applying a language server's text edits to a document's text.
use vstd::prelude::*;

use ropey::Rope;

use crate::buffer::rope::{line_count, line_start, rope_remove, rope_text};
use crate::editor::document::Document;
use crate::editor::history::{undo_after_save, History};
use crate::editor::selection::Position;
use crate::lsp::json::{json_as_array, json_as_str, json_get, json_get_opt, JsonValue, JsonView};
use crate::lsp::{
    collected_edits, concat_map, doc_change_fn, parse_rename_edits, sort_desc, spec_parse_rename_edits, text_edit_views,
    LspTextEdit, TextEditView,
};

verus! {

pub open spec fn min_int(a: int, b: int) -> int {
    if a <= b {
        a
    } else {
        b
    }
}

/// `t` with `t[s..e]` replaced by `new_text` (nothing removed when `s >= e`).
pub open spec fn replace_range(t: Seq<char>, s: int, e: int, new_text: Seq<char>) -> Seq<char> {
    let removed = if s < e {
        t.take(s) + t.skip(e)
    } else {
        t
    };
    if new_text.len() > 0 {
        removed.take(s) + new_text + removed.skip(s)
    } else {
        removed
    }
}

/// One edit applied with its positions kept inside the text: an edit that
/// starts past the last line is dropped, its end line is capped at the last
/// line, and both ends at the end of the text.
pub open spec fn apply_clamped(t: Seq<char>, e: TextEditView) -> Seq<char> {
    let lc = line_count(t) as int;
    if e.start_line >= lc {
        t
    } else {
        let end_line = min_int(e.end_line as int, lc - 1);
        let s = min_int(line_start(t, e.start_line as int) + e.start_col, t.len() as int);
        let en = min_int(line_start(t, end_line) + e.end_col, t.len() as int);
        replace_range(t, s, en, e.new_text)
    }
}

/// The edits applied one after the other, in order.
pub open spec fn apply_all_clamped(t: Seq<char>, edits: Seq<TextEditView>) -> Seq<char>
    decreases edits.len(),
{
    if edits.len() == 0 {
        t
    } else {
        apply_clamped(apply_all_clamped(t, edits.drop_last()), edits.last())
    }
}

/// Whether a rename edit fits the text as given: its lines exist (or are
/// one past the last), its start index is a machine index and, when it
/// inserts text, its start is inside the text.
pub open spec fn rename_edit_fits(t: Seq<char>, e: TextEditView) -> bool {
    let lc = line_count(t) as int;
    let s = line_start(t, e.start_line as int) + e.start_col;
    let en = min_int(line_start(t, e.end_line as int) + e.end_col, t.len() as int);
    &&& e.start_line <= lc
    &&& e.end_line <= lc
    &&& s <= usize::MAX
    &&& (e.new_text.len() > 0 && s >= en ==> s <= t.len())
}

/// A rename edit applied as given: from its start position to its end
/// position (the end capped at the end of the text).
pub open spec fn apply_rename(t: Seq<char>, e: TextEditView) -> Seq<char> {
    let s = line_start(t, e.start_line as int) + e.start_col;
    let en = min_int(line_start(t, e.end_line as int) + e.end_col, t.len() as int);
    replace_range(t, s, en, e.new_text)
}

fn replace_in_rope(rope: &mut Rope, start_idx: usize, end_idx: usize, new_text: &String)
    requires
        end_idx <= rope_text(*old(rope)).len(),
        new_text@.len() > 0 && start_idx >= end_idx ==> start_idx <= rope_text(*old(rope)).len(),
    ensures
        rope_text(*final(rope)) == replace_range(
            rope_text(*old(rope)),
            start_idx as int,
            end_idx as int,
            new_text@,
        ),
{
    if start_idx < end_idx {
        rope_remove(rope, start_idx, end_idx);
    }
    if new_text.as_str().unicode_len() > 0 {
        rope.insert(start_idx, new_text.as_str());
    }
}

/// Applies one edit, keeping its positions inside the text.
pub fn apply_text_edit(rope: &mut Rope, te: &LspTextEdit)
    ensures
        rope_text(*final(rope)) == apply_clamped(rope_text(*old(rope)), te@),
{
    let line_count = rope.len_lines();
    if te.start_line as usize >= line_count {
        return;
    }
    let end_line = if (te.end_line as usize) < line_count - 1 {
        te.end_line as usize
    } else {
        line_count - 1
    };
    let len = rope.len_chars();
    let start_idx = rope.line_to_char(te.start_line as usize).saturating_add(te.start_col as usize);
    let start_idx = if start_idx < len {
        start_idx
    } else {
        len
    };
    let end_idx = rope.line_to_char(end_line).saturating_add(te.end_col as usize);
    let end_idx = if end_idx < len {
        end_idx
    } else {
        len
    };
    replace_in_rope(rope, start_idx, end_idx, &te.new_text);
}

/// Applies edits in order, each with its positions kept inside the text.
pub fn apply_text_edits(rope: &mut Rope, edits: &Vec<LspTextEdit>)
    ensures
        rope_text(*final(rope)) == apply_all_clamped(rope_text(*old(rope)), text_edit_views(edits@)),
{
    let ghost t0 = rope_text(*rope);
    let ghost ev = text_edit_views(edits@);
    let mut i = 0usize;
    while i < edits.len()
        invariant
            i <= edits@.len(),
            ev == text_edit_views(edits@),
            rope_text(*rope) == apply_all_clamped(t0, ev.take(i as int)),
        decreases edits@.len() - i,
    {
        apply_text_edit(rope, &edits[i]);
        proof {
            assert(ev.take(i + 1).drop_last() =~= ev.take(i as int));
            assert(ev.take(i + 1).last() == edits@[i as int]@);
        }
        i += 1;
    }
    proof {
        assert(ev.take(edits@.len() as int) =~= ev);
    }
}

/// Applies a rename edit as given when it fits the text, and says whether
/// it did; an edit that does not fit leaves the text as it was.
pub fn apply_rename_edit(rope: &mut Rope, te: &LspTextEdit) -> (applied: bool)
    ensures
        applied == rename_edit_fits(rope_text(*old(rope)), te@),
        applied ==> rope_text(*final(rope)) == apply_rename(rope_text(*old(rope)), te@),
        !applied ==> rope_text(*final(rope)) == rope_text(*old(rope)),
{
    let line_count = rope.len_lines();
    if te.start_line as usize > line_count || te.end_line as usize > line_count {
        return false;
    }
    let len = rope.len_chars();
    let line_start = rope.line_to_char(te.start_line as usize);
    let start_idx = match line_start.checked_add(te.start_col as usize) {
        Some(s) => s,
        None => {
            return false;
        },
    };
    let end_idx = rope.line_to_char(te.end_line as usize).saturating_add(te.end_col as usize);
    let end_idx = if end_idx < len {
        end_idx
    } else {
        len
    };
    let inserts = te.new_text.as_str().unicode_len() > 0;
    if inserts && start_idx >= end_idx && start_idx > len {
        return false;
    }
    replace_in_rope(rope, start_idx, end_idx, &te.new_text);
    true
}


/// An edit leaves the text before its start as it was; this is why edits
/// applied from the last to the first do not move each other.
pub proof fn law_edit_keeps_text_before_it(t: Seq<char>, e: TextEditView)
    requires
        e.start_line < line_count(t),
    ensures
        ({
            let s = min_int(line_start(t, e.start_line as int) + e.start_col, t.len() as int);
            &&& 0 <= s <= t.len()
            &&& apply_clamped(t, e).len() >= s
            &&& apply_clamped(t, e).take(s) == t.take(s)
        }),
{
    crate::buffer::rope::lemma_line_starts(t);
    let lc = line_count(t) as int;
    let end_line = min_int(e.end_line as int, lc - 1);
    let s = min_int(line_start(t, e.start_line as int) + e.start_col, t.len() as int);
    let en = min_int(line_start(t, end_line) + e.end_col, t.len() as int);
    assert(0 <= line_start(t, e.start_line as int));
    assert(0 <= line_start(t, end_line));
    let removed = if s < en {
        t.take(s) + t.skip(en)
    } else {
        t
    };
    assert(removed.len() >= s);
    assert(removed.take(s) =~= t.take(s));
    if e.new_text.len() > 0 {
        assert((removed.take(s) + e.new_text + removed.skip(s)).take(s) =~= t.take(s));
    }
}

/// Rename edits applied in order, each where it fits the text.
pub open spec fn apply_all_renames(t: Seq<char>, edits: Seq<TextEditView>) -> Seq<char>
    decreases edits.len(),
{
    if edits.len() == 0 {
        t
    } else {
        let before = apply_all_renames(t, edits.drop_last());
        if rename_edit_fits(before, edits.last()) {
            apply_rename(before, edits.last())
        } else {
            before
        }
    }
}

/// The edits of a workspace edit for the current file, in the order they
/// are applied; none without a current file.
pub open spec fn workspace_edits(edit: JsonView, file_uri: Option<Seq<char>>) -> Seq<TextEditView> {
    match file_uri {
        Some(u) => spec_parse_rename_edits(edit, u),
        None => Seq::empty(),
    }
}

/// Whether `doc` is `before` with its text replaced by `text`, marked
/// modified, one version on.
pub open spec fn edited(doc: Document, before: Document, text: Seq<char>) -> bool {
    &&& rope_text(doc.rope) == text
    &&& doc.path == before.path
    &&& doc.modified
    &&& doc.version == before.version + 1
}

proof fn lemma_no_document_edits(dcs: Seq<JsonView>, uri: Seq<char>)
    requires
        forall|i: int|
            0 <= i < dcs.len() ==> json_as_str(json_get_opt(json_get(#[trigger] dcs[i], "textDocument"@), "uri"@))
                != Some(uri),
    ensures
        concat_map(dcs, doc_change_fn(uri)).len() == 0,
    decreases dcs.len(),
{
    if dcs.len() > 0 {
        lemma_no_document_edits(dcs.drop_last(), uri);
        assert(dcs.last() == dcs[dcs.len() - 1]);
    }
}

/// A workspace edit changes only the current file: when it lists no edits
/// for the current file's URI, under `changes` or under `documentChanges`,
/// applying it changes nothing.
pub proof fn law_workspace_edit_only_active_file(edit: JsonView, uri: Seq<char>)
    requires
        json_get_opt(json_get(edit, "changes"@), uri) is None,
        match json_as_array(json_get(edit, "documentChanges"@)) {
            Some(dcs) => forall|i: int|
                0 <= i < dcs.len() ==> json_as_str(
                    json_get_opt(json_get(#[trigger] dcs[i], "textDocument"@), "uri"@),
                ) != Some(uri),
            None => true,
        },
    ensures
        workspace_edits(edit, Some(uri)).len() == 0,
{
    match json_as_array(json_get(edit, "documentChanges"@)) {
        Some(dcs) => lemma_no_document_edits(dcs, uri),
        None => {},
    }
    assert(collected_edits(edit, uri).len() == 0);
    assert(collected_edits(edit, uri) =~= Seq::<TextEditView>::empty());
    assert(sort_desc(Seq::<TextEditView>::empty(), false) =~= Seq::<TextEditView>::empty());
}

/// Applies formatting edits (given from the last to the first), each kept
/// inside the text, after saving the text and cursor for undo.
pub fn apply_format_edits(
    doc: &mut Document,
    history: &mut History,
    cursor: Position,
    edits: &Vec<LspTextEdit>,
)
    requires
        old(history).wf(),
        old(doc).version < i64::MAX,
    ensures
        edited(*final(doc), *old(doc), apply_all_clamped(rope_text(old(doc).rope), text_edit_views(edits@))),
        final(history).wf(),
        final(history).redo_states() == Seq::<(Seq<char>, Position)>::empty(),
        final(history).undo_states() == undo_after_save(
            old(history).undo_states(),
            (rope_text(old(doc).rope), cursor),
        ),
{
    history.save(&doc.rope, cursor);
    apply_text_edits(&mut doc.rope, edits);
    doc.modified = true;
    doc.bump_version();
}

/// Applies the edits of a rename to the current file, in order, each where
/// it fits the text, after saving the text and cursor for undo.
pub fn apply_rename_edits(
    doc: &mut Document,
    history: &mut History,
    cursor: Position,
    edits: &Vec<LspTextEdit>,
)
    requires
        old(history).wf(),
        old(doc).version < i64::MAX,
    ensures
        edited(*final(doc), *old(doc), apply_all_renames(rope_text(old(doc).rope), text_edit_views(edits@))),
        final(history).wf(),
        final(history).redo_states() == Seq::<(Seq<char>, Position)>::empty(),
        final(history).undo_states() == undo_after_save(
            old(history).undo_states(),
            (rope_text(old(doc).rope), cursor),
        ),
{
    history.save(&doc.rope, cursor);
    let ghost t0 = rope_text(doc.rope);
    let ghost ev = text_edit_views(edits@);
    let mut i = 0usize;
    while i < edits.len()
        invariant
            i <= edits@.len(),
            ev == text_edit_views(edits@),
            rope_text(doc.rope) == apply_all_renames(t0, ev.take(i as int)),
            doc.path == old(doc).path,
            doc.version == old(doc).version,
        decreases edits@.len() - i,
    {
        apply_rename_edit(&mut doc.rope, &edits[i]);
        proof {
            assert(ev.take(i + 1).drop_last() =~= ev.take(i as int));
            assert(ev.take(i + 1).last() == edits@[i as int]@);
        }
        i += 1;
    }
    proof {
        assert(ev.take(edits@.len() as int) =~= ev);
    }
    doc.modified = true;
    doc.bump_version();
}

/// Applies a workspace edit to the current file: its edits for `file_uri`
/// (those under `changes`, or else under `documentChanges`), from the last
/// start to the first, each kept inside the text, after saving the text and
/// cursor for undo. Without a current file or without edits for it, nothing
/// changes; returns whether edits were applied.
pub fn apply_workspace_edit(
    doc: &mut Document,
    history: &mut History,
    cursor: Position,
    edit: &JsonValue,
    file_uri: Option<&str>,
) -> (applied: bool)
    requires
        old(history).wf(),
        old(doc).version < i64::MAX,
    ensures
        ({
            let uri = match file_uri {
                Some(u) => Some(u@),
                None => None,
            };
            let edits = workspace_edits(edit@, uri);
            &&& applied == (edits.len() > 0)
            &&& applied ==> edited(*final(doc), *old(doc), apply_all_clamped(rope_text(old(doc).rope), edits))
            &&& applied ==> final(history).undo_states() == undo_after_save(
                old(history).undo_states(),
                (rope_text(old(doc).rope), cursor),
            ) && final(history).redo_states() == Seq::<(Seq<char>, Position)>::empty()
            &&& !applied ==> *final(doc) == *old(doc) && *final(history) == *old(history)
            &&& final(history).wf()
        }),
{
    let uri = match file_uri {
        Some(u) => u,
        None => return false,
    };
    let edits = parse_rename_edits(edit, uri);
    if edits.len() == 0 {
        return false;
    }
    apply_format_edits(doc, history, cursor, &edits);
    true
}

} // verus!
