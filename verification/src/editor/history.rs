//! Undo/redo history of document snapshots.
use vstd::prelude::*;

use ropey::Rope;

use crate::buffer::rope::rope_text;
use crate::editor::selection::Position;

verus! {

struct Snapshot {
    rope: Rope,
    cursor: Position,
}

impl Snapshot {
    /// A snapshot seen as its text and cursor.
    spec fn state(&self) -> (Seq<char>, Position) {
        (rope_text(self.rope), self.cursor)
    }
}

/// The snapshots of a stack, oldest first, each as its text and cursor.
spec fn states(stack: Seq<Snapshot>) -> Seq<(Seq<char>, Position)> {
    stack.map_values(|s: Snapshot| s.state())
}

/// The number of snapshots that the undo stack keeps.
pub open spec fn max_undo_entries() -> nat {
    1000
}

/// The undo stack after saving snapshot `s`: the oldest entry is dropped
/// when the stack is full.
pub open spec fn undo_after_save(
    u: Seq<(Seq<char>, Position)>,
    s: (Seq<char>, Position),
) -> Seq<(Seq<char>, Position)> {
    (if u.len() >= max_undo_entries() {
        u.drop_first()
    } else {
        u
    }).push(s)
}

/// One undo step from stacks `u` (undo) and `d` (redo) with current state
/// `cur`: the restored state (if any) and the two new stacks.
pub open spec fn undo_step(
    u: Seq<(Seq<char>, Position)>,
    d: Seq<(Seq<char>, Position)>,
    cur: (Seq<char>, Position),
) -> (Option<(Seq<char>, Position)>, Seq<(Seq<char>, Position)>, Seq<(Seq<char>, Position)>) {
    if u.len() == 0 {
        (None, u, d)
    } else {
        (Some(u.last()), u.drop_last(), d.push(cur))
    }
}

/// One redo step: the mirror image of `undo_step`.
pub open spec fn redo_step(
    u: Seq<(Seq<char>, Position)>,
    d: Seq<(Seq<char>, Position)>,
    cur: (Seq<char>, Position),
) -> (Option<(Seq<char>, Position)>, Seq<(Seq<char>, Position)>, Seq<(Seq<char>, Position)>) {
    if d.len() == 0 {
        (None, u, d)
    } else {
        (Some(d.last()), u.push(cur), d.drop_last())
    }
}

/// The state that an undo or redo hands back, seen as text and cursor.
pub open spec fn restored(r: Option<(Rope, Position)>) -> Option<(Seq<char>, Position)> {
    match r {
        Some((rope, c)) => Some((rope_text(rope), c)),
        None => None,
    }
}

pub struct History {
    undo_stack: Vec<Snapshot>,
    redo_stack: Vec<Snapshot>,
    max_entries: usize,
}

impl History {
    /// The undo stack, oldest first: each entry is a text and a cursor.
    pub closed spec fn undo_states(&self) -> Seq<(Seq<char>, Position)> {
        states(self.undo_stack@)
    }

    /// The redo stack, oldest first.
    pub closed spec fn redo_states(&self) -> Seq<(Seq<char>, Position)> {
        states(self.redo_stack@)
    }

    /// The stack bound is the fixed one, and the two stacks together never
    /// hold more snapshots than it.
    pub closed spec fn wf(&self) -> bool {
        &&& self.max_entries == max_undo_entries()
        &&& self.undo_stack@.len() + self.redo_stack@.len() <= max_undo_entries()
    }

    /// A well-formed history keeps at most `max_undo_entries()` snapshots in
    /// its two stacks together.
    pub proof fn lemma_bounded(&self)
        requires
            self.wf(),
        ensures
            self.undo_states().len() + self.redo_states().len() <= max_undo_entries(),
    {
    }

    pub fn new() -> (h: Self)
        ensures
            h.wf(),
            h.undo_states() == Seq::<(Seq<char>, Position)>::empty(),
            h.redo_states() == Seq::<(Seq<char>, Position)>::empty(),
    {
        let h = Self { undo_stack: Vec::new(), redo_stack: Vec::new(), max_entries: 1000 };
        assert(h.undo_states() =~= Seq::<(Seq<char>, Position)>::empty());
        assert(h.redo_states() =~= Seq::<(Seq<char>, Position)>::empty());
        h
    }

    /// Save a snapshot before making changes. Clears the redo stack.
    pub fn save(&mut self, rope: &Rope, cursor: Position)
        requires
            old(self).wf(),
        ensures
            final(self).wf(),
            final(self).redo_states() == Seq::<(Seq<char>, Position)>::empty(),
            final(self).undo_states() == undo_after_save(
                old(self).undo_states(),
                (rope_text(*rope), cursor),
            ),
    {
        let ghost before = self.undo_stack@;
        self.redo_stack.clear();
        if self.undo_stack.len() >= self.max_entries {
            self.undo_stack.remove(0);
            assert(self.undo_stack@ =~= before.drop_first());
        }
        self.undo_stack.push(Snapshot { rope: rope.clone(), cursor });
        proof {
            let mid = if before.len() >= max_undo_entries() {
                before.drop_first()
            } else {
                before
            };
            assert(self.undo_stack@ =~= mid.push(self.undo_stack@.last()));
            assert(states(mid.push(self.undo_stack@.last())) =~= states(mid).push(
                (rope_text(*rope), cursor),
            ));
            if before.len() >= max_undo_entries() {
                assert(states(before.drop_first()) =~= states(before).drop_first());
            }
            assert(self.redo_stack@ =~= Seq::<Snapshot>::empty());
            assert(states(self.redo_stack@) =~= Seq::<(Seq<char>, Position)>::empty());
        }
    }

    /// Undo: restore previous snapshot, push current state to redo stack.
    pub fn undo(&mut self, rope: &Rope, cursor: Position) -> (r: Option<(Rope, Position)>)
        requires
            old(self).wf(),
        ensures
            final(self).wf(),
            (restored(r), final(self).undo_states(), final(self).redo_states()) == undo_step(
                old(self).undo_states(),
                old(self).redo_states(),
                (rope_text(*rope), cursor),
            ),
    {
        let ghost u = self.undo_stack@;
        let ghost d = self.redo_stack@;
        let snapshot = match self.undo_stack.pop() {
            Some(s) => s,
            None => return None,
        };
        self.redo_stack.push(Snapshot { rope: rope.clone(), cursor });
        proof {
            assert(u =~= self.undo_stack@.push(snapshot));
            assert(states(self.undo_stack@) =~= states(u).drop_last());
            assert(states(self.redo_stack@) =~= states(d).push((rope_text(*rope), cursor)));
        }
        Some((snapshot.rope, snapshot.cursor))
    }

    /// Redo: restore next snapshot, push current state to undo stack.
    pub fn redo(&mut self, rope: &Rope, cursor: Position) -> (r: Option<(Rope, Position)>)
        requires
            old(self).wf(),
        ensures
            final(self).wf(),
            (restored(r), final(self).undo_states(), final(self).redo_states()) == redo_step(
                old(self).undo_states(),
                old(self).redo_states(),
                (rope_text(*rope), cursor),
            ),
    {
        let ghost u = self.undo_stack@;
        let ghost d = self.redo_stack@;
        let snapshot = match self.redo_stack.pop() {
            Some(s) => s,
            None => return None,
        };
        self.undo_stack.push(Snapshot { rope: rope.clone(), cursor });
        proof {
            assert(d =~= self.redo_stack@.push(snapshot));
            assert(states(self.redo_stack@) =~= states(d).drop_last());
            assert(states(self.undo_stack@) =~= states(u).push((rope_text(*rope), cursor)));
        }
        Some((snapshot.rope, snapshot.cursor))
    }
}

/// Undo right after saving a snapshot hands that snapshot back, and the undo
/// stack returns to what it was before the save (minus the dropped oldest
/// entry when it was full).
pub proof fn law_undo_after_save(
    u: Seq<(Seq<char>, Position)>,
    d: Seq<(Seq<char>, Position)>,
    saved: (Seq<char>, Position),
    cur: (Seq<char>, Position),
)
    ensures
        undo_step(undo_after_save(u, saved), Seq::empty(), cur) == (
            Some(saved),
            if u.len() >= max_undo_entries() {
                u.drop_first()
            } else {
                u
            },
            seq![cur],
        ),
{
    let u1 = undo_after_save(u, saved);
    let base = if u.len() >= max_undo_entries() {
        u.drop_first()
    } else {
        u
    };
    assert(u1.drop_last() =~= base);
    assert(Seq::<(Seq<char>, Position)>::empty().push(cur) =~= seq![cur]);
}

/// Redo right after an undo hands back the state that the undo replaced, and
/// both stacks return to what they were before the undo.
pub proof fn law_redo_after_undo(
    u: Seq<(Seq<char>, Position)>,
    d: Seq<(Seq<char>, Position)>,
    cur: (Seq<char>, Position),
)
    requires
        u.len() > 0,
    ensures
        ({
            let (prev, u1, d1) = undo_step(u, d, cur);
            redo_step(u1, d1, prev.unwrap()) == (Some(cur), u, d)
        }),
{
    assert(u.drop_last().push(u.last()) =~= u);
    assert(d.push(cur).drop_last() =~= d);
}

/// Undo right after a redo hands back the state that the redo replaced, and
/// both stacks return to what they were before the redo.
pub proof fn law_undo_after_redo(
    u: Seq<(Seq<char>, Position)>,
    d: Seq<(Seq<char>, Position)>,
    cur: (Seq<char>, Position),
)
    requires
        d.len() > 0,
    ensures
        ({
            let (next, u1, d1) = redo_step(u, d, cur);
            undo_step(u1, d1, next.unwrap()) == (Some(cur), u, d)
        }),
{
    assert(d.drop_last().push(d.last()) =~= d);
    assert(u.push(cur).drop_last() =~= u);
}

/// Saving keeps at most `max_undo_entries()` snapshots and always leaves the
/// saved one on top, so an undo is possible right after every save, at the
/// bound too: a full stack stays full, losing only its oldest entry.
pub proof fn law_save_keeps_bound(u: Seq<(Seq<char>, Position)>, saved: (Seq<char>, Position))
    requires
        u.len() <= max_undo_entries(),
    ensures
        ({
            let u1 = undo_after_save(u, saved);
            &&& 1 <= u1.len() <= max_undo_entries()
            &&& u1.last() == saved
            &&& u.len() < max_undo_entries() ==> u1.len() == u.len() + 1
            &&& u.len() == max_undo_entries() ==> u1.len() == max_undo_entries()
            &&& undo_step(u1, Seq::empty(), saved).0 is Some
        }),
{
}

/// The undo stack after saving the snapshots `ss`, in order.
pub open spec fn undo_after_saves(
    u: Seq<(Seq<char>, Position)>,
    ss: Seq<(Seq<char>, Position)>,
) -> Seq<(Seq<char>, Position)>
    decreases ss.len(),
{
    if ss.len() == 0 {
        u
    } else {
        undo_after_save(undo_after_saves(u, ss.drop_last()), ss.last())
    }
}

/// Saving snapshots one after another keeps the most recent ones, at most
/// `max_undo_entries()`: after `n` saves on an empty history exactly
/// `min(n, 1000)` undos succeed, the last of them giving back the oldest
/// snapshot kept, and the newest save is always the first undone.
pub proof fn law_saves_keep_the_newest(ss: Seq<(Seq<char>, Position)>)
    ensures
        ({
            let u = undo_after_saves(Seq::empty(), ss);
            let k = if ss.len() <= max_undo_entries() {
                ss.len()
            } else {
                max_undo_entries()
            };
            &&& u.len() == k
            &&& u == ss.subrange(ss.len() - k, ss.len() as int)
        }),
    decreases ss.len(),
{
    if ss.len() > 0 {
        law_saves_keep_the_newest(ss.drop_last());
        let prev = undo_after_saves(Seq::empty(), ss.drop_last());
        let n = ss.len();
        let kp = if n - 1 <= max_undo_entries() {
            n - 1
        } else {
            max_undo_entries() as int
        };
        assert(prev == ss.drop_last().subrange(n - 1 - kp, n - 1));
        if prev.len() >= max_undo_entries() {
            assert(prev.drop_first().push(ss.last()) =~= ss.subrange(n - max_undo_entries(), n as int));
        } else {
            assert(prev.push(ss.last()) =~= ss.subrange(0, n as int));
        }
    }
}

/// After a save there is nothing to redo.
pub proof fn law_save_clears_redo(
    u: Seq<(Seq<char>, Position)>,
    saved: (Seq<char>, Position),
    cur: (Seq<char>, Position),
)
    ensures
        redo_step(undo_after_save(u, saved), Seq::empty(), cur).0 is None,
{
}

} // verus!
