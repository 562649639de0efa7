//! Panes: per-pane state, the layout tree of splits whose leaves are pane
//! ids, and what a pane needs to be drawn.
use vstd::prelude::*;

use crate::buffer;
use crate::buffer::display_len;
use crate::buffer::rope::{lemma_line_count_bound, lemma_line_starts, line_count, line_start, line_text, rope_text};
use crate::editor::document::Document;
use crate::editor::history::History;
use crate::editor::selection::{pos_le, Position};
use crate::highlight::style::SyntaxStyle;
use crate::highlight::theme::{colored, default_style};
use crate::highlight::{spec_style_at, style_at, LineStyles};
use crate::input::mode::Mode;
use crate::lsp::LspDiagnostic;

verus! {

/// Frontend-independent rectangle for pane layout.
/// Equivalent to ratatui::layout::Rect but without the TUI dependency.
#[derive(Debug, Clone, Copy, PartialEq, Eq, Structural)]
pub struct AreaRect {
    pub x: u16,
    pub y: u16,
    pub width: u16,
    pub height: u16,
}

impl AreaRect {
    pub fn new(x: u16, y: u16, width: u16, height: u16) -> (r: Self)
        ensures
            r == (AreaRect { x, y, width, height }),
    {
        Self { x, y, width, height }
    }

    /// The rectangle does not reach past the u16 coordinate range.
    pub open spec fn fits(self) -> bool {
        self.x + self.width <= u16::MAX && self.y + self.height <= u16::MAX
    }

    /// `self` lies inside `outer`.
    pub open spec fn within(self, outer: AreaRect) -> bool {
        &&& outer.x <= self.x
        &&& self.x + self.width <= outer.x + outer.width
        &&& outer.y <= self.y
        &&& self.y + self.height <= outer.y + outer.height
    }
}

impl Default for AreaRect {
    fn default() -> (r: AreaRect)
        ensures
            r == (AreaRect { x: 0, y: 0, width: 0, height: 0 }),
    {
        AreaRect { x: 0, y: 0, width: 0, height: 0 }
    }
}

#[derive(Debug, Clone, Copy, PartialEq, Eq, Structural)]
pub enum SplitDirection {
    Horizontal,
    Vertical,
}

pub enum PaneNode {
    Leaf(usize),  // pane id
    Split { direction: SplitDirection, first: Box<PaneNode>, second: Box<PaneNode> },
}

/// The pane ids of a tree, left to right (top to bottom).
pub open spec fn leaves_of(n: PaneNode) -> Seq<usize>
    decreases n,
{
    match n {
        PaneNode::Leaf(id) => seq![id],
        PaneNode::Split { first, second, .. } => leaves_of(*first) + leaves_of(*second),
    }
}

/// The tree after splitting the first leaf `target` into `target` followed by
/// `new_id`, and whether such a leaf was found.
pub open spec fn spec_split(n: PaneNode, target: usize, new_id: usize, dir: SplitDirection) -> (
    PaneNode,
    bool,
)
    decreases n,
{
    match n {
        PaneNode::Leaf(id) => if id == target {
            (
                PaneNode::Split {
                    direction: dir,
                    first: Box::new(PaneNode::Leaf(target)),
                    second: Box::new(PaneNode::Leaf(new_id)),
                },
                true,
            )
        } else {
            (n, false)
        },
        PaneNode::Split { direction, first, second } => {
            let (f2, r1) = spec_split(*first, target, new_id, dir);
            if r1 {
                (PaneNode::Split { direction, first: Box::new(f2), second }, true)
            } else {
                let (s2, r2) = spec_split(*second, target, new_id, dir);
                (PaneNode::Split { direction, first, second: Box::new(s2) }, r2)
            }
        },
    }
}

/// The child node of a split is the leaf `id`.
pub open spec fn is_leaf_id(n: PaneNode, id: usize) -> bool {
    n matches PaneNode::Leaf(x) && x == id
}

/// The tree after removing leaf `pane_id` (its sibling takes the parent's
/// place), and whether it was removed. A lone leaf is never removed.
pub open spec fn spec_remove(n: PaneNode, pane_id: usize) -> (PaneNode, bool)
    decreases n,
{
    match n {
        PaneNode::Leaf(_) => (n, false),
        PaneNode::Split { direction, first, second } => if is_leaf_id(*first, pane_id) {
            (*second, true)
        } else if is_leaf_id(*second, pane_id) {
            (*first, true)
        } else {
            let (f2, r1) = spec_remove(*first, pane_id);
            if r1 {
                (PaneNode::Split { direction, first: Box::new(f2), second }, true)
            } else {
                let (s2, r2) = spec_remove(*second, pane_id);
                (PaneNode::Split { direction, first, second: Box::new(s2) }, r2)
            }
        },
    }
}

/// `s` with `new_id` inserted right after the first occurrence of `target`.
pub open spec fn insert_after_first(s: Seq<usize>, target: usize, new_id: usize) -> Seq<usize>
    decreases s.len(),
{
    if s.len() == 0 {
        s
    } else if s[0] == target {
        seq![target, new_id] + s.skip(1)
    } else {
        seq![s[0]] + insert_after_first(s.skip(1), target, new_id)
    }
}

proof fn lemma_insert_after_first_concat(a: Seq<usize>, b: Seq<usize>, t: usize, n: usize)
    ensures
        insert_after_first(a + b, t, n) == if a.contains(t) {
            insert_after_first(a, t, n) + b
        } else {
            a + insert_after_first(b, t, n)
        },
    decreases a.len(),
{
    if a.len() == 0 {
        assert(a + b =~= b);
        assert(!a.contains(t));
    } else {
        assert((a + b).skip(1) =~= a.skip(1) + b);
        lemma_insert_after_first_concat(a.skip(1), b, t, n);
        if a[0] == t {
            assert(a.contains(t));
            assert(seq![t, n] + (a + b).skip(1) =~= seq![t, n] + a.skip(1) + b);
        } else {
            assert(a.contains(t) == a.skip(1).contains(t)) by {
                if a.contains(t) {
                    let i = choose|i: int| 0 <= i < a.len() && a[i] == t;
                    assert(a.skip(1)[i - 1] == t);
                }
                if a.skip(1).contains(t) {
                    let i = choose|i: int| 0 <= i < a.skip(1).len() && a.skip(1)[i] == t;
                    assert(a[i + 1] == t);
                }
            }
            if a.contains(t) {
                assert(seq![a[0]] + insert_after_first(a.skip(1), t, n) + b =~= seq![a[0]] + (
                insert_after_first(a.skip(1), t, n) + b));
            } else {
                assert(seq![a[0]] + (a.skip(1) + insert_after_first(b, t, n)) =~= a
                    + insert_after_first(b, t, n));
            }
        }
    }
}

proof fn lemma_split_leaves(n: PaneNode, target: usize, new_id: usize, dir: SplitDirection)
    ensures
        spec_split(n, target, new_id, dir).1 == leaves_of(n).contains(target),
        leaves_of(spec_split(n, target, new_id, dir).0) == insert_after_first(
            leaves_of(n),
            target,
            new_id,
        ),
        !spec_split(n, target, new_id, dir).1 ==> spec_split(n, target, new_id, dir).0 == n,
    decreases n,
{
    match n {
        PaneNode::Leaf(id) => {
            assert(leaves_of(n) =~= seq![id]);
            assert(leaves_of(n).skip(1) =~= Seq::<usize>::empty());
            if id == target {
                assert(leaves_of(n)[0] == target);
                let sp = PaneNode::Split {
                    direction: dir,
                    first: Box::new(PaneNode::Leaf(target)),
                    second: Box::new(PaneNode::Leaf(new_id)),
                };
                assert(spec_split(n, target, new_id, dir).0 == sp);
                assert(leaves_of(PaneNode::Leaf(target)) == seq![target]);
                assert(leaves_of(PaneNode::Leaf(new_id)) == seq![new_id]);
                assert(leaves_of(sp) =~= seq![target, new_id]);
                assert(seq![target, new_id] + Seq::<usize>::empty() =~= seq![target, new_id]);
            } else {
                if leaves_of(n).contains(target) {
                    let i = choose|i: int| 0 <= i < leaves_of(n).len() && leaves_of(n)[i] == target;
                    assert(i == 0);
                }
                assert(insert_after_first(Seq::<usize>::empty(), target, new_id) =~= Seq::<usize>::empty());
                assert(seq![id] + Seq::<usize>::empty() =~= seq![id]);
            }
        },
        PaneNode::Split { direction, first, second } => {
            lemma_split_leaves(*first, target, new_id, dir);
            lemma_split_leaves(*second, target, new_id, dir);
            lemma_insert_after_first_concat(leaves_of(*first), leaves_of(*second), target, new_id);
            let a = leaves_of(*first);
            let b = leaves_of(*second);
            assert((a + b).contains(target) == (a.contains(target) || b.contains(target))) by {
                if (a + b).contains(target) {
                    let i = choose|i: int| 0 <= i < (a + b).len() && (a + b)[i] == target;
                    if i < a.len() {
                        assert(a[i] == target);
                    } else {
                        assert(b[i - a.len()] == target);
                    }
                }
                if a.contains(target) {
                    let i = choose|i: int| 0 <= i < a.len() && a[i] == target;
                    assert((a + b)[i] == target);
                }
                if b.contains(target) {
                    let i = choose|i: int| 0 <= i < b.len() && b[i] == target;
                    assert((a + b)[a.len() + i] == target);
                }
            }
        },
    }
}

proof fn lemma_remove_unchanged(n: PaneNode, pane_id: usize)
    ensures
        !spec_remove(n, pane_id).1 ==> spec_remove(n, pane_id).0 == n,
    decreases n,
{
    match n {
        PaneNode::Leaf(_) => {},
        PaneNode::Split { direction, first, second } => {
            lemma_remove_unchanged(*first, pane_id);
            lemma_remove_unchanged(*second, pane_id);
        },
    }
}

/// The rectangle of each shown pane, in leaf order. A split too small to show
/// both sides shows only its first side in the whole area.
pub open spec fn spec_layout(n: PaneNode, area: AreaRect) -> Seq<(usize, AreaRect)>
    decreases n,
{
    match n {
        PaneNode::Leaf(id) => seq![(id, area)],
        PaneNode::Split { direction, first, second } => match direction {
            SplitDirection::Vertical => {
                let half = area.width / 2;
                if half < 2 || area.width < 5 {
                    spec_layout(*first, area)
                } else {
                    spec_layout(*first, left_part(area)) + spec_layout(*second, right_part(area))
                }
            },
            SplitDirection::Horizontal => {
                let half = area.height / 2;
                if half < 2 || area.height < 4 {
                    spec_layout(*first, area)
                } else {
                    spec_layout(*first, top_part(area)) + spec_layout(*second, bottom_part(area))
                }
            },
        },
    }
}

/// The left half of a vertical split.
pub open spec fn left_part(area: AreaRect) -> AreaRect {
    AreaRect { x: area.x, y: area.y, width: area.width / 2, height: area.height }
}

/// The right half of a vertical split, after a one-column separator.
pub open spec fn right_part(area: AreaRect) -> AreaRect {
    let half = area.width / 2;
    AreaRect {
        x: (area.x + half + 1) as u16,
        y: area.y,
        width: (area.width - half - 1) as u16,
        height: area.height,
    }
}

/// The top half of a horizontal split.
pub open spec fn top_part(area: AreaRect) -> AreaRect {
    AreaRect { x: area.x, y: area.y, width: area.width, height: area.height / 2 }
}

/// The bottom half of a horizontal split.
pub open spec fn bottom_part(area: AreaRect) -> AreaRect {
    let half = area.height / 2;
    AreaRect {
        x: area.x,
        y: (area.y + half) as u16,
        width: area.width,
        height: (area.height - half) as u16,
    }
}

/// The vertical separators shown: (x, y, height) of each one-column line
/// between the two sides of a shown vertical split. A split too small to show
/// both sides draws the separators of its first side in the whole area, the
/// area that the layout gives that side.
pub open spec fn spec_separators(n: PaneNode, area: AreaRect) -> Seq<(u16, u16, u16)>
    decreases n,
{
    match n {
        PaneNode::Leaf(_) => Seq::empty(),
        PaneNode::Split { direction, first, second } => match direction {
            SplitDirection::Vertical => {
                let half = area.width / 2;
                if half >= 2 && area.width >= 5 {
                    seq![((area.x + half) as u16, area.y, area.height)] + spec_separators(
                        *first,
                        left_part(area),
                    ) + spec_separators(*second, right_part(area))
                } else {
                    spec_separators(*first, area)
                }
            },
            SplitDirection::Horizontal => {
                let half = area.height / 2;
                if half >= 2 && area.height >= 4 {
                    spec_separators(*first, top_part(area)) + spec_separators(
                        *second,
                        bottom_part(area),
                    )
                } else {
                    spec_separators(*first, area)
                }
            },
        },
    }
}

#[derive(Debug, Clone, Copy, PartialEq, Eq, Structural)]
pub enum NavigateDir {
    Left,
    Down,
    Up,
    Right,
}

/// The horizontal center of a rectangle.
pub open spec fn center_x(r: AreaRect) -> int {
    r.x + r.width / 2
}

/// The vertical center of a rectangle.
pub open spec fn center_y(r: AreaRect) -> int {
    r.y + r.height / 2
}

/// `r` lies in direction `dir` of `from`, judged by centers.
pub open spec fn in_direction(from: AreaRect, dir: NavigateDir, r: AreaRect) -> bool {
    match dir {
        NavigateDir::Left => center_x(r) < center_x(from),
        NavigateDir::Right => center_x(r) > center_x(from),
        NavigateDir::Up => center_y(r) < center_y(from),
        NavigateDir::Down => center_y(r) > center_y(from),
    }
}

/// The Manhattan distance between the centers of two rectangles.
pub open spec fn center_dist(a: AreaRect, b: AreaRect) -> int {
    let dx = center_x(b) - center_x(a);
    let dy = center_y(b) - center_y(a);
    (if dx >= 0 {
        dx
    } else {
        -dx
    }) + (if dy >= 0 {
        dy
    } else {
        -dy
    })
}

/// Rect `j` of `rects` is a candidate neighbour of `from` (another pane in direction `dir`).
pub open spec fn is_neighbour(
    rects: Seq<(usize, AreaRect)>,
    from_id: usize,
    from: AreaRect,
    dir: NavigateDir,
    j: int,
) -> bool {
    0 <= j < rects.len() && rects[j].0 != from_id && in_direction(from, dir, rects[j].1)
}

/// Candidate `j` is the nearest one, and the first of the nearest ones.
pub open spec fn is_nearest(
    rects: Seq<(usize, AreaRect)>,
    from_id: usize,
    from: AreaRect,
    dir: NavigateDir,
    j: int,
) -> bool {
    &&& is_neighbour(rects, from_id, from, dir, j)
    &&& forall|k: int|
        is_neighbour(rects, from_id, from, dir, k) ==> center_dist(from, rects[j].1) <= center_dist(
            from,
            rects[k].1,
        )
    &&& forall|k: int|
        0 <= k < j && is_neighbour(rects, from_id, from, dir, k) ==> center_dist(from, rects[j].1)
            < center_dist(from, rects[k].1)
}

proof fn lemma_contains_concat(a: Seq<usize>, b: Seq<usize>, x: usize)
    ensures
        (a + b).contains(x) == (a.contains(x) || b.contains(x)),
{
    if (a + b).contains(x) {
        let i = choose|i: int| 0 <= i < (a + b).len() && (a + b)[i] == x;
        if i < a.len() {
            assert(a[i] == x);
        } else {
            assert(b[i - a.len()] == x);
        }
    }
    if a.contains(x) {
        let i = choose|i: int| 0 <= i < a.len() && a[i] == x;
        assert((a + b)[i] == x);
    }
    if b.contains(x) {
        let i = choose|i: int| 0 <= i < b.len() && b[i] == x;
        assert((a + b)[a.len() + i] == x);
    }
}

proof fn lemma_split_found_is_split(n: PaneNode, target: usize, new_id: usize, dir: SplitDirection)
    ensures
        spec_split(n, target, new_id, dir).1 ==> spec_split(n, target, new_id, dir).0 is Split,
{
}

proof fn lemma_remove_found_contains(n: PaneNode, pane_id: usize)
    ensures
        spec_remove(n, pane_id).1 ==> leaves_of(n).contains(pane_id),
    decreases n,
{
    match n {
        PaneNode::Leaf(_) => {},
        PaneNode::Split { direction, first, second } => {
            lemma_remove_found_contains(*first, pane_id);
            lemma_remove_found_contains(*second, pane_id);
            lemma_contains_concat(leaves_of(*first), leaves_of(*second), pane_id);
            if is_leaf_id(*first, pane_id) {
                assert(leaves_of(*first)[0] == pane_id);
            } else if is_leaf_id(*second, pane_id) {
                assert(leaves_of(*second)[0] == pane_id);
            }
        },
    }
}

/// Closing the pane that a split just created gives back the tree as it was
/// before the split (when the new pane id was not in use).
pub proof fn law_remove_undoes_split(n: PaneNode, target: usize, new_id: usize, dir: SplitDirection)
    requires
        leaves_of(n).contains(target),
        !leaves_of(n).contains(new_id),
    ensures
        spec_remove(spec_split(n, target, new_id, dir).0, new_id) == (n, true),
    decreases n,
{
    match n {
        PaneNode::Leaf(id) => {
            assert(leaves_of(n)[0] == id);
            if id != target {
                let i = choose|i: int| 0 <= i < leaves_of(n).len() && leaves_of(n)[i] == target;
                assert(false);
            }
            assert(target != new_id);
        },
        PaneNode::Split { direction, first, second } => {
            lemma_contains_concat(leaves_of(*first), leaves_of(*second), target);
            lemma_contains_concat(leaves_of(*first), leaves_of(*second), new_id);
            lemma_split_leaves(*first, target, new_id, dir);
            lemma_split_leaves(*second, target, new_id, dir);
            if leaves_of(*first).contains(target) {
                law_remove_undoes_split(*first, target, new_id, dir);
                lemma_split_found_is_split(*first, target, new_id, dir);
                if is_leaf_id(*second, new_id) {
                    assert(leaves_of(*second)[0] == new_id);
                }
            } else {
                law_remove_undoes_split(*second, target, new_id, dir);
                lemma_split_found_is_split(*second, target, new_id, dir);
                lemma_remove_found_contains(*first, new_id);
                lemma_remove_unchanged(*first, new_id);
                if is_leaf_id(*first, new_id) {
                    assert(leaves_of(*first)[0] == new_id);
                }
            }
        },
    }
}

/// Every pane rectangle of a layout lies inside the area laid out.
pub proof fn law_layout_within_area(n: PaneNode, area: AreaRect)
    requires
        area.fits(),
    ensures
        forall|i: int| 0 <= i < spec_layout(n, area).len() ==> (#[trigger] spec_layout(n, area)[i]).1.within(area),
    decreases n,
{
    match n {
        PaneNode::Leaf(id) => {
            assert(spec_layout(n, area) =~= seq![(id, area)]);
        },
        PaneNode::Split { direction, first, second } => {
            match direction {
                SplitDirection::Vertical => {
                    law_layout_within_area(*first, area);
                    if area.width / 2 < 2 || area.width < 5 {
                        assert(spec_layout(n, area) == spec_layout(*first, area));
                    } else {
                        law_layout_within_area(*first, left_part(area));
                        law_layout_within_area(*second, right_part(area));
                        let a = spec_layout(*first, left_part(area));
                        let b = spec_layout(*second, right_part(area));
                        assert(left_part(area).within(area));
                        assert(right_part(area).within(area));
                        assert forall|i: int| 0 <= i < (a + b).len() implies (#[trigger] (a + b)[i]).1.within(area) by {
                            if i < a.len() {
                                assert((a + b)[i] == a[i]);
                                assert(a[i].1.within(left_part(area)));
                            } else {
                                assert((a + b)[i] == b[i - a.len()]);
                                assert(b[i - a.len()].1.within(right_part(area)));
                            }
                        }
                        assert(spec_layout(n, area) == a + b);
                    }
                },
                SplitDirection::Horizontal => {
                    law_layout_within_area(*first, area);
                    if area.height / 2 < 2 || area.height < 4 {
                        assert(spec_layout(n, area) == spec_layout(*first, area));
                    } else {
                        law_layout_within_area(*first, top_part(area));
                        law_layout_within_area(*second, bottom_part(area));
                        let a = spec_layout(*first, top_part(area));
                        let b = spec_layout(*second, bottom_part(area));
                        assert(top_part(area).within(area));
                        assert(bottom_part(area).within(area));
                        assert forall|i: int| 0 <= i < (a + b).len() implies (#[trigger] (a + b)[i]).1.within(area) by {
                            if i < a.len() {
                                assert((a + b)[i] == a[i]);
                                assert(a[i].1.within(top_part(area)));
                            } else {
                                assert((a + b)[i] == b[i - a.len()]);
                                assert(b[i - a.len()].1.within(bottom_part(area)));
                            }
                        }
                        assert(spec_layout(n, area) == a + b);
                    }
                },
            }
        },
    }
}

/// Two rectangles share no cell: one lies wholly left of, right of, above or
/// below the other.
pub open spec fn disjoint(a: AreaRect, b: AreaRect) -> bool {
    a.x + a.width <= b.x || b.x + b.width <= a.x || a.y + a.height <= b.y || b.y + b.height <= a.y
}

/// The rectangles of a sequence of panes are pairwise disjoint.
pub open spec fn pairwise_disjoint(rects: Seq<(usize, AreaRect)>) -> bool {
    forall|i: int, j: int|
        0 <= i < j < rects.len() ==> disjoint(#[trigger] rects[i].1, #[trigger] rects[j].1)
}

proof fn lemma_join_disjoint(a: Seq<(usize, AreaRect)>, b: Seq<(usize, AreaRect)>, ra: AreaRect, rb: AreaRect)
    requires
        pairwise_disjoint(a),
        pairwise_disjoint(b),
        forall|i: int| 0 <= i < a.len() ==> (#[trigger] a[i]).1.within(ra),
        forall|i: int| 0 <= i < b.len() ==> (#[trigger] b[i]).1.within(rb),
        disjoint(ra, rb),
    ensures
        pairwise_disjoint(a + b),
{
    assert forall|i: int, j: int| 0 <= i < j < (a + b).len() implies disjoint(
        #[trigger] (a + b)[i].1,
        #[trigger] (a + b)[j].1,
    ) by {
        if j < a.len() {
            assert((a + b)[i] == a[i] && (a + b)[j] == a[j]);
        } else if i >= a.len() {
            assert((a + b)[i] == b[i - a.len()] && (a + b)[j] == b[j - a.len()]);
        } else {
            assert((a + b)[i] == a[i] && (a + b)[j] == b[j - a.len()]);
            assert(a[i].1.within(ra));
            assert(b[j - a.len()].1.within(rb));
        }
    }
}

/// No two panes of a layout overlap: the halves of each shown split are
/// side by side (with the separator column between them) or one above the
/// other, and every pane lies in its half.
pub proof fn law_layout_panes_disjoint(n: PaneNode, area: AreaRect)
    requires
        area.fits(),
    ensures
        pairwise_disjoint(spec_layout(n, area)),
    decreases n,
{
    match n {
        PaneNode::Leaf(id) => {
            assert(spec_layout(n, area) =~= seq![(id, area)]);
        },
        PaneNode::Split { direction, first, second } => {
            match direction {
                SplitDirection::Vertical => {
                    if area.width / 2 < 2 || area.width < 5 {
                        law_layout_panes_disjoint(*first, area);
                    } else {
                        law_layout_panes_disjoint(*first, left_part(area));
                        law_layout_panes_disjoint(*second, right_part(area));
                        law_layout_within_area(*first, left_part(area));
                        law_layout_within_area(*second, right_part(area));
                        lemma_join_disjoint(
                            spec_layout(*first, left_part(area)),
                            spec_layout(*second, right_part(area)),
                            left_part(area),
                            right_part(area),
                        );
                    }
                },
                SplitDirection::Horizontal => {
                    if area.height / 2 < 2 || area.height < 4 {
                        law_layout_panes_disjoint(*first, area);
                    } else {
                        law_layout_panes_disjoint(*first, top_part(area));
                        law_layout_panes_disjoint(*second, bottom_part(area));
                        law_layout_within_area(*first, top_part(area));
                        law_layout_within_area(*second, bottom_part(area));
                        lemma_join_disjoint(
                            spec_layout(*first, top_part(area)),
                            spec_layout(*second, bottom_part(area)),
                            top_part(area),
                            bottom_part(area),
                        );
                    }
                },
            }
        },
    }
}

/// Every layout shows at least one pane, and its first pane (the first
/// leaf) starts at the area's top-left corner: a split keeps its first side
/// on the left or on top.
pub proof fn law_first_pane_at_origin(n: PaneNode, area: AreaRect)
    ensures
        spec_layout(n, area).len() >= 1,
        spec_layout(n, area)[0].1.x == area.x,
        spec_layout(n, area)[0].1.y == area.y,
    decreases n,
{
    match n {
        PaneNode::Leaf(id) => {},
        PaneNode::Split { direction, first, second } => {
            match direction {
                SplitDirection::Vertical => {
                    if area.width / 2 < 2 || area.width < 5 {
                        law_first_pane_at_origin(*first, area);
                    } else {
                        law_first_pane_at_origin(*first, left_part(area));
                        let a = spec_layout(*first, left_part(area));
                        let b = spec_layout(*second, right_part(area));
                        assert((a + b)[0] == a[0]);
                    }
                },
                SplitDirection::Horizontal => {
                    if area.height / 2 < 2 || area.height < 4 {
                        law_first_pane_at_origin(*first, area);
                    } else {
                        law_first_pane_at_origin(*first, top_part(area));
                        let a = spec_layout(*first, top_part(area));
                        let b = spec_layout(*second, bottom_part(area));
                        assert((a + b)[0] == a[0]);
                    }
                },
            }
        },
    }
}

/// A pane that navigation finds to the right lies (by its center) right of
/// the pane it starts from, one to the left lies left of it, one below lies
/// lower and one above lies higher; and a pane is never its own neighbour.
pub proof fn law_neighbour_lies_in_direction(
    rects: Seq<(usize, AreaRect)>,
    from_id: usize,
    from: AreaRect,
    dir: NavigateDir,
    j: int,
)
    requires
        is_neighbour(rects, from_id, from, dir, j),
    ensures
        rects[j].0 != from_id,
        dir == NavigateDir::Right ==> rects[j].1.x + rects[j].1.width / 2 > from.x + from.width / 2,
        dir == NavigateDir::Left ==> rects[j].1.x + rects[j].1.width / 2 < from.x + from.width / 2,
        dir == NavigateDir::Down ==> rects[j].1.y + rects[j].1.height / 2 > from.y + from.height / 2,
        dir == NavigateDir::Up ==> rects[j].1.y + rects[j].1.height / 2 < from.y + from.height / 2,
{
}

impl PaneNode {
    /// Split the target leaf into a Split node with the target and a new pane.
    pub fn split(&mut self, target_id: usize, new_id: usize, direction: SplitDirection) -> (r: bool)
        ensures
            (*final(self), r) == spec_split(*old(self), target_id, new_id, direction),
            r == leaves_of(*old(self)).contains(target_id),
            leaves_of(*final(self)) == insert_after_first(leaves_of(*old(self)), target_id, new_id),
        decreases *old(self),
    {
        proof {
            lemma_split_leaves(*self, target_id, new_id, direction);
        }
        match self {
            PaneNode::Leaf(id) => {
                if *id != target_id {
                    return false;
                }
            },
            PaneNode::Split { first, second, .. } => {
                proof {
                    lemma_split_leaves(**first, target_id, new_id, direction);
                }
                let r1 = first.split(target_id, new_id, direction);
                if r1 {
                    return true;
                } else {
                    return second.split(target_id, new_id, direction);
                }
            },
        }
        let old = Box::new(PaneNode::Leaf(target_id));
        let new = Box::new(PaneNode::Leaf(new_id));
        *self = PaneNode::Split { direction, first: old, second: new };
        true
    }

    /// Remove a pane. The sibling replaces the parent Split.
    /// Returns true if the pane was found and removed.
    pub fn remove(&mut self, pane_id: usize) -> (r: bool)
        ensures
            (*final(self), r) == spec_remove(*old(self), pane_id),
        decreases *old(self),
    {
        proof {
            lemma_remove_unchanged(*self, pane_id);
        }
        // Check whether the first or the second child is the target leaf
        let (first_is, second_is) = match &*self {
            PaneNode::Leaf(_) => return false,
            PaneNode::Split { first, second, .. } => (
                match &**first {
                    PaneNode::Leaf(id) => *id == pane_id,
                    _ => false,
                },
                match &**second {
                    PaneNode::Leaf(id) => *id == pane_id,
                    _ => false,
                },
            ),
        };
        if first_is || second_is {
            // Replace self with the sibling
            let mut taken = PaneNode::Leaf(0);
            std::mem::swap(&mut taken, self);
            match taken {
                PaneNode::Split { first, second, .. } => {
                    *self = if first_is {
                        *second
                    } else {
                        *first
                    };
                },
                PaneNode::Leaf(_) => {},
            }
            return true;
        }
        // Recurse
        match self {
            PaneNode::Leaf(_) => false,
            PaneNode::Split { first, second, .. } => {
                proof {
                    lemma_remove_unchanged(**first, pane_id);
                }
                let r1 = first.remove(pane_id);
                if r1 {
                    true
                } else {
                    second.remove(pane_id)
                }
            },
        }
    }

    /// Calculate the layout rect for each leaf pane.
    pub fn layout(&self, area: AreaRect) -> (r: Vec<(usize, AreaRect)>)
        requires
            area.fits(),
        ensures
            r@ == spec_layout(*self, area),
    {
        let mut result = Vec::new();
        self.layout_inner(area, &mut result);
        assert(result@ =~= spec_layout(*self, area));
        result
    }

    fn layout_inner(&self, area: AreaRect, result: &mut Vec<(usize, AreaRect)>)
        requires
            area.fits(),
        ensures
            final(result)@ == old(result)@ + spec_layout(*self, area),
        decreases *self,
    {
        match self {
            PaneNode::Leaf(id) => {
                result.push((*id, area));
                assert(final(result)@ =~= old(result)@ + spec_layout(*self, area));
            },
            PaneNode::Split { direction, first, second } => match direction {
                SplitDirection::Vertical => {
                    // Split left/right with 1-column separator
                    let half = area.width / 2;
                    if half < 2 || area.width < 5 {
                        // Too narrow, just show first
                        first.layout_inner(area, result);
                        return;
                    }
                    let left = AreaRect::new(area.x, area.y, half, area.height);
                    // 1-column separator
                    let right = AreaRect::new(
                        area.x + half + 1,
                        area.y,
                        area.width - half - 1,
                        area.height,
                    );
                    let ghost mid = result@;
                    first.layout_inner(left, result);
                    second.layout_inner(right, result);
                    assert(result@ =~= old(result)@ + spec_layout(*self, area));
                },
                SplitDirection::Horizontal => {
                    // Split top/bottom. Status line of top pane serves as separator.
                    let half = area.height / 2;
                    if half < 2 || area.height < 4 {
                        first.layout_inner(area, result);
                        return;
                    }
                    let top = AreaRect::new(area.x, area.y, area.width, half);
                    let bottom = AreaRect::new(area.x, area.y + half, area.width, area.height - half);
                    first.layout_inner(top, result);
                    second.layout_inner(bottom, result);
                    assert(result@ =~= old(result)@ + spec_layout(*self, area));
                },
            },
        }
    }

    /// Return all leaf pane IDs in order (left-to-right, top-to-bottom).
    pub fn leaves(&self) -> (r: Vec<usize>)
        ensures
            r@ == leaves_of(*self),
    {
        let mut result = Vec::new();
        self.collect_leaves(&mut result);
        assert(result@ =~= leaves_of(*self));
        result
    }

    fn collect_leaves(&self, result: &mut Vec<usize>)
        ensures
            final(result)@ == old(result)@ + leaves_of(*self),
        decreases *self,
    {
        match self {
            PaneNode::Leaf(id) => {
                result.push(*id);
                assert(final(result)@ =~= old(result)@ + leaves_of(*self));
            },
            PaneNode::Split { first, second, .. } => {
                first.collect_leaves(result);
                second.collect_leaves(result);
                assert(result@ =~= old(result)@ + leaves_of(*self));
            },
        }
    }

    /// Find an adjacent pane in the given direction using rect center coordinates.
    pub fn find_adjacent(&self, from_id: usize, dir: NavigateDir, rects: &[(usize, AreaRect)]) -> (r:
        Option<usize>)
        ensures
            match r {
                None => forall|i: int|
                    0 <= i < rects@.len() && rects@[i].0 == from_id && (forall|k: int|
                        0 <= k < i ==> rects@[k].0 != from_id) ==> !exists|j: int|
                        is_neighbour(rects@, from_id, rects@[i].1, dir, j),
                Some(id) => exists|i: int, j: int|
                    {
                        &&& 0 <= i < rects@.len()
                        &&& rects@[i].0 == from_id
                        &&& forall|k: int| 0 <= k < i ==> rects@[k].0 != from_id
                        &&& is_nearest(rects@, from_id, rects@[i].1, dir, j)
                        &&& rects@[j].0 == id
                    },
            },
    {
        let mut fi = 0usize;
        while fi < rects.len()
            invariant
                fi <= rects@.len(),
                forall|k: int| 0 <= k < fi ==> rects@[k].0 != from_id,
            ensures
                fi <= rects@.len(),
                forall|k: int| 0 <= k < fi ==> rects@[k].0 != from_id,
                fi < rects@.len() ==> rects@[fi as int].0 == from_id,
            decreases rects@.len() - fi,
        {
            if rects[fi].0 == from_id {
                break;
            }
            fi += 1;
        }
        if fi == rects.len() {
            return None;
        }
        let from_rect = rects[fi].1;
        let ghost from = from_rect;
        let center_x = from_rect.x as i32 + from_rect.width as i32 / 2;
        let center_y = from_rect.y as i32 + from_rect.height as i32 / 2;

        let mut best: Option<(usize, i32)> = None;
        let ghost mut best_j: int = 0;

        let mut idx = 0usize;
        while idx < rects.len()
            invariant
                idx <= rects@.len(),
                fi < rects@.len(),
                rects@[fi as int].0 == from_id,
                from == rects@[fi as int].1,
                center_x == crate::editor::pane::center_x(from),
                center_y == crate::editor::pane::center_y(from),
                match best {
                    None => forall|k: int| 0 <= k < idx ==> !is_neighbour(rects@, from_id, from, dir, k),
                    Some((id, d)) => {
                        &&& 0 <= best_j < idx
                        &&& is_neighbour(rects@, from_id, from, dir, best_j)
                        &&& rects@[best_j].0 == id
                        &&& d == center_dist(from, rects@[best_j].1)
                        &&& forall|k: int| 0 <= k < idx && is_neighbour(rects@, from_id, from, dir, k) ==> d <= center_dist(from, rects@[k].1)
                        &&& forall|k: int| 0 <= k < best_j && is_neighbour(rects@, from_id, from, dir, k) ==> d < center_dist(from, rects@[k].1)
                    },
                },
            decreases rects@.len() - idx,
        {
            let (id, rect) = rects[idx];
            if id == from_id {
                idx += 1;
                continue;
            }
            let cx = rect.x as i32 + rect.width as i32 / 2;
            let cy = rect.y as i32 + rect.height as i32 / 2;

            let valid = match dir {
                NavigateDir::Left => cx < center_x,
                NavigateDir::Right => cx > center_x,
                NavigateDir::Up => cy < center_y,
                NavigateDir::Down => cy > center_y,
            };

            if !valid {
                idx += 1;
                continue;
            }

            let dxv = cx - center_x;
            let dyv = cy - center_y;
            let dist = (if dxv >= 0 { dxv } else { -dxv }) + (if dyv >= 0 { dyv } else { -dyv });
            let better = match best {
                None => true,
                Some((_, bd)) => dist < bd,
            };
            if better {
                best = Some((id, dist));
                proof {
                    best_j = idx as int;
                }
            }
            idx += 1;
        }

        match best {
            Some((id, _)) => {
                proof {
                    assert(is_nearest(rects@, from_id, from, dir, best_j));
                }
                Some(id)
            },
            None => {
                proof {
                    assert forall|i: int|
                        0 <= i < rects@.len() && rects@[i].0 == from_id && (forall|k: int|
                            0 <= k < i ==> rects@[k].0 != from_id) implies !exists|j: int|
                        is_neighbour(rects@, from_id, rects@[i].1, dir, j) by {
                        if i < fi {
                        } else if i > fi {
                            assert(rects@[fi as int].0 == from_id);
                        }
                    }
                }
                None
            },
        }
    }

    /// Collect vertical separator positions for rendering.
    pub fn separators(&self, area: AreaRect) -> (r: Vec<(u16, u16, u16)>)
        requires
            area.fits(),
        ensures
            r@ == spec_separators(*self, area),
    {
        let mut result = Vec::new();
        self.collect_separators(area, &mut result);
        assert(result@ =~= spec_separators(*self, area));
        result
    }

    fn collect_separators(&self, area: AreaRect, result: &mut Vec<(u16, u16, u16)>)
        requires
            area.fits(),
        ensures
            final(result)@ == old(result)@ + spec_separators(*self, area),
        decreases *self,
    {
        if let PaneNode::Split { direction, first, second } = self {
            match direction {
                SplitDirection::Vertical => {
                    let half = area.width / 2;
                    if half >= 2 && area.width >= 5 {
                        // Separator at x = area.x + half
                        result.push((area.x + half, area.y, area.height));
                        let left = AreaRect::new(area.x, area.y, half, area.height);
                        let right = AreaRect::new(
                            area.x + half + 1,
                            area.y,
                            area.width - half - 1,
                            area.height,
                        );
                        first.collect_separators(left, result);
                        second.collect_separators(right, result);
                    } else {
                        first.collect_separators(area, result);
                    }
                },
                SplitDirection::Horizontal => {
                    let half = area.height / 2;
                    if half >= 2 && area.height >= 4 {
                        let top = AreaRect::new(area.x, area.y, area.width, half);
                        let bottom = AreaRect::new(area.x, area.y + half, area.width, area.height - half);
                        first.collect_separators(top, result);
                        second.collect_separators(bottom, result);
                    } else {
                        first.collect_separators(area, result);
                    }
                },
            }
        }
        assert(result@ =~= old(result)@ + spec_separators(*self, area));
    }

    /// Returns true if this is a single leaf (no splits).
    pub fn is_single(&self) -> (r: bool)
        ensures
            r == (*self is Leaf),
    {
        match self {
            PaneNode::Leaf(_) => true,
            _ => false,
        }
    }
}


// ── Pane state ─────────────────────────────────────────────────────

#[verifier::external_type_specification]
#[verifier::external_body]
pub struct ExSearchRegex(regex::Regex);

/// Per-pane state. Each pane has its own cursor, view, history, and buffer reference.
pub struct Pane {
    pub id: usize,
    pub buffer_idx: usize,
    pub cursor: Position,
    pub view: crate::editor::view::View,
    pub history: History,
    pub syntax_tree: Option<tree_sitter::Tree>,
    pub line_styles: LineStyles,
    pub styles_offset: usize,
    pub search_query: String,
    pub search_matches: Vec<(usize, usize, usize)>,
    pub search_index: Option<usize>,
    pub search_regex: Option<regex::Regex>,
    pub search_start_cursor: Option<Position>,
    pub jump_list: Vec<Position>,
    pub jump_index: usize,
}

impl Pane {
    /// A fresh pane on a buffer: cursor at the start, nothing searched,
    /// highlighted or remembered.
    pub fn new(id: usize, buffer_idx: usize) -> (p: Self)
        ensures
            p.id == id,
            p.buffer_idx == buffer_idx,
            p.cursor == (Position { row: 0, col: 0 }),
            p.view.offset_row == 0 && p.view.offset_col == 0 && p.view.offset_wrap == 0,
            p.view.width == 0 && p.view.height == 0 && !p.view.wrap,
            p.history.wf(),
            p.history.undo_states().len() == 0 && p.history.redo_states().len() == 0,
            p.syntax_tree is None,
            p.line_styles@.len() == 0,
            p.styles_offset == 0,
            p.search_query@.len() == 0,
            p.search_matches@.len() == 0,
            p.search_index is None,
            p.search_regex is None,
            p.search_start_cursor is None,
            p.jump_list@.len() == 0,
            p.jump_index == 0,
    {
        Self {
            id,
            buffer_idx,
            cursor: Position::default(),
            view: crate::editor::view::View::default(),
            history: History::new(),
            syntax_tree: None,
            line_styles: Vec::new(),
            styles_offset: 0,
            search_query: String::new(),
            search_matches: Vec::new(),
            search_index: None,
            search_regex: None,
            search_start_cursor: None,
            jump_list: Vec::new(),
            jump_index: 0,
        }
    }
}

// ── Render data ────────────────────────────────────────────────────

/// Data needed to render a single pane. Borrows from Editor state.
pub struct PaneRenderData<'a> {
    pub document: &'a Document,
    pub cursor: Position,
    pub view: crate::editor::view::View,
    pub mode: Mode,
    pub diagnostics: &'a [LspDiagnostic],
    pub line_styles: &'a LineStyles,
    pub styles_offset: usize,
    pub search_matches: &'a [(usize, usize, usize)],
    pub search_query: &'a str,
    pub visual_anchor: Option<Position>,
    pub is_active: bool,
    pub matching_bracket: Option<Position>,
}

/// Whether `(row, col)` lies in one of the matches `(row, start, len)`.
pub open spec fn in_search_match(matches: Seq<(usize, usize, usize)>, row: usize, col: usize) -> bool {
    exists|i: int|
        0 <= i < matches.len() && #[trigger] matches[i].0 == row && matches[i].1 <= col
            < matches[i].1 + matches[i].2
}

/// The selected range in a visual mode, from its first position to its
/// last; a line selection covers whole lines.
pub open spec fn spec_selection_range(mode: Mode, anchor: Option<Position>, cursor: Position) -> Option<
    (Position, Position),
> {
    match anchor {
        None => None,
        Some(a) => if !(mode == Mode::Visual || mode == Mode::VisualLine) {
            None
        } else {
            let (start, end) = if pos_le(a, cursor) {
                (a, cursor)
            } else {
                (cursor, a)
            };
            if mode == Mode::VisualLine {
                Some(
                    (
                        Position { row: start.row, col: 0 },
                        Position { row: end.row, col: usize::MAX },
                    ),
                )
            } else {
                Some((start, end))
            }
        },
    }
}

/// The bracket that a bracket looks for, and whether it looks forward.
pub open spec fn bracket_pair(c: char) -> Option<(char, bool)> {
    if c == '(' {
        Some((')', true))
    } else if c == '{' {
        Some(('}', true))
    } else if c == '[' {
        Some((']', true))
    } else if c == ')' {
        Some(('(', false))
    } else if c == '}' {
        Some(('{', false))
    } else if c == ']' {
        Some(('[', false))
    } else {
        None
    }
}

/// The display length of line `row` of `t`.
pub open spec fn dl(t: Seq<char>, row: int) -> int {
    display_len(line_text(t, row)) as int
}

/// Scanning forward from `(row, col)` with `depth` brackets open: the first
/// `close` that brings the depth back to 0. Line breaks are not scanned.
pub open spec fn match_forward(t: Seq<char>, open: char, close: char, row: int, col: int, depth: int) -> Option<
    Position,
>
    decreases line_count(t) - row, dl(t, row) - col,
{
    if row < 0 || row >= line_count(t) || col < 0 {
        None
    } else if col >= dl(t, row) {
        match_forward(t, open, close, row + 1, 0, depth)
    } else {
        let c = line_text(t, row)[col];
        if c == open {
            match_forward(t, open, close, row, col + 1, depth + 1)
        } else if c == close {
            if depth - 1 == 0 {
                Some(Position { row: row as usize, col: col as usize })
            } else {
                match_forward(t, open, close, row, col + 1, depth - 1)
            }
        } else {
            match_forward(t, open, close, row, col + 1, depth)
        }
    }
}

/// Where a backward scan goes on in line `row`: its last char.
pub open spec fn last_col(t: Seq<char>, row: int) -> int {
    if dl(t, row) == 0 {
        0
    } else {
        dl(t, row) - 1
    }
}

/// Scanning backward from `(row, col)` with `depth` brackets open: the first
/// `open` that brings the depth back to 0.
pub open spec fn match_backward(t: Seq<char>, close: char, open: char, row: int, col: int, depth: int) -> Option<
    Position,
>
    decreases row + 1, col + 1,
{
    if row < 0 || row >= line_count(t) {
        None
    } else if col < 0 {
        match_backward(t, close, open, row - 1, last_col(t, row - 1), depth)
    } else if col >= dl(t, row) {
        match_backward(t, close, open, row, col - 1, depth)
    } else {
        let c = line_text(t, row)[col];
        if c == close {
            match_backward(t, close, open, row, col - 1, depth + 1)
        } else if c == open {
            if depth - 1 == 0 {
                Some(Position { row: row as usize, col: col as usize })
            } else {
                match_backward(t, close, open, row, col - 1, depth - 1)
            }
        } else {
            match_backward(t, close, open, row, col - 1, depth)
        }
    }
}

/// The bracket matching the one under the cursor, if the cursor is on a
/// bracket and its match exists.
pub open spec fn spec_matching_bracket(t: Seq<char>, cursor: Position) -> Option<Position> {
    let row = cursor.row as int;
    let col = cursor.col as int;
    if col >= dl(t, row) {
        None
    } else {
        let ch = line_text(t, row)[col];
        match bracket_pair(ch) {
            None => None,
            Some((target, forward)) => if forward {
                match_forward(t, ch, target, row, col, 0)
            } else {
                match_backward(t, ch, target, row, col, 0)
            },
        }
    }
}

proof fn lemma_line_bounds(t: Seq<char>, row: int)
    requires
        0 <= row < line_count(t),
    ensures
        0 <= line_start(t, row),
        line_start(t, row) + dl(t, row) <= line_start(t, row + 1) <= t.len(),
        line_text(t, row).len() == line_start(t, row + 1) - line_start(t, row),
        row > 0 ==> line_start(t, row - 1) < line_start(t, row),
{
    lemma_line_starts(t);
    assert(line_start(t, row) < line_start(t, row + 1) || line_start(t, row) <= line_start(t, row
        + 1));
    if row > 0 {
        assert(line_start(t, row - 1) < line_start(t, row));
    }
}

impl<'a> PaneRenderData<'a> {
    /// Get syntax highlight style at a position.
    pub fn highlight_style_at(&self, doc_row: usize, col: usize) -> (s: SyntaxStyle)
        ensures
            s == if doc_row >= self.styles_offset {
                spec_style_at(self.line_styles@, (doc_row - self.styles_offset) as nat, col as nat)
            } else {
                colored(171, 178, 191)
            },
    {
        if doc_row >= self.styles_offset {
            style_at(self.line_styles.as_slice(), doc_row - self.styles_offset, col)
        } else {
            default_style()
        }
    }

    /// Check if position is a search match.
    pub fn is_search_match(&self, row: usize, col: usize) -> (r: bool)
        ensures
            r == (self.search_query@.len() > 0 && in_search_match(self.search_matches@, row, col)),
    {
        if self.search_query.unicode_len() == 0 {
            return false;
        }
        let mut i = 0usize;
        while i < self.search_matches.len()
            invariant
                i <= self.search_matches@.len(),
                self.search_query@.len() > 0,
                forall|k: int|
                    0 <= k < i ==> !(#[trigger] self.search_matches@[k].0 == row
                        && self.search_matches@[k].1 <= col < self.search_matches@[k].1
                        + self.search_matches@[k].2),
            decreases self.search_matches@.len() - i,
        {
            let (r, c, len) = self.search_matches[i];
            if r == row && col >= c && col - c < len {
                return true;
            }
            i += 1;
        }
        false
    }

    /// Get selection range if in visual mode.
    pub fn selection_range(&self) -> (r: Option<(Position, Position)>)
        ensures
            r == spec_selection_range(self.mode, self.visual_anchor, self.cursor),
    {
        let anchor = self.visual_anchor?;
        if !self.mode.is_visual() {
            return None;
        }
        let anchor_first = anchor.row < self.cursor.row || (anchor.row == self.cursor.row
            && anchor.col <= self.cursor.col);
        let (start, end) = if anchor_first {
            (anchor, self.cursor)
        } else {
            (self.cursor, anchor)
        };
        if self.mode == Mode::VisualLine {
            Some((Position { row: start.row, col: 0 }, Position { row: end.row, col: usize::MAX }))
        } else {
            Some((start, end))
        }
    }

    /// Compute matching bracket position.
    pub fn compute_matching_bracket(document: &Document, cursor: Position) -> (r: Option<Position>)
        requires
            cursor.row < line_count(document.text()),
        ensures
            r == spec_matching_bracket(document.text(), cursor),
    {
        let line = document.rope.line(cursor.row);
        let line_len = buffer::line_display_len(line);
        if cursor.col >= line_len {
            return None;
        }
        let ch = line.char(cursor.col);
        let (target, forward) = if ch == '(' {
            (')', true)
        } else if ch == '{' {
            ('}', true)
        } else if ch == '[' {
            (']', true)
        } else if ch == ')' {
            ('(', false)
        } else if ch == '}' {
            ('{', false)
        } else if ch == ']' {
            ('[', false)
        } else {
            return None;
        };
        if forward {
            Self::find_matching_forward(document, cursor, ch, target)
        } else {
            Self::find_matching_backward(document, cursor, ch, target)
        }
    }

    fn find_matching_forward(document: &Document, cursor: Position, open: char, close: char) -> (r:
        Option<Position>)
        requires
            cursor.row < line_count(document.text()),
            cursor.col < dl(document.text(), cursor.row as int),
            line_text(document.text(), cursor.row as int)[cursor.col as int] == open,
            open != close,
        ensures
            r == match_forward(document.text(), open, close, cursor.row as int, cursor.col as int, 0),
    {
        let ghost t = document.text();
        let ghost start = line_start(t, cursor.row as int) + cursor.col;
        let total = document.rope.len_chars();
        let n_lines = document.line_count();
        proof {
            lemma_line_bounds(t, cursor.row as int);
        }
        let mut depth: usize = 1;
        let mut row = cursor.row;
        let mut col = cursor.col + 1;
        while row < n_lines
            invariant
                t == document.text(),
                total == t.len(),
                n_lines == line_count(t),
                cursor.row <= row <= n_lines,
                row < n_lines ==> col <= dl(t, row as int),
                depth >= 1,
                row < n_lines ==> depth <= line_start(t, row as int) + col - start,
                start < t.len(),
                start >= 0,
                open != close,
                match_forward(t, open, close, cursor.row as int, cursor.col as int, 0)
                    == match_forward(t, open, close, row as int, col as int, depth as int),
            decreases n_lines - row,
        {
            let line = document.rope.line(row);
            let line_len = buffer::line_display_len(line);
            proof {
                lemma_line_bounds(t, row as int);
            }
            while col < line_len
                invariant
                    t == document.text(),
                    total == t.len(),
                    n_lines == line_count(t),
                    row < n_lines,
                    line_len == dl(t, row as int),
                    slice_text_is(line, t, row as int),
                    col <= line_len,
                    depth >= 1,
                    start >= 0,
                    depth <= line_start(t, row as int) + col - start,
                    line_start(t, row as int) + line_len <= t.len(),
                    open != close,
                    match_forward(t, open, close, cursor.row as int, cursor.col as int, 0)
                        == match_forward(t, open, close, row as int, col as int, depth as int),
                decreases line_len - col,
            {
                let c = line.char(col);
                if c == open {
                    depth += 1;
                } else if c == close {
                    if depth == 1 {
                        return Some(Position { row, col });
                    }
                    depth -= 1;
                }
                col += 1;
            }
            proof {
                if row + 1 < n_lines {
                    lemma_line_bounds(t, row + 1);
                }
            }
            row += 1;
            col = 0;
        }
        None
    }

    fn find_matching_backward(document: &Document, cursor: Position, close: char, open: char) -> (r:
        Option<Position>)
        requires
            cursor.row < line_count(document.text()),
            cursor.col < dl(document.text(), cursor.row as int),
            line_text(document.text(), cursor.row as int)[cursor.col as int] == close,
            open != close,
        ensures
            r == match_backward(document.text(), close, open, cursor.row as int, cursor.col as int, 0),
    {
        let ghost t = document.text();
        let ghost start = line_start(t, cursor.row as int) + cursor.col;
        let total = document.rope.len_chars();
        proof {
            lemma_line_bounds(t, cursor.row as int);
        }
        let mut depth: usize = 1;
        let mut row = cursor.row;
        // `cols` is one more than the column to scan next.
        let mut cols = cursor.col;
        loop
            invariant
                t == document.text(),
                total == t.len(),
                row <= cursor.row,
                cursor.row < line_count(t),
                cols <= last_col(t, row as int) + 1,
                depth >= 1,
                0 <= line_start(t, row as int),
                depth + line_start(t, row as int) + cols <= start + 1,
                start < t.len(),
                open != close,
                match_backward(t, close, open, cursor.row as int, cursor.col as int, 0)
                    == match_backward(t, close, open, row as int, cols - 1, depth as int),
            decreases row,
        {
            let line = document.rope.line(row);
            let line_len = buffer::line_display_len(line);
            proof {
                lemma_line_bounds(t, row as int);
            }
            while cols > 0
                invariant
                    t == document.text(),
                    total == t.len(),
                    row < line_count(t),
                    line_len == dl(t, row as int),
                    slice_text_is(line, t, row as int),
                    cols <= last_col(t, row as int) + 1,
                    depth >= 1,
                    0 <= line_start(t, row as int),
                    depth + line_start(t, row as int) + cols <= start + 1,
                    start < t.len(),
                    open != close,
                    match_backward(t, close, open, cursor.row as int, cursor.col as int, 0)
                        == match_backward(t, close, open, row as int, cols - 1, depth as int),
                decreases cols,
            {
                let col = cols - 1;
                if col < line_len {
                    let c = line.char(col);
                    if c == close {
                        depth += 1;
                    } else if c == open {
                        if depth == 1 {
                            return Some(Position { row, col });
                        }
                        depth -= 1;
                    }
                }
                cols -= 1;
            }
            if row == 0 {
                proof {
                    assert(match_backward(t, close, open, -1, last_col(t, -1), depth as int) is None);
                    assert(match_backward(t, close, open, 0, -1, depth as int) is None);
                }
                return None;
            }
            let prev = document.rope.line(row - 1);
            let prev_len = buffer::line_display_len(prev);
            proof {
                lemma_line_bounds(t, row - 1);
            }
            cols = if prev_len == 0 {
                1
            } else {
                prev_len
            };
            row -= 1;
        }
    }
}

/// Whether position `p` holds char `c` of `t`, outside the line break.
pub open spec fn holds_char(t: Seq<char>, p: Position, c: char) -> bool {
    &&& p.row < line_count(t)
    &&& p.col < dl(t, p.row as int)
    &&& line_text(t, p.row as int)[p.col as int] == c
}

proof fn lemma_match_forward(t: Seq<char>, open: char, close: char, row: int, col: int, depth: int)
    requires
        t.len() <= usize::MAX,
        col >= 0,
    ensures
        match_forward(t, open, close, row, col, depth) matches Some(p) ==> holds_char(t, p, close)
            && (p.row > row || (p.row == row && p.col >= col)),
    decreases line_count(t) - row, dl(t, row) - col,
{
    if row < 0 || row >= line_count(t) {
    } else if col >= dl(t, row) {
        lemma_match_forward(t, open, close, row + 1, 0, depth);
    } else {
        lemma_line_count_bound(t);
        lemma_line_bounds(t, row);
        lemma_match_forward(t, open, close, row, col + 1, depth + 1);
        lemma_match_forward(t, open, close, row, col + 1, depth - 1);
        lemma_match_forward(t, open, close, row, col + 1, depth);
    }
}

proof fn lemma_match_backward(t: Seq<char>, close: char, open: char, row: int, col: int, depth: int)
    requires
        t.len() <= usize::MAX,
        row < line_count(t) ==> col <= last_col(t, row),
    ensures
        match_backward(t, close, open, row, col, depth) matches Some(p) ==> holds_char(t, p, open)
            && (p.row < row || (p.row == row && p.col <= col)),
    decreases row + 1, col + 1,
{
    if row < 0 || row >= line_count(t) {
    } else if col < 0 {
        lemma_match_backward(t, close, open, row - 1, last_col(t, row - 1), depth);
    } else if col >= dl(t, row) {
        lemma_match_backward(t, close, open, row, col - 1, depth);
    } else {
        lemma_line_count_bound(t);
        lemma_line_bounds(t, row);
        lemma_match_backward(t, close, open, row, col - 1, depth + 1);
        lemma_match_backward(t, close, open, row, col - 1, depth - 1);
        lemma_match_backward(t, close, open, row, col - 1, depth);
    }
}

/// The bracket found for the one under the cursor is its partner: `(` finds
/// a `)` after it, `)` a `(` before it, and likewise for `{}` and `[]`.
pub proof fn law_matching_bracket_is_partner(t: Seq<char>, cursor: Position)
    requires
        t.len() <= usize::MAX,
        cursor.row < line_count(t),
    ensures
        spec_matching_bracket(t, cursor) matches Some(p) ==> ({
            let (target, forward) = bracket_pair(line_text(t, cursor.row as int)[cursor.col as int]).unwrap();
            &&& holds_char(t, p, target)
            &&& forward ==> pos_le(cursor, p) && p != cursor
            &&& !forward ==> pos_le(p, cursor) && p != cursor
        }),
{
    let row = cursor.row as int;
    let col = cursor.col as int;
    if col < dl(t, row) {
        let ch = line_text(t, row)[col];
        if let Some((target, forward)) = bracket_pair(ch) {
            if forward {
                lemma_match_forward(t, ch, target, row, col, 0);
            } else {
                lemma_match_backward(t, ch, target, row, col, 0);
            }
        }
    }
}

/// The slice holds line `row` of `t`.
pub open spec fn slice_text_is(line: ropey::RopeSlice, t: Seq<char>, row: int) -> bool {
    crate::buffer::rope::slice_text(line) == line_text(t, row)
}

} // verus!
