//! Where each part of the screen goes: the tab bar, the panes with a status
//! line under each, the separators between panes, the command line, and the
//! area the popups cover.
use vstd::prelude::*;

use ratatui::layout::{Constraint, Layout, Rect};

use crate::editor::pane::{
    law_layout_within_area, spec_layout, spec_separators, AreaRect, PaneNode,
};

verus! {

/// A row constraint of a vertical layout: a fixed number of rows, or at
/// least a number of rows.
#[derive(Debug, Clone, Copy, PartialEq, Eq, Structural)]
pub enum RowRule {
    Length(u16),
    Min(u16),
}

/// What ratatui's vertical layout gives for an area split by the row
/// constraints `rules`, one part per constraint.
pub uninterp spec fn vertical_split(area: AreaRect, rules: Seq<RowRule>) -> Seq<AreaRect>;

/// ratatui's `Layout::split` with the vertical constraints `rules` (each
/// `RowRule` turned into the `Constraint` of the same name) on the area as a
/// `Rect`, each part turned back into an `AreaRect`. ratatui gives one part
/// per constraint; how its solver rounds is not stated here.
#[verifier::external_body]
fn split_rows(area: AreaRect, rules: &Vec<RowRule>) -> (r: Vec<AreaRect>)
    ensures
        r@ == vertical_split(area, rules@),
        r@.len() == rules@.len(),
{
    let constraints: Vec<Constraint> = rules.iter().map(|c| match *c {
        RowRule::Length(n) => Constraint::Length(n),
        RowRule::Min(n) => Constraint::Min(n),
    }).collect();
    let parts = Layout::vertical(constraints).split(Rect::new(area.x, area.y, area.width, area.height));
    parts.iter().map(|r| AreaRect { x: r.x, y: r.y, width: r.width, height: r.height }).collect()
}

/// The rows of the screen: `top` rows for the tab bar, the panes (at least
/// one row), and one row for the command line.
pub open spec fn screen_row_rules(top: u16) -> Seq<RowRule> {
    seq![RowRule::Length(top), RowRule::Min(1), RowRule::Length(1)]
}

/// A pane on the screen: its text area and the status line under it.
#[derive(Debug, Clone, Copy, PartialEq, Eq, Structural)]
pub struct PaneRegion {
    pub id: usize,
    pub editor: AreaRect,
    pub status: AreaRect,
}

/// Where everything goes.
pub struct ScreenLayout {
    /// The tab bar, shown when more than one buffer is open.
    pub tab_bar: Option<AreaRect>,
    /// The panes that have room for a row of text and a status line.
    pub panes: Vec<PaneRegion>,
    /// The vertical lines between panes: column, first row, height.
    pub separators: Vec<(u16, u16, u16)>,
    /// The text area of the active pane, which the popups cover (the whole
    /// pane area when the active pane is not shown).
    pub active_editor: AreaRect,
    pub command_line: AreaRect,
}

/// The region of a pane rectangle: all but its last row for the text, the
/// last row for the status line.
pub open spec fn region_of(id: usize, r: AreaRect) -> PaneRegion {
    PaneRegion {
        id,
        editor: AreaRect { x: r.x, y: r.y, width: r.width, height: (r.height - 1) as u16 },
        status: AreaRect { x: r.x, y: (r.y + r.height - 1) as u16, width: r.width, height: 1 },
    }
}

/// The regions of the pane rectangles at least two rows high, in order.
pub open spec fn pane_regions(rects: Seq<(usize, AreaRect)>) -> Seq<PaneRegion>
    decreases rects.len(),
{
    if rects.len() == 0 {
        Seq::empty()
    } else {
        let rest = pane_regions(rects.drop_last());
        let (id, r) = rects.last();
        if r.height < 2 {
            rest
        } else {
            rest.push(region_of(id, r))
        }
    }
}

/// The text area of the last region of pane `active`, or `default`.
pub open spec fn active_editor(regions: Seq<PaneRegion>, active: usize, default: AreaRect) -> AreaRect
    decreases regions.len(),
{
    if regions.len() == 0 {
        default
    } else if regions.last().id == active {
        regions.last().editor
    } else {
        active_editor(regions.drop_last(), active, default)
    }
}

pub struct ScreenLayoutView {
    pub tab_bar: Option<AreaRect>,
    pub panes: Seq<PaneRegion>,
    pub separators: Seq<(u16, u16, u16)>,
    pub active_editor: AreaRect,
    pub command_line: AreaRect,
}

pub open spec fn screen_view(l: ScreenLayout) -> ScreenLayoutView {
    ScreenLayoutView {
        tab_bar: l.tab_bar,
        panes: l.panes@,
        separators: l.separators@,
        active_editor: l.active_editor,
        command_line: l.command_line,
    }
}

/// The screen laid out from the three rows of the vertical split: the tab
/// bar row when shown, the panes laid out in the middle row, the command
/// line row.
pub open spec fn spec_screen_regions(
    rows: Seq<AreaRect>,
    show_tabs: bool,
    layout: PaneNode,
    active: usize,
) -> ScreenLayoutView {
    let regions = pane_regions(spec_layout(layout, rows[1]));
    ScreenLayoutView {
        tab_bar: if show_tabs {
            Some(rows[0])
        } else {
            None
        },
        panes: regions,
        separators: spec_separators(layout, rows[1]),
        active_editor: active_editor(regions, active, rows[1]),
        command_line: rows[2],
    }
}

proof fn lemma_regions_step(rects: Seq<(usize, AreaRect)>, i: int)
    requires
        0 <= i < rects.len(),
    ensures
        pane_regions(rects.take(i + 1)) == if rects[i].1.height < 2 {
            pane_regions(rects.take(i))
        } else {
            pane_regions(rects.take(i)).push(region_of(rects[i].0, rects[i].1))
        },
{
    assert(rects.take(i + 1).drop_last() =~= rects.take(i));
}

/// Lays out the screen from the rows of the vertical split (tab bar, panes,
/// command line): the panes of `layout` in the middle row, each with the
/// room for a status line, and the active pane's text area.
pub fn screen_regions(rows: &Vec<AreaRect>, show_tabs: bool, layout: &PaneNode, active: usize) -> (r:
    ScreenLayout)
    requires
        rows@.len() == 3,
        rows@[1].fits(),
    ensures
        screen_view(r) == spec_screen_regions(rows@, show_tabs, *layout, active),
{
    let pane_area = rows[1];
    let rects = layout.layout(pane_area);
    let separators = layout.separators(pane_area);
    proof {
        law_layout_within_area(*layout, pane_area);
    }
    let mut panes: Vec<PaneRegion> = Vec::new();
    let mut active_rect = pane_area;
    let mut i = 0usize;
    while i < rects.len()
        invariant
            i <= rects@.len(),
            rects@ == spec_layout(*layout, pane_area),
            pane_area.fits(),
            forall|j: int| 0 <= j < rects@.len() ==> (#[trigger] rects@[j]).1.within(pane_area),
            panes@ == pane_regions(rects@.take(i as int)),
            active_rect == active_editor(panes@, active, pane_area),
        decreases rects@.len() - i,
    {
        let (id, r) = rects[i];
        proof {
            lemma_regions_step(rects@, i as int);
            assert(rects@[i as int].1.within(pane_area));
        }
        if r.height >= 2 {
            let editor = AreaRect { x: r.x, y: r.y, width: r.width, height: r.height - 1 };
            let status = AreaRect { x: r.x, y: r.y + (r.height - 1), width: r.width, height: 1 };
            let region = PaneRegion { id, editor, status };
            proof {
                assert(region == region_of(id, r));
            }
            panes.push(region);
            if id == active {
                active_rect = editor;
            }
            proof {
                assert(panes@.drop_last() == pane_regions(rects@.take(i as int)));
            }
        }
        i += 1;
    }
    proof {
        assert(rects@.take(rects@.len() as int) =~= rects@);
    }
    ScreenLayout {
        tab_bar: if show_tabs {
            Some(rows[0])
        } else {
            None
        },
        panes,
        separators,
        active_editor: active_rect,
        command_line: rows[2],
    }
}

/// Lays out the screen of `size`: a tab bar row when more than one buffer
/// is open, the panes, and the command line row, as ratatui's vertical
/// layout splits them (see `screen_regions`). `None` when the pane row it
/// gives reaches past the coordinate range.
pub fn screen_layout(size: AreaRect, buffer_count: usize, layout: &PaneNode, active: usize) -> (r: Option<
    ScreenLayout,
>)
    ensures
        ({
            let rows = vertical_split(
                size,
                screen_row_rules(
                    if buffer_count > 1 {
                        1
                    } else {
                        0
                    },
                ),
            );
            match r {
                Some(l) => rows[1].fits() && screen_view(l) == spec_screen_regions(
                    rows,
                    buffer_count > 1,
                    *layout,
                    active,
                ),
                None => !rows[1].fits(),
            }
        }),
{
    let show_tabs = buffer_count > 1;
    let top: u16 = if show_tabs {
        1
    } else {
        0
    };
    let rules = vec![RowRule::Length(top), RowRule::Min(1), RowRule::Length(1)];
    proof {
        assert(rules@ =~= screen_row_rules(top));
    }
    let rows = split_rows(size, &rules);
    let middle = rows[1];
    if (middle.x as u32) + (middle.width as u32) > 65535 || (middle.y as u32) + (middle.height as u32) > 65535 {
        return None;
    }
    Some(screen_regions(&rows, show_tabs, layout, active))
}

} // verus!

verus! {

proof fn lemma_regions_within(rects: Seq<(usize, AreaRect)>, area: AreaRect)
    requires
        area.fits(),
        forall|j: int| 0 <= j < rects.len() ==> (#[trigger] rects[j]).1.within(area),
    ensures
        forall|k: int|
            0 <= k < pane_regions(rects).len() ==> {
                let g = #[trigger] pane_regions(rects)[k];
                &&& g.editor.within(area)
                &&& g.status.within(area)
                &&& g.editor.height >= 1
                &&& g.status.y == g.editor.y + g.editor.height
            },
    decreases rects.len(),
{
    if rects.len() > 0 {
        let rest = rects.drop_last();
        lemma_regions_within(rest, area);
        assert(rects.last() == rects[rects.len() - 1]);
        let (id, r) = rects.last();
        assert(r.within(area));
        let prev = pane_regions(rest);
        if r.height >= 2 {
            let g = region_of(id, r);
            assert(g.editor.within(area));
            assert(g.status.within(area));
            assert forall|k: int| 0 <= k < pane_regions(rects).len() implies {
                let h = #[trigger] pane_regions(rects)[k];
                &&& h.editor.within(area)
                &&& h.status.within(area)
                &&& h.editor.height >= 1
                &&& h.status.y == h.editor.y + h.editor.height
            } by {
                if k < prev.len() {
                    assert(pane_regions(rects)[k] == prev[k]);
                }
            }
        }
    }
}

/// Every pane on the screen lies in the pane row, with at least one row of
/// text and its status line right under it.
pub proof fn law_panes_within_pane_row(layout: PaneNode, rows: Seq<AreaRect>, show_tabs: bool, active: usize)
    requires
        rows.len() == 3,
        rows[1].fits(),
    ensures
        forall|k: int|
            0 <= k < spec_screen_regions(rows, show_tabs, layout, active).panes.len() ==> {
                let g = #[trigger] spec_screen_regions(rows, show_tabs, layout, active).panes[k];
                &&& g.editor.within(rows[1])
                &&& g.status.within(rows[1])
                &&& g.editor.height >= 1
                &&& g.status.y == g.editor.y + g.editor.height
            },
{
    law_layout_within_area(layout, rows[1]);
    lemma_regions_within(spec_layout(layout, rows[1]), rows[1]);
}

} // verus!
