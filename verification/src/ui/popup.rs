//! What the list popups share: their frame and the window of items that
//! keeps the selected one in view.
use vstd::prelude::*;

verus! {

/// The char of a popup's frame at column `dx`, row `dy` of a `w` by `h`
/// popup; `None` inside the frame.
pub open spec fn spec_border_char(dx: u16, dy: u16, w: u16, h: u16) -> Option<char> {
    if dy == 0 || dy == h - 1 || dx == 0 || dx == w - 1 {
        Some(
            if dy == 0 && dx == 0 {
                '┌'
            } else if dy == 0 && dx == w - 1 {
                '┐'
            } else if dy == h - 1 && dx == 0 {
                '└'
            } else if dy == h - 1 && dx == w - 1 {
                '┘'
            } else if dy == 0 || dy == h - 1 {
                '─'
            } else {
                '│'
            },
        )
    } else {
        None
    }
}

pub fn border_char(dx: u16, dy: u16, w: u16, h: u16) -> (r: Option<char>)
    requires
        w >= 1,
        h >= 1,
    ensures
        r == spec_border_char(dx, dy, w, h),
{
    if dy == 0 || dy == h - 1 || dx == 0 || dx == w - 1 {
        Some(
            if dy == 0 && dx == 0 {
                '┌'
            } else if dy == 0 && dx == w - 1 {
                '┐'
            } else if dy == h - 1 && dx == 0 {
                '└'
            } else if dy == h - 1 && dx == w - 1 {
                '┘'
            } else if dy == 0 || dy == h - 1 {
                '─'
            } else {
                '│'
            },
        )
    } else {
        None
    }
}

/// `a - b`, or 0 where `b` is larger.
pub open spec fn sat_sub(a: u16, b: u16) -> int {
    if a >= b {
        a - b
    } else {
        0
    }
}

/// The smaller of two integers.
pub open spec fn min_int(a: int, b: int) -> int {
    if a <= b {
        a
    } else {
        b
    }
}

/// The larger of two integers.
pub open spec fn max_int(a: int, b: int) -> int {
    if a >= b {
        a
    } else {
        b
    }
}

/// The first item shown of a list `content_height` rows high: the list
/// scrolls only as far as needed to show the selected item.
pub open spec fn spec_scroll_offset(selected: usize, content_height: usize) -> usize {
    if selected >= content_height {
        (selected - content_height + 1) as usize
    } else {
        0
    }
}

pub fn scroll_offset(selected: usize, content_height: usize) -> (r: usize)
    requires
        content_height > 0 || selected < usize::MAX,
    ensures
        r == spec_scroll_offset(selected, content_height),
{
    if selected >= content_height {
        selected - content_height + 1
    } else {
        0
    }
}

/// In a list with room for at least one row, the selected item is always
/// among the rows shown, and the list does not scroll while it is in the
/// first screenful.
pub proof fn law_selected_item_in_view(selected: usize, content_height: usize)
    requires
        content_height > 0,
    ensures
        spec_scroll_offset(selected, content_height) <= selected < spec_scroll_offset(
            selected,
            content_height,
        ) + content_height,
        selected < content_height ==> spec_scroll_offset(selected, content_height) == 0,
{
}

} // verus!
