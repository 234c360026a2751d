//! Terminal-free geometry for mouse hit-testing: whether a cursor position
//! falls inside a panel, and which list row a click lands on.
//!
//! Panel rectangles are cached at render time and read back by the mouse
//! handlers on the next event, so they describe the frame the user clicked.

use vstd::prelude::*;

verus! {

/// A screen rectangle in terminal cells.
#[derive(Debug, Clone, Copy, PartialEq, Eq, Structural)]
pub struct Rect {
    pub x: u16,
    pub y: u16,
    pub width: u16,
    pub height: u16,
}

/// A cursor position in terminal cells.
#[derive(Debug, Clone, Copy, PartialEq, Eq, Structural)]
pub struct CursorPos {
    pub column: u16,
    pub row: u16,
}

/// `a + b`, saturating at `u16::MAX`.
pub open spec fn sat_add(a: u16, b: u16) -> int {
    if a + b > u16::MAX { u16::MAX as int } else { a + b }
}

impl Rect {
    /// A rectangle from its corner and size.
    pub fn new(x: u16, y: u16, width: u16, height: u16) -> (r: Rect)
        ensures
            r == (Rect { x, y, width, height }),
    {
        Rect { x, y, width, height }
    }

    /// The position lies inside the rectangle (right and bottom edges
    /// exclusive, each saturating at the screen edge).
    pub open spec fn spec_contains(self, column: u16, row: u16) -> bool {
        &&& self.x <= column
        &&& column < sat_add(self.x, self.width)
        &&& self.y <= row
        &&& row < sat_add(self.y, self.height)
    }

    /// Does the rectangle contain the position?
    pub fn contains(self, column: u16, row: u16) -> (r: bool)
        ensures
            r == self.spec_contains(column, row),
    {
        column >= self.x && column < self.x.saturating_add(self.width) && row >= self.y
            && row < self.y.saturating_add(self.height)
    }
}

/// The cursor position falls inside `area`; an un-rendered panel (`None`)
/// contains nothing.
pub open spec fn spec_hit(area: Option<Rect>, ev: CursorPos) -> bool {
    match area {
        Some(a) => a.spec_contains(ev.column, ev.row),
        None => false,
    }
}

/// True when the cursor position falls inside `area`; an un-rendered panel
/// (`None`) contains nothing.
pub fn hit(area: Option<Rect>, ev: &CursorPos) -> (r: bool)
    ensures
        r == spec_hit(area, *ev),
{
    match area {
        Some(a) => a.contains(ev.column, ev.row),
        None => false,
    }
}

/// The list item under `click_row`: rows of `area` below its first
/// `top_skip` rows map to items `offset`, `offset + 1`, ...; `None` above the
/// first item row, at or below the bottom of `area`, or past the last item.
pub open spec fn spec_row_at(area: Rect, offset: usize, top_skip: u16, item_count: usize, click_row: u16) -> Option<usize> {
    let first = sat_add(area.y, top_skip);
    let bottom = sat_add(area.y, area.height);
    if click_row < first || click_row >= bottom {
        None
    } else {
        let idx = if offset + (click_row - first) > usize::MAX {
            usize::MAX as int
        } else {
            offset + (click_row - first)
        };
        if idx < item_count { Some(idx as usize) } else { None }
    }
}

/// Map an absolute terminal row to an index into a list's items.
///
/// `area` is the rect the list was rendered into, `offset` the list's scroll
/// offset after render, `top_skip` the rows at the top of `area` that are not
/// items (a border), `item_count` the number of items.
pub fn row_at(area: Rect, offset: usize, top_skip: u16, item_count: usize, click_row: u16) -> (r: Option<usize>)
    ensures
        r == spec_row_at(area, offset, top_skip, item_count, click_row),
{
    let first = area.y.saturating_add(top_skip);
    let bottom = area.y.saturating_add(area.height);
    if click_row < first || click_row >= bottom {
        return None;
    }
    let visible_row = (click_row - first) as usize;
    let idx = offset.saturating_add(visible_row);
    if idx < item_count { Some(idx) } else { None }
}

/// The scroll offset of a popup list rendered from offset 0 with `selected`
/// selected in a viewport of `visible` rows: just far enough to keep the
/// selection visible.
pub open spec fn popup_offset(selected: usize, visible: usize) -> usize {
    let v = if visible == 0 { 0 } else { visible - 1 };
    if selected < v { 0 } else { (selected - v) as usize }
}

/// Map a click to a row of a popup list that is rendered afresh each frame
/// with `selected` selected (`inner` is its inner list rect).
pub fn popup_row_at(inner: Rect, selected: usize, item_count: usize, click_row: u16) -> (r: Option<usize>)
    ensures
        r == spec_row_at(inner, popup_offset(selected, inner.height as usize), 0, item_count, click_row),
{
    let visible = inner.height as usize;
    let offset = selected.saturating_sub(visible.saturating_sub(1));
    row_at(inner, offset, 0, item_count, click_row)
}

/// A clicked row is always a real item, and the row directly below the
/// first item row maps to the next item.
pub proof fn lemma_row_at_in_range(area: Rect, offset: usize, top_skip: u16, item_count: usize, click_row: u16)
    ensures
        spec_row_at(area, offset, top_skip, item_count, click_row) matches Some(i) ==> i < item_count && i >= offset,
{
}

} // verus!
