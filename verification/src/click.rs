//! Mouse hit-testing for the command palette.
//!
//! Every visible result row registers a [`ClickRegion`] covering its
//! pane-relative screen area. Mouse events are resolved to a
//! [`ClickAction`] by [`hit_test`]. Coordinates are pane-relative:
//! `(0, 0)` is the top-left cell of the plugin pane.

use vstd::prelude::*;

verus! {

/// Action triggered by a mouse event in the palette.
#[derive(Debug, Clone, PartialEq, Eq, Structural)]
pub enum ClickAction {
    /// Click on a result row: execute the command at this `matches` index.
    ExecuteCommand(usize),
    /// Highlight (select) this match index without executing.
    SelectRow(usize),
    /// Click outside the result area: close the palette.
    ClosePalette,
}

/// A rectangular hit-test region in pane-relative coordinates.
///
/// Ranges are start-inclusive, end-exclusive:
/// `row_start <= row < row_end` and `col_start <= col < col_end`.
#[derive(Debug, Clone)]
pub struct ClickRegion {
    pub row_start: usize,
    pub row_end: usize,
    pub col_start: usize,
    pub col_end: usize,
    pub action: ClickAction,
}

/// Whether the cell `(row, col)` lies inside `r` (half-open on both axes).
pub open spec fn region_contains(r: ClickRegion, row: usize, col: usize) -> bool {
    &&& r.row_start <= row < r.row_end
    &&& r.col_start <= col < r.col_end
}

/// `i` is the first region of `regions` that contains `(row, col)`.
pub open spec fn is_first_hit(regions: Seq<ClickRegion>, i: int, row: usize, col: usize) -> bool {
    &&& 0 <= i < regions.len()
    &&& region_contains(regions[i], row, col)
    &&& forall|j: int| 0 <= j < i ==> !region_contains(#[trigger] regions[j], row, col)
}

impl ClickRegion {
    /// A single-row region on `row` spanning columns `[col_start, col_end)`.
    pub fn row(row: usize, col_start: usize, col_end: usize, action: ClickAction) -> (r: Self)
        requires
            row < usize::MAX,
        ensures
            r.row_start == row,
            r.row_end == row + 1,
            r.col_start == col_start,
            r.col_end == col_end,
            r.action == action,
    {
        ClickRegion { row_start: row, row_end: row + 1, col_start, col_end, action }
    }
}

/// The action of the first (topmost) region that contains `(row, col)`, or
/// `None` when no region does. Earlier regions win where regions overlap.
pub fn hit_test(regions: &[ClickRegion], row: usize, col: usize) -> (res: Option<&ClickAction>)
    ensures
        res is None <==> (forall|i: int|
            0 <= i < regions@.len() ==> !region_contains(#[trigger] regions@[i], row, col)),
        res matches Some(a) ==> exists|i: int|
            is_first_hit(regions@, i, row, col) && *a == regions@[i].action,
{
    let mut i: usize = 0;
    while i < regions.len()
        invariant
            i <= regions@.len(),
            forall|j: int| 0 <= j < i ==> !region_contains(#[trigger] regions@[j], row, col),
        decreases regions@.len() - i,
    {
        let r = &regions[i];
        if row >= r.row_start && row < r.row_end && col >= r.col_start && col < r.col_end {
            assert(is_first_hit(regions@, i as int, row, col));
            return Some(&r.action);
        }
        i = i + 1;
    }
    None
}

} // verus!
