//! The viewport of a renderer that keeps what it has drawn: when the view
//! moves, which cells have come into view and must be drawn anew.
use vstd::prelude::*;

verus! {

/// A rectangle of cells: the columns `x_min..x_max` of the rows
/// `y_min..y_max`, the upper ends left out.
#[derive(Clone, Copy, Debug, PartialEq, Eq, Structural)]
pub struct Strip {
    pub x_min: i32,
    pub x_max: i32,
    pub y_min: i32,
    pub y_max: i32,
}

/// The cells to draw after a move: the new columns of the rows that stay, above
/// and below the new rows, and the new rows in full.
#[derive(Clone, Copy, Debug, PartialEq, Eq, Structural)]
pub struct Stale {
    pub top: Strip,
    pub side: Strip,
    pub bottom: Strip,
}

impl Strip {
    /// Whether the cell `(x, y)` lies in the strip.
    pub open spec fn holds(self, x: int, y: int) -> bool {
        self.x_min <= x < self.x_max && self.y_min <= y < self.y_max
    }
}

impl Stale {
    /// Whether the cell `(x, y)` lies in one of the three strips.
    pub open spec fn holds(self, x: int, y: int) -> bool {
        self.top.holds(x, y) || self.side.holds(x, y) || self.bottom.holds(x, y)
    }
}

/// Whether `at` lies in the view that starts at `start` and shows `size + 1`
/// cells.
pub open spec fn in_view(start: int, size: int, at: int) -> bool {
    start <= at <= start + size
}

/// Whether the cell at `at` is drawn by a view that starts at `start` and
/// shows `size + 1` cells along each axis.
pub fn is_visible(start_x: i32, start_y: i32, size_x: i32, size_y: i32, at_x: i32, at_y: i32) -> (visible: bool)
    requires
        size_x >= 0,
        size_y >= 0,
    ensures
        visible == (in_view(start_x as int, size_x as int, at_x as int) && in_view(
            start_y as int,
            size_y as int,
            at_y as int,
        )),
{
    let local_x: i64 = at_x as i64 - start_x as i64;
    let local_y: i64 = at_y as i64 - start_y as i64;
    local_x >= 0 && local_x <= size_x as i64 && local_y >= 0 && local_y <= size_y as i64
}

/// Along one axis, the cells that a view at `start` shows and the view at
/// `old` did not: their range, the upper end left out.
pub fn fresh_range(start: i32, old: i32, size: i32) -> (range: (i32, i32))
    requires
        size >= 0,
        start as int + size as int + 1 <= i32::MAX,
    ensures
        start <= range.0 <= range.1 <= start + size + 1,
        forall|at: int|
            range.0 <= at < range.1 <==> in_view(start as int, size as int, at) && !in_view(
                old as int,
                size as int,
                at,
            ),
        old <= start ==> range.1 == start + size + 1,
        old > start ==> range.0 == start,
{
    let end: i64 = start as i64 + size as i64 + 1;
    let old_end: i64 = old as i64 + size as i64 + 1;
    if old <= start {
        let from: i64 = if old_end > start as i64 {
            old_end
        } else {
            start as i64
        };
        (from as i32, end as i32)
    } else {
        let to: i64 = if (old as i64) < end {
            old as i64
        } else {
            end
        };
        (start, to as i32)
    }
}

/// The cells that have come into view when a view of `size_x + 1` by
/// `size_y + 1` cells has moved from `(old_x, old_y)` to `(start_x, start_y)`:
/// every cell of the new view that the old one did not show, and no other.
pub fn stale_cells(start_x: i32, start_y: i32, old_x: i32, old_y: i32, size_x: i32, size_y: i32) -> (stale: Stale)
    requires
        size_x >= 0,
        size_y >= 0,
        start_x as int + size_x as int + 1 <= i32::MAX,
        start_y as int + size_y as int + 1 <= i32::MAX,
    ensures
        forall|x: int, y: int| #[trigger]
            stale.holds(x, y) <==> in_view(start_x as int, size_x as int, x) && in_view(
                start_y as int,
                size_y as int,
                y,
            ) && !(in_view(old_x as int, size_x as int, x) && in_view(
                old_y as int,
                size_y as int,
                y,
            )),
        stale.side.x_min == start_x,
        stale.side.x_max == start_x + size_x + 1,
{
    let columns = fresh_range(start_x, old_x, size_x);
    let rows = fresh_range(start_y, old_y, size_y);
    let end_y: i32 = start_y + size_y + 1;
    let top = if old_y <= start_y {
        Strip { x_min: columns.0, x_max: columns.1, y_min: start_y, y_max: rows.0 }
    } else {
        Strip { x_min: columns.0, x_max: columns.1, y_min: start_y, y_max: start_y }
    };
    let side = Strip { x_min: start_x, x_max: start_x + size_x + 1, y_min: rows.0, y_max: rows.1 };
    let bottom = if old_y > start_y {
        Strip { x_min: columns.0, x_max: columns.1, y_min: rows.1, y_max: end_y }
    } else {
        Strip { x_min: columns.0, x_max: columns.1, y_min: end_y, y_max: end_y }
    };
    let stale = Stale { top, side, bottom };
    proof {
        assert forall|x: int, y: int| #[trigger]
            stale.holds(x, y) <==> in_view(start_x as int, size_x as int, x) && in_view(
                start_y as int,
                size_y as int,
                y,
            ) && !(in_view(old_x as int, size_x as int, x) && in_view(
                old_y as int,
                size_y as int,
                y,
            )) by {
            let fresh_x = columns.0 <= x < columns.1;
            let fresh_y = rows.0 <= y < rows.1;
            assert(fresh_x <==> in_view(start_x as int, size_x as int, x) && !in_view(
                old_x as int,
                size_x as int,
                x,
            ));
            assert(fresh_y <==> in_view(start_y as int, size_y as int, y) && !in_view(
                old_y as int,
                size_y as int,
                y,
            ));
            assert(stale.side.holds(x, y) <==> in_view(start_x as int, size_x as int, x)
                && fresh_y);
            let seen_y = in_view(start_y as int, size_y as int, y) && in_view(
                old_y as int,
                size_y as int,
                y,
            );
            if old_y <= start_y {
                assert(!stale.bottom.holds(x, y));
                assert(stale.top.holds(x, y) <==> fresh_x && start_y <= y < rows.0);
                assert((start_y <= y && y < rows.0) <==> seen_y);
            } else {
                assert(!stale.top.holds(x, y));
                assert(stale.bottom.holds(x, y) <==> fresh_x && rows.1 <= y < end_y);
                assert((rows.1 <= y && y < end_y) <==> seen_y);
            }
        }
    }
    stale
}

} // verus!
