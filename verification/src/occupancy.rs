//! The occupancy tracker: a set of occupied unit cells plus the column
//! bound. It is rebuilt from the widget list on every engine call and is the
//! single structure all placement algorithms share.

use vstd::prelude::*;

use crate::geometry::cells;
use crate::geometry::covers;
use crate::geometry::pos_arith_ok;
use crate::geometry::Position;
use crate::geometry::Widget;
use crate::geometry::COORD_LIMIT;
use crate::geometry::ARITH_LIMIT;

verus! {

/// Upper bound (exclusive) on the rows scanned by the best-position search.
/// When no free rectangle exists within this many rows, the search returns
/// the sentinel fallback row instead of failing.
pub const MAX_SEARCH_ROWS: i32 = 1000;

/// A candidate rectangle may be placed on the grid `occ` with `cols`
/// columns: it lies within the column bounds, not above the top row, and
/// covers no occupied cell.
pub open spec fn can_place(occ: Set<(int, int)>, cols: int, p: Position) -> bool {
    &&& p.x >= 0
    &&& p.y >= 0
    &&& p.x + p.w <= cols
    &&& forall|c: (int, int)| covers(p, c) ==> !occ.contains(c)
}

/// `p` with its `y` coordinate replaced.
pub open spec fn with_y(p: Position, y: int) -> Position {
    Position { x: p.x, y: y as i32, w: p.w, h: p.h }
}

/// The pull-to-the-ceiling move: starting from `p`, step `y` down by one as
/// long as the stepped rectangle is placeable, stopping at the first blocked
/// step or at row zero. A start row of zero or below is returned unchanged.
pub open spec fn highest_spec(occ: Set<(int, int)>, cols: int, p: Position) -> Position
    decreases p.y,
{
    if p.y <= 0 {
        p
    } else if can_place(occ, cols, with_y(p, p.y - 1)) {
        highest_spec(occ, cols, with_y(p, p.y - 1))
    } else {
        p
    }
}

/// Row-major scan of one row: the first x in `[x, cols - p.w]` at which the
/// rectangle of `p`'s size is placeable on row `y`, if any.
pub open spec fn scan_row(occ: Set<(int, int)>, cols: int, p: Position, y: int, x: int) -> Option<
    Position,
>
    decreases cols - p.w + 1 - x,
{
    if x > cols - p.w {
        None
    } else if can_place(occ, cols, Position { x: x as i32, y: y as i32, w: p.w, h: p.h }) {
        Some(Position { x: x as i32, y: y as i32, w: p.w, h: p.h })
    } else {
        scan_row(occ, cols, p, y, x + 1)
    }
}

/// Row-major scan of the rows `y .. MAX_SEARCH_ROWS`: the first free
/// rectangle, or the sentinel fallback at row `MAX_SEARCH_ROWS`.
pub open spec fn scan_rows(occ: Set<(int, int)>, cols: int, p: Position, y: int) -> Position
    decreases MAX_SEARCH_ROWS - y,
{
    if y < 0 || y >= MAX_SEARCH_ROWS {
        Position { x: 0, y: MAX_SEARCH_ROWS, w: p.w, h: p.h }
    } else if scan_row(occ, cols, p, y, 0) is Some {
        scan_row(occ, cols, p, y, 0)->Some_0
    } else {
        scan_rows(occ, cols, p, y + 1)
    }
}

/// The best position for a rectangle of `p`'s size: the first free spot in
/// row-major order within the search bound, else the sentinel fallback.
pub open spec fn best_spec(occ: Set<(int, int)>, cols: int, p: Position) -> Position {
    scan_rows(occ, cols, p, 0)
}

/// The set of occupied unit cells, together with the column bound.
/// Occupancy is derived data: each engine call seeds a fresh tracker from
/// the current widget list and discards it afterwards.
pub struct OccupiedGrid {
    cells: Vec<(i32, i32)>,
    columns: i32,
}

impl OccupiedGrid {
    /// The column bound of the grid being tracked.
    pub closed spec fn cols(self) -> int {
        self.columns as int
    }

    /// The set of cells recorded so far.
    pub closed spec fn occ(self) -> Set<(int, int)> {
        Set::new(
            |c: (int, int)|
                exists|i: int|
                    0 <= i < self.cells@.len() && (#[trigger] self.cells@[i]).0 == c.0
                        && self.cells@[i].1 == c.1,
        )
    }

    /// An empty tracker for a grid of `columns` columns.
    pub fn new(columns: i32) -> (r: OccupiedGrid)
        ensures
            r.occ() == Set::<(int, int)>::empty(),
            r.cols() == columns as int,
    {
        let r = OccupiedGrid { cells: Vec::new(), columns };
        proof {
            assert(r.occ() =~= Set::<(int, int)>::empty());
        }
        r
    }

    /// Whether the cell `(x, y)` is occupied.
    fn contains_cell(&self, x: i32, y: i32) -> (r: bool)
        ensures
            r == self.occ().contains((x as int, y as int)),
    {
        let n = self.cells.len();
        let mut i: usize = 0;
        while i < n
            invariant
                n == self.cells@.len(),
                0 <= i <= n,
                forall|j: int|
                    0 <= j < i ==> !((#[trigger] self.cells@[j]).0 == x && self.cells@[j].1 == y),
            decreases n - i,
        {
            let c = self.cells[i];
            if c.0 == x && c.1 == y {
                return true;
            }
            i += 1;
        }
        false
    }

    /// Whether the rectangle `pos` may be placed: inside the column bounds,
    /// not above the top row, and covering no occupied cell.
    pub fn can_place_at(&self, pos: &Position) -> (r: bool)
        requires
            pos_arith_ok(*pos),
            -COORD_LIMIT <= self.cols() <= COORD_LIMIT,
        ensures
            r == can_place(self.occ(), self.cols(), *pos),
    {
        if pos.x < 0 || pos.y < 0 || pos.x + pos.w > self.columns {
            return false;
        }
        let y_end = pos.y + pos.h;
        let x_end = pos.x + pos.w;
        let mut y = pos.y;
        while y < y_end
            invariant
                pos_arith_ok(*pos),
                -COORD_LIMIT <= self.cols() <= COORD_LIMIT,
                pos.x >= 0,
                pos.y >= 0,
                pos.x + pos.w <= self.cols(),
                y_end == pos.y + pos.h,
                x_end == pos.x + pos.w,
                pos.y <= y,
                y <= y_end || y == pos.y,
                forall|c: (int, int)|
                    covers(*pos, c) && c.1 < y ==> !self.occ().contains(c),
            decreases y_end - y,
        {
            let mut x = pos.x;
            while x < x_end
                invariant
                    pos_arith_ok(*pos),
                    -COORD_LIMIT <= self.cols() <= COORD_LIMIT,
                    pos.x >= 0,
                    pos.y >= 0,
                    pos.x + pos.w <= self.cols(),
                    y_end == pos.y + pos.h,
                    x_end == pos.x + pos.w,
                    pos.y <= y < y_end,
                    pos.x <= x,
                    x <= x_end || x == pos.x,
                    forall|c: (int, int)|
                        covers(*pos, c) && c.1 < y ==> !self.occ().contains(c),
                    forall|c: (int, int)|
                        covers(*pos, c) && c.1 == y && c.0 < x ==> !self.occ().contains(c),
                decreases x_end - x,
            {
                if self.contains_cell(x, y) {
                    return false;
                }
                x += 1;
            }
            y += 1;
        }
        true
    }

    /// Pulls the rectangle to the ceiling: decrements `y` while the
    /// decremented rectangle is placeable, keeping `x`, `w`, `h` fixed, and
    /// stops at the first blocked step or at row zero.
    pub fn find_highest_position(&self, pos: Position) -> (r: Position)
        requires
            pos_arith_ok(pos),
            -COORD_LIMIT <= self.cols() <= COORD_LIMIT,
        ensures
            r == highest_spec(self.occ(), self.cols(), pos),
    {
        let mut cur = pos;
        while cur.y > 0
            invariant
                pos_arith_ok(cur),
                cur.x == pos.x,
                cur.w == pos.w,
                cur.h == pos.h,
                cur.y <= pos.y || cur.y == pos.y,
                -COORD_LIMIT <= self.cols() <= COORD_LIMIT,
                highest_spec(self.occ(), self.cols(), cur) == highest_spec(
                    self.occ(),
                    self.cols(),
                    pos,
                ),
            ensures
                cur == highest_spec(self.occ(), self.cols(), pos),
            decreases cur.y,
        {
            let test_pos = Position { x: cur.x, y: cur.y - 1, w: cur.w, h: cur.h };
            if self.can_place_at(&test_pos) {
                cur = test_pos;
            } else {
                break;
            }
        }
        cur
    }

    /// Row-major search for the first free rectangle of the widget's size:
    /// scans rows `0 .. MAX_SEARCH_ROWS` left to right and returns the first
    /// placeable spot, or the sentinel fallback at row `MAX_SEARCH_ROWS`
    /// when no free spot exists within the bound. Never fails.
    pub fn find_best_position(&self, widget: &Widget) -> (r: Position)
        requires
            pos_arith_ok(widget.position),
            -COORD_LIMIT <= self.cols() <= COORD_LIMIT,
        ensures
            r == best_spec(self.occ(), self.cols(), widget.position),
    {
        let p = widget.position;
        let mut y: i32 = 0;
        while y < MAX_SEARCH_ROWS
            invariant
                pos_arith_ok(p),
                p == widget.position,
                -COORD_LIMIT <= self.cols() <= COORD_LIMIT,
                0 <= y <= MAX_SEARCH_ROWS,
                scan_rows(self.occ(), self.cols(), p, y as int) == best_spec(
                    self.occ(),
                    self.cols(),
                    p,
                ),
            decreases MAX_SEARCH_ROWS - y,
        {
            let mut x: i32 = 0;
            let mut found = false;
            while !found && x <= self.columns - p.w
                invariant
                    pos_arith_ok(p),
                    -COORD_LIMIT <= self.cols() <= COORD_LIMIT,
                    0 <= y < MAX_SEARCH_ROWS,
                    0 <= x,
                    x <= self.cols() - p.w + 1 || x == 0,
                    !found ==> scan_row(self.occ(), self.cols(), p, y as int, x as int) == scan_row(
                        self.occ(),
                        self.cols(),
                        p,
                        y as int,
                        0,
                    ),
                    found ==> scan_row(self.occ(), self.cols(), p, y as int, 0) == Some(
                        Position { x, y, w: p.w, h: p.h },
                    ),
                decreases self.cols() - p.w + 1 - x + (if found {
                    0int
                } else {
                    1int
                }),
            {
                let test_pos = Position { x, y, w: p.w, h: p.h };
                if self.can_place_at(&test_pos) {
                    found = true;
                } else {
                    x += 1;
                }
            }
            if found {
                return Position { x, y, w: p.w, h: p.h };
            }
            y += 1;
        }
        proof {
            assert(scan_rows(self.occ(), self.cols(), p, y as int) == Position {
                x: 0,
                y: MAX_SEARCH_ROWS,
                w: p.w,
                h: p.h,
            });
        }
        Position { x: 0, y: MAX_SEARCH_ROWS, w: p.w, h: p.h }
    }

    /// Records the single cell `(x, y)` as occupied.
    fn add_cell(&mut self, x: i32, y: i32)
        ensures
            final(self).occ() == old(self).occ().insert((x as int, y as int)),
            final(self).cols() == old(self).cols(),
    {
        let ghost prev = self.cells@;
        self.cells.push((x, y));
        proof {
            assert forall|c: (int, int)|
                self.occ().contains(c) implies old(self).occ().insert(
                (x as int, y as int),
            ).contains(c) by {
                let i = choose|i: int|
                    0 <= i < self.cells@.len() && (#[trigger] self.cells@[i]).0 == c.0
                        && self.cells@[i].1 == c.1;
                if i < prev.len() {
                    assert(prev[i] == self.cells@[i]);
                    assert(old(self).occ().contains(c));
                }
            }
            assert forall|c: (int, int)|
                old(self).occ().insert((x as int, y as int)).contains(c) implies self.occ().contains(
                c,
            ) by {
                if old(self).occ().contains(c) {
                    let i = choose|i: int|
                        0 <= i < prev.len() && (#[trigger] prev[i]).0 == c.0 && prev[i].1 == c.1;
                    assert(self.cells@[i] == prev[i]);
                    assert(self.occ().contains(c));
                } else {
                    let n = prev.len() as int;
                    assert(self.cells@[n] == (x, y));
                    assert(self.occ().contains((x as int, y as int)));
                }
            }
            assert(self.occ() =~= old(self).occ().insert((x as int, y as int)));
        }
    }

    /// Marks every cell of the rectangle as occupied. Re-registering an
    /// already occupied cell is harmless: the recorded set only grows by
    /// the rectangle's cells.
    pub fn register_occupied(&mut self, pos: &Position)
        requires
            pos_arith_ok(*pos),
        ensures
            final(self).occ() == old(self).occ().union(cells(*pos)),
            final(self).cols() == old(self).cols(),
    {
        let y_end = pos.y + pos.h;
        let x_end = pos.x + pos.w;
        let mut y = pos.y;
        while y <= y_end - 1
            invariant
                pos_arith_ok(*pos),
                y_end == pos.y + pos.h,
                x_end == pos.x + pos.w,
                pos.y <= y,
                y <= y_end || y == pos.y,
                self.cols() == old(self).cols(),
                self.occ() =~= old(self).occ().union(
                    Set::new(|c: (int, int)| covers(*pos, c) && c.1 < y),
                ),
            decreases y_end - y,
        {
            let mut x = pos.x;
            while x <= x_end - 1
                invariant
                    pos_arith_ok(*pos),
                    y_end == pos.y + pos.h,
                    x_end == pos.x + pos.w,
                    pos.y <= y < y_end,
                    pos.x <= x,
                    x <= x_end || x == pos.x,
                    self.cols() == old(self).cols(),
                    self.occ() =~= old(self).occ().union(
                        Set::new(
                            |c: (int, int)|
                                covers(*pos, c) && (c.1 < y || (c.1 == y && c.0 < x)),
                        ),
                    ),
                decreases x_end - x,
            {
                self.add_cell(x, y);
                x += 1;
            }
            y += 1;
        }
        proof {
            assert(self.occ() =~= old(self).occ().union(cells(*pos)));
        }
    }
}

} // verus!
