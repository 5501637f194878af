//! Geometry leaf types of the placement engine: grid positions, the grid
//! configuration, widgets, and the axis-aligned collision predicate.

use vstd::prelude::*;

verus! {

/// A rectangle of whole grid cells: origin `(x, y)`, extent `w` by `h`.
/// Coordinates are grid-cell units, not pixels.
#[derive(Debug, Clone, Copy, PartialEq, Eq, Structural)]
pub struct Position {
    pub x: i32,
    pub y: i32,
    pub w: i32,
    pub h: i32,
}

/// Grid configuration. `columns` bounds every x-extent; `gap` is carried
/// through for the renderer but does not enter the placement math; `float`
/// selects the clamp-only branch of layout optimization; `static_grid` is
/// advisory and not enforced by the engine.
#[derive(Debug, Clone, Copy, PartialEq, Eq, Structural)]
pub struct GridConfig {
    pub columns: i32,
    pub gap: i32,
    pub float: bool,
    pub static_grid: bool,
}

/// A placed widget: identity, a position, a lock flag, and transient
/// interaction state (`is_dragged`, `original_position`) used only while a
/// drag is in progress.
#[derive(Debug, Clone)]
pub struct Widget {
    pub id: String,
    pub position: Position,
    pub locked: bool,
    pub is_dragged: bool,
    pub original_position: Option<Position>,
}

/// Bound on every coordinate the engine accepts as input. It leaves enough
/// headroom inside `i32` that every intermediate value of the placement
/// math — including a widget pushed below a dragged one — stays
/// representable.
pub const COORD_LIMIT: i32 = 0x1000_0000;

/// Bound within which the engine's arithmetic is free of overflow: any sum
/// of two values below `ARITH_LIMIT` still fits in `i32`. Every coordinate
/// an algorithm produces from in-range inputs stays below it.
pub const ARITH_LIMIT: i32 = 0x3000_0000;

/// A position whose four fields all lie within `COORD_LIMIT`.
pub open spec fn pos_in_range(p: Position) -> bool {
    &&& -COORD_LIMIT <= p.x <= COORD_LIMIT
    &&& -COORD_LIMIT <= p.y <= COORD_LIMIT
    &&& -COORD_LIMIT <= p.w <= COORD_LIMIT
    &&& -COORD_LIMIT <= p.h <= COORD_LIMIT
}

/// A position whose four fields all lie within `ARITH_LIMIT`.
pub open spec fn pos_arith_ok(p: Position) -> bool {
    &&& -ARITH_LIMIT <= p.x <= ARITH_LIMIT
    &&& -ARITH_LIMIT <= p.y <= ARITH_LIMIT
    &&& -ARITH_LIMIT <= p.w <= ARITH_LIMIT
    &&& -ARITH_LIMIT <= p.h <= ARITH_LIMIT
}

/// Every widget of the sequence has an in-range position.
pub open spec fn widgets_in_range(ws: Seq<Widget>) -> bool {
    forall|i: int| 0 <= i < ws.len() ==> #[trigger] pos_in_range(ws[i].position)
}

/// The rectangle `p` covers the unit cell `c`.
pub open spec fn covers(p: Position, c: (int, int)) -> bool {
    &&& p.x <= c.0 < p.x + p.w
    &&& p.y <= c.1 < p.y + p.h
}

/// The set of unit cells covered by the rectangle `p`.
pub open spec fn cells(p: Position) -> Set<(int, int)> {
    Set::new(|c: (int, int)| covers(p, c))
}

/// Axis-aligned rectangle overlap: the two rectangles share at least one
/// point of the plane (for rectangles of positive extent, at least one cell).
pub open spec fn overlap(a: Position, b: Position) -> bool {
    !(a.x >= b.x + b.w || a.x + a.w <= b.x || a.y >= b.y + b.h || a.y + a.h <= b.y)
}

/// Collision predicate between two placed rectangles.
pub fn blocks_collide(a: &Position, b: &Position) -> (r: bool)
    requires
        pos_arith_ok(*a),
        pos_arith_ok(*b),
    ensures
        r == overlap(*a, *b),
{
    !(a.x >= b.x + b.w || a.x + a.w <= b.x || a.y >= b.y + b.h || a.y + a.h <= b.y)
}

/// For rectangles of positive extent, overlap is the same as sharing a cell.
pub proof fn lemma_overlap_iff_shared_cell(a: Position, b: Position)
    requires
        a.w > 0,
        a.h > 0,
        b.w > 0,
        b.h > 0,
    ensures
        overlap(a, b) <==> exists|c: (int, int)| covers(a, c) && covers(b, c),
{
    if overlap(a, b) {
        let cx = if a.x >= b.x { a.x as int } else { b.x as int };
        let cy = if a.y >= b.y { a.y as int } else { b.y as int };
        assert(covers(a, (cx, cy)) && covers(b, (cx, cy)));
    }
}

} // verus!
