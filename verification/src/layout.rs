//! The three placement operations: layout optimization (compaction),
//! drag-time conflict resolution, and the best-position search for a new
//! widget. Each is a pure function from the caller's widget list and grid
//! configuration to a new list or a single position.

use vstd::prelude::*;

use crate::geometry::blocks_collide;
use crate::geometry::cells;
use crate::geometry::covers;
use crate::geometry::overlap;
use crate::geometry::pos_arith_ok;
use crate::geometry::pos_in_range;
use crate::geometry::widgets_in_range;
use crate::geometry::GridConfig;
use crate::geometry::Position;
use crate::geometry::Widget;
use crate::geometry::COORD_LIMIT;
use crate::occupancy::best_spec;
use crate::occupancy::can_place;
use crate::occupancy::highest_spec;
use crate::occupancy::with_y;
use crate::occupancy::OccupiedGrid;
use crate::sorting::sort_widgets;
use crate::sorting::sort_widgets_spec;
use crate::sorting::sorted_insert;
use crate::sorting::widget_copy;

verus! {

/// `w` with its position replaced, all other fields kept.
pub open spec fn with_position(w: Widget, p: Position) -> Widget {
    Widget {
        id: w.id,
        position: p,
        locked: w.locked,
        is_dragged: w.is_dragged,
        original_position: w.original_position,
    }
}

/// The float-mode repair of one widget: a locked widget is untouched; an
/// unlocked widget has `x` clamped into `[0, columns - w]` (the upper bound
/// winning when the range is empty, as `x.max(0).min(columns - w)` does)
/// and `y` raised to at least `0`.
pub open spec fn clamp_spec(w: Widget, cols: int) -> Widget {
    if w.locked {
        w
    } else {
        let cx = if w.position.x >= 0 {
            w.position.x as int
        } else {
            0
        };
        let cx2 = if cx <= cols - w.position.w {
            cx
        } else {
            cols - w.position.w
        };
        let cy = if w.position.y >= 0 {
            w.position.y as int
        } else {
            0
        };
        with_position(w, Position { x: cx2 as i32, y: cy as i32, w: w.position.w, h: w.position.h })
    }
}

/// Float mode repairs every unlocked widget in place and moves nothing.
pub open spec fn float_spec(ws: Seq<Widget>, cols: int) -> Seq<Widget> {
    Seq::new(ws.len(), |i: int| clamp_spec(ws[i], cols))
}

/// The cells covered by the locked widgets of `ws`.
pub open spec fn locked_cells(ws: Seq<Widget>) -> Set<(int, int)> {
    Set::new(
        |c: (int, int)|
            exists|i: int|
                0 <= i < ws.len() && (#[trigger] ws[i]).locked && covers(ws[i].position, c),
    )
}

/// The greedy compaction pass over an already sorted list: locked widgets
/// are kept as they are (their cells are in `occ` from the start); each
/// unlocked widget is pulled to the ceiling against `occ` and its new cells
/// are occupied before the next widget is placed.
pub open spec fn compact_rec(ws: Seq<Widget>, occ: Set<(int, int)>, cols: int) -> Seq<Widget>
    decreases ws.len(),
{
    if ws.len() == 0 {
        Seq::empty()
    } else if ws[0].locked {
        seq![ws[0]] + compact_rec(ws.drop_first(), occ, cols)
    } else {
        let p = highest_spec(occ, cols, ws[0].position);
        seq![with_position(ws[0], p)] + compact_rec(ws.drop_first(), occ.union(cells(p)), cols)
    }
}

/// Layout optimization: in float mode, clamp unlocked widgets into bounds
/// and return; otherwise sort all widgets by `(y, x)` ascending, seed the
/// occupancy with every locked widget, and pull each unlocked widget to the
/// ceiling in sorted order.
pub open spec fn optimize_spec(ws: Seq<Widget>, c: GridConfig) -> Seq<Widget> {
    if c.float {
        float_spec(ws, c.columns as int)
    } else {
        let sorted = sort_widgets_spec(ws);
        compact_rec(sorted, locked_cells(sorted), c.columns as int)
    }
}

/// The result of pulling to the ceiling keeps `x`, `w`, `h`, never raises
/// `y` above its start, and never drops it below zero (a start below zero
/// is returned unchanged).
pub proof fn lemma_highest_in_range(occ: Set<(int, int)>, cols: int, p: Position)
    ensures
        highest_spec(occ, cols, p).x == p.x,
        highest_spec(occ, cols, p).w == p.w,
        highest_spec(occ, cols, p).h == p.h,
        highest_spec(occ, cols, p).y <= p.y,
        p.y >= 0 ==> highest_spec(occ, cols, p).y >= 0,
        p.y < 0 ==> highest_spec(occ, cols, p).y == p.y,
    decreases p.y,
{
    if p.y <= 0 {
    } else if can_place(occ, cols, with_y(p, p.y - 1)) {
        lemma_highest_in_range(occ, cols, with_y(p, p.y - 1));
    }
}

/// Stable insertion adds exactly one element.
proof fn lemma_sorted_insert_len(s: Seq<Widget>, w: Widget)
    ensures
        sorted_insert(s, w).len() == s.len() + 1,
    decreases s.len(),
{
    if s.len() == 0 {
    } else if crate::sorting::key_lt(w.position, s[0].position) {
    } else {
        lemma_sorted_insert_len(s.drop_first(), w);
    }
}

/// Sorting keeps the length of the list.
pub proof fn lemma_sort_len(s: Seq<Widget>)
    ensures
        sort_widgets_spec(s).len() == s.len(),
    decreases s.len(),
{
    if s.len() > 0 {
        lemma_sort_len(s.drop_last());
        lemma_sorted_insert_len(sort_widgets_spec(s.drop_last()), s.last());
    }
}

/// Inserting into a sequence of in-range widgets keeps every widget in
/// range.
proof fn lemma_sorted_insert_in_range(s: Seq<Widget>, w: Widget)
    requires
        widgets_in_range(s),
        pos_in_range(w.position),
    ensures
        widgets_in_range(sorted_insert(s, w)),
    decreases s.len(),
{
    if s.len() == 0 {
    } else if crate::sorting::key_lt(w.position, s[0].position) {
        assert forall|i: int| 0 <= i < sorted_insert(s, w).len() implies pos_in_range(
            (#[trigger] sorted_insert(s, w)[i]).position,
        ) by {
            if i > 0 {
                assert(sorted_insert(s, w)[i] == s[i - 1]);
            }
        }
    } else {
        assert(widgets_in_range(s.drop_first()));
        lemma_sorted_insert_in_range(s.drop_first(), w);
        assert forall|i: int| 0 <= i < sorted_insert(s, w).len() implies pos_in_range(
            (#[trigger] sorted_insert(s, w)[i]).position,
        ) by {
            if i > 0 {
                assert(sorted_insert(s, w)[i] == sorted_insert(s.drop_first(), w)[i - 1]);
            }
        }
    }
}

/// Sorting a sequence of in-range widgets keeps every widget in range.
pub proof fn lemma_sort_in_range(s: Seq<Widget>)
    requires
        widgets_in_range(s),
    ensures
        widgets_in_range(sort_widgets_spec(s)),
    decreases s.len(),
{
    if s.len() > 0 {
        assert(widgets_in_range(s.drop_last()));
        lemma_sort_in_range(s.drop_last());
        lemma_sorted_insert_in_range(sort_widgets_spec(s.drop_last()), s.last());
    }
}

/// Layout optimization over a plain widget list. In float mode every
/// unlocked widget is clamped into bounds and nothing else moves; otherwise
/// all widgets are stably sorted by `(y, x)` and every unlocked widget is
/// pulled as far up as the locked widgets and the already placed widgets
/// allow. Locked widgets are never moved.
pub fn optimize_layout(widgets: &Vec<Widget>, config: &GridConfig) -> (r: Vec<Widget>)
    requires
        widgets_in_range(widgets@),
        -COORD_LIMIT <= config.columns <= COORD_LIMIT,
    ensures
        r@ == optimize_spec(widgets@, *config),
{
    let n = widgets.len();
    if config.float {
        let mut out: Vec<Widget> = Vec::new();
        let mut i: usize = 0;
        while i < n
            invariant
                n == widgets@.len(),
                0 <= i <= n,
                widgets_in_range(widgets@),
                -COORD_LIMIT <= config.columns <= COORD_LIMIT,
                out@.len() == i,
                forall|j: int|
                    0 <= j < i ==> out@[j] == clamp_spec(widgets@[j], config.columns as int),
            decreases n - i,
        {
            let w = widget_copy(&widgets[i]);
            proof {
                assert(pos_in_range(widgets@[i as int].position));
            }
            if w.locked {
                out.push(w);
            } else {
                let mut x = w.position.x;
                if x < 0 {
                    x = 0;
                }
                if x > config.columns - w.position.w {
                    x = config.columns - w.position.w;
                }
                let mut y = w.position.y;
                if y < 0 {
                    y = 0;
                }
                out.push(
                    Widget {
                        id: w.id,
                        position: Position { x, y, w: w.position.w, h: w.position.h },
                        locked: w.locked,
                        is_dragged: w.is_dragged,
                        original_position: w.original_position,
                    },
                );
            }
            i += 1;
        }
        proof {
            assert(out@ =~= float_spec(widgets@, config.columns as int));
        }
        return out;
    }
    let sorted = sort_widgets(widgets);
    proof {
        lemma_sort_in_range(widgets@);
        lemma_sort_len(widgets@);
    }
    let ghost seed = locked_cells(sorted@);
    let cols = config.columns;
    let mut occupied = OccupiedGrid::new(cols);
    let mut i: usize = 0;
    while i < n
        invariant
            n == sorted@.len(),
            0 <= i <= n,
            widgets_in_range(sorted@),
            occupied.cols() == config.columns as int,
            occupied.occ() =~= Set::new(
                |c: (int, int)|
                    exists|j: int|
                        0 <= j < i && (#[trigger] sorted@[j]).locked && covers(
                            sorted@[j].position,
                            c,
                        ),
            ),
        decreases n - i,
    {
        if sorted[i].locked {
            let p = sorted[i].position;
            proof {
                assert(pos_in_range(sorted@[i as int].position));
            }
            occupied.register_occupied(&p);
        }
        proof {
            assert(occupied.occ() =~= Set::new(
                |c: (int, int)|
                    exists|j: int|
                        0 <= j < i + 1 && (#[trigger] sorted@[j]).locked && covers(
                            sorted@[j].position,
                            c,
                        ),
            ));
        }
        i += 1;
    }
    proof {
        assert(occupied.occ() =~= seed);
        assert(sorted@.skip(0) =~= sorted@);
        assert(Seq::<Widget>::empty() + compact_rec(sorted@, seed, config.columns as int)
            =~= compact_rec(sorted@, seed, config.columns as int));
    }
    let mut out: Vec<Widget> = Vec::new();
    let mut i: usize = 0;
    while i < n
        invariant
            n == sorted@.len(),
            0 <= i <= n,
            widgets_in_range(sorted@),
            -COORD_LIMIT <= config.columns <= COORD_LIMIT,
            occupied.cols() == config.columns as int,
            compact_rec(sorted@, seed, config.columns as int) == out@ + compact_rec(
                sorted@.skip(i as int),
                occupied.occ(),
                config.columns as int,
            ),
        decreases n - i,
    {
        proof {
            assert(sorted@.skip(i as int)[0] == sorted@[i as int]);
            assert(sorted@.skip(i as int).drop_first() =~= sorted@.skip(i + 1));
        }
        let w = widget_copy(&sorted[i]);
        proof {
            assert(pos_in_range(sorted@[i as int].position));
        }
        if w.locked {
            out.push(w);
        } else {
            let p = occupied.find_highest_position(w.position);
            proof {
                lemma_highest_in_range(occupied.occ(), occupied.cols(), w.position);
            }
            out.push(
                Widget {
                    id: w.id,
                    position: p,
                    locked: w.locked,
                    is_dragged: w.is_dragged,
                    original_position: w.original_position,
                },
            );
            occupied.register_occupied(&p);
        }
        i += 1;
    }
    proof {
        assert(sorted@.skip(n as int) =~= Seq::<Widget>::empty());
        assert(out@ + Seq::<Widget>::empty() =~= out@);
    }
    out
}

/// Index of the first widget whose id equals `id`, if any.
pub open spec fn find_index(ws: Seq<Widget>, id: Seq<char>) -> Option<int>
    decreases ws.len(),
{
    if ws.len() == 0 {
        None
    } else if ws[0].id@ == id {
        Some(0int)
    } else {
        match find_index(ws.drop_first(), id) {
            None => None,
            Some(j) => Some(j + 1),
        }
    }
}

pub proof fn lemma_find_index_hit(ws: Seq<Widget>, id: Seq<char>, i: int)
    requires
        0 <= i < ws.len(),
        ws[i].id@ == id,
        forall|j: int| 0 <= j < i ==> (#[trigger] ws[j]).id@ != id,
    ensures
        find_index(ws, id) == Some(i),
    decreases i,
{
    if i == 0 {
    } else {
        assert(ws[0].id@ != id);
        assert forall|j: int| 0 <= j < i - 1 implies (#[trigger] ws.drop_first()[j]).id@ != id by {
            assert(ws.drop_first()[j] == ws[j + 1]);
        }
        assert(ws.drop_first()[i - 1] == ws[i]);
        lemma_find_index_hit(ws.drop_first(), id, i - 1);
    }
}

pub proof fn lemma_find_index_miss(ws: Seq<Widget>, id: Seq<char>)
    requires
        forall|j: int| 0 <= j < ws.len() ==> (#[trigger] ws[j]).id@ != id,
    ensures
        find_index(ws, id) is None,
    decreases ws.len(),
{
    if ws.len() > 0 {
        assert forall|j: int|
            0 <= j < ws.drop_first().len() implies (#[trigger] ws.drop_first()[j]).id@ != id by {
            assert(ws.drop_first()[j] == ws[j + 1]);
        }
        lemma_find_index_miss(ws.drop_first(), id);
    }
}

/// The push-phase move of one unlocked, non-dragged widget: if it overlaps
/// the dragged rectangle, its `y` becomes the row just below the dragged
/// widget — but only if that is larger than its current `y` (widgets are
/// pushed down, never pulled up).
pub open spec fn push_one(w: Widget, dp: Position) -> Widget {
    if overlap(w.position, dp) && dp.y + dp.h > w.position.y {
        with_position(
            w,
            Position {
                x: w.position.x,
                y: (dp.y + dp.h) as i32,
                w: w.position.w,
                h: w.position.h,
            },
        )
    } else {
        w
    }
}

/// The push phase applied to the whole list: every unlocked widget other
/// than the dragged one is pushed; the dragged widget and locked widgets
/// are untouched.
pub open spec fn push_phase(ws: Seq<Widget>, di: int, dp: Position) -> Seq<Widget> {
    Seq::new(
        ws.len(),
        |i: int|
            if i != di && !ws[i].locked {
                push_one(ws[i], dp)
            } else {
                ws[i]
            },
    )
}

/// The indices `k .. ws.len()` of the widgets that take part in conflict
/// resolution: everything unlocked except the dragged widget.
pub open spec fn eligible_from(ws: Seq<Widget>, di: int, k: int) -> Seq<int>
    decreases ws.len() - k,
{
    if k < 0 || k >= ws.len() {
        Seq::empty()
    } else if k != di && !ws[k].locked {
        seq![k] + eligible_from(ws, di, k + 1)
    } else {
        eligible_from(ws, di, k + 1)
    }
}

/// Strict processing order of the conflict-resolution passes: by `y` alone.
pub open spec fn idx_lt(ws: Seq<Widget>, a: int, b: int) -> bool {
    ws[a].position.y < ws[b].position.y
}

/// Stable insertion of index `i` into the index list `s`, ordered by the
/// `y` of the indexed widgets.
pub open spec fn sorted_insert_idx(ws: Seq<Widget>, s: Seq<int>, i: int) -> Seq<int>
    decreases s.len(),
{
    if s.len() == 0 {
        seq![i]
    } else if idx_lt(ws, i, s[0]) {
        seq![i] + s
    } else {
        seq![s[0]] + sorted_insert_idx(ws, s.drop_first(), i)
    }
}

/// Stable insertion sort of an index list by the `y` of the indexed
/// widgets; equal keys keep their input order.
pub open spec fn sort_idx_spec(ws: Seq<Widget>, s: Seq<int>) -> Seq<int>
    decreases s.len(),
{
    if s.len() == 0 {
        Seq::empty()
    } else {
        sorted_insert_idx(ws, sort_idx_spec(ws, s.drop_last()), s.last())
    }
}

/// The in-place compaction pass of conflict resolution: walks the index
/// order, pulls each indexed widget to the ceiling against `occ`, writes
/// the new position back at the same index, and occupies its cells.
pub open spec fn compact_pass(
    ws: Seq<Widget>,
    order: Seq<int>,
    occ: Set<(int, int)>,
    cols: int,
) -> Seq<Widget>
    decreases order.len(),
{
    if order.len() == 0 {
        ws
    } else {
        let i = order[0];
        if 0 <= i < ws.len() {
            let p = highest_spec(occ, cols, ws[i].position);
            compact_pass(
                ws.update(i, with_position(ws[i], p)),
                order.drop_first(),
                occ.union(cells(p)),
                cols,
            )
        } else {
            compact_pass(ws, order.drop_first(), occ, cols)
        }
    }
}

/// Conflict resolution: when `id` names no widget, plain layout
/// optimization; otherwise the named widget is marked as dragged and left
/// where the caller put it, overlapping unlocked widgets are pushed below
/// it, and everything unlocked settles back up against the dragged and
/// locked footprints, in ascending order of `y`.
pub open spec fn resolve_spec(ws: Seq<Widget>, c: GridConfig, id: Seq<char>) -> Seq<Widget> {
    match find_index(ws, id) {
        None => optimize_spec(ws, c),
        Some(di) => {
            let dp = ws[di].position;
            let marked = ws.update(
                di,
                Widget {
                    id: ws[di].id,
                    position: dp,
                    locked: ws[di].locked,
                    is_dragged: true,
                    original_position: ws[di].original_position,
                },
            );
            let pushed = push_phase(marked, di, dp);
            let order = sort_idx_spec(pushed, eligible_from(pushed, di, 0));
            compact_pass(pushed, order, cells(dp).union(locked_cells(pushed)), c.columns as int)
        },
    }
}


/// Pushing below an in-range dragged rectangle keeps every coordinate
/// within the arithmetic bound.
proof fn lemma_push_arith(ws: Seq<Widget>, di: int, dp: Position)
    requires
        widgets_in_range(ws),
        pos_in_range(dp),
    ensures
        forall|i: int|
            0 <= i < ws.len() ==> pos_arith_ok(
                (#[trigger] push_phase(ws, di, dp)[i]).position,
            ),
{
    assert forall|i: int|
        0 <= i < ws.len() implies pos_arith_ok(
        (#[trigger] push_phase(ws, di, dp)[i]).position,
    ) by {
        assert(pos_in_range(ws[i].position));
    }
}

/// Index of the first widget whose id equals `id`, if any.
fn find_widget_index(widgets: &Vec<Widget>, id: &String) -> (r: Option<usize>)
    ensures
        match r {
            Some(i) => 0 <= i < widgets@.len() && find_index(widgets@, id@) == Some(i as int),
            None => find_index(widgets@, id@) is None,
        },
{
    let n = widgets.len();
    let mut i: usize = 0;
    while i < n
        invariant
            n == widgets@.len(),
            0 <= i <= n,
            forall|j: int| 0 <= j < i ==> (#[trigger] widgets@[j]).id@ != id@,
        decreases n - i,
    {
        if widgets[i].id.eq(id) {
            proof {
                lemma_find_index_hit(widgets@, id@, i as int);
            }
            return Some(i);
        }
        i += 1;
    }
    proof {
        lemma_find_index_miss(widgets@, id@);
    }
    None
}

/// Inserting in front of the first strictly-greater index is the same as
/// splitting at that point.
proof fn lemma_sorted_insert_idx_split(ws: Seq<Widget>, s: Seq<int>, i: int, j: int)
    requires
        0 <= j <= s.len(),
        forall|k: int| 0 <= k < j ==> !idx_lt(ws, i, #[trigger] s[k]),
        j < s.len() ==> idx_lt(ws, i, s[j]),
    ensures
        sorted_insert_idx(ws, s, i) == s.take(j) + seq![i] + s.skip(j),
    decreases j,
{
    if s.len() == 0 {
        assert(sorted_insert_idx(ws, s, i) =~= s.take(j) + seq![i] + s.skip(j));
    } else if j == 0 {
        if idx_lt(ws, i, s[0]) {
            assert(sorted_insert_idx(ws, s, i) =~= s.take(0) + seq![i] + s.skip(0));
        }
    } else {
        assert forall|k: int| 0 <= k < j - 1 implies !idx_lt(ws, i, #[trigger] s.drop_first()[k]) by {
            assert(s.drop_first()[k] == s[k + 1]);
        }
        assert(j - 1 < s.drop_first().len() ==> idx_lt(ws, i, s.drop_first()[j - 1]));
        lemma_sorted_insert_idx_split(ws, s.drop_first(), i, j - 1);
        assert(s.drop_first().take(j - 1) =~= s.take(j).drop_first());
        assert(s.drop_first().skip(j - 1) =~= s.skip(j));
        assert(seq![s[0]] + sorted_insert_idx(ws, s.drop_first(), i) =~= s.take(j) + seq![i]
            + s.skip(j));
    }
}

/// The integer view of an index list.
pub open spec fn idx_view(v: Seq<usize>) -> Seq<int> {
    v.map_values(|u: usize| u as int)
}

/// Every element of `v` indexes into `ws`.
pub open spec fn idxs_valid(v: Seq<usize>, ws: Seq<Widget>) -> bool {
    forall|k: int| 0 <= k < v.len() ==> (#[trigger] v[k]) < ws.len()
}

/// Inserts the index `i` into `out` in front of the first index whose
/// widget sits strictly lower (larger `y`).
fn insert_index(ws: &Vec<Widget>, out: &mut Vec<usize>, i: usize)
    requires
        i < ws@.len(),
        idxs_valid(old(out)@, ws@),
    ensures
        idx_view(final(out)@) == sorted_insert_idx(ws@, idx_view(old(out)@), i as int),
        idxs_valid(final(out)@, ws@),
{
    let n = out.len();
    let mut j: usize = 0;
    while j < n
        invariant
            n == out@.len(),
            0 <= j <= n,
            i < ws@.len(),
            idxs_valid(out@, ws@),
            forall|k: int| 0 <= k < j ==> !idx_lt(ws@, i as int, (#[trigger] out@[k]) as int),
        ensures
            0 <= j <= n,
            n == out@.len(),
            forall|k: int| 0 <= k < j ==> !idx_lt(ws@, i as int, (#[trigger] out@[k]) as int),
            j < n ==> idx_lt(ws@, i as int, out@[j as int] as int),
        decreases n - j,
    {
        let e = out[j];
        if ws[i].position.y < ws[e].position.y {
            break;
        }
        j += 1;
    }
    proof {
        assert forall|k: int|
            0 <= k < j implies !idx_lt(ws@, i as int, #[trigger] idx_view(out@)[k]) by {
            assert(idx_view(out@)[k] == out@[k] as int);
        }
        assert(j < n ==> idx_lt(ws@, i as int, idx_view(out@)[j as int]));
        lemma_sorted_insert_idx_split(ws@, idx_view(out@), i as int, j as int);
    }
    let ghost prev = out@;
    out.insert(j, i);
    proof {
        assert(idx_view(out@) =~= idx_view(prev).take(j as int) + seq![i as int] + idx_view(
            prev,
        ).skip(j as int));
    }
}

/// The sorted index order over a widget list.
pub open spec fn sorted_order_of(ws: Seq<Widget>, v: Seq<usize>) -> Seq<int> {
    sort_idx_spec(ws, idx_view(v))
}

/// Stable sort of an index list by the `y` of the indexed widgets.
fn sort_indices(ws: &Vec<Widget>, idxs: &Vec<usize>) -> (r: Vec<usize>)
    requires
        idxs_valid(idxs@, ws@),
    ensures
        idx_view(r@) == sorted_order_of(ws@, idxs@),
        idxs_valid(r@, ws@),
{
    let mut out: Vec<usize> = Vec::new();
    let n = idxs.len();
    let mut i: usize = 0;
    while i < n
        invariant
            n == idxs@.len(),
            0 <= i <= n,
            idxs_valid(idxs@, ws@),
            idxs_valid(out@, ws@),
            idx_view(out@) == sorted_order_of(ws@, idxs@.take(i as int)),
        decreases n - i,
    {
        let v = idxs[i];
        insert_index(ws, &mut out, v);
        proof {
            assert(idx_view(idxs@.take(i + 1)).drop_last() =~= idx_view(idxs@.take(i as int)));
            assert(idx_view(idxs@.take(i + 1)).last() == idx_view(idxs@)[i as int]);
        }
        i += 1;
    }
    proof {
        assert(idxs@.take(n as int) =~= idxs@);
        assert(idx_view(idxs@.take(n as int)) =~= idx_view(idxs@));
    }
    out
}

/// Conflict resolution over a plain widget list. When `dragged_widget_id`
/// names no widget, this is plain layout optimization. Otherwise the named
/// widget keeps the position the caller gave it; every unlocked widget that
/// overlaps it is pushed to the row just below it (never up); and the
/// unlocked widgets then settle back toward the ceiling, in ascending order
/// of `y`, against the dragged and locked footprints. The returned list
/// keeps the input order.
pub fn resolve_conflicts(
    widgets: &Vec<Widget>,
    config: &GridConfig,
    dragged_widget_id: String,
) -> (r: Vec<Widget>)
    requires
        widgets_in_range(widgets@),
        -COORD_LIMIT <= config.columns <= COORD_LIMIT,
    ensures
        r@ == resolve_spec(widgets@, *config, dragged_widget_id@),
{
    let n = widgets.len();
    let di = match find_widget_index(widgets, &dragged_widget_id) {
        Some(i) => i,
        None => {
            return optimize_layout(widgets, config);
        },
    };
    let dp = widgets[di].position;
    proof {
        assert(pos_in_range(widgets@[di as int].position));
    }

    // Copy the list and mark the dragged widget.
    let mut out: Vec<Widget> = Vec::new();
    let mut i: usize = 0;
    while i < n
        invariant
            n == widgets@.len(),
            0 <= i <= n,
            out@ =~= widgets@.take(i as int),
        decreases n - i,
    {
        out.push(widget_copy(&widgets[i]));
        proof {
            assert(out@ =~= widgets@.take(i + 1));
        }
        i += 1;
    }
    proof {
        assert(widgets@.take(n as int) =~= widgets@);
    }
    let dw = out.remove(di);
    out.insert(
        di,
        Widget {
            id: dw.id,
            position: dw.position,
            locked: dw.locked,
            is_dragged: true,
            original_position: dw.original_position,
        },
    );
    let ghost marked = widgets@.update(
        di as int,
        Widget {
            id: widgets@[di as int].id,
            position: dp,
            locked: widgets@[di as int].locked,
            is_dragged: true,
            original_position: widgets@[di as int].original_position,
        },
    );
    proof {
        assert(out@ =~= marked);
    }

    // Push phase: push every overlapping unlocked widget just below the
    // dragged rectangle, never up.
    let ghost pushed = push_phase(marked, di as int, dp);
    let mut i: usize = 0;
    while i < n
        invariant
            n == widgets@.len(),
            n == out@.len(),
            n == marked.len(),
            0 <= i <= n,
            di < n,
            widgets_in_range(widgets@),
            pos_in_range(dp),
            marked == widgets@.update(
                di as int,
                Widget {
                    id: widgets@[di as int].id,
                    position: dp,
                    locked: widgets@[di as int].locked,
                    is_dragged: true,
                    original_position: widgets@[di as int].original_position,
                },
            ),
            pushed == push_phase(marked, di as int, dp),
            forall|j: int| 0 <= j < i ==> out@[j] == pushed[j],
            forall|j: int| i <= j < n ==> out@[j] == marked[j],
        decreases n - i,
    {
        proof {
            assert(marked[i as int].position == if i == di {
                dp
            } else {
                widgets@[i as int].position
            });
            assert(pos_in_range(widgets@[i as int].position));
            assert(pos_arith_ok(out@[i as int].position));
        }
        let locked_here = out[i].locked;
        if i != di && !locked_here {
            let cur = widget_copy(&out[i]);
            if blocks_collide(&cur.position, &dp) {
                let new_y = dp.y + dp.h;
                if new_y > cur.position.y {
                    let old_w = out.remove(i);
                    out.insert(
                        i,
                        Widget {
                            id: old_w.id,
                            position: Position {
                                x: cur.position.x,
                                y: new_y,
                                w: cur.position.w,
                                h: cur.position.h,
                            },
                            locked: old_w.locked,
                            is_dragged: old_w.is_dragged,
                            original_position: old_w.original_position,
                        },
                    );
                }
            }
            proof {
                assert(out@[i as int] == push_one(marked[i as int], dp));
            }
        }
        proof {
            assert(out@[i as int] == pushed[i as int]);
        }
        i += 1;
    }
    proof {
        assert(out@ =~= pushed);
        lemma_push_arith(marked, di as int, dp);
        assert forall|j: int| 0 <= j < marked.len() implies pos_in_range(
            (#[trigger] marked[j]).position,
        ) by {
            assert(pos_in_range(widgets@[j].position));
        }
    }

    // Collect the unlocked, non-dragged indices and order them by `y`.
    let mut elig: Vec<usize> = Vec::new();
    let mut k: usize = 0;
    while k < n
        invariant
            n == out@.len(),
            0 <= k <= n,
            out@ == pushed,
            di < n,
            idxs_valid(elig@, out@),
            eligible_from(pushed, di as int, 0) == idx_view(elig@) + eligible_from(
                pushed,
                di as int,
                k as int,
            ),
        decreases n - k,
    {
        let locked_here = out[k].locked;
        if k != di && !locked_here {
            let ghost before = elig@;
            elig.push(k);
            proof {
                assert(idx_view(elig@) =~= idx_view(before) + seq![k as int]);
                assert(idx_view(before) + seq![k as int] + eligible_from(
                    pushed,
                    di as int,
                    k + 1,
                ) =~= idx_view(before) + (seq![k as int] + eligible_from(
                    pushed,
                    di as int,
                    k + 1,
                )));
            }
        }
        k += 1;
    }
    proof {
        assert(eligible_from(pushed, di as int, n as int) =~= Seq::<int>::empty());
        assert(idx_view(elig@) + Seq::<int>::empty() =~= idx_view(elig@));
    }
    let srt = sort_indices(&out, &elig);
    let ghost order = sorted_order_of(pushed, elig@);

    // Compact phase: seed the occupancy with the dragged footprint and the
    // locked widgets, then pull each eligible widget to the ceiling.
    let ghost seed = cells(dp).union(locked_cells(pushed));
    let mut occupied = OccupiedGrid::new(config.columns);
    occupied.register_occupied(&dp);
    let mut k: usize = 0;
    while k < n
        invariant
            n == out@.len(),
            0 <= k <= n,
            out@ == pushed,
            pos_in_range(dp),
            widgets_in_range(marked),
            pushed == push_phase(marked, di as int, dp),
            occupied.cols() == config.columns as int,
            occupied.occ() =~= cells(dp).union(
                Set::new(
                    |c: (int, int)|
                        exists|j: int|
                            0 <= j < k && (#[trigger] pushed[j]).locked && covers(
                                pushed[j].position,
                                c,
                            ),
                ),
            ),
        decreases n - k,
    {
        let locked_here = out[k].locked;
        if locked_here {
            let p = widget_copy(&out[k]).position;
            proof {
                assert(pushed[k as int] == push_phase(marked, di as int, dp)[k as int]);
                assert(pushed[k as int].position == marked[k as int].position);
                assert(pos_in_range(marked[k as int].position));
            }
            occupied.register_occupied(&p);
        }
        proof {
            assert(occupied.occ() =~= cells(dp).union(
                Set::new(
                    |c: (int, int)|
                        exists|j: int|
                            0 <= j < k + 1 && (#[trigger] pushed[j]).locked && covers(
                                pushed[j].position,
                                c,
                            ),
                ),
            ));
        }
        k += 1;
    }
    proof {
        assert(occupied.occ() =~= seed);
    }
    let ghost target = compact_pass(pushed, order, seed, config.columns as int);
    proof {
        assert(order.skip(0) =~= order);
        assert forall|j: int| 0 <= j < n implies pos_arith_ok(
            (#[trigger] out@[j]).position,
        ) by {
            assert(out@[j] == push_phase(marked, di as int, dp)[j]);
        }
    }
    let m = srt.len();
    let mut k: usize = 0;
    while k < m
        invariant
            n == out@.len(),
            0 <= k <= m,
            m == srt@.len(),
            idx_view(srt@) == order,
            idxs_valid(srt@, out@),
            -COORD_LIMIT <= config.columns <= COORD_LIMIT,
            occupied.cols() == config.columns as int,
            forall|j: int| 0 <= j < n ==> pos_arith_ok((#[trigger] out@[j]).position),
            compact_pass(out@, order.skip(k as int), occupied.occ(), config.columns as int)
                == target,
        decreases m - k,
    {
        let i = srt[k];
        proof {
            assert(order.skip(k as int)[0] == order[k as int]);
            assert(order[k as int] == idx_view(srt@)[k as int]);
            assert(order.skip(k as int).drop_first() =~= order.skip(k + 1));
            assert(pos_arith_ok(out@[i as int].position));
        }
        let cur = widget_copy(&out[i]);
        let p = occupied.find_highest_position(cur.position);
        proof {
            lemma_highest_in_range(occupied.occ(), occupied.cols(), cur.position);
        }
        let ghost before = out@;
        let old_w = out.remove(i);
        out.insert(
            i,
            Widget {
                id: old_w.id,
                position: p,
                locked: old_w.locked,
                is_dragged: old_w.is_dragged,
                original_position: old_w.original_position,
            },
        );
        proof {
            assert(out@ =~= before.update(i as int, with_position(before[i as int], p)));
        }
        occupied.register_occupied(&p);
        k += 1;
    }
    proof {
        assert(order.skip(m as int) =~= Seq::<int>::empty());
    }
    out
}

/// The cells covered by every widget of `ws`, locked or not.
pub open spec fn all_cells(ws: Seq<Widget>) -> Set<(int, int)> {
    Set::new(
        |c: (int, int)|
            exists|i: int| 0 <= i < ws.len() && covers((#[trigger] ws[i]).position, c),
    )
}

/// The best position for a new widget among the existing ones: the first
/// free rectangle of the new widget's size in row-major scan order, every
/// existing widget counting as occupied, or the sentinel fallback row when
/// no free spot exists within the search bound.
pub open spec fn find_best_spec(ws: Seq<Widget>, new_widget: Widget, c: GridConfig) -> Position {
    best_spec(all_cells(ws), c.columns as int, new_widget.position)
}

/// Best-position search for a brand-new widget: seeds the occupancy with
/// every existing widget's rectangle — locked or not, nothing is being
/// moved — and scans rows top to bottom, columns left to right, for the
/// first spot where the new widget's `w` by `h` rectangle fits.
pub fn find_best_position(
    widgets: &Vec<Widget>,
    new_widget: &Widget,
    config: &GridConfig,
) -> (r: Position)
    requires
        widgets_in_range(widgets@),
        pos_in_range(new_widget.position),
        -COORD_LIMIT <= config.columns <= COORD_LIMIT,
    ensures
        r == find_best_spec(widgets@, *new_widget, *config),
{
    let n = widgets.len();
    let mut occupied = OccupiedGrid::new(config.columns);
    let mut i: usize = 0;
    while i < n
        invariant
            n == widgets@.len(),
            0 <= i <= n,
            widgets_in_range(widgets@),
            occupied.cols() == config.columns as int,
            occupied.occ() =~= Set::new(
                |c: (int, int)|
                    exists|j: int|
                        0 <= j < i && covers((#[trigger] widgets@[j]).position, c),
            ),
        decreases n - i,
    {
        let p = widget_copy(&widgets[i]).position;
        proof {
            assert(pos_in_range(widgets@[i as int].position));
        }
        occupied.register_occupied(&p);
        proof {
            assert(occupied.occ() =~= Set::new(
                |c: (int, int)|
                    exists|j: int|
                        0 <= j < i + 1 && covers((#[trigger] widgets@[j]).position, c),
            ));
        }
        i += 1;
    }
    proof {
        assert(occupied.occ() =~= all_cells(widgets@));
    }
    occupied.find_best_position(new_widget)
}

} // verus!\n