//! Engine-wide guarantees, stated and proved over the same spec functions
//! that the placement operations' contracts use.

use vstd::prelude::*;

use crate::geometry::covers;
use crate::geometry::overlap;
use crate::geometry::GridConfig;
use crate::geometry::Position;
use crate::geometry::pos_in_range;
use crate::geometry::widgets_in_range;
use crate::geometry::Widget;
use crate::geometry::COORD_LIMIT;
use crate::layout::compact_pass;
use crate::layout::compact_rec;
use crate::layout::eligible_from;
use crate::layout::find_index;
use crate::layout::clamp_spec;
use crate::layout::optimize_spec;
use crate::layout::push_phase;
use crate::layout::resolve_spec;
use crate::layout::sorted_insert_idx;
use crate::layout::sort_idx_spec;
use crate::layout::with_position;
use crate::occupancy::highest_spec;
use crate::sorting::sort_widgets_spec;
use crate::sorting::sorted_insert;

verus! {

/// What float mode does to one unlocked widget: identity, lock flag and
/// extent are untouched; `y` becomes `max(y, 0)` and never drops below
/// zero; `x` is clamped into `[0, columns - w]`, kept as it is when it was
/// already inside, with the upper bound winning when the range is empty.
pub open spec fn float_unlocked_shape(w: Widget, r: Widget, cols: int) -> bool {
    &&& r.id == w.id
    &&& r.locked == w.locked
    &&& r.position.w == w.position.w
    &&& r.position.h == w.position.h
    &&& r.position.y == (if w.position.y >= 0 {
        w.position.y as int
    } else {
        0
    })
    &&& r.position.y >= 0
    &&& (cols - w.position.w >= 0 ==> 0 <= r.position.x <= cols - w.position.w)
    &&& (0 <= w.position.x <= cols - w.position.w ==> r.position.x == w.position.x)
    &&& (cols - w.position.w < 0 ==> r.position.x == cols - w.position.w)
}

/// Float-mode invariant: in float mode the operation touches only the
/// unlocked widgets, and those only by clamping `x` into
/// `[0, columns - w]` and raising `y` to at least `0`; `w`, `h`, identity
/// and order are untouched, locked widgets entirely so.
pub proof fn lemma_float_mode(ws: Seq<Widget>, c: GridConfig)
    requires
        c.float,
        widgets_in_range(ws),
        -COORD_LIMIT <= c.columns <= COORD_LIMIT,
    ensures
        optimize_spec(ws, c).len() == ws.len(),
        forall|i: int|
            0 <= i < ws.len() && (#[trigger] ws[i]).locked ==> optimize_spec(ws, c)[i] == ws[i],
        forall|i: int|
            0 <= i < ws.len() && !(#[trigger] ws[i]).locked ==> float_unlocked_shape(
                ws[i],
                optimize_spec(ws, c)[i],
                c.columns as int,
            ),
{
    assert forall|i: int|
        0 <= i < ws.len() && !(#[trigger] ws[i]).locked implies float_unlocked_shape(
        ws[i],
        optimize_spec(ws, c)[i],
        c.columns as int,
    ) by {
        assert(pos_in_range(ws[i].position));
        assert(optimize_spec(ws, c)[i] == clamp_spec(ws[i], c.columns as int));
    }
}

/// Push monotonicity: the push phase never decreases any widget's `y`
/// relative to its pre-push value, and changes nothing but `y`.
pub proof fn lemma_push_monotone(ws: Seq<Widget>, di: int, dp: Position)
    requires
        widgets_in_range(ws),
        pos_in_range(dp),
    ensures
        push_phase(ws, di, dp).len() == ws.len(),
        forall|i: int|
            0 <= i < ws.len() ==> (#[trigger] push_phase(ws, di, dp)[i]).position.y
                >= ws[i].position.y,
        forall|i: int|
            0 <= i < ws.len() ==> {
                let r = #[trigger] push_phase(ws, di, dp)[i];
                &&& r.id == ws[i].id
                &&& r.locked == ws[i].locked
                &&& r.position.x == ws[i].position.x
                &&& r.position.w == ws[i].position.w
                &&& r.position.h == ws[i].position.h
            },
{
    assert forall|i: int|
        0 <= i < ws.len() implies (#[trigger] push_phase(ws, di, dp)[i]).position.y
        >= ws[i].position.y by {
        assert(pos_in_range(ws[i].position));
    }
    assert forall|i: int| 0 <= i < ws.len() implies {
        let r = #[trigger] push_phase(ws, di, dp)[i];
        &&& r.id == ws[i].id
        &&& r.locked == ws[i].locked
        &&& r.position.x == ws[i].position.x
        &&& r.position.w == ws[i].position.w
        &&& r.position.h == ws[i].position.h
    } by {
        assert(pos_in_range(ws[i].position));
    }
}

/// Missing-drag-id fallback: when no widget carries the dragged id,
/// conflict resolution is exactly layout optimization.
pub proof fn lemma_missing_drag_id(ws: Seq<Widget>, c: GridConfig, id: Seq<char>)
    requires
        forall|j: int| 0 <= j < ws.len() ==> (#[trigger] ws[j]).id@ != id,
    ensures
        resolve_spec(ws, c, id) == optimize_spec(ws, c),
{
    crate::layout::lemma_find_index_miss(ws, id);
}

/// Every element of a stable insertion is the inserted widget or one of
/// the originals, and conversely.
proof fn lemma_sorted_insert_contains(s: Seq<Widget>, w: Widget, x: Widget)
    ensures
        sorted_insert(s, w).contains(x) <==> (s.contains(x) || x == w),
    decreases s.len(),
{
    let r = sorted_insert(s, w);
    if s.len() == 0 {
        assert(r =~= seq![w]);
        if x == w {
            assert(r[0] == x);
        }
    } else if crate::sorting::key_lt(w.position, s[0].position) {
        assert(r =~= seq![w] + s);
        if r.contains(x) {
            let i = choose|i: int| 0 <= i < r.len() && r[i] == x;
            if i == 0 {
            } else {
                assert(s[i - 1] == x);
            }
        }
        if s.contains(x) {
            let i = choose|i: int| 0 <= i < s.len() && s[i] == x;
            assert(r[i + 1] == x);
        }
        if x == w {
            assert(r[0] == x);
        }
    } else {
        lemma_sorted_insert_contains(s.drop_first(), w, x);
        let rr = sorted_insert(s.drop_first(), w);
        assert(r =~= seq![s[0]] + rr);
        if r.contains(x) {
            let i = choose|i: int| 0 <= i < r.len() && r[i] == x;
            if i == 0 {
                assert(s[0] == x);
            } else {
                assert(rr[i - 1] == x);
                assert(rr.contains(x));
                if s.drop_first().contains(x) {
                    let j = choose|j: int| 0 <= j < s.drop_first().len() && s.drop_first()[j] == x;
                    assert(s[j + 1] == x);
                }
            }
        }
        if s.contains(x) {
            let i = choose|i: int| 0 <= i < s.len() && s[i] == x;
            if i == 0 {
                assert(r[0] == x);
            } else {
                assert(s.drop_first()[i - 1] == x);
                assert(s.drop_first().contains(x));
                assert(rr.contains(x));
                let j = choose|j: int| 0 <= j < rr.len() && rr[j] == x;
                assert(r[j + 1] == x);
            }
        }
        if x == w {
            assert(rr.contains(x));
            let j = choose|j: int| 0 <= j < rr.len() && rr[j] == x;
            assert(r[j + 1] == x);
        }
    }
}

/// Sorting neither adds nor loses widgets.
proof fn lemma_sort_contains(s: Seq<Widget>, x: Widget)
    ensures
        sort_widgets_spec(s).contains(x) <==> s.contains(x),
    decreases s.len(),
{
    if s.len() > 0 {
        lemma_sort_contains(s.drop_last(), x);
        lemma_sorted_insert_contains(sort_widgets_spec(s.drop_last()), s.last(), x);
        if s.contains(x) {
            let i = choose|i: int| 0 <= i < s.len() && s[i] == x;
            if i < s.len() - 1 {
                assert(s.drop_last()[i] == x);
                assert(s.drop_last().contains(x));
            }
        }
        if s.drop_last().contains(x) {
            let i = choose|i: int| 0 <= i < s.drop_last().len() && s.drop_last()[i] == x;
            assert(s[i] == x);
        }
    }
}

/// The compaction pass of layout optimization keeps identity, lock flag
/// and extent of every widget in place, and keeps locked widgets entirely
/// untouched.
proof fn lemma_compact_rec_shape(ws: Seq<Widget>, occ: Set<(int, int)>, cols: int)
    ensures
        compact_rec(ws, occ, cols).len() == ws.len(),
        forall|i: int|
            0 <= i < ws.len() && (#[trigger] ws[i]).locked ==> compact_rec(ws, occ, cols)[i]
                == ws[i],
        forall|i: int|
            0 <= i < ws.len() ==> {
                let r = #[trigger] compact_rec(ws, occ, cols)[i];
                &&& r.id == ws[i].id
                &&& r.locked == ws[i].locked
                &&& r.position.w == ws[i].position.w
                &&& r.position.h == ws[i].position.h
                &&& r.is_dragged == ws[i].is_dragged
            },
    decreases ws.len(),
{
    if ws.len() > 0 {
        if ws[0].locked {
            lemma_compact_rec_shape(ws.drop_first(), occ, cols);
        } else {
            let p = highest_spec(occ, cols, ws[0].position);
            crate::layout::lemma_highest_in_range(occ, cols, ws[0].position);
            lemma_compact_rec_shape(ws.drop_first(), occ.union(crate::geometry::cells(p)), cols);
        }
        assert forall|i: int|
            0 <= i < ws.len() && (#[trigger] ws[i]).locked implies compact_rec(ws, occ, cols)[i]
            == ws[i] by {
            if i > 0 {
                assert(ws.drop_first()[i - 1] == ws[i]);
            }
        }
        assert forall|i: int| 0 <= i < ws.len() implies {
            let r = #[trigger] compact_rec(ws, occ, cols)[i];
            &&& r.id == ws[i].id
            &&& r.locked == ws[i].locked
            &&& r.position.w == ws[i].position.w
            &&& r.position.h == ws[i].position.h
            &&& r.is_dragged == ws[i].is_dragged
        } by {
            if i > 0 {
                assert(ws.drop_first()[i - 1] == ws[i]);
            }
        }
    }
}

/// Locked invariant for layout optimization: in both modes, every locked
/// widget of the input appears in the output with the same position, and
/// every locked widget of the output comes from the input unchanged.
pub proof fn lemma_locked_preserved_optimize(ws: Seq<Widget>, c: GridConfig)
    ensures
        optimize_spec(ws, c).len() == ws.len(),
        forall|i: int|
            0 <= i < ws.len() && (#[trigger] ws[i]).locked ==> optimize_spec(ws, c).contains(
                ws[i],
            ),
        forall|i: int|
            0 <= i < ws.len() && (#[trigger] optimize_spec(ws, c)[i]).locked ==> ws.contains(
                optimize_spec(ws, c)[i],
            ),
{
    let r = optimize_spec(ws, c);
    if c.float {
        assert forall|i: int|
            0 <= i < ws.len() && (#[trigger] ws[i]).locked implies r.contains(ws[i]) by {
            assert(r[i] == ws[i]);
        }
        assert forall|i: int|
            0 <= i < ws.len() && (#[trigger] r[i]).locked implies ws.contains(r[i]) by {
            assert(r[i] == clamp_spec(ws[i], c.columns as int));
            assert(r[i] == ws[i]);
        }
    } else {
        let sorted = sort_widgets_spec(ws);
        crate::layout::lemma_sort_len(ws);
        lemma_compact_rec_shape(sorted, crate::layout::locked_cells(sorted), c.columns as int);
        assert forall|i: int|
            0 <= i < ws.len() && (#[trigger] ws[i]).locked implies r.contains(ws[i]) by {
            lemma_sort_contains(ws, ws[i]);
            assert(sorted.contains(ws[i]));
            let j = choose|j: int| 0 <= j < sorted.len() && sorted[j] == ws[i];
            assert(r[j] == sorted[j]);
            assert(r[j] == ws[i]);
        }
        assert forall|i: int|
            0 <= i < ws.len() && (#[trigger] r[i]).locked implies ws.contains(r[i]) by {
            assert(sorted[i].locked == r[i].locked);
            assert(r[i] == sorted[i]);
            assert(sorted.contains(sorted[i]));
            lemma_sort_contains(ws, sorted[i]);
        }
    }
}

/// The index where `find_index` hits is in bounds and carries the id.
proof fn lemma_find_index_bounds(ws: Seq<Widget>, id: Seq<char>)
    requires
        find_index(ws, id) is Some,
    ensures
        0 <= find_index(ws, id)->Some_0 < ws.len(),
        ws[find_index(ws, id)->Some_0].id@ == id,
    decreases ws.len(),
{
    if ws.len() > 0 && ws[0].id@ != id {
        lemma_find_index_bounds(ws.drop_first(), id);
        assert(ws.drop_first()[find_index(ws.drop_first(), id)->Some_0] == ws[find_index(
            ws,
            id,
        )->Some_0]);
    }
}

/// Every element of a stable index insertion is the inserted index or one
/// of the originals.
proof fn lemma_sorted_insert_idx_contains(ws: Seq<Widget>, s: Seq<int>, i: int, x: int)
    requires
        sorted_insert_idx(ws, s, i).contains(x),
    ensures
        s.contains(x) || x == i,
    decreases s.len(),
{
    let r = sorted_insert_idx(ws, s, i);
    if s.len() == 0 {
        assert(r =~= seq![i]);
    } else if crate::layout::idx_lt(ws, i, s[0]) {
        assert(r =~= seq![i] + s);
        let k = choose|k: int| 0 <= k < r.len() && r[k] == x;
        if k > 0 {
            assert(s[k - 1] == x);
        }
    } else {
        let rr = sorted_insert_idx(ws, s.drop_first(), i);
        assert(r =~= seq![s[0]] + rr);
        let k = choose|k: int| 0 <= k < r.len() && r[k] == x;
        if k == 0 {
            assert(s[0] == x);
        } else {
            assert(rr[k - 1] == x);
            assert(rr.contains(x));
            lemma_sorted_insert_idx_contains(ws, s.drop_first(), i, x);
            if s.drop_first().contains(x) {
                let j = choose|j: int| 0 <= j < s.drop_first().len() && s.drop_first()[j] == x;
                assert(s[j + 1] == x);
            }
        }
    }
}

/// Sorting an index list adds no index.
proof fn lemma_sort_idx_contains(ws: Seq<Widget>, s: Seq<int>, x: int)
    requires
        sort_idx_spec(ws, s).contains(x),
    ensures
        s.contains(x),
    decreases s.len(),
{
    if s.len() > 0 {
        lemma_sorted_insert_idx_contains(ws, sort_idx_spec(ws, s.drop_last()), s.last(), x);
        if sort_idx_spec(ws, s.drop_last()).contains(x) {
            lemma_sort_idx_contains(ws, s.drop_last(), x);
            let j = choose|j: int| 0 <= j < s.drop_last().len() && s.drop_last()[j] == x;
            assert(s[j] == x);
        } else {
            assert(s[s.len() - 1] == x);
        }
    }
}

/// The eligible indices point at unlocked widgets other than the dragged
/// one.
proof fn lemma_eligible_elems(ws: Seq<Widget>, di: int, k: int, x: int)
    requires
        eligible_from(ws, di, k).contains(x),
    ensures
        k <= x < ws.len(),
        x != di,
        !ws[x].locked,
    decreases ws.len() - k,
{
    if k < 0 || k >= ws.len() {
        assert(false);
    } else if k != di && !ws[k].locked {
        let e = eligible_from(ws, di, k + 1);
        assert(eligible_from(ws, di, k) =~= seq![k] + e);
        let j = choose|j: int|
            0 <= j < eligible_from(ws, di, k).len() && eligible_from(ws, di, k)[j] == x;
        if j > 0 {
            assert(e[j - 1] == x);
            assert(e.contains(x));
            lemma_eligible_elems(ws, di, k + 1, x);
        }
    } else {
        lemma_eligible_elems(ws, di, k + 1, x);
    }
}

/// The compaction pass of conflict resolution keeps identity, lock flag,
/// drag flag and extent of every widget in place, and leaves every index
/// outside the processing order entirely untouched.
proof fn lemma_compact_pass_shape(
    ws: Seq<Widget>,
    order: Seq<int>,
    occ: Set<(int, int)>,
    cols: int,
)
    ensures
        compact_pass(ws, order, occ, cols).len() == ws.len(),
        forall|i: int|
            0 <= i < ws.len() && !order.contains(i) ==> compact_pass(ws, order, occ, cols)[i]
                == ws[i],
        forall|i: int|
            0 <= i < ws.len() ==> {
                let r = #[trigger] compact_pass(ws, order, occ, cols)[i];
                &&& r.id == ws[i].id
                &&& r.locked == ws[i].locked
                &&& r.position.w == ws[i].position.w
                &&& r.position.h == ws[i].position.h
                &&& r.is_dragged == ws[i].is_dragged
            },
    decreases order.len(),
{
    if order.len() > 0 {
        let j = order[0];
        if 0 <= j < ws.len() {
            let p = highest_spec(occ, cols, ws[j].position);
            crate::layout::lemma_highest_in_range(occ, cols, ws[j].position);
            let ws2 = ws.update(j, with_position(ws[j], p));
            lemma_compact_pass_shape(ws2, order.drop_first(), occ.union(crate::geometry::cells(p)), cols);
            assert forall|i: int|
                0 <= i < ws.len() && !order.contains(i) implies compact_pass(ws, order, occ, cols)[i]
                == ws[i] by {
                assert(order[0] != i);
                assert(ws2[i] == ws[i]);
                assert forall|k: int|
                    0 <= k < order.drop_first().len() implies order.drop_first()[k] != i by {
                    assert(order.drop_first()[k] == order[k + 1]);
                }
                assert(!order.drop_first().contains(i));
            }
        } else {
            lemma_compact_pass_shape(ws, order.drop_first(), occ, cols);
            assert forall|i: int|
                0 <= i < ws.len() && !order.contains(i) implies compact_pass(ws, order, occ, cols)[i]
                == ws[i] by {
                assert forall|k: int|
                    0 <= k < order.drop_first().len() implies order.drop_first()[k] != i by {
                    assert(order.drop_first()[k] == order[k + 1]);
                }
                assert(!order.drop_first().contains(i));
            }
        }
    }
}

/// Dragged-widget invariant: the widget named by the dragged id keeps in
/// the output exactly the position the caller gave it, and is flagged as
/// the drag target.
pub proof fn lemma_dragged_fixed(ws: Seq<Widget>, c: GridConfig, id: Seq<char>)
    requires
        find_index(ws, id) is Some,
    ensures
        resolve_spec(ws, c, id).len() == ws.len(),
        ({
            let di = find_index(ws, id)->Some_0;
            let r = resolve_spec(ws, c, id);
            &&& 0 <= di < ws.len()
            &&& r[di].position == ws[di].position
            &&& r[di].id == ws[di].id
            &&& r[di].locked == ws[di].locked
            &&& r[di].is_dragged
        }),
{
    lemma_find_index_bounds(ws, id);
    let di = find_index(ws, id)->Some_0;
    let dp = ws[di].position;
    let marked = ws.update(
        di,
        Widget {
            id: ws[di].id,
            position: dp,
            locked: ws[di].locked,
            is_dragged: true,
            original_position: ws[di].original_position,
        },
    );
    let pushed = push_phase(marked, di, dp);
    let order = sort_idx_spec(pushed, eligible_from(pushed, di, 0));
    assert(pushed[di] == marked[di]);
    if order.contains(di) {
        lemma_sort_idx_contains(pushed, eligible_from(pushed, di, 0), di);
        lemma_eligible_elems(pushed, di, 0, di);
        assert(false);
    }
    lemma_compact_pass_shape(
        pushed,
        order,
        crate::geometry::cells(dp).union(crate::layout::locked_cells(pushed)),
        c.columns as int,
    );
}

/// Locked invariant for conflict resolution: every locked widget keeps its
/// position, identity and lock flag, at its own place in the list. (When
/// the dragged id names no widget, resolution falls back to layout
/// optimization, whose own locked invariant applies.)
pub proof fn lemma_locked_preserved_resolve(ws: Seq<Widget>, c: GridConfig, id: Seq<char>)
    requires
        find_index(ws, id) is Some,
    ensures
        resolve_spec(ws, c, id).len() == ws.len(),
        forall|i: int|
            0 <= i < ws.len() && (#[trigger] ws[i]).locked ==> {
                let r = resolve_spec(ws, c, id)[i];
                &&& r.position == ws[i].position
                &&& r.id == ws[i].id
                &&& r.locked
            },
{
    lemma_find_index_bounds(ws, id);
    let di = find_index(ws, id)->Some_0;
    let dp = ws[di].position;
    let marked = ws.update(
        di,
        Widget {
            id: ws[di].id,
            position: dp,
            locked: ws[di].locked,
            is_dragged: true,
            original_position: ws[di].original_position,
        },
    );
    let pushed = push_phase(marked, di, dp);
    let order = sort_idx_spec(pushed, eligible_from(pushed, di, 0));
    lemma_compact_pass_shape(
        pushed,
        order,
        crate::geometry::cells(dp).union(crate::layout::locked_cells(pushed)),
        c.columns as int,
    );
    assert forall|i: int| 0 <= i < ws.len() && (#[trigger] ws[i]).locked implies {
        let r = resolve_spec(ws, c, id)[i];
        &&& r.position == ws[i].position
        &&& r.id == ws[i].id
        &&& r.locked
    } by {
        assert(marked[i].position == ws[i].position);
        assert(marked[i].locked);
        assert(pushed[i] == marked[i]);
        if order.contains(i) {
            lemma_sort_idx_contains(pushed, eligible_from(pushed, di, 0), i);
            lemma_eligible_elems(pushed, di, 0, i);
            assert(false);
        }
    }
}

/// A hit of the row scan is a placeable rectangle on that row, of the
/// searched extent.
proof fn lemma_scan_row_found(occ: Set<(int, int)>, cols: int, p: Position, y: int, x: int)
    requires
        0 <= y < crate::occupancy::MAX_SEARCH_ROWS,
        0 <= x,
        -COORD_LIMIT <= cols <= COORD_LIMIT,
        pos_in_range(p),
    ensures
        match crate::occupancy::scan_row(occ, cols, p, y, x) {
            Some(q) => {
                &&& crate::occupancy::can_place(occ, cols, q)
                &&& q.y == y
                &&& q.w == p.w
                &&& q.h == p.h
                &&& q.x >= 0
            },
            None => true,
        },
    decreases cols - p.w + 1 - x,
{
    if x > cols - p.w {
    } else if crate::occupancy::can_place(
        occ,
        cols,
        Position { x: x as i32, y: y as i32, w: p.w, h: p.h },
    ) {
    } else {
        lemma_scan_row_found(occ, cols, p, y, x + 1);
    }
}

/// A non-fallback result of the row-major search is a placeable rectangle
/// of the searched extent; the fallback sits at the sentinel row.
proof fn lemma_scan_rows_found(occ: Set<(int, int)>, cols: int, p: Position, y: int)
    requires
        0 <= y <= crate::occupancy::MAX_SEARCH_ROWS,
        -COORD_LIMIT <= cols <= COORD_LIMIT,
        pos_in_range(p),
    ensures
        ({
            let r = crate::occupancy::scan_rows(occ, cols, p, y);
            &&& r.w == p.w
            &&& r.h == p.h
            &&& y <= r.y <= crate::occupancy::MAX_SEARCH_ROWS
            &&& (r.y < crate::occupancy::MAX_SEARCH_ROWS ==> crate::occupancy::can_place(
                occ,
                cols,
                r,
            ) && r.x >= 0)
        }),
    decreases crate::occupancy::MAX_SEARCH_ROWS - y,
{
    if y >= crate::occupancy::MAX_SEARCH_ROWS {
    } else if crate::occupancy::scan_row(occ, cols, p, y, 0) is Some {
        lemma_scan_row_found(occ, cols, p, y, 0);
    } else {
        lemma_scan_rows_found(occ, cols, p, y + 1);
    }
}

/// Best-position validity: a result below the sentinel row overlaps no
/// existing widget and lies within the column bounds; the extent is always
/// the new widget's own, and the row is never negative.
pub proof fn lemma_best_position_valid(ws: Seq<Widget>, new_widget: Widget, c: GridConfig)
    requires
        widgets_in_range(ws),
        pos_in_range(new_widget.position),
        -COORD_LIMIT <= c.columns <= COORD_LIMIT,
        new_widget.position.w > 0,
        new_widget.position.h > 0,
        forall|i: int|
            0 <= i < ws.len() ==> (#[trigger] ws[i]).position.w > 0 && ws[i].position.h > 0,
    ensures
        ({
            let r = crate::layout::find_best_spec(ws, new_widget, c);
            &&& r.w == new_widget.position.w
            &&& r.h == new_widget.position.h
            &&& 0 <= r.y <= crate::occupancy::MAX_SEARCH_ROWS
            &&& (r.y < crate::occupancy::MAX_SEARCH_ROWS ==> {
                &&& r.x >= 0
                &&& r.x + r.w <= c.columns
                &&& forall|i: int|
                    0 <= i < ws.len() ==> !overlap(r, (#[trigger] ws[i]).position)
            })
        }),
{
    let occ = crate::layout::all_cells(ws);
    let r = crate::layout::find_best_spec(ws, new_widget, c);
    lemma_scan_rows_found(occ, c.columns as int, new_widget.position, 0);
    if r.y < crate::occupancy::MAX_SEARCH_ROWS {
        assert forall|i: int|
            0 <= i < ws.len() implies !overlap(r, (#[trigger] ws[i]).position) by {
            crate::geometry::lemma_overlap_iff_shared_cell(r, ws[i].position);
            if overlap(r, ws[i].position) {
                let cell = choose|cell: (int, int)| covers(r, cell) && covers(
                    ws[i].position,
                    cell,
                );
                assert(occ.contains(cell));
            }
        }
    }
}

/// Every widget of the list has positive width and height.
pub open spec fn dims_pos(ws: Seq<Widget>) -> bool {
    forall|i: int|
        0 <= i < ws.len() ==> (#[trigger] ws[i]).position.w > 0 && ws[i].position.h > 0
}

/// No two widgets of the list overlap.
pub open spec fn pairwise_disjoint(ws: Seq<Widget>) -> bool {
    forall|i: int, j: int|
        0 <= i < j < ws.len() ==> !overlap((#[trigger] ws[i]).position, (#[trigger] ws[j]).position)
}

/// The rows never decrease along the list.
pub open spec fn sorted_by_y(ws: Seq<Widget>) -> bool {
    forall|i: int, j: int|
        0 <= i <= j < ws.len() ==> (#[trigger] ws[i]).position.y <= (#[trigger] ws[j]).position.y
}

/// Non-strict version of the processing order.
pub open spec fn key_le(a: Widget, b: Widget) -> bool {
    !crate::sorting::key_lt(b.position, a.position)
}

/// The list is sorted under the processing order.
pub open spec fn sorted_keys(s: Seq<Widget>) -> bool {
    forall|i: int, j: int| 0 <= i <= j < s.len() ==> key_le(#[trigger] s[i], #[trigger] s[j])
}

/// Stable insertion into a sorted list keeps it sorted.
proof fn lemma_sorted_insert_sorted(s: Seq<Widget>, w: Widget)
    requires
        sorted_keys(s),
    ensures
        sorted_keys(sorted_insert(s, w)),
    decreases s.len(),
{
    let r = sorted_insert(s, w);
    if s.len() == 0 {
    } else if crate::sorting::key_lt(w.position, s[0].position) {
        assert(r =~= seq![w] + s);
        assert forall|i: int, j: int| 0 <= i <= j < r.len() implies key_le(
            #[trigger] r[i],
            #[trigger] r[j],
        ) by {
            if i == 0 {
                if j > 0 {
                    assert(r[j] == s[j - 1]);
                    assert(key_le(s[0], s[j - 1]));
                }
            } else {
                assert(r[i] == s[i - 1]);
                assert(r[j] == s[j - 1]);
            }
        }
    } else {
        assert(sorted_keys(s.drop_first())) by {
            assert forall|i: int, j: int|
                0 <= i <= j < s.drop_first().len() implies key_le(
                #[trigger] s.drop_first()[i],
                #[trigger] s.drop_first()[j],
            ) by {
                assert(s.drop_first()[i] == s[i + 1]);
                assert(s.drop_first()[j] == s[j + 1]);
            }
        }
        lemma_sorted_insert_sorted(s.drop_first(), w);
        let rr = sorted_insert(s.drop_first(), w);
        assert(r =~= seq![s[0]] + rr);
        assert forall|i: int, j: int| 0 <= i <= j < r.len() implies key_le(
            #[trigger] r[i],
            #[trigger] r[j],
        ) by {
            if i == 0 && j > 0 {
                assert(r[j] == rr[j - 1]);
                assert(rr.contains(rr[j - 1]));
                lemma_sorted_insert_contains(s.drop_first(), w, rr[j - 1]);
                if s.drop_first().contains(rr[j - 1]) {
                    let k = choose|k: int|
                        0 <= k < s.drop_first().len() && s.drop_first()[k] == rr[j - 1];
                    assert(s.drop_first()[k] == s[k + 1]);
                    assert(key_le(s[0], s[k + 1]));
                } else {
                    assert(rr[j - 1] == w);
                }
            } else if i > 0 {
                assert(r[i] == rr[i - 1]);
                assert(r[j] == rr[j - 1]);
            }
        }
    }
}

/// Sorting delivers a list sorted under the processing order.
proof fn lemma_sort_sorted(s: Seq<Widget>)
    ensures
        sorted_keys(sort_widgets_spec(s)),
    decreases s.len(),
{
    if s.len() > 0 {
        lemma_sort_sorted(s.drop_last());
        lemma_sorted_insert_sorted(sort_widgets_spec(s.drop_last()), s.last());
    }
}

/// Inserting a widget that overlaps none of the list keeps the list free
/// of overlaps.
proof fn lemma_sorted_insert_pairwise(s: Seq<Widget>, w: Widget)
    requires
        pairwise_disjoint(s),
        forall|k: int| 0 <= k < s.len() ==> !overlap(w.position, (#[trigger] s[k]).position),
    ensures
        pairwise_disjoint(sorted_insert(s, w)),
    decreases s.len(),
{
    let r = sorted_insert(s, w);
    if s.len() == 0 {
    } else if crate::sorting::key_lt(w.position, s[0].position) {
        assert(r =~= seq![w] + s);
        assert forall|i: int, j: int| 0 <= i < j < r.len() implies !overlap(
            (#[trigger] r[i]).position,
            (#[trigger] r[j]).position,
        ) by {
            if i == 0 {
                assert(r[j] == s[j - 1]);
            } else {
                assert(r[i] == s[i - 1]);
                assert(r[j] == s[j - 1]);
            }
        }
    } else {
        assert(pairwise_disjoint(s.drop_first())) by {
            assert forall|i: int, j: int|
                0 <= i < j < s.drop_first().len() implies !overlap(
                (#[trigger] s.drop_first()[i]).position,
                (#[trigger] s.drop_first()[j]).position,
            ) by {
                assert(s.drop_first()[i] == s[i + 1]);
                assert(s.drop_first()[j] == s[j + 1]);
            }
        }
        assert forall|k: int|
            0 <= k < s.drop_first().len() implies !overlap(
            w.position,
            (#[trigger] s.drop_first()[k]).position,
        ) by {
            assert(s.drop_first()[k] == s[k + 1]);
        }
        lemma_sorted_insert_pairwise(s.drop_first(), w);
        let rr = sorted_insert(s.drop_first(), w);
        assert(r =~= seq![s[0]] + rr);
        assert forall|i: int, j: int| 0 <= i < j < r.len() implies !overlap(
            (#[trigger] r[i]).position,
            (#[trigger] r[j]).position,
        ) by {
            if i == 0 {
                assert(r[j] == rr[j - 1]);
                assert(rr.contains(rr[j - 1]));
                lemma_sorted_insert_contains(s.drop_first(), w, rr[j - 1]);
                if s.drop_first().contains(rr[j - 1]) {
                    let k = choose|k: int|
                        0 <= k < s.drop_first().len() && s.drop_first()[k] == rr[j - 1];
                    assert(s.drop_first()[k] == s[k + 1]);
                    assert(!overlap(s[0].position, s[k + 1].position));
                } else {
                    assert(rr[j - 1] == w);
                    assert(!overlap(w.position, s[0].position));
                }
            } else {
                assert(r[i] == rr[i - 1]);
                assert(r[j] == rr[j - 1]);
            }
        }
    }
}

/// Sorting keeps the list free of overlaps and its extents positive.
proof fn lemma_sort_pairwise(s: Seq<Widget>)
    requires
        pairwise_disjoint(s),
        dims_pos(s),
    ensures
        pairwise_disjoint(sort_widgets_spec(s)),
        dims_pos(sort_widgets_spec(s)),
    decreases s.len(),
{
    let r = sort_widgets_spec(s);
    if s.len() > 0 {
        assert(pairwise_disjoint(s.drop_last())) by {
            assert forall|i: int, j: int|
                0 <= i < j < s.drop_last().len() implies !overlap(
                (#[trigger] s.drop_last()[i]).position,
                (#[trigger] s.drop_last()[j]).position,
            ) by {
                assert(s.drop_last()[i] == s[i]);
                assert(s.drop_last()[j] == s[j]);
            }
        }
        assert(dims_pos(s.drop_last())) by {
            assert forall|i: int|
                0 <= i < s.drop_last().len() implies (#[trigger] s.drop_last()[i]).position.w > 0
                && s.drop_last()[i].position.h > 0 by {
                assert(s.drop_last()[i] == s[i]);
            }
        }
        lemma_sort_pairwise(s.drop_last());
        let sd = sort_widgets_spec(s.drop_last());
        assert forall|k: int|
            0 <= k < sd.len() implies !overlap(s.last().position, (#[trigger] sd[k]).position) by {
            assert(sd.contains(sd[k]));
            lemma_sort_contains(s.drop_last(), sd[k]);
            let m = choose|m: int| 0 <= m < s.drop_last().len() && s.drop_last()[m] == sd[k];
            assert(s.drop_last()[m] == s[m]);
            assert(!overlap(s[m].position, s.last().position));
            assert(!overlap(s.last().position, s[m].position));
        }
        lemma_sorted_insert_pairwise(sd, s.last());
        assert forall|i: int|
            0 <= i < r.len() implies (#[trigger] r[i]).position.w > 0 && r[i].position.h > 0 by {
            assert(r.contains(r[i]));
            lemma_sort_contains(s, r[i]);
            let m = choose|m: int| 0 <= m < s.len() && s[m] == r[i];
        }
    }
}

/// Pulling to the ceiling either leaves the rectangle where it was, or
/// moves it strictly up onto a placeable spot.
proof fn lemma_highest_cases(occ: Set<(int, int)>, cols: int, p: Position)
    ensures
        highest_spec(occ, cols, p) == p || (highest_spec(occ, cols, p).y < p.y
            && crate::occupancy::can_place(occ, cols, highest_spec(occ, cols, p))),
    decreases p.y,
{
    if p.y <= 0 {
    } else if crate::occupancy::can_place(occ, cols, crate::occupancy::with_y(p, p.y - 1)) {
        lemma_highest_cases(occ, cols, crate::occupancy::with_y(p, p.y - 1));
    }
}

/// The cells of every locked widget of the list are in `occ`.
spec fn locked_covered(ws: Seq<Widget>, occ: Set<(int, int)>) -> bool {
    forall|i: int, c: (int, int)|
        0 <= i < ws.len() && ws[i].locked && #[trigger] covers(ws[i].position, c)
            ==> occ.contains(c)
}

/// The rectangle of every unlocked widget of the list avoids `occ`.
spec fn unlocked_free(ws: Seq<Widget>, occ: Set<(int, int)>) -> bool {
    forall|i: int, c: (int, int)|
        0 <= i < ws.len() && !ws[i].locked && #[trigger] covers(ws[i].position, c)
            ==> !occ.contains(c)
}

/// The core of the no-overlap argument: compacting a sorted,
/// overlap-free list against an occupancy that holds exactly the locked
/// footprints (and possibly more cells that no unlocked widget touches)
/// yields an overlap-free list whose unlocked widgets still avoid the
/// entry occupancy.
proof fn lemma_compact_rec_disjoint(ws: Seq<Widget>, occ: Set<(int, int)>, cols: int)
    requires
        dims_pos(ws),
        pairwise_disjoint(ws),
        sorted_by_y(ws),
        locked_covered(ws, occ),
        unlocked_free(ws, occ),
    ensures
        pairwise_disjoint(compact_rec(ws, occ, cols)),
        forall|m: int, c: (int, int)|
            0 <= m < ws.len() && !compact_rec(ws, occ, cols)[m].locked && #[trigger] covers(
                compact_rec(ws, occ, cols)[m].position,
                c,
            ) ==> !occ.contains(c),
    decreases ws.len(),
{
    lemma_compact_rec_shape(ws, occ, cols);
    if ws.len() == 0 {
        return ;
    }
    let r = compact_rec(ws, occ, cols);
    let rest = ws.drop_first();
    assert forall|i: int, j: int|
        0 <= i < j < rest.len() implies !overlap(
        (#[trigger] rest[i]).position,
        (#[trigger] rest[j]).position,
    ) by {
        assert(rest[i] == ws[i + 1]);
        assert(rest[j] == ws[j + 1]);
    }
    assert forall|i: int|
        0 <= i < rest.len() implies (#[trigger] rest[i]).position.w > 0 && rest[i].position.h
        > 0 by {
        assert(rest[i] == ws[i + 1]);
    }
    assert forall|i: int, j: int|
        0 <= i <= j < rest.len() implies (#[trigger] rest[i]).position.y
        <= (#[trigger] rest[j]).position.y by {
        assert(rest[i] == ws[i + 1]);
        assert(rest[j] == ws[j + 1]);
    }
    if ws[0].locked {
        assert(locked_covered(rest, occ)) by {
            assert forall|i: int, c: (int, int)|
                0 <= i < rest.len() && rest[i].locked && #[trigger] covers(rest[i].position, c)
                implies occ.contains(c) by {
                assert(rest[i] == ws[i + 1]);
            }
        }
        assert(unlocked_free(rest, occ)) by {
            assert forall|i: int, c: (int, int)|
                0 <= i < rest.len() && !rest[i].locked && #[trigger] covers(rest[i].position, c)
                implies !occ.contains(c) by {
                assert(rest[i] == ws[i + 1]);
            }
        }
        lemma_compact_rec_disjoint(rest, occ, cols);
        let rr = compact_rec(rest, occ, cols);
        lemma_compact_rec_shape(rest, occ, cols);
        assert(r =~= seq![ws[0]] + rr);
        // The head keeps its footprint inside occ; every unlocked later
        // widget avoids occ, and every locked later widget was disjoint
        // from the head in the input.
        assert forall|i: int, j: int| 0 <= i < j < r.len() implies !overlap(
            (#[trigger] r[i]).position,
            (#[trigger] r[j]).position,
        ) by {
            if i == 0 {
                assert(r[j] == rr[j - 1]);
                if rr[j - 1].locked {
                    assert(rr[j - 1] == rest[j - 1]);
                    assert(rest[j - 1] == ws[j]);
                    assert(!overlap(ws[0].position, ws[j].position));
                } else {
                    crate::geometry::lemma_overlap_iff_shared_cell(
                        ws[0].position,
                        rr[j - 1].position,
                    );
                    if overlap(ws[0].position, rr[j - 1].position) {
                        let c = choose|c: (int, int)|
                            covers(ws[0].position, c) && covers(rr[j - 1].position, c);
                        assert(occ.contains(c));
                        assert(!occ.contains(c));
                    }
                }
            } else {
                assert(r[i] == rr[i - 1]);
                assert(r[j] == rr[j - 1]);
            }
        }
        assert forall|m: int, c: (int, int)|
            0 <= m < ws.len() && !r[m].locked && #[trigger] covers(r[m].position, c)
            implies !occ.contains(c) by {
            if m > 0 {
                assert(r[m] == rr[m - 1]);
            }
        }
    } else {
        let p = highest_spec(occ, cols, ws[0].position);
        let occ2 = occ.union(crate::geometry::cells(p));
        crate::layout::lemma_highest_in_range(occ, cols, ws[0].position);
        lemma_highest_cases(occ, cols, ws[0].position);
        // The moved head never overlaps a later widget's input rectangle:
        // with overlapping column ranges, the later widget starts at or
        // below the head's old bottom edge, and the head only went up.
        assert forall|i: int|
            0 <= i < rest.len() implies !overlap(p, (#[trigger] rest[i]).position) by {
            assert(rest[i] == ws[i + 1]);
            let b = ws[i + 1].position;
            let a = ws[0].position;
            assert(!overlap(a, b));
            assert(a.y <= b.y);
            if p == a {
            } else {
                // column ranges apart, or the later widget lies fully
                // below the head's old rectangle
                if a.x >= b.x + b.w || a.x + a.w <= b.x {
                } else {
                    assert(a.y + a.h <= b.y);
                    assert(p.y + p.h <= b.y);
                }
            }
        }
        assert(locked_covered(rest, occ2)) by {
            assert forall|i: int, c: (int, int)|
                0 <= i < rest.len() && rest[i].locked && #[trigger] covers(rest[i].position, c)
                implies occ2.contains(c) by {
                assert(rest[i] == ws[i + 1]);
            }
        }
        assert(unlocked_free(rest, occ2)) by {
            assert forall|i: int, c: (int, int)|
                0 <= i < rest.len() && !rest[i].locked && #[trigger] covers(rest[i].position, c)
                implies !occ2.contains(c) by {
                assert(rest[i] == ws[i + 1]);
                if crate::geometry::cells(p).contains(c) {
                    assert(covers(p, c));
                    crate::geometry::lemma_overlap_iff_shared_cell(p, rest[i].position);
                }
            }
        }
        lemma_compact_rec_disjoint(rest, occ2, cols);
        let rr = compact_rec(rest, occ2, cols);
        lemma_compact_rec_shape(rest, occ2, cols);
        let w0 = with_position(ws[0], p);
        assert(r =~= seq![w0] + rr);
        assert forall|i: int, j: int| 0 <= i < j < r.len() implies !overlap(
            (#[trigger] r[i]).position,
            (#[trigger] r[j]).position,
        ) by {
            if i == 0 {
                assert(r[j] == rr[j - 1]);
                if rr[j - 1].locked {
                    assert(rr[j - 1] == rest[j - 1]);
                } else {
                    crate::geometry::lemma_overlap_iff_shared_cell(p, rr[j - 1].position);
                    if overlap(p, rr[j - 1].position) {
                        let c = choose|c: (int, int)| covers(p, c) && covers(
                            rr[j - 1].position,
                            c,
                        );
                        assert(occ2.contains(c));
                        assert(!occ2.contains(c));
                    }
                }
            } else {
                assert(r[i] == rr[i - 1]);
                assert(r[j] == rr[j - 1]);
            }
        }
        assert forall|m: int, c: (int, int)|
            0 <= m < ws.len() && !r[m].locked && #[trigger] covers(r[m].position, c)
            implies !occ.contains(c) by {
            if m == 0 {
                if p == ws[0].position {
                } else {
                    assert(crate::occupancy::can_place(occ, cols, p));
                }
            } else {
                assert(r[m] == rr[m - 1]);
                assert(!occ2.contains(c));
            }
        }
    }
}

/// No-overlap invariant: compacting a layout whose widgets have positive
/// extents and do not overlap yields a layout whose widgets do not
/// overlap. (An input that already overlaps can stay overlapping: a
/// widget already at the top that overlaps a locked widget, such as an
/// unlocked and a locked widget both at the origin, has nowhere to go.)
pub proof fn lemma_no_overlap_optimize(ws: Seq<Widget>, c: GridConfig)
    requires
        !c.float,
        dims_pos(ws),
        pairwise_disjoint(ws),
    ensures
        pairwise_disjoint(optimize_spec(ws, c)),
{
    let sorted = sort_widgets_spec(ws);
    let seed = crate::layout::locked_cells(sorted);
    lemma_sort_pairwise(ws);
    lemma_sort_sorted(ws);
    assert(sorted_by_y(sorted)) by {
        assert forall|i: int, j: int|
            0 <= i <= j < sorted.len() implies (#[trigger] sorted[i]).position.y
            <= (#[trigger] sorted[j]).position.y by {
            assert(key_le(sorted[i], sorted[j]));
        }
    }
    assert(locked_covered(sorted, seed));
    assert(unlocked_free(sorted, seed)) by {
        assert forall|i: int, c: (int, int)|
            0 <= i < sorted.len() && !sorted[i].locked && #[trigger] covers(
                sorted[i].position,
                c,
            ) implies !seed.contains(c) by {
            if seed.contains(c) {
                let j = choose|j: int|
                    0 <= j < sorted.len() && (#[trigger] sorted[j]).locked && covers(
                        sorted[j].position,
                        c,
                    );
                crate::geometry::lemma_overlap_iff_shared_cell(
                    sorted[i].position,
                    sorted[j].position,
                );
                if i < j {
                    assert(!overlap(sorted[i].position, sorted[j].position));
                } else {
                    assert(!overlap(sorted[j].position, sorted[i].position));
                }
            }
        }
    }
    lemma_compact_rec_disjoint(sorted, seed, c.columns as int);
}

/// Where the pull to the ceiling stops above row zero, the next step up
/// is blocked.
proof fn lemma_highest_blocked(occ: Set<(int, int)>, cols: int, p: Position)
    ensures
        ({
            let r = highest_spec(occ, cols, p);
            r.y > 0 ==> !crate::occupancy::can_place(
                occ,
                cols,
                crate::occupancy::with_y(r, r.y - 1),
            )
        }),
    decreases p.y,
{
    if p.y <= 0 {
    } else if crate::occupancy::can_place(occ, cols, crate::occupancy::with_y(p, p.y - 1)) {
        lemma_highest_blocked(occ, cols, crate::occupancy::with_y(p, p.y - 1));
    }
}

/// In an overlap-free list with positive extents, no unlocked widget
/// touches a locked widget's footprint.
proof fn lemma_seed_free(ws: Seq<Widget>)
    requires
        dims_pos(ws),
        pairwise_disjoint(ws),
    ensures
        unlocked_free(ws, crate::layout::locked_cells(ws)),
{
    let seed = crate::layout::locked_cells(ws);
    assert forall|i: int, c: (int, int)|
        0 <= i < ws.len() && !ws[i].locked && #[trigger] covers(ws[i].position, c)
        implies !seed.contains(c) by {
        if seed.contains(c) {
            let j = choose|j: int|
                0 <= j < ws.len() && (#[trigger] ws[j]).locked && covers(ws[j].position, c);
            crate::geometry::lemma_overlap_iff_shared_cell(ws[i].position, ws[j].position);
            if i < j {
                assert(!overlap(ws[i].position, ws[j].position));
            } else {
                assert(!overlap(ws[j].position, ws[i].position));
            }
        }
    }
}

/// One step of the compaction recursion keeps every hypothesis of the
/// no-overlap argument for the remaining widgets, against the occupancy
/// the step leaves behind.
proof fn lemma_step_preconditions(ws: Seq<Widget>, occ: Set<(int, int)>, cols: int)
    requires
        ws.len() > 0,
        dims_pos(ws),
        pairwise_disjoint(ws),
        sorted_by_y(ws),
        locked_covered(ws, occ),
        unlocked_free(ws, occ),
    ensures
        dims_pos(ws.drop_first()),
        pairwise_disjoint(ws.drop_first()),
        sorted_by_y(ws.drop_first()),
        ws[0].locked ==> locked_covered(ws.drop_first(), occ) && unlocked_free(
            ws.drop_first(),
            occ,
        ),
        !ws[0].locked ==> locked_covered(
            ws.drop_first(),
            occ.union(crate::geometry::cells(highest_spec(occ, cols, ws[0].position))),
        ) && unlocked_free(
            ws.drop_first(),
            occ.union(crate::geometry::cells(highest_spec(occ, cols, ws[0].position))),
        ),
{
    let rest = ws.drop_first();
    assert forall|i: int, j: int|
        0 <= i < j < rest.len() implies !overlap(
        (#[trigger] rest[i]).position,
        (#[trigger] rest[j]).position,
    ) by {
        assert(rest[i] == ws[i + 1]);
        assert(rest[j] == ws[j + 1]);
    }
    assert forall|i: int|
        0 <= i < rest.len() implies (#[trigger] rest[i]).position.w > 0 && rest[i].position.h
        > 0 by {
        assert(rest[i] == ws[i + 1]);
    }
    assert forall|i: int, j: int|
        0 <= i <= j < rest.len() implies (#[trigger] rest[i]).position.y
        <= (#[trigger] rest[j]).position.y by {
        assert(rest[i] == ws[i + 1]);
        assert(rest[j] == ws[j + 1]);
    }
    if ws[0].locked {
        assert forall|i: int, c: (int, int)|
            0 <= i < rest.len() && rest[i].locked && #[trigger] covers(rest[i].position, c)
            implies occ.contains(c) by {
            assert(rest[i] == ws[i + 1]);
        }
        assert forall|i: int, c: (int, int)|
            0 <= i < rest.len() && !rest[i].locked && #[trigger] covers(rest[i].position, c)
            implies !occ.contains(c) by {
            assert(rest[i] == ws[i + 1]);
        }
    } else {
        let p = highest_spec(occ, cols, ws[0].position);
        let occ2 = occ.union(crate::geometry::cells(p));
        crate::layout::lemma_highest_in_range(occ, cols, ws[0].position);
        lemma_highest_cases(occ, cols, ws[0].position);
        assert forall|i: int|
            0 <= i < rest.len() implies !overlap(p, (#[trigger] rest[i]).position) by {
            assert(rest[i] == ws[i + 1]);
            let b = ws[i + 1].position;
            let a = ws[0].position;
            assert(!overlap(a, b));
            assert(a.y <= b.y);
            if p == a {
            } else {
                if a.x >= b.x + b.w || a.x + a.w <= b.x {
                } else {
                    assert(a.y + a.h <= b.y);
                    assert(p.y + p.h <= b.y);
                }
            }
        }
        assert forall|i: int, c: (int, int)|
            0 <= i < rest.len() && rest[i].locked && #[trigger] covers(rest[i].position, c)
            implies occ2.contains(c) by {
            assert(rest[i] == ws[i + 1]);
        }
        assert forall|i: int, c: (int, int)|
            0 <= i < rest.len() && !rest[i].locked && #[trigger] covers(rest[i].position, c)
            implies !occ2.contains(c) by {
            assert(rest[i] == ws[i + 1]);
            if crate::geometry::cells(p).contains(c) {
                assert(covers(p, c));
                crate::geometry::lemma_overlap_iff_shared_cell(p, rest[i].position);
            }
        }
    }
}

/// Some widget of the list covers the cell `c`.
spec fn cell_owned(rs: Seq<Widget>, c: (int, int)) -> bool {
    exists|j: int| 0 <= j < rs.len() && covers((#[trigger] rs[j]).position, c)
}

/// The rectangle `p` cannot rise by one row: it fails the column bounds,
/// or some cell one row up — strictly above its top edge — is occupied by
/// `occ` or covered by a widget of the list.
spec fn blocked_in(rs: Seq<Widget>, occ: Set<(int, int)>, cols: int, p: Position) -> bool {
    ||| p.x < 0
    ||| p.x + p.w > cols
    ||| exists|c: (int, int)|
        #[trigger] covers(crate::occupancy::with_y(p, p.y - 1), c) && c.1 < p.y && (occ.contains(
            c,
        ) || cell_owned(rs, c))
}

/// Every unlocked widget above row zero is blocked from rising.
spec fn settled_ctx(rs: Seq<Widget>, occ: Set<(int, int)>, cols: int) -> bool {
    forall|m: int|
        0 <= m < rs.len() && !(#[trigger] rs[m]).locked && rs[m].position.y > 0 ==> blocked_in(
            rs,
            occ,
            cols,
            rs[m].position,
        )
}

/// The compaction pass leaves every unlocked widget blocked from rising:
/// each one either sits at the top, fails the column bounds, or has an
/// occupied or widget-covered cell in the row just above it.
proof fn lemma_compact_rec_settled(ws: Seq<Widget>, occ: Set<(int, int)>, cols: int)
    requires
        dims_pos(ws),
        pairwise_disjoint(ws),
        sorted_by_y(ws),
        locked_covered(ws, occ),
        unlocked_free(ws, occ),
    ensures
        settled_ctx(compact_rec(ws, occ, cols), occ, cols),
    decreases ws.len(),
{
    if ws.len() == 0 {
        return ;
    }
    let r = compact_rec(ws, occ, cols);
    let rest = ws.drop_first();
    lemma_step_preconditions(ws, occ, cols);
    if ws[0].locked {
        lemma_compact_rec_settled(rest, occ, cols);
        let rr = compact_rec(rest, occ, cols);
        lemma_compact_rec_shape(rest, occ, cols);
        assert(r =~= seq![ws[0]] + rr);
        assert forall|m: int|
            0 <= m < r.len() && !(#[trigger] r[m]).locked && r[m].position.y > 0 implies blocked_in(
            r,
            occ,
            cols,
            r[m].position,
        ) by {
            assert(r[m] == rr[m - 1]);
            assert(blocked_in(rr, occ, cols, rr[m - 1].position));
            if !(rr[m - 1].position.x < 0 || rr[m - 1].position.x + rr[m - 1].position.w > cols) {
                let c = choose|c: (int, int)|
                    #[trigger] covers(
                        crate::occupancy::with_y(rr[m - 1].position, rr[m - 1].position.y - 1),
                        c,
                    ) && c.1 < rr[m - 1].position.y && (occ.contains(c) || cell_owned(rr, c));
                if cell_owned(rr, c) {
                    let j = choose|j: int|
                        0 <= j < rr.len() && covers((#[trigger] rr[j]).position, c);
                    assert(r[j + 1] == rr[j]);
                    assert(cell_owned(r, c));
                }
            }
        }
    } else {
        let p = highest_spec(occ, cols, ws[0].position);
        let occ2 = occ.union(crate::geometry::cells(p));
        crate::layout::lemma_highest_in_range(occ, cols, ws[0].position);
        lemma_highest_cases(occ, cols, ws[0].position);
        lemma_highest_blocked(occ, cols, ws[0].position);
        lemma_compact_rec_settled(rest, occ2, cols);
        let rr = compact_rec(rest, occ2, cols);
        lemma_compact_rec_shape(rest, occ2, cols);
        let w0 = with_position(ws[0], p);
        assert(r =~= seq![w0] + rr);
        assert forall|m: int|
            0 <= m < r.len() && !(#[trigger] r[m]).locked && r[m].position.y > 0 implies blocked_in(
            r,
            occ,
            cols,
            r[m].position,
        ) by {
            if m == 0 {
                // The head stopped here: the row above is blocked, and
                // the blocking cell lies strictly above the head's top
                // edge because its own footprint is free.
                let below = crate::occupancy::with_y(p, p.y - 1);
                assert(!crate::occupancy::can_place(occ, cols, below));
                if !(p.x < 0 || p.x + p.w > cols) {
                    assert(below.x >= 0 && below.y >= 0 && below.x + below.w <= cols);
                    let c = choose|c: (int, int)| #[trigger] covers(below, c) && occ.contains(c);
                    if c.1 >= p.y {
                        assert(covers(p, c));
                        if p == ws[0].position {
                            assert(!occ.contains(c));
                        } else {
                            assert(crate::occupancy::can_place(occ, cols, p));
                            assert(!occ.contains(c));
                        }
                    }
                    assert(c.1 < p.y);
                    assert(blocked_in(r, occ, cols, p));
                }
            } else {
                assert(r[m] == rr[m - 1]);
                assert(blocked_in(rr, occ2, cols, rr[m - 1].position));
                if !(rr[m - 1].position.x < 0 || rr[m - 1].position.x + rr[m - 1].position.w
                    > cols) {
                    let c = choose|c: (int, int)|
                        #[trigger] covers(
                            crate::occupancy::with_y(rr[m - 1].position, rr[m - 1].position.y - 1),
                            c,
                        ) && c.1 < rr[m - 1].position.y && (occ2.contains(c) || cell_owned(rr, c));
                    if cell_owned(rr, c) {
                        let j = choose|j: int|
                            0 <= j < rr.len() && covers((#[trigger] rr[j]).position, c);
                        assert(r[j + 1] == rr[j]);
                        assert(cell_owned(r, c));
                    } else if crate::geometry::cells(p).contains(c) {
                        assert(covers(r[0].position, c));
                        assert(cell_owned(r, c));
                    } else {
                        assert(occ.contains(c));
                    }
                }
            }
        }
    }
}

/// Compacting a list in which every unlocked widget is already blocked
/// from rising changes nothing.
proof fn lemma_compact_identity(ws: Seq<Widget>, occ: Set<(int, int)>, cols: int)
    requires
        sorted_by_y(ws),
        locked_covered(ws, occ),
        forall|m: int|
            0 <= m < ws.len() && !(#[trigger] ws[m]).locked && ws[m].position.y > 0 ==> blocked_in(
                ws,
                occ,
                cols,
                ws[m].position,
            ),
    ensures
        compact_rec(ws, occ, cols) == ws,
    decreases ws.len(),
{
    if ws.len() == 0 {
        assert(compact_rec(ws, occ, cols) =~= ws);
        return ;
    }
    let rest = ws.drop_first();
    assert forall|i: int, j: int|
        0 <= i <= j < rest.len() implies (#[trigger] rest[i]).position.y
        <= (#[trigger] rest[j]).position.y by {
        assert(rest[i] == ws[i + 1]);
        assert(rest[j] == ws[j + 1]);
    }
    if ws[0].locked {
        assert forall|i: int, c: (int, int)|
            0 <= i < rest.len() && rest[i].locked && #[trigger] covers(rest[i].position, c)
            implies occ.contains(c) by {
            assert(rest[i] == ws[i + 1]);
        }
        assert forall|m: int|
            0 <= m < rest.len() && !(#[trigger] rest[m]).locked && rest[m].position.y > 0
            implies blocked_in(rest, occ, cols, rest[m].position) by {
            assert(rest[m] == ws[m + 1]);
            assert(blocked_in(ws, occ, cols, ws[m + 1].position));
            if !(ws[m + 1].position.x < 0 || ws[m + 1].position.x + ws[m + 1].position.w > cols) {
                let c = choose|c: (int, int)|
                    #[trigger] covers(
                        crate::occupancy::with_y(ws[m + 1].position, ws[m + 1].position.y - 1),
                        c,
                    ) && c.1 < ws[m + 1].position.y && (occ.contains(c) || cell_owned(ws, c));
                if cell_owned(ws, c) {
                    let j = choose|j: int|
                        0 <= j < ws.len() && covers((#[trigger] ws[j]).position, c);
                    if j == 0 {
                        assert(occ.contains(c));
                    } else {
                        assert(rest[j - 1] == ws[j]);
                        assert(cell_owned(rest, c));
                    }
                }
            }
        }
        lemma_compact_identity(rest, occ, cols);
        assert(compact_rec(ws, occ, cols) =~= ws);
    } else {
        let q = ws[0].position;
        // The head cannot rise: every possible blocker lies strictly
        // above its top edge, and no widget sits above the first of a
        // row-sorted list, so the blocker is already in the occupancy.
        if q.y > 0 {
            assert(blocked_in(ws, occ, cols, q));
            if q.x < 0 || q.x + q.w > cols {
                assert(!crate::occupancy::can_place(
                    occ,
                    cols,
                    crate::occupancy::with_y(q, q.y - 1),
                ));
            } else {
                let c = choose|c: (int, int)|
                    #[trigger] covers(crate::occupancy::with_y(q, q.y - 1), c) && c.1 < q.y && (
                    occ.contains(c) || cell_owned(ws, c));
                if cell_owned(ws, c) {
                    let j = choose|j: int|
                        0 <= j < ws.len() && covers((#[trigger] ws[j]).position, c);
                    assert(ws[0].position.y <= ws[j].position.y);
                    assert(ws[j].position.y <= c.1);
                    assert(false);
                }
                assert(occ.contains(c));
                assert(!crate::occupancy::can_place(
                    occ,
                    cols,
                    crate::occupancy::with_y(q, q.y - 1),
                ));
            }
        }
        assert(highest_spec(occ, cols, q) == q);
        let occ2 = occ.union(crate::geometry::cells(q));
        assert forall|i: int, c: (int, int)|
            0 <= i < rest.len() && rest[i].locked && #[trigger] covers(rest[i].position, c)
            implies occ2.contains(c) by {
            assert(rest[i] == ws[i + 1]);
        }
        assert forall|m: int|
            0 <= m < rest.len() && !(#[trigger] rest[m]).locked && rest[m].position.y > 0
            implies blocked_in(rest, occ2, cols, rest[m].position) by {
            assert(rest[m] == ws[m + 1]);
            assert(blocked_in(ws, occ, cols, ws[m + 1].position));
            if !(ws[m + 1].position.x < 0 || ws[m + 1].position.x + ws[m + 1].position.w > cols) {
                let c = choose|c: (int, int)|
                    #[trigger] covers(
                        crate::occupancy::with_y(ws[m + 1].position, ws[m + 1].position.y - 1),
                        c,
                    ) && c.1 < ws[m + 1].position.y && (occ.contains(c) || cell_owned(ws, c));
                if cell_owned(ws, c) {
                    let j = choose|j: int|
                        0 <= j < ws.len() && covers((#[trigger] ws[j]).position, c);
                    if j == 0 {
                        assert(occ2.contains(c));
                    } else {
                        assert(rest[j - 1] == ws[j]);
                        assert(cell_owned(rest, c));
                    }
                }
            }
        }
        lemma_compact_identity(rest, occ2, cols);
        assert(with_position(ws[0], q) == ws[0]);
        assert(compact_rec(ws, occ, cols) =~= ws);
    }
}

/// Idempotence: a second compaction pass moves nothing. Its output is
/// exactly the first output re-sorted by the `(y, x)` processing order —
/// the same widgets at the same positions; only the listing order can
/// change, because the first pass lists widgets by their old keys and the
/// second by their new ones.
pub proof fn lemma_optimize_idempotent(ws: Seq<Widget>, c: GridConfig)
    requires
        !c.float,
        dims_pos(ws),
        pairwise_disjoint(ws),
    ensures
        optimize_spec(optimize_spec(ws, c), c) == sort_widgets_spec(optimize_spec(ws, c)),
        forall|x: Widget|
            optimize_spec(optimize_spec(ws, c), c).contains(x) <==> optimize_spec(
                ws,
                c,
            ).contains(x),
{
    let cols = c.columns as int;
    let s1 = sort_widgets_spec(ws);
    let seed1 = crate::layout::locked_cells(s1);
    let r1 = compact_rec(s1, seed1, cols);
    assert(optimize_spec(ws, c) == r1);
    lemma_sort_pairwise(ws);
    lemma_sort_sorted(ws);
    assert(sorted_by_y(s1)) by {
        assert forall|i: int, j: int|
            0 <= i <= j < s1.len() implies (#[trigger] s1[i]).position.y
            <= (#[trigger] s1[j]).position.y by {
            assert(key_le(s1[i], s1[j]));
        }
    }
    lemma_seed_free(s1);
    lemma_compact_rec_settled(s1, seed1, cols);
    lemma_compact_rec_shape(s1, seed1, cols);

    let s2 = sort_widgets_spec(r1);
    let seed2 = crate::layout::locked_cells(s2);
    lemma_sort_sorted(r1);
    assert(sorted_by_y(s2)) by {
        assert forall|i: int, j: int|
            0 <= i <= j < s2.len() implies (#[trigger] s2[i]).position.y
            <= (#[trigger] s2[j]).position.y by {
            assert(key_le(s2[i], s2[j]));
        }
    }
    // Every widget of the re-sorted list is blocked from rising: its
    // blocker from the first pass is a widget of the first output, and
    // that widget is in the re-sorted list too.
    assert forall|m: int|
        0 <= m < s2.len() && !(#[trigger] s2[m]).locked && s2[m].position.y > 0
        implies blocked_in(s2, seed2, cols, s2[m].position) by {
        assert(s2.contains(s2[m]));
        lemma_sort_contains(r1, s2[m]);
        let m1 = choose|m1: int| 0 <= m1 < r1.len() && r1[m1] == s2[m];
        assert(blocked_in(r1, seed1, cols, r1[m1].position));
        let p = s2[m].position;
        if !(p.x < 0 || p.x + p.w > cols) {
            let cell = choose|cell: (int, int)|
                #[trigger] covers(crate::occupancy::with_y(p, p.y - 1), cell) && cell.1 < p.y && (
                seed1.contains(cell) || cell_owned(r1, cell));
            if seed1.contains(cell) {
                let j = choose|j: int|
                    0 <= j < s1.len() && (#[trigger] s1[j]).locked && covers(s1[j].position, cell);
                assert(r1[j] == s1[j]);
                assert(covers(r1[j].position, cell));
                assert(cell_owned(r1, cell));
            }
            let j = choose|j: int| 0 <= j < r1.len() && covers((#[trigger] r1[j]).position, cell);
            assert(r1.contains(r1[j]));
            lemma_sort_contains(r1, r1[j]);
            let j2 = choose|j2: int| 0 <= j2 < s2.len() && s2[j2] == r1[j];
            assert(covers(s2[j2].position, cell));
            assert(cell_owned(s2, cell));
            assert(blocked_in(s2, seed2, cols, p));
        }
    }
    lemma_compact_identity(s2, seed2, cols);
    assert(optimize_spec(r1, c) == s2);
    assert forall|x: Widget|
        optimize_spec(optimize_spec(ws, c), c).contains(x) <==> optimize_spec(
        ws,
        c,
    ).contains(x) by {
        lemma_sort_contains(r1, x);
    }
}

} // verus!
