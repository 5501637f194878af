//! Stable sorting of widgets for the compaction passes. The processing
//! order — `(y, x)` ascending for layout optimization, `y` ascending for
//! conflict resolution, equal keys keeping their input order — is the sole
//! source of determinism of the greedy placement, so it is pinned down
//! exactly here.

use vstd::prelude::*;

use crate::geometry::Position;
use crate::geometry::Widget;

verus! {

/// Strict processing order of layout optimization: above first, then left.
pub open spec fn key_lt(a: Position, b: Position) -> bool {
    a.y < b.y || (a.y == b.y && a.x < b.x)
}

/// Stable insertion of `w` into `s`: `w` goes in front of the first element
/// strictly after it in `(y, x)` order, so it lands after any element with
/// an equal key.
pub open spec fn sorted_insert(s: Seq<Widget>, w: Widget) -> Seq<Widget>
    decreases s.len(),
{
    if s.len() == 0 {
        seq![w]
    } else if key_lt(w.position, s[0].position) {
        seq![w] + s
    } else {
        seq![s[0]] + sorted_insert(s.drop_first(), w)
    }
}

/// Stable insertion sort by `(y, x)` ascending: the unique permutation of
/// `s` that is sorted by `key_lt` with equal keys keeping their input order.
pub open spec fn sort_widgets_spec(s: Seq<Widget>) -> Seq<Widget>
    decreases s.len(),
{
    if s.len() == 0 {
        Seq::empty()
    } else {
        sorted_insert(sort_widgets_spec(s.drop_last()), s.last())
    }
}

/// Inserting in front of the first strictly-greater element is the same as
/// splitting at that point.
proof fn lemma_sorted_insert_split(s: Seq<Widget>, w: Widget, j: int)
    requires
        0 <= j <= s.len(),
        forall|k: int| 0 <= k < j ==> !key_lt(w.position, (#[trigger] s[k]).position),
        j < s.len() ==> key_lt(w.position, s[j].position),
    ensures
        sorted_insert(s, w) == s.take(j) + seq![w] + s.skip(j),
    decreases j,
{
    if s.len() == 0 {
        assert(sorted_insert(s, w) =~= s.take(j) + seq![w] + s.skip(j));
    } else if j == 0 {
        if key_lt(w.position, s[0].position) {
            assert(sorted_insert(s, w) =~= s.take(0) + seq![w] + s.skip(0));
        }
    } else {
        assert forall|k: int| 0 <= k < j - 1 implies !key_lt(
            w.position,
            (#[trigger] s.drop_first()[k]).position,
        ) by {
            assert(s.drop_first()[k] == s[k + 1]);
        }
        assert(j - 1 < s.drop_first().len() ==> key_lt(
            w.position,
            s.drop_first()[j - 1].position,
        ));
        lemma_sorted_insert_split(s.drop_first(), w, j - 1);
        assert(s.drop_first().take(j - 1) =~= s.take(j).drop_first());
        assert(s.drop_first().skip(j - 1) =~= s.skip(j));
        assert(seq![s[0]] + sorted_insert(s.drop_first(), w) =~= s.take(j) + seq![w] + s.skip(j));
    }
}

/// A copy of a widget, field by field.
pub fn widget_copy(w: &Widget) -> (r: Widget)
    ensures
        r == *w,
{
    Widget {
        id: w.id.clone(),
        position: w.position,
        locked: w.locked,
        is_dragged: w.is_dragged,
        original_position: w.original_position,
    }
}

/// Inserts `w` into `out` in front of the first element strictly after it
/// in `(y, x)` order.
fn insert_widget(out: &mut Vec<Widget>, w: Widget)
    ensures
        final(out)@ == sorted_insert(old(out)@, w),
{
    let n = out.len();
    let mut j: usize = 0;
    while j < n
        invariant
            n == out@.len(),
            0 <= j <= n,
            forall|k: int| 0 <= k < j ==> !key_lt(w.position, (#[trigger] out@[k]).position),
        ensures
            0 <= j <= n,
            forall|k: int| 0 <= k < j ==> !key_lt(w.position, (#[trigger] out@[k]).position),
            j < n ==> key_lt(w.position, out@[j as int].position),
        decreases n - j,
    {
        let e = &out[j];
        if w.position.y < e.position.y || (w.position.y == e.position.y && w.position.x
            < e.position.x) {
            break;
        }
        j += 1;
    }
    proof {
        lemma_sorted_insert_split(out@, w, j as int);
    }
    let ghost prev = out@;
    out.insert(j, w);
    proof {
        assert(prev.take(j as int) + seq![w] + prev.skip(j as int) =~= prev.insert(j as int, w));
    }
}

/// Stable sort of the widget list by `(y, x)` ascending; equal keys keep
/// their relative input order.
pub fn sort_widgets(ws: &Vec<Widget>) -> (r: Vec<Widget>)
    ensures
        r@ == sort_widgets_spec(ws@),
{
    let mut out: Vec<Widget> = Vec::new();
    let n = ws.len();
    let mut i: usize = 0;
    while i < n
        invariant
            n == ws@.len(),
            0 <= i <= n,
            out@ == sort_widgets_spec(ws@.take(i as int)),
        decreases n - i,
    {
        let w = widget_copy(&ws[i]);
        insert_widget(&mut out, w);
        proof {
            assert(ws@.take(i + 1).drop_last() =~= ws@.take(i as int));
            assert(ws@.take(i + 1).last() == ws@[i as int]);
        }
        i += 1;
    }
    proof {
        assert(ws@.take(n as int) =~= ws@);
    }
    out
}

} // verus!
