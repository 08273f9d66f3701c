//! Walks through free cells of a rectangular window of the chunk grid, and the
//! facts about them that the flood fill of the hole check rests on.
use vstd::prelude::*;
use crate::chunks::{StoreChunkCoord, side_adjacent};

verus! {

/// `c` lies in the window `[x0, x1] x [y0, y1]` and is not occupied.
pub open spec fn free_in_window(
    occ: Set<StoreChunkCoord>,
    x0: int,
    x1: int,
    y0: int,
    y1: int,
    c: StoreChunkCoord,
) -> bool {
    x0 <= c.x <= x1 && y0 <= c.y <= y1 && !occ.contains(c)
}

/// `p` is a non-empty walk of side steps through free cells of the window.
pub open spec fn is_free_walk(
    occ: Set<StoreChunkCoord>,
    x0: int,
    x1: int,
    y0: int,
    y1: int,
    p: Seq<StoreChunkCoord>,
) -> bool {
    &&& p.len() > 0
    &&& forall|i: int| 0 <= i < p.len() ==> free_in_window(occ, x0, x1, y0, y1, #[trigger] p[i])
    &&& forall|i: int| 0 <= i < p.len() - 1 ==> side_adjacent(#[trigger] p[i], p[i + 1])
}

/// Some free walk starts at the window's corner `(x0, y0)` and ends at `c`.
pub open spec fn reachable_from_corner(
    occ: Set<StoreChunkCoord>,
    x0: int,
    x1: int,
    y0: int,
    y1: int,
    c: StoreChunkCoord,
) -> bool {
    exists|p: Seq<StoreChunkCoord>|
        #[trigger] is_free_walk(occ, x0, x1, y0, y1, p) && p[0].x == x0 && p[0].y == y0 && p.last()
            == c
}

/// Extending a walk by a free side neighbour of its end keeps it a walk.
pub proof fn lemma_walk_push(
    occ: Set<StoreChunkCoord>,
    x0: int,
    x1: int,
    y0: int,
    y1: int,
    p: Seq<StoreChunkCoord>,
    n: StoreChunkCoord,
)
    requires
        is_free_walk(occ, x0, x1, y0, y1, p),
        side_adjacent(p.last(), n),
        free_in_window(occ, x0, x1, y0, y1, n),
    ensures
        is_free_walk(occ, x0, x1, y0, y1, p.push(n)),
        p.push(n)[0] == p[0],
        p.push(n).last() == n,
{
    let q = p.push(n);
    assert forall|i: int| 0 <= i < q.len() implies free_in_window(occ, x0, x1, y0, y1, #[trigger] q[i]) by {
        if i < p.len() {
            assert(q[i] == p[i]);
        }
    }
    assert forall|i: int| 0 <= i < q.len() - 1 implies side_adjacent(#[trigger] q[i], q[i + 1]) by {
        if i < p.len() - 1 {
            assert(q[i] == p[i]);
            assert(q[i + 1] == p[i + 1]);
        } else {
            assert(q[i] == p.last());
        }
    }
}

/// A walk that starts in a set closed under free side steps stays in that set.
pub proof fn lemma_walk_stays_in_closed_set(
    occ: Set<StoreChunkCoord>,
    x0: int,
    x1: int,
    y0: int,
    y1: int,
    closed: Set<StoreChunkCoord>,
    p: Seq<StoreChunkCoord>,
)
    requires
        is_free_walk(occ, x0, x1, y0, y1, p),
        closed.contains(p[0]),
        forall|c: StoreChunkCoord, n: StoreChunkCoord|
            #![trigger closed.contains(c), closed.contains(n)]
            closed.contains(c) && side_adjacent(c, n) && free_in_window(occ, x0, x1, y0, y1, n)
                ==> closed.contains(n),
    ensures
        closed.contains(p.last()),
    decreases p.len(),
{
    if p.len() > 1 {
        let q = p.drop_last();
        assert forall|i: int| 0 <= i < q.len() implies free_in_window(occ, x0, x1, y0, y1, #[trigger] q[i]) by {
            assert(q[i] == p[i]);
        }
        assert forall|i: int| 0 <= i < q.len() - 1 implies side_adjacent(#[trigger] q[i], q[i + 1]) by {
            assert(q[i] == p[i]);
            assert(q[i + 1] == p[i + 1]);
        }
        lemma_walk_stays_in_closed_set(occ, x0, x1, y0, y1, closed, q);
        let k = p.len() - 2;
        assert(q.last() == p[k]);
        assert(side_adjacent(p[k], p[k + 1]));
        assert(free_in_window(occ, x0, x1, y0, y1, p[k + 1]));
        assert(closed.contains(p[k]));
        assert(closed.contains(p[k + 1]));
    }
}

/// Position of `c` in a row-major numbering of the window's cells.
pub open spec fn window_index(x0: int, y0: int, h: int, c: StoreChunkCoord) -> int {
    (c.x - x0) * h + (c.y - y0)
}

proof fn lemma_window_index_props(a1: int, b1: int, a2: int, b2: int, w: int, h: int)
    requires
        0 <= a1 < w,
        0 <= a2 < w,
        0 <= b1 < h,
        0 <= b2 < h,
    ensures
        0 <= a1 * h + b1 < w * h,
        a1 * h + b1 == a2 * h + b2 ==> a1 == a2 && b1 == b2,
{
    assert(0 <= a1 * h) by (nonlinear_arith)
        requires
            0 <= a1,
            0 <= h,
    ;
    assert(a1 * h + h <= w * h) by (nonlinear_arith)
        requires
            a1 + 1 <= w,
            0 <= h,
    ;
    if a1 < a2 {
        assert(a1 * h + h <= a2 * h) by (nonlinear_arith)
            requires
                a1 + 1 <= a2,
                0 <= h,
        ;
    } else if a2 < a1 {
        assert(a2 * h + h <= a1 * h) by (nonlinear_arith)
            requires
                a2 + 1 <= a1,
                0 <= h,
        ;
    }
}

/// A list of distinct cells of a window is no longer than the window's area.
pub proof fn lemma_distinct_cells_bounded(
    s: Seq<StoreChunkCoord>,
    x0: int,
    x1: int,
    y0: int,
    y1: int,
)
    requires
        s.no_duplicates(),
        x0 <= x1,
        y0 <= y1,
        forall|i: int| 0 <= i < s.len() ==> x0 <= #[trigger] s[i].x <= x1 && y0 <= s[i].y <= y1,
    ensures
        s.len() <= (x1 - x0 + 1) * (y1 - y0 + 1),
{
    let w = x1 - x0 + 1;
    let h = y1 - y0 + 1;
    let t = s.map_values(|c: StoreChunkCoord| window_index(x0, y0, h, c));
    assert forall|i: int| 0 <= i < t.len() implies 0 <= #[trigger] t[i] < w * h by {
        lemma_window_index_props(s[i].x - x0, s[i].y - y0, s[i].x - x0, s[i].y - y0, w, h);
    }
    assert forall|i: int, j: int| 0 <= i < t.len() && 0 <= j < t.len() && i != j implies t[i]
        != t[j] by {
        lemma_window_index_props(s[i].x - x0, s[i].y - y0, s[j].x - x0, s[j].y - y0, w, h);
        assert(s[i] != s[j]);
    }
    assert(t.no_duplicates());
    t.unique_seq_to_set();
    vstd::set_lib::lemma_int_range(0, w * h);
    assert(t.to_set().subset_of(vstd::set_lib::set_int_range(0, w * h)));
    vstd::set_lib::lemma_len_subset(t.to_set(), vstd::set_lib::set_int_range(0, w * h));
}

} // verus!
