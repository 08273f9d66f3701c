//! Side-connectedness of a set of chunks: every chunk can be reached from every other one
//! by side steps through the set.
use vstd::prelude::*;
use crate::chunks::{StoreChunkCoord, side_adjacent};

verus! {

/// `p` is a non-empty walk of side steps through chunks of `s`.
pub open spec fn is_owned_walk(s: Set<StoreChunkCoord>, p: Seq<StoreChunkCoord>) -> bool {
    &&& p.len() > 0
    &&& forall|i: int| 0 <= i < p.len() ==> s.contains(#[trigger] p[i])
    &&& forall|i: int| 0 <= i < p.len() - 1 ==> side_adjacent(#[trigger] p[i], p[i + 1])
}

/// Some walk through `s` leads from `a` to `b`.
pub open spec fn linked(s: Set<StoreChunkCoord>, a: StoreChunkCoord, b: StoreChunkCoord) -> bool {
    exists|p: Seq<StoreChunkCoord>| #[trigger] is_owned_walk(s, p) && p[0] == a && p.last() == b
}

/// Every two chunks of `s` are linked through `s`.
pub open spec fn side_connected(s: Set<StoreChunkCoord>) -> bool {
    forall|a: StoreChunkCoord, b: StoreChunkCoord|
        s.contains(a) && s.contains(b) ==> #[trigger] linked(s, a, b)
}

proof fn lemma_walk_widen(s: Set<StoreChunkCoord>, t: Set<StoreChunkCoord>, p: Seq<StoreChunkCoord>)
    requires
        is_owned_walk(s, p),
        s.subset_of(t),
    ensures
        is_owned_walk(t, p),
{
    assert forall|i: int| 0 <= i < p.len() implies t.contains(#[trigger] p[i]) by {
        assert(s.contains(p[i]));
    }
}

proof fn lemma_walk_append(s: Set<StoreChunkCoord>, p: Seq<StoreChunkCoord>, c: StoreChunkCoord)
    requires
        is_owned_walk(s, p),
        s.contains(c),
        side_adjacent(p.last(), c),
    ensures
        is_owned_walk(s, p.push(c)),
        p.push(c)[0] == p[0],
        p.push(c).last() == c,
{
    let q = p.push(c);
    assert forall|i: int| 0 <= i < q.len() implies s.contains(#[trigger] q[i]) by {
        if i < p.len() {
            assert(q[i] == p[i]);
        }
    }
    assert forall|i: int| 0 <= i < q.len() - 1 implies side_adjacent(#[trigger] q[i], q[i + 1]) by {
        if i < p.len() - 1 {
            assert(q[i] == p[i]);
            assert(q[i + 1] == p[i + 1]);
        } else {
            assert(q[i] == p.last());
        }
    }
}

proof fn lemma_walk_prepend(s: Set<StoreChunkCoord>, c: StoreChunkCoord, p: Seq<StoreChunkCoord>)
    requires
        is_owned_walk(s, p),
        s.contains(c),
        side_adjacent(c, p[0]),
    ensures
        is_owned_walk(s, seq![c] + p),
        (seq![c] + p)[0] == c,
        (seq![c] + p).last() == p.last(),
{
    let q = seq![c] + p;
    assert forall|i: int| 0 <= i < q.len() implies s.contains(#[trigger] q[i]) by {
        if i > 0 {
            assert(q[i] == p[i - 1]);
        }
    }
    assert forall|i: int| 0 <= i < q.len() - 1 implies side_adjacent(#[trigger] q[i], q[i + 1]) by {
        if i > 0 {
            assert(q[i] == p[i - 1]);
            assert(q[i + 1] == p[i]);
        } else {
            assert(q[1] == p[0]);
        }
    }
}

/// Adding a chunk that shares a side with a chunk of a side-connected set keeps the set
/// side-connected.
pub proof fn lemma_connected_insert(s: Set<StoreChunkCoord>, n: StoreChunkCoord, c: StoreChunkCoord)
    requires
        side_connected(s),
        s.contains(n),
        side_adjacent(c, n),
    ensures
        side_connected(s.insert(c)),
{
    let t = s.insert(c);
    assert forall|a: StoreChunkCoord, b: StoreChunkCoord| t.contains(a) && t.contains(b) implies #[trigger] linked(t, a, b) by {
        if a == c && b == c {
            let p = seq![c];
            assert(is_owned_walk(t, p));
            assert(p.last() == c);
        } else if a == c {
            assert(linked(s, n, b));
            let p = choose|p: Seq<StoreChunkCoord>| #[trigger] is_owned_walk(s, p) && p[0] == n && p.last() == b;
            lemma_walk_widen(s, t, p);
            lemma_walk_prepend(t, c, p);
            assert(is_owned_walk(t, seq![c] + p));
        } else if b == c {
            assert(linked(s, a, n));
            let p = choose|p: Seq<StoreChunkCoord>| #[trigger] is_owned_walk(s, p) && p[0] == a && p.last() == n;
            lemma_walk_widen(s, t, p);
            lemma_walk_append(t, p, c);
            assert(is_owned_walk(t, p.push(c)));
        } else {
            assert(linked(s, a, b));
            let p = choose|p: Seq<StoreChunkCoord>| #[trigger] is_owned_walk(s, p) && p[0] == a && p.last() == b;
            lemma_walk_widen(s, t, p);
        }
    }
}

/// The chunks of the rectangle `[x0, x1] x [y0, y1]`.
pub open spec fn in_rect(c: StoreChunkCoord, x0: int, x1: int, y0: int, y1: int) -> bool {
    x0 <= c.x <= x1 && y0 <= c.y <= y1
}

/// Within a rectangle, `a` is linked to `b`: step along `a`'s row to `b`'s column, then
/// along that column to `b`.
proof fn lemma_rect_linked(
    s: Set<StoreChunkCoord>,
    x0: int,
    x1: int,
    y0: int,
    y1: int,
    a: StoreChunkCoord,
    b: StoreChunkCoord,
)
    requires
        forall|c: StoreChunkCoord| #[trigger] s.contains(c) <==> in_rect(c, x0, x1, y0, y1),
        s.contains(a),
        s.contains(b),
    ensures
        linked(s, a, b),
    decreases (if a.x <= b.x { b.x - a.x } else { a.x - b.x }) + (if a.y <= b.y { b.y - a.y } else { a.y - b.y }),
{
    if a == b {
        let p = seq![a];
        assert(is_owned_walk(s, p));
        assert(p.last() == b);
    } else {
        let next = if a.x < b.x {
            StoreChunkCoord { x: (a.x + 1) as i32, y: a.y }
        } else if a.x > b.x {
            StoreChunkCoord { x: (a.x - 1) as i32, y: a.y }
        } else if a.y < b.y {
            StoreChunkCoord { x: a.x, y: (a.y + 1) as i32 }
        } else {
            StoreChunkCoord { x: a.x, y: (a.y - 1) as i32 }
        };
        assert(in_rect(next, x0, x1, y0, y1));
        assert(s.contains(next));
        lemma_rect_linked(s, x0, x1, y0, y1, next, b);
        let p = choose|p: Seq<StoreChunkCoord>| #[trigger] is_owned_walk(s, p) && p[0] == next && p.last() == b;
        lemma_walk_prepend(s, a, p);
        assert(is_owned_walk(s, seq![a] + p));
    }
}

/// Every rectangle of chunks is side-connected.
pub proof fn lemma_rect_connected(s: Set<StoreChunkCoord>, x0: int, x1: int, y0: int, y1: int)
    requires
        forall|c: StoreChunkCoord| #[trigger] s.contains(c) <==> in_rect(c, x0, x1, y0, y1),
    ensures
        side_connected(s),
{
    assert forall|a: StoreChunkCoord, b: StoreChunkCoord| s.contains(a) && s.contains(b) implies #[trigger] linked(s, a, b) by {
        lemma_rect_linked(s, x0, x1, y0, y1, a, b);
    }
}

} // verus!
