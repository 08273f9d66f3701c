//! The chunks offered for purchase while the expansion tool is active.
use vstd::prelude::*;
use crate::area::{StoreArea, WorldBounds};
use crate::chunks::{StoreChunkCoord, StoreChunkKind, coord_within_margin, side_adjacent, side_neighbors};
use crate::expansion::{
    purchase_check_in_range, purchase_verdict, side_adjacent_to_owned_spec, validate_chunk_purchase,
};

verus! {

/// `a` comes before `b` when ordered by row (`y`) and then by column (`x`).
pub open spec fn row_major_lt(a: StoreChunkCoord, b: StoreChunkCoord) -> bool {
    a.y < b.y || (a.y == b.y && a.x < b.x)
}

/// `s` is strictly increasing in row-major order.
pub open spec fn row_major_sorted(s: Seq<StoreChunkCoord>) -> bool {
    forall|i: int, j: int| 0 <= i < j < s.len() ==> row_major_lt(#[trigger] s[i], #[trigger] s[j])
}

/// Inserts `c` into the row-major sorted list `v`, which does not hold it yet.
pub(crate) fn insert_row_major(v: &mut Vec<StoreChunkCoord>, c: StoreChunkCoord)
    requires
        row_major_sorted(old(v)@),
        !old(v)@.contains(c),
    ensures
        row_major_sorted(final(v)@),
        forall|d: StoreChunkCoord| #[trigger] final(v)@.contains(d) <==> (old(v)@.contains(d) || d == c),
{
    let ghost s0 = v@;
    let mut i: usize = 0;
    while i < v.len() && !(c.y < v[i].y || (c.y == v[i].y && c.x < v[i].x))
        invariant
            v@ == s0,
            i <= s0.len(),
            !s0.contains(c),
            forall|j: int| 0 <= j < i ==> row_major_lt(#[trigger] s0[j], c),
        decreases s0.len() - i,
    {
        proof {
            assert(s0[i as int] != c) by {
                assert(s0.contains(s0[i as int]));
            }
        }
        i = i + 1;
    }
    v.insert(i, c);
    proof {
        let s = v@;
        assert forall|a: int| 0 <= a < s.len() implies #[trigger] s[a] == if a < i {
            s0[a]
        } else if a == i {
            c
        } else {
            s0[a - 1]
        } by {}
        assert forall|a: int, b: int| 0 <= a < b < s.len() implies row_major_lt(#[trigger] s[a], #[trigger] s[b]) by {
            if b < i {
            } else if a < i && b == i {
            } else if a < i {
                assert(row_major_lt(s0[a], s0[b - 1]));
            } else if a == i {
                if b - 1 > i {
                    assert(row_major_lt(s0[i as int], s0[b - 1]));
                }
            } else {
                assert(row_major_lt(s0[a - 1], s0[b - 1]));
            }
        }
        assert forall|d: StoreChunkCoord| #[trigger] s.contains(d) <==> (s0.contains(d) || d == c) by {
            if s.contains(d) {
                let a = choose|a: int| 0 <= a < s.len() && s[a] == d;
                if a < i {
                    assert(s0[a] == d);
                } else if a > i {
                    assert(s0[a - 1] == d);
                }
            }
            if s0.contains(d) {
                let a = choose|a: int| 0 <= a < s0.len() && s0[a] == d;
                if a < i {
                    assert(s[a] == d);
                } else {
                    assert(s[a + 1] == d);
                }
            }
            if d == c {
                assert(s[i as int] == c);
            }
        }
    }
}

/// The chunks that can be bought now, each once, ordered by row and then column: exactly
/// the coordinates whose purchase `validate_chunk_purchase` accepts.
pub fn available_expansion_chunks(world: &WorldBounds, store: &StoreArea) -> (r: Vec<StoreChunkCoord>)
    requires
        store.wf(),
        forall|c: StoreChunkCoord| #[trigger] store.owned_chunks@.contains_key(c) ==> coord_within_margin(c, 1),
        forall|c: StoreChunkCoord, n: StoreChunkCoord|
            #![trigger store.owned_chunks@.contains_key(c), purchase_check_in_range(*world, store, n)]
            store.owned_chunks@.contains_key(c) && side_adjacent(c, n) ==> purchase_check_in_range(*world, store, n),
    ensures
        row_major_sorted(r@),
        forall|c: StoreChunkCoord| #[trigger] r@.contains(c) <==> purchase_verdict(*world, store, c) is None,
{
    let keys = store.owned_chunks.keys();
    let mut valid: Vec<StoreChunkCoord> = Vec::new();
    let mut i: usize = 0;
    while i < keys.len()
        invariant
            store.wf(),
            i <= keys@.len(),
            keys@.to_set() == store.owned_chunks@.dom(),
            forall|c: StoreChunkCoord| #[trigger] store.owned_chunks@.contains_key(c) ==> coord_within_margin(c, 1),
            forall|c: StoreChunkCoord, n: StoreChunkCoord|
                #![trigger store.owned_chunks@.contains_key(c), purchase_check_in_range(*world, store, n)]
            store.owned_chunks@.contains_key(c) && side_adjacent(c, n) ==> purchase_check_in_range(*world, store, n),
            row_major_sorted(valid@),
            forall|c: StoreChunkCoord| #[trigger] valid@.contains(c) <==> (purchase_verdict(*world, store, c) is None
                && exists|j: int| 0 <= j < i && side_adjacent(#[trigger] keys@[j], c)),
        decreases keys@.len() - i,
    {
        let owned = keys[i];
        proof {
            assert(keys@.to_set().contains(owned));
        }
        let neighbors = side_neighbors(owned);
        let mut k: usize = 0;
        while k < 4
            invariant
                store.wf(),
                i < keys@.len(),
                owned == keys@[i as int],
                store.owned_chunks@.contains_key(owned),
                0 <= k <= 4,
                neighbors@.len() == 4,
                forall|n: StoreChunkCoord| neighbors@.contains(n) <==> side_adjacent(owned, n),
                forall|c: StoreChunkCoord, n: StoreChunkCoord|
                    #![trigger store.owned_chunks@.contains_key(c), purchase_check_in_range(*world, store, n)]
            store.owned_chunks@.contains_key(c) && side_adjacent(c, n) ==> purchase_check_in_range(*world, store, n),
                row_major_sorted(valid@),
                forall|c: StoreChunkCoord| #[trigger] valid@.contains(c) <==> (purchase_verdict(*world, store, c) is None
                    && ((exists|j: int| 0 <= j < i && side_adjacent(#[trigger] keys@[j], c))
                        || (exists|j: int| 0 <= j < k && #[trigger] neighbors@[j] == c))),
            decreases 4 - k,
        {
            let candidate = neighbors[k];
            proof {
                assert(neighbors@.contains(candidate));
                assert(side_adjacent(owned, candidate));
            }
            let is_valid = validate_chunk_purchase(world, store, candidate, StoreChunkKind::Default).valid;
            let already = crate::chunks::vec_contains(&valid, candidate);
            if is_valid && !already {
                insert_row_major(&mut valid, candidate);
            }
            proof {
                assert forall|c: StoreChunkCoord| #[trigger] valid@.contains(c) <==> (purchase_verdict(*world, store, c) is None
                    && ((exists|j: int| 0 <= j < i && side_adjacent(#[trigger] keys@[j], c))
                        || (exists|j: int| 0 <= j < k + 1 && #[trigger] neighbors@[j] == c))) by {
                    if c == candidate {
                        assert(neighbors@[k as int] == c);
                    }
                }
            }
            k = k + 1;
        }
        proof {
            assert forall|c: StoreChunkCoord| #[trigger] valid@.contains(c) <==> (purchase_verdict(*world, store, c) is None
                && exists|j: int| 0 <= j < i + 1 && side_adjacent(#[trigger] keys@[j], c)) by {
                if exists|j: int| 0 <= j < 4 && #[trigger] neighbors@[j] == c {
                    let j = choose|j: int| 0 <= j < 4 && #[trigger] neighbors@[j] == c;
                    assert(neighbors@.contains(c));
                    assert(side_adjacent(keys@[i as int], c));
                }
                if exists|j: int| 0 <= j < i + 1 && side_adjacent(#[trigger] keys@[j], c) {
                    let j = choose|j: int| 0 <= j < i + 1 && side_adjacent(#[trigger] keys@[j], c);
                    if j == i {
                        assert(neighbors@.contains(c));
                        let jj = choose|jj: int| 0 <= jj < 4 && neighbors@[jj] == c;
                        assert(neighbors@[jj] == c);
                    }
                }
            }
        }
        i = i + 1;
    }
    proof {
        assert forall|c: StoreChunkCoord| #[trigger] valid@.contains(c) <==> purchase_verdict(*world, store, c) is None by {
            if purchase_verdict(*world, store, c) is None {
                assert(side_adjacent_to_owned_spec(store, c));
                let n = choose|n: StoreChunkCoord| #[trigger] store.owned_chunks@.contains_key(n) && side_adjacent(c, n);
                assert(keys@.to_set().contains(n));
                let j = choose|j: int| 0 <= j < keys@.len() && keys@[j] == n;
                assert(side_adjacent(keys@[j], c));
            }
        }
    }
    valid
}

/// How a chunk outline is drawn.
#[derive(Debug, Clone, Copy, PartialEq, Eq, Structural)]
pub enum StoreChunkOverlayKind {
    Owned,
    Available,
    HoveredAvailable,
}

/// The overlay kind of a chunk offered for purchase: highlighted when it is the hovered
/// chunk and the hovered purchase is valid.
pub open spec fn available_overlay_kind(
    c: StoreChunkCoord,
    hovered: Option<StoreChunkCoord>,
    hovered_valid: bool,
) -> StoreChunkOverlayKind {
    if hovered == Some(c) && hovered_valid {
        StoreChunkOverlayKind::HoveredAvailable
    } else {
        StoreChunkOverlayKind::Available
    }
}

/// The chunk outlines to draw: every owned chunk as owned and, while the expansion tool
/// is active, every chunk that can be bought as available (or hovered).
pub fn plan_chunk_overlays(
    world: &WorldBounds,
    store: &StoreArea,
    expansion_active: bool,
    hovered: Option<StoreChunkCoord>,
    hovered_valid: bool,
) -> (r: Vec<(StoreChunkCoord, StoreChunkOverlayKind)>)
    requires
        store.wf(),
        forall|c: StoreChunkCoord| #[trigger] store.owned_chunks@.contains_key(c) ==> coord_within_margin(c, 1),
        forall|c: StoreChunkCoord, n: StoreChunkCoord|
            #![trigger store.owned_chunks@.contains_key(c), purchase_check_in_range(*world, store, n)]
            store.owned_chunks@.contains_key(c) && side_adjacent(c, n) ==> purchase_check_in_range(*world, store, n),
    ensures
        forall|c: StoreChunkCoord, k: StoreChunkOverlayKind|
            #[trigger] r@.contains((c, k)) <==> ((k == StoreChunkOverlayKind::Owned
                && store.owned_chunks@.contains_key(c)) || (expansion_active && purchase_verdict(*world, store, c) is None
                && k == available_overlay_kind(c, hovered, hovered_valid))),
        r@.no_duplicates(),
{
    let keys = store.owned_chunks.keys();
    let mut out: Vec<(StoreChunkCoord, StoreChunkOverlayKind)> = Vec::new();
    let mut i: usize = 0;
    while i < keys.len()
        invariant
            i <= keys@.len(),
            keys@.to_set() == store.owned_chunks@.dom(),
            keys@.no_duplicates(),
            out@.len() == i,
            forall|j: int| 0 <= j < i ==> #[trigger] out@[j] == (keys@[j], StoreChunkOverlayKind::Owned),
        decreases keys@.len() - i,
    {
        out.push((keys[i], StoreChunkOverlayKind::Owned));
        i = i + 1;
    }
    let ghost owned_part = out@;
    proof {
        assert forall|a: int, b: int| 0 <= a < b < owned_part.len() implies owned_part[a] != owned_part[b] by {
            assert(keys@[a] != keys@[b]);
        }
        assert(owned_part.no_duplicates());
        assert forall|c: StoreChunkCoord, k: StoreChunkOverlayKind| #[trigger] owned_part.contains((c, k)) <==> (k
            == StoreChunkOverlayKind::Owned && store.owned_chunks@.contains_key(c)) by {
            if owned_part.contains((c, k)) {
                let j = choose|j: int| 0 <= j < owned_part.len() && owned_part[j] == (c, k);
                assert(keys@[j] == c);
                assert(keys@.contains(c));
                assert(keys@.to_set().contains(c));
            }
            if k == StoreChunkOverlayKind::Owned && store.owned_chunks@.contains_key(c) {
                assert(keys@.to_set().contains(c));
                let j = choose|j: int| 0 <= j < keys@.len() && keys@[j] == c;
                assert(owned_part[j] == (c, k));
            }
        }
    }
    if expansion_active {
        let available = available_expansion_chunks(world, store);
        let mut a: usize = 0;
        while a < available.len()
            invariant
                a <= available@.len(),
                row_major_sorted(available@),
                owned_part.no_duplicates(),
                forall|j: int| 0 <= j < owned_part.len() ==> (#[trigger] owned_part[j]).1 == StoreChunkOverlayKind::Owned,
                out@.len() == owned_part.len() + a,
                forall|j: int| 0 <= j < owned_part.len() ==> #[trigger] out@[j] == owned_part[j],
                forall|j: int|
                    0 <= j < a ==> #[trigger] out@[owned_part.len() + j] == (available@[j], available_overlay_kind(
                        available@[j],
                        hovered,
                        hovered_valid,
                    )),
            decreases available@.len() - a,
        {
            let c = available[a];
            let highlighted = match hovered {
                Some(h) => h == c && hovered_valid,
                None => false,
            };
            let kind = if highlighted {
                StoreChunkOverlayKind::HoveredAvailable
            } else {
                StoreChunkOverlayKind::Available
            };
            out.push((c, kind));
            a = a + 1;
        }
        proof {
            let o = owned_part.len();
            assert forall|p: int, q: int| 0 <= p < q < out@.len() implies out@[p] != out@[q] by {
                if q >= o && p >= o {
                    let mp = p - o;
                    let mq = q - o;
                    assert(out@[o + mp] == (available@[mp], available_overlay_kind(available@[mp], hovered, hovered_valid)));
                    assert(out@[o + mq] == (available@[mq], available_overlay_kind(available@[mq], hovered, hovered_valid)));
                    assert(row_major_lt(available@[mp], available@[mq]));
                } else if q >= o {
                    let mq = q - o;
                    assert(out@[p] == owned_part[p]);
                    assert(out@[o + mq] == (available@[mq], available_overlay_kind(available@[mq], hovered, hovered_valid)));
                } else {
                    assert(out@[p] == owned_part[p]);
                    assert(out@[q] == owned_part[q]);
                }
            }
        }
        proof {
            assert forall|c: StoreChunkCoord, k: StoreChunkOverlayKind| #[trigger] out@.contains((c, k)) <==> ((k
                == StoreChunkOverlayKind::Owned && store.owned_chunks@.contains_key(c)) || (purchase_verdict(*world, store, c) is None
                && k == available_overlay_kind(c, hovered, hovered_valid))) by {
                if out@.contains((c, k)) {
                    let j = choose|j: int| 0 <= j < out@.len() && out@[j] == (c, k);
                    if j < owned_part.len() {
                        assert(owned_part[j] == (c, k));
                        assert(owned_part.contains((c, k)));
                    } else {
                        let m = j - owned_part.len();
                        assert(out@[owned_part.len() + m] == (available@[m], available_overlay_kind(
                            available@[m],
                            hovered,
                            hovered_valid,
                        )));
                        assert(available@[m] == c);
                        assert(available@.contains(c));
                    }
                }
                if k == StoreChunkOverlayKind::Owned && store.owned_chunks@.contains_key(c) {
                    assert(owned_part.contains((c, k)));
                    let j = choose|j: int| 0 <= j < owned_part.len() && owned_part[j] == (c, k);
                    assert(out@[j] == (c, k));
                }
                if purchase_verdict(*world, store, c) is None && k == available_overlay_kind(c, hovered, hovered_valid) {
                    assert(available@.contains(c));
                    let j = choose|j: int| 0 <= j < available@.len() && available@[j] == c;
                    assert(out@[owned_part.len() + j] == (c, k));
                }
            }
        }
    }
    out
}

/// Whether every owned chunk lies at least `margin` steps inside the `i32` range.
pub fn owned_chunks_within_margin(store: &StoreArea, margin: i32) -> (r: bool)
    requires
        0 <= margin,
    ensures
        r == forall|c: StoreChunkCoord| #[trigger] store.owned_chunks@.contains_key(c) ==> coord_within_margin(c, margin as int),
{
    let keys = store.owned_chunks.keys();
    let mut i: usize = 0;
    while i < keys.len()
        invariant
            0 <= margin,
            i <= keys@.len(),
            keys@.to_set() == store.owned_chunks@.dom(),
            forall|j: int| 0 <= j < i ==> coord_within_margin(#[trigger] keys@[j], margin as int),
        decreases keys@.len() - i,
    {
        let c = keys[i];
        if c.x < i32::MIN + margin || c.x > i32::MAX - margin || c.y < i32::MIN + margin || c.y > i32::MAX - margin {
            proof {
                assert(keys@.to_set().contains(c));
            }
            return false;
        }
        i = i + 1;
    }
    proof {
        assert forall|c: StoreChunkCoord| #[trigger] store.owned_chunks@.contains_key(c) implies coord_within_margin(c, margin as int) by {
            assert(keys@.to_set().contains(c));
            let j = choose|j: int| 0 <= j < keys@.len() && keys@[j] == c;
        }
    }
    true
}

/// When every owned chunk lies three steps inside the `i32` range, the chunks around the
/// store can be checked for purchase without overflow.
pub proof fn lemma_margin_three_allows_overlays(world: WorldBounds, store: &StoreArea)
    requires
        forall|c: StoreChunkCoord| #[trigger] store.owned_chunks@.contains_key(c) ==> coord_within_margin(c, 3),
    ensures
        forall|c: StoreChunkCoord| #[trigger] store.owned_chunks@.contains_key(c) ==> coord_within_margin(c, 1),
        forall|c: StoreChunkCoord, n: StoreChunkCoord|
            #![trigger store.owned_chunks@.contains_key(c), purchase_check_in_range(world, store, n)]
            store.owned_chunks@.contains_key(c) && side_adjacent(c, n) ==> purchase_check_in_range(world, store, n),
{
}

/// A purchase of a chunk two steps inside the `i32` range, next to owned chunks that are
/// too, can be checked without overflow.
pub proof fn lemma_margin_two_allows_purchase(world: WorldBounds, store: &StoreArea, coord: StoreChunkCoord)
    requires
        coord_within_margin(coord, 2),
        forall|c: StoreChunkCoord| #[trigger] store.owned_chunks@.contains_key(c) ==> coord_within_margin(c, 2),
    ensures
        purchase_check_in_range(world, store, coord),
{
}

} // verus!
