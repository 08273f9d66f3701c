//! The walls along the locked sides of the store: which chunk edges carry a wall
//! segment, and the segment geometry in world units.
use vstd::prelude::*;
use crate::area::{StoreArea, StoreExpansionPolicy, WorldBounds, WorldVec, rect_holds};
use crate::chunks::{StoreChunkBounds, StoreChunkCoord, is_tight_bounds, lemma_tight_bounds_unique};

verus! {

/// The side of the store that a wall segment runs along.
#[derive(Clone, Copy, Debug, Hash, PartialEq, Eq, Structural)]
pub enum StoreBoundarySide {
    Top,
    Right,
}

/// Identifies a wall segment: the chunk whose edge it runs along, and which edge.
#[derive(Clone, Copy, Debug, Hash, PartialEq, Eq, Structural)]
pub struct WallSegmentKey {
    pub chunk: StoreChunkCoord,
    pub side: StoreBoundarySide,
}

/// A wall segment in world units.
#[derive(Clone, Copy, Debug, PartialEq, Eq, Structural)]
pub struct StoreBoundarySegment {
    pub key: WallSegmentKey,
    pub start: WorldVec,
    pub end: WorldVec,
    /// Outward unit normal of the wall.
    pub normal: WorldVec,
    pub length: i64,
    pub height: i64,
    pub thickness: i64,
}

/// Thickness of every boundary wall, in world units.
pub open spec fn wall_thickness() -> int {
    8
}

/// A side carries walls when the policy forbids growing towards it.
pub open spec fn side_locked(policy: StoreExpansionPolicy, side: StoreBoundarySide) -> bool {
    match side {
        StoreBoundarySide::Top => !policy.allow_up,
        StoreBoundarySide::Right => !policy.allow_right,
    }
}

/// Whether `side` carries walls under `policy`.
pub fn is_locked_boundary_side(policy: StoreExpansionPolicy, side: StoreBoundarySide) -> (r: bool)
    ensures
        r == side_locked(policy, side),
{
    match side {
        StoreBoundarySide::Top => !policy.allow_up,
        StoreBoundarySide::Right => !policy.allow_right,
    }
}

/// Unit direction from a wall into the store.
pub fn boundary_wall_interior_direction(side: StoreBoundarySide) -> (r: WorldVec)
    ensures
        r == match side {
            StoreBoundarySide::Top => WorldVec { x: 0i64, y: -1i64 },
            StoreBoundarySide::Right => WorldVec { x: -1i64, y: 0i64 },
        },
{
    match side {
        StoreBoundarySide::Top => WorldVec { x: 0i64, y: -1i64 },
        StoreBoundarySide::Right => WorldVec { x: -1i64, y: 0i64 },
    }
}

/// Rank of a side in the ordering of segments.
pub open spec fn side_rank(side: StoreBoundarySide) -> int {
    match side {
        StoreBoundarySide::Top => 0,
        StoreBoundarySide::Right => 1,
    }
}

/// Segment keys are ordered by chunk row, then chunk column, then side.
pub open spec fn segment_key_lt(a: WallSegmentKey, b: WallSegmentKey) -> bool {
    ||| a.chunk.y < b.chunk.y
    ||| (a.chunk.y == b.chunk.y && a.chunk.x < b.chunk.x)
    ||| (a.chunk.y == b.chunk.y && a.chunk.x == b.chunk.x && side_rank(a.side) < side_rank(b.side))
}

/// The next segment along the same wall, in the direction of growing coordinates.
pub fn right_neighbor_key(key: WallSegmentKey) -> (r: WallSegmentKey)
    requires
        key.chunk.x < i32::MAX,
        key.chunk.y < i32::MAX,
    ensures
        r.side == key.side,
        r.chunk == match key.side {
            StoreBoundarySide::Top => StoreChunkCoord { x: (key.chunk.x + 1) as i32, y: key.chunk.y },
            StoreBoundarySide::Right => StoreChunkCoord { x: key.chunk.x, y: (key.chunk.y + 1) as i32 },
        },
{
    match key.side {
        StoreBoundarySide::Top => WallSegmentKey {
            chunk: StoreChunkCoord { x: key.chunk.x + 1, y: key.chunk.y },
            side: key.side,
        },
        StoreBoundarySide::Right => WallSegmentKey {
            chunk: StoreChunkCoord { x: key.chunk.x, y: key.chunk.y + 1 },
            side: key.side,
        },
    }
}

/// The previous segment along the same wall.
pub fn left_neighbor_key(key: WallSegmentKey) -> (r: WallSegmentKey)
    requires
        key.chunk.x > i32::MIN,
        key.chunk.y > i32::MIN,
    ensures
        r.side == key.side,
        r.chunk == match key.side {
            StoreBoundarySide::Top => StoreChunkCoord { x: (key.chunk.x - 1) as i32, y: key.chunk.y },
            StoreBoundarySide::Right => StoreChunkCoord { x: key.chunk.x, y: (key.chunk.y - 1) as i32 },
        },
{
    match key.side {
        StoreBoundarySide::Top => WallSegmentKey {
            chunk: StoreChunkCoord { x: key.chunk.x - 1, y: key.chunk.y },
            side: key.side,
        },
        StoreBoundarySide::Right => WallSegmentKey {
            chunk: StoreChunkCoord { x: key.chunk.x, y: key.chunk.y - 1 },
            side: key.side,
        },
    }
}

/// The wall segment along edge `key.side` of chunk `key.chunk`: the top edge runs from
/// the chunk's upper-left to its upper-right corner, the right edge from its lower-right
/// to its upper-right corner; walls are one and a half chunk heights high (rounded down)
/// and `wall_thickness()` thick.
pub open spec fn segment_spec(store: &StoreArea, key: WallSegmentKey) -> StoreBoundarySegment {
    let r = store.chunk_rect_spec(key.chunk);
    let height = (store.chunk_height() * 3 / 2) as i64;
    match key.side {
        StoreBoundarySide::Top => StoreBoundarySegment {
            key,
            start: WorldVec { x: r.min.x, y: r.max.y },
            end: WorldVec { x: r.max.x, y: r.max.y },
            normal: WorldVec { x: 0, y: 1 },
            length: store.chunk_width() as i64,
            height,
            thickness: 8,
        },
        StoreBoundarySide::Right => StoreBoundarySegment {
            key,
            start: WorldVec { x: r.max.x, y: r.min.y },
            end: WorldVec { x: r.max.x, y: r.max.y },
            normal: WorldVec { x: 1, y: 0 },
            length: store.chunk_height() as i64,
            height,
            thickness: 8,
        },
    }
}

/// The `j`-th chunk of a wall run, counted from the corner chunk `b.max`: along the top
/// row leftwards, along the right column downwards.
pub open spec fn run_cell(side: StoreBoundarySide, b: StoreChunkBounds, j: int) -> StoreChunkCoord {
    match side {
        StoreBoundarySide::Top => StoreChunkCoord { x: (b.max.x - j) as i32, y: b.max.y },
        StoreBoundarySide::Right => StoreChunkCoord { x: b.max.x, y: (b.max.y - j) as i32 },
    }
}

/// Number of chunks in the row or column of a wall run.
pub open spec fn run_span(side: StoreBoundarySide, b: StoreChunkBounds) -> int {
    match side {
        StoreBoundarySide::Top => b.max.x - b.min.x + 1,
        StoreBoundarySide::Right => b.max.y - b.min.y + 1,
    }
}

/// Chunk `c` carries a wall on `side`: it is owned and both ends of its wall lie in the
/// world.
pub open spec fn cell_walled(
    store: &StoreArea,
    world: WorldBounds,
    side: StoreBoundarySide,
    c: StoreChunkCoord,
) -> bool {
    let seg = segment_spec(store, WallSegmentKey { chunk: c, side });
    &&& store.owned_chunks@.contains_key(c)
    &&& rect_holds(world.rect, seg.start)
    &&& rect_holds(world.rect, seg.end)
}

/// Length of the unbroken run of walled chunks from position `j` of the run on.
pub open spec fn run_len_from(
    store: &StoreArea,
    world: WorldBounds,
    side: StoreBoundarySide,
    b: StoreChunkBounds,
    j: int,
) -> int
    decreases run_span(side, b) - j,
{
    if j < 0 || j >= run_span(side, b) {
        0
    } else if !cell_walled(store, world, side, run_cell(side, b, j)) {
        0
    } else {
        1 + run_len_from(store, world, side, b, j + 1)
    }
}

/// Length of the wall run on `side`: the walled chunks from the corner chunk of the owned
/// bounds up to the first chunk that is not owned or whose wall leaves the world; zero
/// when the side is not locked or nothing is owned.
pub open spec fn wall_run_len(store: &StoreArea, world: WorldBounds, side: StoreBoundarySide) -> int {
    if !side_locked(store.expansion_policy, side) || store.owned_chunks@.dom() == Set::<
        StoreChunkCoord,
    >::empty() {
        0
    } else {
        run_len_from(store, world, side, crate::expansion::owned_bounds_spec(store), 0)
    }
}

proof fn lemma_run_len_prefix(
    store: &StoreArea,
    world: WorldBounds,
    side: StoreBoundarySide,
    b: StoreChunkBounds,
    j: int,
)
    requires
        0 <= j <= run_span(side, b),
        forall|i: int| 0 <= i < j ==> cell_walled(store, world, side, #[trigger] run_cell(side, b, i)),
    ensures
        run_len_from(store, world, side, b, 0) == j + run_len_from(store, world, side, b, j),
    decreases j,
{
    if j > 0 {
        lemma_run_len_prefix(store, world, side, b, j - 1);
        assert(cell_walled(store, world, side, run_cell(side, b, j - 1)));
    }
}

/// The wall segment of `chunk` on `side`.
fn make_segment(store: &StoreArea, chunk: StoreChunkCoord, side: StoreBoundarySide) -> (r: StoreBoundarySegment)
    requires
        store.wf(),
    ensures
        r == segment_spec(store, WallSegmentKey { chunk, side }),
{
    let rect = store.chunk_rect(chunk);
    let size = store.chunk_world_size();
    let height = size.y * 3 / 2;
    match side {
        StoreBoundarySide::Top => StoreBoundarySegment {
            key: WallSegmentKey { chunk, side },
            start: WorldVec { x: rect.min.x, y: rect.max.y },
            end: WorldVec { x: rect.max.x, y: rect.max.y },
            normal: WorldVec { x: 0, y: 1 },
            length: size.x,
            height,
            thickness: 8,
        },
        StoreBoundarySide::Right => StoreBoundarySegment {
            key: WallSegmentKey { chunk, side },
            start: WorldVec { x: rect.max.x, y: rect.min.y },
            end: WorldVec { x: rect.max.x, y: rect.max.y },
            normal: WorldVec { x: 1, y: 0 },
            length: size.y,
            height,
            thickness: 8,
        },
    }
}

/// The wall run along `side`, starting at the corner chunk of the owned bounds and
/// stopping at the first chunk that is not owned or whose wall leaves the world.
fn boundary_line_segments(
    store: &StoreArea,
    world: &WorldBounds,
    side: StoreBoundarySide,
) -> (r: Vec<StoreBoundarySegment>)
    requires
        store.wf(),
    ensures
        r@.len() == wall_run_len(store, *world, side),
        r@.len() > 0 ==> {
            let b = crate::expansion::owned_bounds_spec(store);
            &&& b.min.x <= b.max.x
            &&& b.min.y <= b.max.y
            &&& r@.len() <= run_span(side, b)
        },
        forall|i: int|
            0 <= i < r@.len() ==> #[trigger] r@[i] == segment_spec(
                store,
                WallSegmentKey {
                    chunk: run_cell(side, crate::expansion::owned_bounds_spec(store), i),
                    side,
                },
            ),
        forall|i: int|
            0 <= i < r@.len() ==> cell_walled(
                store,
                *world,
                side,
                #[trigger] run_cell(side, crate::expansion::owned_bounds_spec(store), i),
            ),
{
    let mut segments: Vec<StoreBoundarySegment> = Vec::new();
    if !is_locked_boundary_side(store.expansion_policy, side) {
        return segments;
    }
    let bounds = match store.owned_chunk_bounds() {
        Some(b) => b,
        None => {
            return segments;
        },
    };
    proof {
        lemma_tight_bounds_unique(bounds, crate::expansion::owned_bounds_spec(store), store.owned_chunks@.dom());
        let c = choose|c: StoreChunkCoord| #[trigger] store.owned_chunks@.dom().contains(c) && c.x == bounds.min.x;
    }
    let ghost b = bounds;
    let mut cur = bounds.max;
    let mut done = false;
    while !done
        invariant
            store.wf(),
            b == bounds,
            b == crate::expansion::owned_bounds_spec(store),
            b.min.x <= b.max.x,
            b.min.y <= b.max.y,
            segments@.len() <= run_span(side, b),
            forall|i: int| 0 <= i < segments@.len() ==> cell_walled(store, *world, side, #[trigger] run_cell(side, b, i)),
            forall|i: int|
                0 <= i < segments@.len() ==> #[trigger] segments@[i] == segment_spec(
                    store,
                    WallSegmentKey { chunk: run_cell(side, b, i), side },
                ),
            done ==> (segments@.len() == run_span(side, b) || !cell_walled(
                store,
                *world,
                side,
                run_cell(side, b, segments@.len() as int),
            )),
            !done ==> segments@.len() < run_span(side, b) && cur == run_cell(side, b, segments@.len() as int),
        decreases run_span(side, b) - segments@.len(), if done { 0int } else { 1int },
    {
        let owned = store.owned_chunks.contains_key(&cur);
        if !owned {
            done = true;
        } else {
            let segment = make_segment(store, cur, side);
            if !world.rect.contains(segment.start) || !world.rect.contains(segment.end) {
                done = true;
            } else {
                segments.push(segment);
                let at_end = match side {
                    StoreBoundarySide::Top => cur.x == bounds.min.x,
                    StoreBoundarySide::Right => cur.y == bounds.min.y,
                };
                if at_end {
                    done = true;
                } else {
                    cur = match side {
                        StoreBoundarySide::Top => StoreChunkCoord { x: cur.x - 1, y: cur.y },
                        StoreBoundarySide::Right => StoreChunkCoord { x: cur.x, y: cur.y - 1 },
                    };
                }
            }
        }
    }
    proof {
        lemma_run_len_prefix(store, *world, side, b, segments@.len() as int);
    }
    segments
}

/// Key of the `i`-th segment of the sorted wall list, given run lengths `k` (top) and
/// `m` (right): the right run below the corner from the bottom up, then the top run from
/// left to right, then the corner's right edge.
pub open spec fn sorted_wall_key(b: StoreChunkBounds, k: int, m: int, i: int) -> WallSegmentKey {
    let below = if m > 0 { m - 1 } else { 0 };
    if i < below {
        WallSegmentKey { chunk: run_cell(StoreBoundarySide::Right, b, m - 1 - i), side: StoreBoundarySide::Right }
    } else if i < below + k {
        WallSegmentKey { chunk: run_cell(StoreBoundarySide::Top, b, k - 1 - (i - below)), side: StoreBoundarySide::Top }
    } else {
        WallSegmentKey { chunk: run_cell(StoreBoundarySide::Right, b, 0), side: StoreBoundarySide::Right }
    }
}

/// `key` is the key of a wall segment of the store: it lies on a run counted by
/// `wall_run_len`.
pub open spec fn is_wall_key(store: &StoreArea, world: WorldBounds, key: WallSegmentKey) -> bool {
    exists|j: int|
        0 <= j < wall_run_len(store, world, key.side) && key.chunk == #[trigger] run_cell(
            key.side,
            crate::expansion::owned_bounds_spec(store),
            j,
        )
}

#[verifier::rlimit(60)]
proof fn lemma_sorted_wall_keys(b: StoreChunkBounds, k: int, m: int)
    requires
        0 <= k,
        0 <= m,
        k > 0 ==> k <= run_span(StoreBoundarySide::Top, b),
        m > 0 ==> m <= run_span(StoreBoundarySide::Right, b),
        k > 0 || m > 0 ==> b.min.x <= b.max.x && b.min.y <= b.max.y,
    ensures
        forall|i: int, j: int| 0 <= i < j < k + m ==> segment_key_lt(
            #[trigger] sorted_wall_key(b, k, m, i),
            #[trigger] sorted_wall_key(b, k, m, j),
        ),
{
    let below = if m > 0 { m - 1 } else { 0 };
    assert forall|i: int, j: int| 0 <= i < j < k + m implies segment_key_lt(
        #[trigger] sorted_wall_key(b, k, m, i),
        #[trigger] sorted_wall_key(b, k, m, j),
    ) by {
        let ki = sorted_wall_key(b, k, m, i);
        let kj = sorted_wall_key(b, k, m, j);
        if i < below {
            assert(ki.chunk.y == b.max.y - (m - 1 - i));
            assert(ki.chunk.x == b.max.x);
            if j < below {
                assert(kj.chunk.y == b.max.y - (m - 1 - j));
            } else if j < below + k {
                assert(kj.chunk.y == b.max.y);
            } else {
                assert(kj.chunk.y == b.max.y);
            }
        } else if i < below + k {
            assert(ki.chunk.y == b.max.y);
            assert(ki.chunk.x == b.max.x - (k - 1 - (i - below)));
            assert(ki.side == StoreBoundarySide::Top);
            if j < below + k {
                assert(kj.chunk.y == b.max.y);
                assert(kj.chunk.x == b.max.x - (k - 1 - (j - below)));
            } else {
                assert(kj.chunk.y == b.max.y);
                assert(kj.chunk.x == b.max.x);
                assert(kj.side == StoreBoundarySide::Right);
            }
        }
    }
}

proof fn lemma_wall_key_membership(
    store: &StoreArea,
    world: WorldBounds,
    out: Seq<StoreBoundarySegment>,
    b: StoreChunkBounds,
    k: int,
    m: int,
)
    requires
        b == crate::expansion::owned_bounds_spec(store),
        k == wall_run_len(store, world, StoreBoundarySide::Top),
        m == wall_run_len(store, world, StoreBoundarySide::Right),
        0 <= k,
        0 <= m,
        out.len() == k + m,
        forall|i: int| 0 <= i < out.len() ==> (#[trigger] out[i]).key == sorted_wall_key(b, k, m, i),
    ensures
        forall|key: WallSegmentKey| (exists|i: int| 0 <= i < out.len() && #[trigger] out[i].key == key) <==> is_wall_key(store, world, key),
{
    let below = if m > 0 { m - 1 } else { 0 };
    assert forall|key: WallSegmentKey| (exists|i: int| 0 <= i < out.len() && #[trigger] out[i].key == key) <==> is_wall_key(store, world, key) by {
        if exists|i: int| 0 <= i < out.len() && #[trigger] out[i].key == key {
            let i = choose|i: int| 0 <= i < out.len() && #[trigger] out[i].key == key;
            assert(out[i].key == sorted_wall_key(b, k, m, i));
            if i < below {
                let jj = m - 1 - i;
                assert(key.chunk == run_cell(key.side, b, jj));
            } else if i < below + k {
                let jj = k - 1 - (i - below);
                assert(key.chunk == run_cell(key.side, b, jj));
            } else {
                assert(key.chunk == run_cell(key.side, b, 0));
            }
        }
        if is_wall_key(store, world, key) {
            let jj = choose|jj: int| 0 <= jj < wall_run_len(store, world, key.side) && key.chunk == #[trigger] run_cell(key.side, b, jj);
            let i = if key.side == StoreBoundarySide::Top {
                below + k - 1 - jj
            } else if jj >= 1 {
                m - 1 - jj
            } else {
                below + k
            };
            assert(out[i].key == sorted_wall_key(b, k, m, i));
            assert(out[i].key == key);
        }
    }
}

/// All wall segments of the store, each once, ordered by chunk row, chunk column and
/// side: the top run and the right run of `wall_run_len`, with the geometry of
/// `segment_spec`.
pub fn collect_boundary_segments(store: &StoreArea, world: &WorldBounds) -> (r: Vec<StoreBoundarySegment>)
    requires
        store.wf(),
    ensures
        r@.len() == wall_run_len(store, *world, StoreBoundarySide::Top) + wall_run_len(
            store,
            *world,
            StoreBoundarySide::Right,
        ),
        forall|i: int| 0 <= i < r@.len() ==> #[trigger] r@[i] == segment_spec(store, r@[i].key),
        forall|i: int, j: int| 0 <= i < j < r@.len() ==> segment_key_lt(#[trigger] r@[i].key, #[trigger] r@[j].key),
        forall|key: WallSegmentKey| (exists|i: int| 0 <= i < r@.len() && #[trigger] r@[i].key == key) <==> is_wall_key(store, *world, key),
        forall|i: int|
            0 <= i < r@.len() ==> store.owned_chunks@.contains_key((#[trigger] r@[i]).key.chunk) && rect_holds(
                world.rect,
                r@[i].start,
            ) && rect_holds(world.rect, r@[i].end),
{
    let tops = boundary_line_segments(store, world, StoreBoundarySide::Top);
    let rights = boundary_line_segments(store, world, StoreBoundarySide::Right);
    let ghost b = crate::expansion::owned_bounds_spec(store);
    let ghost k = tops@.len() as int;
    let ghost m = rights@.len() as int;
    let ghost below = if m > 0 { m - 1 } else { 0 };
    let mut out: Vec<StoreBoundarySegment> = Vec::new();
    let mut j = rights.len();
    while j > 1
        invariant
            1 <= j <= rights@.len() || (j == 0 && rights@.len() == 0),
            m == rights@.len(),
            below == if m > 0 { m - 1 } else { 0 },
            out@.len() == rights@.len() - j,
            forall|i: int| 0 <= i < out@.len() ==> #[trigger] out@[i] == rights@[m - 1 - i],
        decreases j,
    {
        j = j - 1;
        out.push(rights[j]);
    }
    let mut t = tops.len();
    while t > 0
        invariant
            t <= tops@.len(),
            k == tops@.len(),
            m == rights@.len(),
            below == if m > 0 { m - 1 } else { 0 },
            out@.len() == below + (k - t),
            forall|i: int| 0 <= i < below ==> #[trigger] out@[i] == rights@[m - 1 - i],
            forall|i: int| below <= i < out@.len() ==> #[trigger] out@[i] == tops@[k - 1 - (i - below)],
        decreases t,
    {
        t = t - 1;
        out.push(tops[t]);
    }
    if rights.len() > 0 {
        out.push(rights[0]);
    }
    proof {
        assert forall|i: int| 0 <= i < out@.len() implies (#[trigger] out@[i]).key == sorted_wall_key(b, k, m, i)
            && out@[i] == segment_spec(store, out@[i].key) && cell_walled(store, *world, out@[i].key.side, out@[i].key.chunk) by {
            if i < below {
                assert(out@[i] == rights@[m - 1 - i]);
                assert(cell_walled(store, *world, StoreBoundarySide::Right, run_cell(StoreBoundarySide::Right, b, m - 1 - i)));
            } else if i < below + k {
                assert(out@[i] == tops@[k - 1 - (i - below)]);
                assert(cell_walled(store, *world, StoreBoundarySide::Top, run_cell(StoreBoundarySide::Top, b, k - 1 - (i - below))));
            } else {
                assert(out@[i] == rights@[0]);
                assert(cell_walled(store, *world, StoreBoundarySide::Right, run_cell(StoreBoundarySide::Right, b, 0)));
            }
        }
        lemma_sorted_wall_keys(b, k, m);
        assert forall|i: int, j: int| 0 <= i < j < out@.len() implies segment_key_lt(#[trigger] out@[i].key, #[trigger] out@[j].key) by {
            assert(out@[i].key == sorted_wall_key(b, k, m, i));
            assert(out@[j].key == sorted_wall_key(b, k, m, j));
        }
        lemma_wall_key_membership(store, *world, out@, b, k, m);
    }
    out
}

/// The next key along the same wall, towards growing coordinates.
pub open spec fn right_neighbor_spec(key: WallSegmentKey) -> WallSegmentKey {
    match key.side {
        StoreBoundarySide::Top => WallSegmentKey {
            chunk: StoreChunkCoord { x: (key.chunk.x + 1) as i32, y: key.chunk.y },
            side: key.side,
        },
        StoreBoundarySide::Right => WallSegmentKey {
            chunk: StoreChunkCoord { x: key.chunk.x, y: (key.chunk.y + 1) as i32 },
            side: key.side,
        },
    }
}

/// The previous key along the same wall.
pub open spec fn left_neighbor_spec(key: WallSegmentKey) -> WallSegmentKey {
    match key.side {
        StoreBoundarySide::Top => WallSegmentKey {
            chunk: StoreChunkCoord { x: (key.chunk.x - 1) as i32, y: key.chunk.y },
            side: key.side,
        },
        StoreBoundarySide::Right => WallSegmentKey {
            chunk: StoreChunkCoord { x: key.chunk.x, y: (key.chunk.y - 1) as i32 },
            side: key.side,
        },
    }
}

/// Some segment of `segments` has key `key`.
pub open spec fn has_segment(segments: Seq<StoreBoundarySegment>, key: WallSegmentKey) -> bool {
    exists|i: int| 0 <= i < segments.len() && (#[trigger] segments[i]).key == key
}

/// Whether some segment of `segments` has key `key`.
fn find_segment(segments: &Vec<StoreBoundarySegment>, key: WallSegmentKey) -> (r: bool)
    ensures
        r == has_segment(segments@, key),
{
    let mut i: usize = 0;
    while i < segments.len()
        invariant
            i <= segments@.len(),
            forall|j: int| 0 <= j < i ==> (#[trigger] segments@[j]).key != key,
        decreases segments@.len() - i,
    {
        if segments[i].key == key {
            return true;
        }
        i = i + 1;
    }
    false
}

/// Whether `keys` holds `key`.
fn key_listed(keys: &Vec<WallSegmentKey>, key: WallSegmentKey) -> (r: bool)
    ensures
        r == keys@.contains(key),
{
    let mut i: usize = 0;
    while i < keys.len()
        invariant
            i <= keys@.len(),
            forall|j: int| 0 <= j < i ==> keys@[j] != key,
        decreases keys@.len() - i,
    {
        if keys[i] == key {
            proof {
                assert(keys@[i as int] == key);
            }
            return true;
        }
        i = i + 1;
    }
    false
}

/// Appends `key` to `out` unless `out` holds it already.
fn push_key_once(out: &mut Vec<WallSegmentKey>, key: WallSegmentKey)
    requires
        old(out)@.no_duplicates(),
    ensures
        final(out)@.no_duplicates(),
        forall|k: WallSegmentKey| #[trigger] final(out)@.contains(k) <==> (old(out)@.contains(k) || k == key),
{
    if !key_listed(out, key) {
        let ghost before = out@;
        out.push(key);
        proof {
            assert forall|k: WallSegmentKey| #[trigger] out@.contains(k) <==> (before.contains(k) || k == key) by {
                if out@.contains(k) {
                    let m = choose|m: int| 0 <= m < out@.len() && out@[m] == k;
                    if m < before.len() {
                        assert(before[m] == k);
                    }
                }
                if before.contains(k) {
                    let m = choose|m: int| 0 <= m < before.len() && before[m] == k;
                    assert(out@[m] == k);
                }
                if k == key {
                    assert(out@[before.len() as int] == k);
                }
            }
            assert forall|a: int, b: int| 0 <= a < b < out@.len() implies out@[a] != out@[b] by {
                if b == before.len() {
                    assert(before.contains(before[a]));
                }
            }
        }
    }
}

/// The wall segments whose visuals are rebuilt: the dirty ones and, of each, the
/// neighbours along the same wall that still carry a segment, so that openings reaching
/// across a segment end are cut again on both sides.
pub fn expand_dirty_wall_keys(
    dirty: &Vec<WallSegmentKey>,
    segments: &Vec<StoreBoundarySegment>,
) -> (r: Vec<WallSegmentKey>)
    requires
        forall|i: int|
            0 <= i < dirty@.len() ==> i32::MIN < (#[trigger] dirty@[i]).chunk.x < i32::MAX && i32::MIN
                < dirty@[i].chunk.y < i32::MAX,
    ensures
        r@.no_duplicates(),
        forall|k: WallSegmentKey|
            #[trigger] r@.contains(k) <==> (dirty@.contains(k) || (has_segment(segments@, k) && exists|i: int|
                0 <= i < dirty@.len() && (k == left_neighbor_spec(#[trigger] dirty@[i]) || k
                    == right_neighbor_spec(dirty@[i])))),
{
    let mut out: Vec<WallSegmentKey> = Vec::new();
    let mut i: usize = 0;
    while i < dirty.len()
        invariant
            i <= dirty@.len(),
            out@.no_duplicates(),
            forall|k: WallSegmentKey| #[trigger] out@.contains(k) <==> exists|j: int| 0 <= j < i && dirty@[j] == k,
        decreases dirty@.len() - i,
    {
        let ghost before = out@;
        push_key_once(&mut out, dirty[i]);
        proof {
            assert forall|k: WallSegmentKey| #[trigger] out@.contains(k) <==> exists|j: int| 0 <= j < i + 1 && dirty@[j] == k by {
                if exists|j: int| 0 <= j < i + 1 && dirty@[j] == k {
                    let j = choose|j: int| 0 <= j < i + 1 && dirty@[j] == k;
                    if j < i {
                        assert(before.contains(k));
                    }
                }
            }
        }
        i = i + 1;
    }
    let ghost base = out@;
    proof {
        assert forall|k: WallSegmentKey| #[trigger] base.contains(k) <==> dirty@.contains(k) by {
            if dirty@.contains(k) {
                let j = choose|j: int| 0 <= j < dirty@.len() && dirty@[j] == k;
            }
        }
    }
    let mut n: usize = 0;
    while n < dirty.len()
        invariant
            n <= dirty@.len(),
            forall|i: int|
                0 <= i < dirty@.len() ==> i32::MIN < (#[trigger] dirty@[i]).chunk.x < i32::MAX && i32::MIN
                    < dirty@[i].chunk.y < i32::MAX,
            out@.no_duplicates(),
            forall|k: WallSegmentKey| #[trigger] base.contains(k) <==> dirty@.contains(k),
            forall|k: WallSegmentKey|
                #[trigger] out@.contains(k) <==> (base.contains(k) || (has_segment(segments@, k) && exists|j: int|
                    0 <= j < n && (k == left_neighbor_spec(#[trigger] dirty@[j]) || k == right_neighbor_spec(dirty@[j])))),
        decreases dirty@.len() - n,
    {
        let key = dirty[n];
        let left = left_neighbor_key(key);
        let right = right_neighbor_key(key);
        let ghost before = out@;
        if find_segment(segments, left) {
            push_key_once(&mut out, left);
        }
        let ghost mid = out@;
        if find_segment(segments, right) {
            push_key_once(&mut out, right);
        }
        proof {
            assert(left == left_neighbor_spec(dirty@[n as int]));
            assert(right == right_neighbor_spec(dirty@[n as int]));
            assert forall|k: WallSegmentKey| #[trigger] out@.contains(k) <==> (base.contains(k) || (has_segment(segments@, k) && exists|j: int|
                0 <= j < n + 1 && (k == left_neighbor_spec(#[trigger] dirty@[j]) || k == right_neighbor_spec(dirty@[j])))) by {
                if has_segment(segments@, k) && exists|j: int|
                    0 <= j < n + 1 && (k == left_neighbor_spec(#[trigger] dirty@[j]) || k == right_neighbor_spec(dirty@[j])) {
                    let j = choose|j: int|
                        0 <= j < n + 1 && (k == left_neighbor_spec(#[trigger] dirty@[j]) || k == right_neighbor_spec(dirty@[j]));
                    if j < n {
                        assert(before.contains(k));
                    }
                }
                if out@.contains(k) && !before.contains(k) {
                    assert(k == left || k == right);
                }
            }
        }
        n = n + 1;
    }
    out
}

/// What a cache of wall surfaces keyed by segment must change: the cached keys that no
/// longer carry a segment, in cache order, and the segments not cached yet, in order.
pub fn wall_cache_changes(
    cached: &Vec<WallSegmentKey>,
    expected: &Vec<StoreBoundarySegment>,
) -> (r: (Vec<WallSegmentKey>, Vec<StoreBoundarySegment>))
    ensures
        r.0@ == cached@.filter(|k: WallSegmentKey| !has_segment(expected@, k)),
        r.1@ == expected@.filter(|s: StoreBoundarySegment| !cached@.contains(s.key)),
{
    let mut stale: Vec<WallSegmentKey> = Vec::new();
    let mut i: usize = 0;
    while i < cached.len()
        invariant
            i <= cached@.len(),
            stale@ == cached@.take(i as int).filter(|k: WallSegmentKey| !has_segment(expected@, k)),
        decreases cached@.len() - i,
    {
        let key = cached[i];
        proof {
            assert(cached@.take(i as int + 1).drop_last() =~= cached@.take(i as int));
            reveal(Seq::filter);
        }
        if !find_segment(expected, key) {
            stale.push(key);
        }
        i = i + 1;
    }
    let mut added: Vec<StoreBoundarySegment> = Vec::new();
    let mut j: usize = 0;
    while j < expected.len()
        invariant
            j <= expected@.len(),
            added@ == expected@.take(j as int).filter(|s: StoreBoundarySegment| !cached@.contains(s.key)),
        decreases expected@.len() - j,
    {
        let segment = expected[j];
        proof {
            assert(expected@.take(j as int + 1).drop_last() =~= expected@.take(j as int));
            reveal(Seq::filter);
        }
        if !key_listed(cached, segment.key) {
            added.push(segment);
        }
        j = j + 1;
    }
    proof {
        assert(cached@.take(cached@.len() as int) =~= cached@);
        assert(expected@.take(expected@.len() as int) =~= expected@);
    }
    (stale, added)
}

/// Why an opening cannot be derived from a prototype's opening shape.
#[derive(Debug, Clone, Copy, PartialEq, Eq, Structural)]
pub enum WallOpeningDeriveError {
    /// Only rectangular openings are supported.
    UnsupportedShape,
}

/// Why an opening does not fit its wall surface.
#[derive(Debug, Clone, Copy, PartialEq, Eq, Structural)]
pub enum WallOpeningValidationError {
    ZeroOrNegativeDimension,
    ExceedsSurfaceLength,
    ExceedsSurfaceHeight,
}

} // verus!
