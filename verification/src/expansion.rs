//! Rules for buying a new chunk of store area.
use vstd::prelude::*;
use crate::area::{StoreArea, WorldBounds, WorldRect, rect_holds};
use crate::chunks::{
    ChunkMap, StoreChunkBounds, StoreChunkCoord, StoreChunkKind, coord_within_margin,
    has_enclosed_hole, is_tight_bounds, lemma_tight_bounds_unique, side_adjacent, side_neighbors,
};

verus! {

/// Why a chunk purchase is refused.
#[derive(Debug, Clone, Copy, PartialEq, Eq, Structural)]
pub enum StoreChunkPurchaseRejectReason {
    AlreadyOwned,
    NotSideAdjacent,
    OutsideWorldBounds,
    WouldCreateHole,
    DirectionNotAllowed,
}

/// Outcome of checking a chunk purchase.
#[derive(Debug, Clone, Copy, PartialEq, Eq, Structural)]
pub struct ChunkPurchaseValidation {
    pub valid: bool,
    pub reason: Option<StoreChunkPurchaseRejectReason>,
}

impl ChunkPurchaseValidation {
    /// An accepted purchase.
    pub fn ok() -> (r: Self)
        ensures
            r.valid,
            r.reason == None::<StoreChunkPurchaseRejectReason>,
    {
        ChunkPurchaseValidation { valid: true, reason: None }
    }

    /// A refused purchase with its reason.
    pub fn reject(reason: StoreChunkPurchaseRejectReason) -> (r: Self)
        ensures
            !r.valid,
            r.reason == Some(reason),
    {
        ChunkPurchaseValidation { valid: false, reason: Some(reason) }
    }
}

/// `inner` lies within `outer`, edges included.
pub open spec fn rect_within(outer: WorldRect, inner: WorldRect) -> bool {
    &&& inner.min.x >= outer.min.x
    &&& inner.max.x <= outer.max.x
    &&& inner.min.y >= outer.min.y
    &&& inner.max.y <= outer.max.y
}

/// Whether `inner` lies within `outer`, edges included.
pub fn rect_contains_rect(outer: WorldRect, inner: WorldRect) -> (r: bool)
    ensures
        r == rect_within(outer, inner),
{
    inner.min.x >= outer.min.x && inner.max.x <= outer.max.x && inner.min.y >= outer.min.y
        && inner.max.y <= outer.max.y
}

/// The tight bounds of the owned chunks (meaningful when some chunk is owned).
pub open spec fn owned_bounds_spec(store: &StoreArea) -> StoreChunkBounds {
    choose|b: StoreChunkBounds| is_tight_bounds(b, store.owned_chunks@.dom())
}

/// The expansion policy lets the store grow towards `coord`: a coordinate beyond the
/// owned bounds on a side needs that side to be allowed.
pub open spec fn direction_allowed(store: &StoreArea, coord: StoreChunkCoord) -> bool {
    store.owned_chunks@.dom() != Set::<StoreChunkCoord>::empty() ==> {
        let b = owned_bounds_spec(store);
        let policy = store.expansion_policy;
        &&& policy.allow_right || coord.x <= b.max.x
        &&& policy.allow_up || coord.y <= b.max.y
        &&& policy.allow_left || coord.x >= b.min.x
        &&& policy.allow_down || coord.y >= b.min.y
    }
}

/// Some owned chunk shares a side with `coord`.
pub open spec fn side_adjacent_to_owned_spec(store: &StoreArea, coord: StoreChunkCoord) -> bool {
    exists|n: StoreChunkCoord| #[trigger] store.owned_chunks@.contains_key(n) && side_adjacent(coord, n)
}

/// The answer to a purchase of `coord`: `None` when it is accepted, else the first rule
/// that refuses it, in this order: already owned, outside the world, direction not
/// allowed, not side-adjacent to the owned area, would enclose a hole.
pub open spec fn purchase_verdict(
    world: WorldBounds,
    store: &StoreArea,
    coord: StoreChunkCoord,
) -> Option<StoreChunkPurchaseRejectReason> {
    if store.owned_chunks@.contains_key(coord) {
        Some(StoreChunkPurchaseRejectReason::AlreadyOwned)
    } else if !rect_within(world.rect, store.chunk_rect_spec(coord)) {
        Some(StoreChunkPurchaseRejectReason::OutsideWorldBounds)
    } else if !direction_allowed(store, coord) {
        Some(StoreChunkPurchaseRejectReason::DirectionNotAllowed)
    } else if !side_adjacent_to_owned_spec(store, coord) {
        Some(StoreChunkPurchaseRejectReason::NotSideAdjacent)
    } else if has_enclosed_hole(store.owned_chunks@.dom().insert(coord)) {
        Some(StoreChunkPurchaseRejectReason::WouldCreateHole)
    } else {
        None
    }
}

/// The inputs on which checking a purchase of `coord` stays within the `i32` range:
/// once the first three rules pass, the side-adjacency check looks one step around
/// `coord`, and once that passes too, the hole check looks two steps around every
/// owned chunk and `coord`.
pub open spec fn purchase_check_in_range(
    world: WorldBounds,
    store: &StoreArea,
    coord: StoreChunkCoord,
) -> bool {
    let reaches_adjacency = !store.owned_chunks@.contains_key(coord) && rect_within(
        world.rect,
        store.chunk_rect_spec(coord),
    ) && direction_allowed(store, coord);
    &&& reaches_adjacency ==> coord_within_margin(coord, 1)
    &&& (reaches_adjacency && side_adjacent_to_owned_spec(store, coord)) ==> {
        &&& coord_within_margin(coord, 2)
        &&& forall|c: StoreChunkCoord|
            #[trigger] store.owned_chunks@.contains_key(c) ==> coord_within_margin(c, 2)
    }
}

/// Whether some owned chunk shares a side with `coord`.
pub fn is_side_adjacent_to_owned(store: &StoreArea, coord: StoreChunkCoord) -> (r: bool)
    requires
        coord_within_margin(coord, 1),
    ensures
        r == side_adjacent_to_owned_spec(store, coord),
{
    let neighbors = side_neighbors(coord);
    let mut k: usize = 0;
    while k < 4
        invariant
            0 <= k <= 4,
            neighbors@.len() == 4,
            forall|n: StoreChunkCoord| neighbors@.contains(n) <==> side_adjacent(coord, n),
            forall|j: int| 0 <= j < k ==> !store.owned_chunks@.contains_key(#[trigger] neighbors@[j]),
        decreases 4 - k,
    {
        let neighbor = neighbors[k];
        proof {
            assert(neighbors@.contains(neighbor));
        }
        if store.owned_chunks.contains_key(&neighbor) {
            return true;
        }
        k = k + 1;
    }
    proof {
        assert forall|n: StoreChunkCoord| #[trigger] store.owned_chunks@.contains_key(n) implies !side_adjacent(coord, n) by {
            if side_adjacent(coord, n) {
                assert(neighbors@.contains(n));
                let j = choose|j: int| 0 <= j < 4 && neighbors@[j] == n;
            }
        }
    }
    false
}

/// Whether owning `new_chunk` in addition to `owned_chunks` would enclose a hole.
pub fn would_create_hole(owned_chunks: &ChunkMap, new_chunk: StoreChunkCoord) -> (r: bool)
    requires
        coord_within_margin(new_chunk, 2),
        forall|c: StoreChunkCoord| #[trigger] owned_chunks@.contains_key(c) ==> coord_within_margin(c, 2),
    ensures
        r == has_enclosed_hole(owned_chunks@.dom().insert(new_chunk)),
{
    crate::chunks::would_create_hole(owned_chunks, new_chunk)
}

/// Checks a purchase of chunk `coord`; the verdict is `purchase_verdict`.
pub fn validate_chunk_purchase(
    world: &WorldBounds,
    store: &StoreArea,
    coord: StoreChunkCoord,
    _kind: StoreChunkKind,
) -> (r: ChunkPurchaseValidation)
    requires
        store.wf(),
        purchase_check_in_range(*world, store, coord),
    ensures
        r.valid == (purchase_verdict(*world, store, coord) is None),
        r.reason == purchase_verdict(*world, store, coord),
{
    if store.owned_chunks.contains_key(&coord) {
        return ChunkPurchaseValidation::reject(StoreChunkPurchaseRejectReason::AlreadyOwned);
    }
    if !rect_contains_rect(world.rect, store.chunk_rect(coord)) {
        return ChunkPurchaseValidation::reject(StoreChunkPurchaseRejectReason::OutsideWorldBounds);
    }
    match store.owned_chunk_bounds() {
        Some(bounds) => {
            proof {
                lemma_tight_bounds_unique(bounds, owned_bounds_spec(store), store.owned_chunks@.dom());
            }
            let policy = store.expansion_policy;
            if !policy.allow_right && coord.x > bounds.max.x {
                return ChunkPurchaseValidation::reject(
                    StoreChunkPurchaseRejectReason::DirectionNotAllowed,
                );
            }
            if !policy.allow_up && coord.y > bounds.max.y {
                return ChunkPurchaseValidation::reject(
                    StoreChunkPurchaseRejectReason::DirectionNotAllowed,
                );
            }
            if !policy.allow_left && coord.x < bounds.min.x {
                return ChunkPurchaseValidation::reject(
                    StoreChunkPurchaseRejectReason::DirectionNotAllowed,
                );
            }
            if !policy.allow_down && coord.y < bounds.min.y {
                return ChunkPurchaseValidation::reject(
                    StoreChunkPurchaseRejectReason::DirectionNotAllowed,
                );
            }
        },
        None => {},
    }
    if !is_side_adjacent_to_owned(store, coord) {
        return ChunkPurchaseValidation::reject(StoreChunkPurchaseRejectReason::NotSideAdjacent);
    }
    if would_create_hole(&store.owned_chunks, coord) {
        return ChunkPurchaseValidation::reject(StoreChunkPurchaseRejectReason::WouldCreateHole);
    }
    ChunkPurchaseValidation::ok()
}

} // verus!
