//! Domain commands that change the store, and the events and refusals they produce.
use vstd::prelude::*;
use crate::area::{StoreArea, WorldBounds};
use crate::chunks::{StoreChunkCoord, StoreChunkData, StoreChunkKind, has_enclosed_hole};
use crate::expansion::{
    purchase_check_in_range, purchase_verdict, validate_chunk_purchase, StoreChunkPurchaseRejectReason,
};
use crate::boundary::StoreBoundarySide;
use crate::objects::{BuildObjectId, PlacementKind, StableObjectId};

verus! {

/// What happened in the store, as reported to the rest of the game.
#[derive(Debug, Clone, PartialEq)]
pub enum DomainEvent {
    ObjectBuilt { id: StableObjectId },
    ObjectMoved { id: StableObjectId },
    ObjectRotated { id: StableObjectId, from: usize, to: usize },
    ObjectDeleted { id: StableObjectId },
    ChunkPurchased { coord: StoreChunkCoord },
    StoreAreaChanged { added_chunks: Vec<StoreChunkCoord>, removed_chunks: Vec<StoreChunkCoord> },
}

/// Why a domain command was refused.
#[derive(Debug, Clone, PartialEq, Eq)]
pub enum DomainCommandRejectReason {
    ObjectMissing { id: StableObjectId },
    ObjectAlreadyExists { id: StableObjectId },
    PrototypeMissing { id: BuildObjectId },
    PlacementInvalid,
    PrototypeNotWallMounted,
    WallSegmentMissing,
    WallSideNotAllowed,
    WallOffsetOutOfBounds,
    WallHeightOutOfBounds,
    WallMountedOverlap,
    RotationInvalid,
    ChunkInvalid,
    DirectionNotAllowed,
    WouldCreateHole,
    NotSideAdjacent,
    OutsideWorldBounds,
    AlreadyOwned,
}

/// The outcome of a domain command: the events it produced, or why it was refused.
#[derive(Debug, Clone)]
pub enum DomainCommandResult {
    Applied { events: Vec<DomainEvent> },
    Rejected { reason: DomainCommandRejectReason },
}

/// Buy the chunk at `coord`, of kind `kind`.
#[derive(Debug, Clone, Copy, PartialEq, Eq, Structural)]
pub struct PurchaseChunkCommand {
    pub coord: StoreChunkCoord,
    pub kind: StoreChunkKind,
}

/// Remove the object with id `object_id`.
#[derive(Debug, Clone, Copy, PartialEq, Eq, Structural)]
pub struct DeleteObjectCommand {
    pub object_id: StableObjectId,
}

/// Turn the object with id `object_id` from one rotation variant to another.
#[derive(Debug, Clone, Copy, PartialEq, Eq, Structural)]
pub struct RotateObjectCommand {
    pub object_id: StableObjectId,
    pub from_rotation: usize,
    pub to_rotation: usize,
}

/// `r` reports an applied purchase of `coord`: the purchase, then the growth of the store
/// area by exactly that chunk.
pub open spec fn is_purchase_report(r: DomainCommandResult, coord: StoreChunkCoord) -> bool {
    &&& r matches DomainCommandResult::Applied { events }
    &&& events@.len() == 2
    &&& events@[0] == DomainEvent::ChunkPurchased { coord }
    &&& events@[1] matches DomainEvent::StoreAreaChanged { added_chunks, removed_chunks }
    &&& added_chunks@ == seq![coord]
    &&& removed_chunks@.len() == 0
}

/// Everything of the store but its owned chunks is the same in `a` and `b`.
pub open spec fn same_layout(a: &StoreArea, b: &StoreArea) -> bool {
    &&& a.anchor == b.anchor
    &&& a.cell_size == b.cell_size
    &&& a.chunk_size_cells == b.chunk_size_cells
    &&& a.expansion_policy == b.expansion_policy
}

/// Buys chunk `c.coord` when `validate_chunk_purchase` accepts it: the chunk joins the
/// owned area and the purchase is reported; otherwise the store is left as it was and the
/// command is refused with `ChunkInvalid`.
pub fn apply_purchase_chunk(
    c: &PurchaseChunkCommand,
    world_bounds: &WorldBounds,
    store: &mut StoreArea,
) -> (r: DomainCommandResult)
    requires
        old(store).wf(),
        purchase_check_in_range(*world_bounds, old(store), c.coord),
    ensures
        final(store).wf(),
        same_layout(final(store), old(store)),
        purchase_verdict(*world_bounds, old(store), c.coord) is None ==> {
            &&& final(store).owned_chunks@ == old(store).owned_chunks@.insert(
                c.coord,
                StoreChunkData { kind: c.kind },
            )
            &&& is_purchase_report(r, c.coord)
        },
        purchase_verdict(*world_bounds, old(store), c.coord) is Some ==> {
            &&& final(store).owned_chunks@ == old(store).owned_chunks@
            &&& r == (DomainCommandResult::Rejected { reason: DomainCommandRejectReason::ChunkInvalid })
        },
{
    let validation = validate_chunk_purchase(world_bounds, store, c.coord, c.kind);
    if !validation.valid {
        return DomainCommandResult::Rejected { reason: DomainCommandRejectReason::ChunkInvalid };
    }
    store.owned_chunks.insert(c.coord, StoreChunkData { kind: c.kind });
    let mut added_chunks: Vec<StoreChunkCoord> = Vec::new();
    added_chunks.push(c.coord);
    let mut events: Vec<DomainEvent> = Vec::new();
    events.push(DomainEvent::ChunkPurchased { coord: c.coord });
    events.push(DomainEvent::StoreAreaChanged { added_chunks, removed_chunks: Vec::new() });
    assert(events@[1] matches DomainEvent::StoreAreaChanged { added_chunks, removed_chunks } && added_chunks@ == seq![c.coord]);
    DomainCommandResult::Applied { events }
}

/// A purchase that is carried out never leaves the store with an enclosed hole, never
/// buys a chunk twice, and always extends the owned area by one chunk that shares a side
/// with a chunk owned before; buying the same chunk again is then refused as owned.
pub proof fn lemma_applied_purchase_keeps_store_sound(
    world: WorldBounds,
    before: &StoreArea,
    after: &StoreArea,
    c: PurchaseChunkCommand,
)
    requires
        purchase_verdict(world, before, c.coord) is None,
        after.owned_chunks@ == before.owned_chunks@.insert(c.coord, StoreChunkData { kind: c.kind }),
    ensures
        !has_enclosed_hole(after.owned_chunks@.dom()),
        !before.owned_chunks@.contains_key(c.coord),
        after.owned_chunks@.len() == before.owned_chunks@.len() + 1,
        exists|n: StoreChunkCoord|
            #[trigger] before.owned_chunks@.contains_key(n) && crate::chunks::side_adjacent(c.coord, n),
        purchase_verdict(world, after, c.coord) == Some(StoreChunkPurchaseRejectReason::AlreadyOwned),
{
    assert(after.owned_chunks@.dom() =~= before.owned_chunks@.dom().insert(c.coord));
    before.owned_chunks.lemma_finite();
}

/// Buying chunks keeps the store in one piece: when every owned chunk can be reached
/// from every other by side steps through owned chunks, the same holds after a purchase
/// is carried out.
pub proof fn lemma_applied_purchase_keeps_store_connected(
    world: WorldBounds,
    before: &StoreArea,
    after: &StoreArea,
    c: PurchaseChunkCommand,
)
    requires
        purchase_verdict(world, before, c.coord) is None,
        after.owned_chunks@ == before.owned_chunks@.insert(c.coord, StoreChunkData { kind: c.kind }),
        crate::connect::side_connected(before.owned_chunks@.dom()),
    ensures
        crate::connect::side_connected(after.owned_chunks@.dom()),
{
    let n = choose|n: StoreChunkCoord|
        #[trigger] before.owned_chunks@.contains_key(n) && crate::chunks::side_adjacent(c.coord, n);
    crate::connect::lemma_connected_insert(before.owned_chunks@.dom(), n, c.coord);
    assert(after.owned_chunks@.dom() =~= before.owned_chunks@.dom().insert(c.coord));
}

/// Deletes object `c.object_id` when it is known (`object_known`): the deletion is
/// reported; an unknown object is refused as missing.
pub fn apply_delete_object(c: &DeleteObjectCommand, object_known: bool) -> (r: DomainCommandResult)
    ensures
        object_known ==> (r matches DomainCommandResult::Applied { events } && events@ == seq![
            DomainEvent::ObjectDeleted { id: c.object_id },
        ]),
        !object_known ==> r == (DomainCommandResult::Rejected {
            reason: DomainCommandRejectReason::ObjectMissing { id: c.object_id },
        }),
{
    if !object_known {
        return DomainCommandResult::Rejected {
            reason: DomainCommandRejectReason::ObjectMissing { id: c.object_id },
        };
    }
    DomainCommandResult::Applied { events: vec![DomainEvent::ObjectDeleted { id: c.object_id }] }
}

/// Decides a rotation command from what is known of the object: `variant_count` is the
/// number of its rotation variants (`None` when the object is gone) and `placement_ok`
/// tells whether the object fits where it stands in the target variant. A missing object
/// is refused as missing, a target variant out of range or a footprint that does not fit
/// as an invalid rotation; otherwise the rotation is reported.
pub fn decide_rotate_object(
    c: &RotateObjectCommand,
    variant_count: Option<usize>,
    placement_ok: bool,
) -> (r: DomainCommandResult)
    ensures
        variant_count is None ==> r == (DomainCommandResult::Rejected {
            reason: DomainCommandRejectReason::ObjectMissing { id: c.object_id },
        }),
        variant_count matches Some(n) && (c.to_rotation >= n || !placement_ok) ==> r == (
        DomainCommandResult::Rejected { reason: DomainCommandRejectReason::RotationInvalid }),
        variant_count matches Some(n) && c.to_rotation < n && placement_ok ==> (r matches DomainCommandResult::Applied { events } && events@ == seq![
            DomainEvent::ObjectRotated { id: c.object_id, from: c.from_rotation, to: c.to_rotation },
        ]),
{
    match variant_count {
        None => DomainCommandResult::Rejected {
            reason: DomainCommandRejectReason::ObjectMissing { id: c.object_id },
        },
        Some(n) => {
            if c.to_rotation >= n || !placement_ok {
                DomainCommandResult::Rejected { reason: DomainCommandRejectReason::RotationInvalid }
            } else {
                DomainCommandResult::Applied {
                    events: vec![
                        DomainEvent::ObjectRotated {
                            id: c.object_id,
                            from: c.from_rotation,
                            to: c.to_rotation,
                        },
                    ],
                }
            }
        },
    }
}

/// What a build or move needs to know of an object's prototype: how it is placed and,
/// for a wall mount, the wall sides it may hang on.
#[derive(Debug, Clone)]
pub struct PrototypePlacementInfo {
    pub placement_kind: PlacementKind,
    pub wall_mount_sides: Option<Vec<StoreBoundarySide>>,
    /// Whether the prototype is a doorway.
    pub is_doorway: bool,
}

/// What the geometric checks of a wall placement found, in the order they run: the target
/// segment exists, the offset along it and the height on it leave room for the object,
/// the derived door placement (for doorways) is valid, and no other wallprint overlaps.
#[derive(Debug, Clone, Copy, PartialEq, Eq, Structural)]
pub struct WallPlacementFacts {
    pub segment_found: bool,
    pub offset_in_bounds: bool,
    pub height_in_bounds: bool,
    pub door_placement_valid: bool,
    pub overlaps_other_wallprint: bool,
}

/// A build request: on the floor, with whether the footprint may stand there, or on a
/// wall side, with what the wall checks found.
#[derive(Debug, Clone, Copy, PartialEq, Eq, Structural)]
pub enum BuildPlacementRequest {
    Floor { placement_valid: bool },
    WallMounted { side: StoreBoundarySide, facts: WallPlacementFacts },
}

/// `side` is among the allowed wall sides.
pub open spec fn side_allowed(sides: Seq<StoreBoundarySide>, side: StoreBoundarySide) -> bool {
    sides.contains(side)
}

/// The refusal of a build of prototype `prototype_id`, or `None` when it may proceed: the
/// prototype must exist; a floor build needs a floor prototype and a valid footprint;
/// a wall build needs a wall prototype with a wall mount, an existing segment, an allowed
/// side, room along and up the wall, a valid door placement for doorways, and for other
/// objects no overlapping wallprint.
pub open spec fn build_refusal(
    prototype_id: BuildObjectId,
    prototype: Option<PrototypePlacementInfo>,
    request: BuildPlacementRequest,
) -> Option<DomainCommandRejectReason> {
    match prototype {
        None => Some(DomainCommandRejectReason::PrototypeMissing { id: prototype_id }),
        Some(p) => match request {
            BuildPlacementRequest::Floor { placement_valid } => if p.placement_kind
                != PlacementKind::Floor || !placement_valid {
                Some(DomainCommandRejectReason::PlacementInvalid)
            } else {
                None
            },
            BuildPlacementRequest::WallMounted { side, facts } => if p.placement_kind
                != PlacementKind::WallMounted || p.wall_mount_sides is None {
                Some(DomainCommandRejectReason::PrototypeNotWallMounted)
            } else if !facts.segment_found {
                Some(DomainCommandRejectReason::WallSegmentMissing)
            } else if !side_allowed(p.wall_mount_sides->0@, side) {
                Some(DomainCommandRejectReason::WallSideNotAllowed)
            } else if !facts.offset_in_bounds {
                Some(DomainCommandRejectReason::WallOffsetOutOfBounds)
            } else if !facts.height_in_bounds {
                Some(DomainCommandRejectReason::WallHeightOutOfBounds)
            } else if p.is_doorway && !facts.door_placement_valid {
                Some(DomainCommandRejectReason::PlacementInvalid)
            } else if !p.is_doorway && facts.overlaps_other_wallprint {
                Some(DomainCommandRejectReason::WallMountedOverlap)
            } else {
                None
            },
        },
    }
}

/// A build is carried out only when every check passes: the prototype exists; on the
/// floor it is a floor prototype and its footprint may stand there; on a wall it is a wall
/// prototype allowed on the chosen side, the segment exists, the object fits along and up
/// the wall, a doorway's door placement is valid and any other object overlaps no
/// wallprint. In particular a floor build whose footprint may not stand there is refused
/// as an invalid placement, whatever the prototype.
pub proof fn lemma_build_carried_out_only_when_checks_pass(
    prototype_id: BuildObjectId,
    prototype: Option<PrototypePlacementInfo>,
    request: BuildPlacementRequest,
)
    ensures
        prototype is Some && request == (BuildPlacementRequest::Floor { placement_valid: false })
            ==> build_refusal(prototype_id, prototype, request) == Some(
            DomainCommandRejectReason::PlacementInvalid,
        ),
        build_refusal(prototype_id, prototype, request) is None ==> prototype is Some && match request {
            BuildPlacementRequest::Floor { placement_valid } => placement_valid
                && prototype->0.placement_kind == PlacementKind::Floor,
            BuildPlacementRequest::WallMounted { side, facts } => {
                &&& prototype->0.placement_kind == PlacementKind::WallMounted
                &&& prototype->0.wall_mount_sides matches Some(sides) && sides@.contains(side)
                &&& facts.segment_found && facts.offset_in_bounds && facts.height_in_bounds
                &&& prototype->0.is_doorway ==> facts.door_placement_valid
                &&& !prototype->0.is_doorway ==> !facts.overlaps_other_wallprint
            },
        },
{
}

/// The prototype information behind an optional reference.
pub open spec fn info_of(p: Option<&PrototypePlacementInfo>) -> Option<PrototypePlacementInfo> {
    match p {
        Some(x) => Some(*x),
        None => None,
    }
}

/// Whether `sides` holds `side`.
fn sides_contain(sides: &Vec<StoreBoundarySide>, side: StoreBoundarySide) -> (r: bool)
    ensures
        r == sides@.contains(side),
{
    let mut i: usize = 0;
    while i < sides.len()
        invariant
            i <= sides@.len(),
            forall|j: int| 0 <= j < i ==> sides@[j] != side,
        decreases sides@.len() - i,
    {
        if sides[i] == side {
            proof {
                assert(sides@[i as int] == side);
            }
            return true;
        }
        i = i + 1;
    }
    false
}

/// A copy of a prototype id with the same text.
fn copy_build_object_id(id: &BuildObjectId) -> (r: BuildObjectId)
    ensures
        r.0@ == id.0@,
{
    BuildObjectId(id.0.clone())
}

/// Decides a build of object `object_id` from prototype `prototype_id` (`prototype` is
/// `None` when the catalog lacks it): refused with `build_refusal` when that gives a
/// reason, else reported as built.
pub fn decide_build_object(
    object_id: StableObjectId,
    prototype_id: &BuildObjectId,
    prototype: Option<&PrototypePlacementInfo>,
    request: BuildPlacementRequest,
) -> (r: DomainCommandResult)
    ensures
        match build_refusal(*prototype_id, info_of(prototype), request) {
            Some(DomainCommandRejectReason::PrototypeMissing { id }) => r matches DomainCommandResult::Rejected {
                reason: DomainCommandRejectReason::PrototypeMissing { id: rid },
            } && rid.0@ == id.0@,
            Some(reason) => r == (DomainCommandResult::Rejected { reason }),
            None => r matches DomainCommandResult::Applied { events } && events@ == seq![
                DomainEvent::ObjectBuilt { id: object_id },
            ],
        },
        prototype is Some && request == (BuildPlacementRequest::Floor { placement_valid: false }) ==> r
            == (DomainCommandResult::Rejected { reason: DomainCommandRejectReason::PlacementInvalid }),
        r is Applied ==> prototype is Some && match request {
            BuildPlacementRequest::Floor { placement_valid } => placement_valid
                && prototype->0.placement_kind == PlacementKind::Floor,
            BuildPlacementRequest::WallMounted { side, facts } => {
                &&& prototype->0.placement_kind == PlacementKind::WallMounted
                &&& prototype->0.wall_mount_sides matches Some(sides) && sides@.contains(side)
                &&& facts.segment_found && facts.offset_in_bounds && facts.height_in_bounds
                &&& prototype->0.is_doorway ==> facts.door_placement_valid
                &&& !prototype->0.is_doorway ==> !facts.overlaps_other_wallprint
            },
        },
{
    proof {
        lemma_build_carried_out_only_when_checks_pass(*prototype_id, info_of(prototype), request);
    }
    let p = match prototype {
        None => {
            return DomainCommandResult::Rejected {
                reason: DomainCommandRejectReason::PrototypeMissing { id: copy_build_object_id(prototype_id) },
            };
        },
        Some(p) => p,
    };
    let refusal = match request {
        BuildPlacementRequest::Floor { placement_valid } => {
            let floor = match p.placement_kind {
                PlacementKind::Floor => true,
                PlacementKind::WallMounted => false,
            };
            if !floor || !placement_valid {
                Some(DomainCommandRejectReason::PlacementInvalid)
            } else {
                None
            }
        },
        BuildPlacementRequest::WallMounted { side, facts } => {
            let wall = match p.placement_kind {
                PlacementKind::Floor => false,
                PlacementKind::WallMounted => true,
            };
            match &p.wall_mount_sides {
                None => Some(DomainCommandRejectReason::PrototypeNotWallMounted),
                Some(sides) => {
                    if !wall {
                        Some(DomainCommandRejectReason::PrototypeNotWallMounted)
                    } else if !facts.segment_found {
                        Some(DomainCommandRejectReason::WallSegmentMissing)
                    } else if !sides_contain(sides, side) {
                        Some(DomainCommandRejectReason::WallSideNotAllowed)
                    } else if !facts.offset_in_bounds {
                        Some(DomainCommandRejectReason::WallOffsetOutOfBounds)
                    } else if !facts.height_in_bounds {
                        Some(DomainCommandRejectReason::WallHeightOutOfBounds)
                    } else if p.is_doorway && !facts.door_placement_valid {
                        Some(DomainCommandRejectReason::PlacementInvalid)
                    } else if !p.is_doorway && facts.overlaps_other_wallprint {
                        Some(DomainCommandRejectReason::WallMountedOverlap)
                    } else {
                        None
                    }
                },
            }
        },
    };
    match refusal {
        Some(reason) => DomainCommandResult::Rejected { reason },
        None => DomainCommandResult::Applied { events: vec![DomainEvent::ObjectBuilt { id: object_id }] },
    }
}

/// What the checks of a move found: on the floor, whether the object still has a
/// footprint and may stand at the target; on a wall, whether its prototype is known and
/// wall-mounted, and for doorways whether the segment exists and the door placement is
/// valid, for other objects whether another object's wallprint overlaps.
#[derive(Debug, Clone, Copy, PartialEq, Eq, Structural)]
pub enum MovePlacementFacts {
    Floor { has_footprint: bool, placement_valid: bool },
    WallMounted {
        prototype_found: bool,
        has_wall_mount: bool,
        is_doorway: bool,
        segment_found: bool,
        door_placement_valid: bool,
        overlaps_other_wallprint: bool,
    },
}

/// The refusal of a move, or `None` when it may proceed.
pub open spec fn move_refusal(object_known: bool, facts: MovePlacementFacts) -> Option<DomainCommandRejectReason> {
    if !object_known {
        None
    } else {
        match facts {
            MovePlacementFacts::Floor { has_footprint, placement_valid } => if !has_footprint
                || !placement_valid {
                Some(DomainCommandRejectReason::PlacementInvalid)
            } else {
                None
            },
            MovePlacementFacts::WallMounted {
                prototype_found,
                has_wall_mount,
                is_doorway,
                segment_found,
                door_placement_valid,
                overlaps_other_wallprint,
            } => if !prototype_found {
                None
            } else if !has_wall_mount {
                Some(DomainCommandRejectReason::PrototypeNotWallMounted)
            } else if is_doorway && !segment_found {
                Some(DomainCommandRejectReason::WallSegmentMissing)
            } else if is_doorway && !door_placement_valid {
                Some(DomainCommandRejectReason::PlacementInvalid)
            } else if !is_doorway && overlaps_other_wallprint {
                Some(DomainCommandRejectReason::WallMountedOverlap)
            } else {
                None
            },
        }
    }
}

/// A move is carried out only when every check passes: the object is known; on the floor
/// it has a footprint that may stand at the target; on a wall its prototype is known and
/// wall-mounted, a doorway's segment exists and its door placement is valid, and any other
/// object overlaps no wallprint. In particular a doorway whose derived door placement is
/// invalid is refused as an invalid placement.
pub proof fn lemma_move_carried_out_only_when_checks_pass(object_known: bool, facts: MovePlacementFacts)
    ensures
        object_known && (facts matches MovePlacementFacts::WallMounted {
            prototype_found: true,
            has_wall_mount: true,
            is_doorway: true,
            segment_found: true,
            door_placement_valid: false,
            ..
        }) ==> move_refusal(object_known, facts) == Some(DomainCommandRejectReason::PlacementInvalid),
        object_known && !wall_prototype_missing(facts) && move_refusal(object_known, facts) is None
            ==> match facts {
            MovePlacementFacts::Floor { has_footprint, placement_valid } => has_footprint && placement_valid,
            MovePlacementFacts::WallMounted {
                prototype_found,
                has_wall_mount,
                is_doorway,
                segment_found,
                door_placement_valid,
                overlaps_other_wallprint,
            } => {
                &&& prototype_found && has_wall_mount
                &&& is_doorway ==> segment_found && door_placement_valid
                &&& !is_doorway ==> !overlaps_other_wallprint
            },
        },
{
}

/// A wall move whose object's prototype is not in the catalog.
pub open spec fn wall_prototype_missing(facts: MovePlacementFacts) -> bool {
    match facts {
        MovePlacementFacts::WallMounted { prototype_found, .. } => !prototype_found,
        MovePlacementFacts::Floor { .. } => false,
    }
}

/// Decides a move of object `object_id`: an unknown object is refused as missing, a wall
/// move of an object whose prototype `prototype_id` is not in the catalog as a missing
/// prototype, any other refusal is `move_refusal`; otherwise the move is reported.
pub fn decide_move_object(
    object_id: StableObjectId,
    object_known: bool,
    prototype_id: &BuildObjectId,
    facts: MovePlacementFacts,
) -> (r: DomainCommandResult)
    ensures
        !object_known ==> r == (DomainCommandResult::Rejected {
            reason: DomainCommandRejectReason::ObjectMissing { id: object_id },
        }),
        object_known && wall_prototype_missing(facts) ==> (r matches DomainCommandResult::Rejected {
            reason: DomainCommandRejectReason::PrototypeMissing { id },
        } && id.0@ == prototype_id.0@),
        object_known && move_refusal(object_known, facts) is Some ==> r == (DomainCommandResult::Rejected {
            reason: move_refusal(object_known, facts)->0,
        }),
        object_known && !wall_prototype_missing(facts) && move_refusal(object_known, facts) is None ==> (
        r matches DomainCommandResult::Applied { events } && events@ == seq![
            DomainEvent::ObjectMoved { id: object_id },
        ]),
        object_known && (facts matches MovePlacementFacts::WallMounted {
            prototype_found: true,
            has_wall_mount: true,
            is_doorway: true,
            segment_found: true,
            door_placement_valid: false,
            ..
        }) ==> r == (DomainCommandResult::Rejected { reason: DomainCommandRejectReason::PlacementInvalid }),
        r is Applied ==> object_known && match facts {
            MovePlacementFacts::Floor { has_footprint, placement_valid } => has_footprint && placement_valid,
            MovePlacementFacts::WallMounted {
                prototype_found,
                has_wall_mount,
                is_doorway,
                segment_found,
                door_placement_valid,
                overlaps_other_wallprint,
            } => {
                &&& prototype_found && has_wall_mount
                &&& is_doorway ==> segment_found && door_placement_valid
                &&& !is_doorway ==> !overlaps_other_wallprint
            },
        },
{
    proof {
        lemma_move_carried_out_only_when_checks_pass(object_known, facts);
    }
    if !object_known {
        return DomainCommandResult::Rejected { reason: DomainCommandRejectReason::ObjectMissing { id: object_id } };
    }
    let refusal = match facts {
        MovePlacementFacts::Floor { has_footprint, placement_valid } => {
            if !has_footprint || !placement_valid {
                Some(DomainCommandRejectReason::PlacementInvalid)
            } else {
                None
            }
        },
        MovePlacementFacts::WallMounted {
            prototype_found,
            has_wall_mount,
            is_doorway,
            segment_found,
            door_placement_valid,
            overlaps_other_wallprint,
        } => {
            if !prototype_found {
                return DomainCommandResult::Rejected {
                    reason: DomainCommandRejectReason::PrototypeMissing { id: copy_build_object_id(prototype_id) },
                };
            } else if !has_wall_mount {
                Some(DomainCommandRejectReason::PrototypeNotWallMounted)
            } else if is_doorway && !segment_found {
                Some(DomainCommandRejectReason::WallSegmentMissing)
            } else if is_doorway && !door_placement_valid {
                Some(DomainCommandRejectReason::PlacementInvalid)
            } else if !is_doorway && overlaps_other_wallprint {
                Some(DomainCommandRejectReason::WallMountedOverlap)
            } else {
                None
            }
        },
    };
    match refusal {
        Some(reason) => DomainCommandResult::Rejected { reason },
        None => DomainCommandResult::Applied { events: vec![DomainEvent::ObjectMoved { id: object_id }] },
    }
}

} // verus!
