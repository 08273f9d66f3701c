//! Whether an object may stand where it is asked to go: the order of the placement
//! checks and which other objects each check considers. The geometric overlap tests
//! arrive here already decided, one flag per other object.
use vstd::prelude::*;
use crate::objects::StableObjectId;

verus! {

/// Why an object cannot be placed where it was asked to go.
#[derive(Debug, Clone, Copy, PartialEq, Eq, Structural)]
pub enum PlacementInvalidReason {
    IntersectsBlockingObject,
    OutsideOwnedStoreArea,
    OutsideWorldBounds,
    WallSurfaceMissing,
    WallAttachmentInvalid,
    WallMountedOverlap,
    DoorAccessBlocked,
}

/// The object being placed, which the checks skip when they meet it: by entity bits
/// and by stable id.
#[derive(Debug, Clone, Copy, PartialEq, Eq, Structural, Default)]
pub struct PlacementValidationOptions {
    pub ignore_entity: Option<u64>,
    pub ignore_stable_id: Option<StableObjectId>,
}

/// Another floor object: its entity bits, whether it blocks placement, and whether its
/// footprint meets the shape being checked.
#[derive(Debug, Clone, Copy, PartialEq, Eq, Structural)]
pub struct FootprintContact {
    pub entity: u64,
    pub blocks_placement: bool,
    pub overlaps: bool,
}

/// A door's access zone: the entity bits and stable id of its door, and whether the
/// zone meets the shape being checked.
#[derive(Debug, Clone, Copy, PartialEq, Eq, Structural)]
pub struct AccessZoneContact {
    pub entity: u64,
    pub stable_id: Option<StableObjectId>,
    pub overlaps: bool,
}

/// Another wall-mounted object: its stable id and whether its wallprint conflicts with
/// the one being checked.
#[derive(Debug, Clone, Copy, PartialEq, Eq, Structural)]
pub struct WallprintContact {
    pub stable_id: StableObjectId,
    pub conflicts: bool,
}

/// A blocking footprint, other than the ignored entity, meets the shape.
pub open spec fn blocked_by_footprint(others: Seq<FootprintContact>, options: PlacementValidationOptions) -> bool {
    exists|i: int|
        0 <= i < others.len() && (#[trigger] others[i]).blocks_placement && Some(others[i].entity)
            != options.ignore_entity && others[i].overlaps
}

/// An access zone meets the shape, other than one of the ignored entity and other than
/// one whose door's stable id (or its absence) equals the ignored stable id.
pub open spec fn blocked_by_access_zone(zones: Seq<AccessZoneContact>, options: PlacementValidationOptions) -> bool {
    exists|i: int|
        0 <= i < zones.len() && Some((#[trigger] zones[i]).entity) != options.ignore_entity
            && zones[i].stable_id != options.ignore_stable_id && zones[i].overlaps
}

/// The answer to a floor placement: the position must lie in the world, the footprint
/// in the owned area, clear of blocking objects and clear of door access zones, checked
/// in that order.
pub open spec fn placement_verdict(
    in_world: bool,
    covered_by_store: bool,
    others: Seq<FootprintContact>,
    zones: Seq<AccessZoneContact>,
    options: PlacementValidationOptions,
) -> Result<(), PlacementInvalidReason> {
    if !in_world {
        Err(PlacementInvalidReason::OutsideWorldBounds)
    } else if !covered_by_store {
        Err(PlacementInvalidReason::OutsideOwnedStoreArea)
    } else if blocked_by_footprint(others, options) {
        Err(PlacementInvalidReason::IntersectsBlockingObject)
    } else if blocked_by_access_zone(zones, options) {
        Err(PlacementInvalidReason::DoorAccessBlocked)
    } else {
        Ok(())
    }
}

fn any_blocking_footprint(others: &Vec<FootprintContact>, options: PlacementValidationOptions) -> (r: bool)
    ensures
        r == blocked_by_footprint(others@, options),
{
    let mut i: usize = 0;
    while i < others.len()
        invariant
            i <= others@.len(),
            forall|j: int|
                0 <= j < i ==> !((#[trigger] others@[j]).blocks_placement && Some(others@[j].entity)
                    != options.ignore_entity && others@[j].overlaps),
        decreases others@.len() - i,
    {
        let o = others[i];
        let ignored = match options.ignore_entity {
            Some(e) => e == o.entity,
            None => false,
        };
        if o.blocks_placement && !ignored && o.overlaps {
            return true;
        }
        i = i + 1;
    }
    false
}

fn any_blocking_zone(zones: &Vec<AccessZoneContact>, options: PlacementValidationOptions) -> (r: bool)
    ensures
        r == blocked_by_access_zone(zones@, options),
{
    let mut i: usize = 0;
    while i < zones.len()
        invariant
            i <= zones@.len(),
            forall|j: int|
                0 <= j < i ==> !(Some((#[trigger] zones@[j]).entity) != options.ignore_entity
                    && zones@[j].stable_id != options.ignore_stable_id && zones@[j].overlaps),
        decreases zones@.len() - i,
    {
        let z = zones[i];
        let ignored_entity = match options.ignore_entity {
            Some(e) => e == z.entity,
            None => false,
        };
        let same_id = match (z.stable_id, options.ignore_stable_id) {
            (Some(a), Some(b)) => a.0 == b.0,
            (None, None) => true,
            _ => false,
        };
        if !ignored_entity && !same_id && z.overlaps {
            return true;
        }
        i = i + 1;
    }
    false
}

/// Checks a floor placement; the answer is `placement_verdict`. `in_world` tells whether
/// the target position lies in the world and `covered_by_store` whether the footprint
/// lies in the owned area.
pub fn validate_placement(
    in_world: bool,
    covered_by_store: bool,
    others: &Vec<FootprintContact>,
    zones: &Vec<AccessZoneContact>,
    options: PlacementValidationOptions,
) -> (r: Result<(), PlacementInvalidReason>)
    ensures
        r == placement_verdict(in_world, covered_by_store, others@, zones@, options),
{
    if !in_world {
        return Err(PlacementInvalidReason::OutsideWorldBounds);
    }
    if !covered_by_store {
        return Err(PlacementInvalidReason::OutsideOwnedStoreArea);
    }
    if any_blocking_footprint(others, options) {
        return Err(PlacementInvalidReason::IntersectsBlockingObject);
    }
    if any_blocking_zone(zones, options) {
        return Err(PlacementInvalidReason::DoorAccessBlocked);
    }
    Ok(())
}

/// A wallprint of another object, other than one with the ignored stable id, conflicts.
pub open spec fn blocked_by_wallprint(prints: Seq<WallprintContact>, options: PlacementValidationOptions) -> bool {
    exists|i: int|
        0 <= i < prints.len() && options.ignore_stable_id != Some((#[trigger] prints[i]).stable_id)
            && prints[i].conflicts
}

/// The answer to a door placement: its wallprint must not conflict with another
/// object's, its access zone must lie in the owned area and be clear of blocking floor
/// objects, checked in that order.
pub open spec fn door_placement_verdict(
    prints: Seq<WallprintContact>,
    zone_covered_by_store: bool,
    others: Seq<FootprintContact>,
    options: PlacementValidationOptions,
) -> Result<(), PlacementInvalidReason> {
    if blocked_by_wallprint(prints, options) {
        Err(PlacementInvalidReason::WallMountedOverlap)
    } else if !zone_covered_by_store {
        Err(PlacementInvalidReason::OutsideOwnedStoreArea)
    } else if blocked_by_footprint(others, options) {
        Err(PlacementInvalidReason::DoorAccessBlocked)
    } else {
        Ok(())
    }
}

fn any_conflicting_wallprint(prints: &Vec<WallprintContact>, options: PlacementValidationOptions) -> (r: bool)
    ensures
        r == blocked_by_wallprint(prints@, options),
{
    let mut i: usize = 0;
    while i < prints.len()
        invariant
            i <= prints@.len(),
            forall|j: int|
                0 <= j < i ==> !(options.ignore_stable_id != Some((#[trigger] prints@[j]).stable_id)
                    && prints@[j].conflicts),
        decreases prints@.len() - i,
    {
        let p = prints[i];
        let ignored = match options.ignore_stable_id {
            Some(id) => id.0 == p.stable_id.0,
            None => false,
        };
        if !ignored && p.conflicts {
            return true;
        }
        i = i + 1;
    }
    false
}

/// Checks a door placement; the answer is `door_placement_verdict`. `prints` are the
/// wallprints of wall-mounted objects, `others` the floor objects as met by the door's
/// access zone, and `zone_covered_by_store` tells whether that zone lies in the owned area.
pub fn validate_derived_door_placement(
    prints: &Vec<WallprintContact>,
    zone_covered_by_store: bool,
    others: &Vec<FootprintContact>,
    options: PlacementValidationOptions,
) -> (r: Result<(), PlacementInvalidReason>)
    ensures
        r == door_placement_verdict(prints@, zone_covered_by_store, others@, options),
{
    if any_conflicting_wallprint(prints, options) {
        return Err(PlacementInvalidReason::WallMountedOverlap);
    }
    if !zone_covered_by_store {
        return Err(PlacementInvalidReason::OutsideOwnedStoreArea);
    }
    if any_blocking_footprint(others, options) {
        return Err(PlacementInvalidReason::DoorAccessBlocked);
    }
    Ok(())
}

} // verus!
