use iso_store::objects::StableObjectId;
use iso_store::placement::{
    validate_derived_door_placement, validate_placement, AccessZoneContact, FootprintContact,
    PlacementInvalidReason, PlacementValidationOptions, WallprintContact,
};

fn blocker(entity: u64, overlaps: bool) -> FootprintContact {
    FootprintContact {
        entity,
        blocks_placement: true,
        overlaps,
    }
}

#[test]
fn floor_placement_checks_run_in_order() {
    let none = PlacementValidationOptions::default();
    assert_eq!(
        validate_placement(false, false, &vec![blocker(1, true)], &vec![], none),
        Err(PlacementInvalidReason::OutsideWorldBounds)
    );
    assert_eq!(
        validate_placement(true, false, &vec![blocker(1, true)], &vec![], none),
        Err(PlacementInvalidReason::OutsideOwnedStoreArea)
    );
    assert_eq!(
        validate_placement(true, true, &vec![blocker(1, false), blocker(2, true)], &vec![], none),
        Err(PlacementInvalidReason::IntersectsBlockingObject)
    );
    let zone = AccessZoneContact {
        entity: 9,
        stable_id: Some(StableObjectId(90)),
        overlaps: true,
    };
    assert_eq!(
        validate_placement(true, true, &vec![blocker(1, false)], &vec![zone], none),
        Err(PlacementInvalidReason::DoorAccessBlocked)
    );
    assert_eq!(validate_placement(true, true, &vec![blocker(1, false)], &vec![], none), Ok(()));
}

#[test]
fn the_moved_object_does_not_block_itself() {
    let me = PlacementValidationOptions {
        ignore_entity: Some(2),
        ignore_stable_id: Some(StableObjectId(20)),
    };
    let passive = FootprintContact {
        entity: 3,
        blocks_placement: false,
        overlaps: true,
    };
    assert_eq!(validate_placement(true, true, &vec![blocker(2, true), passive], &vec![], me), Ok(()));
    let own_zone = AccessZoneContact {
        entity: 5,
        stable_id: Some(StableObjectId(20)),
        overlaps: true,
    };
    assert_eq!(validate_placement(true, true, &vec![], &vec![own_zone], me), Ok(()));
    let anonymous_zone = AccessZoneContact {
        entity: 6,
        stable_id: None,
        overlaps: true,
    };
    assert_eq!(
        validate_placement(true, true, &vec![], &vec![anonymous_zone], me),
        Err(PlacementInvalidReason::DoorAccessBlocked)
    );
    assert_eq!(
        validate_placement(true, true, &vec![], &vec![anonymous_zone], PlacementValidationOptions::default()),
        Ok(())
    );
}

#[test]
fn door_placement_checks() {
    let none = PlacementValidationOptions::default();
    let print = |id: u64, conflicts: bool| WallprintContact {
        stable_id: StableObjectId(id),
        conflicts,
    };
    assert_eq!(
        validate_derived_door_placement(&vec![print(1, true)], true, &vec![], none),
        Err(PlacementInvalidReason::WallMountedOverlap)
    );
    let me = PlacementValidationOptions {
        ignore_entity: None,
        ignore_stable_id: Some(StableObjectId(1)),
    };
    assert_eq!(validate_derived_door_placement(&vec![print(1, true)], true, &vec![], me), Ok(()));
    assert_eq!(
        validate_derived_door_placement(&vec![print(2, false)], false, &vec![], none),
        Err(PlacementInvalidReason::OutsideOwnedStoreArea)
    );
    assert_eq!(
        validate_derived_door_placement(&vec![], true, &vec![blocker(4, true)], none),
        Err(PlacementInvalidReason::DoorAccessBlocked)
    );
}
