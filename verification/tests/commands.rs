use iso_store::area::{StoreArea, WorldBounds, WorldVec};
use iso_store::chunks::{StoreChunkCoord, StoreChunkKind};
use iso_store::boundary::StoreBoundarySide;
use iso_store::commands::{
    apply_delete_object, apply_purchase_chunk, decide_build_object, decide_move_object,
    decide_rotate_object, BuildPlacementRequest, DeleteObjectCommand, DomainCommandRejectReason,
    DomainCommandResult, DomainEvent, MovePlacementFacts, PrototypePlacementInfo,
    PurchaseChunkCommand, RotateObjectCommand, WallPlacementFacts,
};
use iso_store::objects::{BuildObjectId, PlacementKind, StableObjectId};

#[test]
fn accepted_purchase_grows_the_store_and_reports_it() {
    let world = WorldBounds::default();
    let mut store = StoreArea::new(WorldVec { x: 0, y: 0 });
    let coord = StoreChunkCoord { x: -6, y: -1 };
    let r = apply_purchase_chunk(
        &PurchaseChunkCommand {
            coord,
            kind: StoreChunkKind::Default,
        },
        &world,
        &mut store,
    );
    match r {
        DomainCommandResult::Applied { events } => {
            assert_eq!(
                events,
                vec![
                    DomainEvent::ChunkPurchased { coord },
                    DomainEvent::StoreAreaChanged {
                        added_chunks: vec![coord],
                        removed_chunks: vec![],
                    },
                ]
            );
        }
        DomainCommandResult::Rejected { .. } => panic!("the purchase must be accepted"),
    }
    assert_eq!(store.owned_chunks.len(), 21);
    assert!(store.owned_chunks.contains_key(&coord));
}

#[test]
fn refused_purchase_leaves_the_store_alone() {
    let world = WorldBounds::default();
    let mut store = StoreArea::new(WorldVec { x: 0, y: 0 });
    for coord in [
        StoreChunkCoord { x: 0, y: -1 },
        StoreChunkCoord { x: -1, y: -1 },
        StoreChunkCoord { x: -9, y: -9 },
    ] {
        let r = apply_purchase_chunk(
            &PurchaseChunkCommand {
                coord,
                kind: StoreChunkKind::Default,
            },
            &world,
            &mut store,
        );
        assert!(matches!(
            r,
            DomainCommandResult::Rejected {
                reason: DomainCommandRejectReason::ChunkInvalid
            }
        ));
        assert_eq!(store.owned_chunks.len(), 20);
    }
}

#[test]
fn deleting_known_and_unknown_objects() {
    let c = DeleteObjectCommand {
        object_id: StableObjectId(102),
    };
    match apply_delete_object(&c, true) {
        DomainCommandResult::Applied { events } => {
            assert_eq!(events, vec![DomainEvent::ObjectDeleted { id: StableObjectId(102) }]);
        }
        _ => panic!("a known object is deleted"),
    }
    assert!(matches!(
        apply_delete_object(&c, false),
        DomainCommandResult::Rejected {
            reason: DomainCommandRejectReason::ObjectMissing { id: StableObjectId(102) }
        }
    ));
}

#[test]
fn rotation_decisions() {
    let c = RotateObjectCommand {
        object_id: StableObjectId(7),
        from_rotation: 0,
        to_rotation: 1,
    };
    assert!(matches!(
        decide_rotate_object(&c, None, true),
        DomainCommandResult::Rejected {
            reason: DomainCommandRejectReason::ObjectMissing { id: StableObjectId(7) }
        }
    ));
    assert!(matches!(
        decide_rotate_object(&c, Some(1), true),
        DomainCommandResult::Rejected {
            reason: DomainCommandRejectReason::RotationInvalid
        }
    ));
    assert!(matches!(
        decide_rotate_object(&c, Some(2), false),
        DomainCommandResult::Rejected {
            reason: DomainCommandRejectReason::RotationInvalid
        }
    ));
    match decide_rotate_object(&c, Some(2), true) {
        DomainCommandResult::Applied { events } => assert_eq!(
            events,
            vec![DomainEvent::ObjectRotated {
                id: StableObjectId(7),
                from: 0,
                to: 1
            }]
        ),
        _ => panic!("a valid rotation is applied"),
    }
}

fn rejection(r: &DomainCommandResult) -> Option<DomainCommandRejectReason> {
    match r {
        DomainCommandResult::Rejected { reason } => Some(reason.clone()),
        DomainCommandResult::Applied { .. } => None,
    }
}

fn wall_facts() -> WallPlacementFacts {
    WallPlacementFacts {
        segment_found: true,
        offset_in_bounds: true,
        height_in_bounds: true,
        door_placement_valid: true,
        overlaps_other_wallprint: false,
    }
}

#[test]
fn build_decisions_follow_the_check_order() {
    let id = StableObjectId(6000);
    let decor_id = BuildObjectId::new("wall.decor.placeholder");
    let decor = PrototypePlacementInfo {
        placement_kind: PlacementKind::WallMounted,
        wall_mount_sides: Some(vec![StoreBoundarySide::Top]),
        is_doorway: false,
    };
    let shelf = PrototypePlacementInfo {
        placement_kind: PlacementKind::Floor,
        wall_mount_sides: None,
        is_doorway: false,
    };
    let on_top = |facts| BuildPlacementRequest::WallMounted {
        side: StoreBoundarySide::Top,
        facts,
    };
    assert!(matches!(
        decide_build_object(id, &decor_id, Some(&decor), on_top(wall_facts())),
        DomainCommandResult::Applied { .. }
    ));
    assert_eq!(
        rejection(&decide_build_object(id, &decor_id, None, on_top(wall_facts()))),
        Some(DomainCommandRejectReason::PrototypeMissing { id: decor_id.clone() })
    );
    assert_eq!(
        rejection(&decide_build_object(id, &decor_id, Some(&shelf), on_top(wall_facts()))),
        Some(DomainCommandRejectReason::PrototypeNotWallMounted)
    );
    assert_eq!(
        rejection(&decide_build_object(id, &decor_id, Some(&decor), BuildPlacementRequest::WallMounted {
            side: StoreBoundarySide::Right,
            facts: wall_facts(),
        })),
        Some(DomainCommandRejectReason::WallSideNotAllowed)
    );
    let mut facts = wall_facts();
    facts.overlaps_other_wallprint = true;
    assert_eq!(
        rejection(&decide_build_object(id, &decor_id, Some(&decor), on_top(facts))),
        Some(DomainCommandRejectReason::WallMountedOverlap)
    );
    facts.height_in_bounds = false;
    assert_eq!(
        rejection(&decide_build_object(id, &decor_id, Some(&decor), on_top(facts))),
        Some(DomainCommandRejectReason::WallHeightOutOfBounds)
    );
    facts.offset_in_bounds = false;
    assert_eq!(
        rejection(&decide_build_object(id, &decor_id, Some(&decor), on_top(facts))),
        Some(DomainCommandRejectReason::WallOffsetOutOfBounds)
    );
    facts.segment_found = false;
    assert_eq!(
        rejection(&decide_build_object(id, &decor_id, Some(&decor), on_top(facts))),
        Some(DomainCommandRejectReason::WallSegmentMissing)
    );
    assert_eq!(
        rejection(&decide_build_object(id, &decor_id, Some(&decor), BuildPlacementRequest::Floor { placement_valid: true })),
        Some(DomainCommandRejectReason::PlacementInvalid)
    );
    match decide_build_object(id, &decor_id, Some(&shelf), BuildPlacementRequest::Floor { placement_valid: true }) {
        DomainCommandResult::Applied { events } => assert_eq!(events, vec![DomainEvent::ObjectBuilt { id }]),
        _ => panic!("a valid floor build is applied"),
    }
}

#[test]
fn doors_are_checked_by_their_derived_placement() {
    let id = StableObjectId(6003);
    let door_id = BuildObjectId::new("wall.door.basic_customer");
    let door = PrototypePlacementInfo {
        placement_kind: PlacementKind::WallMounted,
        wall_mount_sides: Some(vec![StoreBoundarySide::Top, StoreBoundarySide::Right]),
        is_doorway: true,
    };
    let mut facts = wall_facts();
    facts.overlaps_other_wallprint = true;
    assert!(matches!(
        decide_build_object(id, &door_id, Some(&door), BuildPlacementRequest::WallMounted {
            side: StoreBoundarySide::Right,
            facts,
        }),
        DomainCommandResult::Applied { .. }
    ));
    facts.door_placement_valid = false;
    assert_eq!(
        rejection(&decide_build_object(id, &door_id, Some(&door), BuildPlacementRequest::WallMounted {
            side: StoreBoundarySide::Right,
            facts,
        })),
        Some(DomainCommandRejectReason::PlacementInvalid)
    );
}

#[test]
fn move_decisions() {
    let id = StableObjectId(7000);
    let proto = BuildObjectId::new("wall.decor.placeholder");
    let floor_ok = MovePlacementFacts::Floor {
        has_footprint: true,
        placement_valid: true,
    };
    assert_eq!(
        rejection(&decide_move_object(id, false, &proto, floor_ok)),
        Some(DomainCommandRejectReason::ObjectMissing { id })
    );
    match decide_move_object(id, true, &proto, floor_ok) {
        DomainCommandResult::Applied { events } => assert_eq!(events, vec![DomainEvent::ObjectMoved { id }]),
        _ => panic!("a valid move is applied"),
    }
    assert_eq!(
        rejection(&decide_move_object(id, true, &proto, MovePlacementFacts::Floor {
            has_footprint: true,
            placement_valid: false,
        })),
        Some(DomainCommandRejectReason::PlacementInvalid)
    );
    let wall = |prototype_found, has_wall_mount, overlaps_other_wallprint| MovePlacementFacts::WallMounted {
        prototype_found,
        has_wall_mount,
        is_doorway: false,
        segment_found: true,
        door_placement_valid: true,
        overlaps_other_wallprint,
    };
    assert_eq!(
        rejection(&decide_move_object(id, true, &proto, wall(false, true, false))),
        Some(DomainCommandRejectReason::PrototypeMissing { id: proto.clone() })
    );
    assert_eq!(
        rejection(&decide_move_object(id, true, &proto, wall(true, false, false))),
        Some(DomainCommandRejectReason::PrototypeNotWallMounted)
    );
    assert_eq!(
        rejection(&decide_move_object(id, true, &proto, wall(true, true, true))),
        Some(DomainCommandRejectReason::WallMountedOverlap)
    );
    assert!(matches!(
        decide_move_object(id, true, &proto, wall(true, true, false)),
        DomainCommandResult::Applied { .. }
    ));
}

fn owned_area_is_connected(store: &StoreArea) -> bool {
    let keys = store.owned_chunks.keys();
    if keys.is_empty() {
        return true;
    }
    let mut seen = vec![keys[0]];
    let mut frontier = vec![keys[0]];
    while let Some(c) = frontier.pop() {
        for n in iso_store::chunks::side_neighbors(c) {
            if store.owned_chunks.contains_key(&n) && !seen.contains(&n) {
                seen.push(n);
                frontier.push(n);
            }
        }
    }
    seen.len() == keys.len()
}

#[test]
fn purchases_keep_the_store_in_one_piece() {
    let world = WorldBounds::default();
    let mut store = StoreArea::new(WorldVec { x: 0, y: 0 });
    assert!(owned_area_is_connected(&store));
    for (x, y) in [(-6, -1), (-7, -1), (-7, -3), (-6, -2), (-2, -5), (-9, -9), (0, -1), (-3, -6)] {
        let coord = StoreChunkCoord { x, y };
        let _ = apply_purchase_chunk(
            &PurchaseChunkCommand {
                coord,
                kind: StoreChunkKind::Default,
            },
            &world,
            &mut store,
        );
        assert!(owned_area_is_connected(&store));
    }
    assert_eq!(store.owned_chunks.len(), 24);
}
