use iso_store::area::{StoreArea, WorldBounds, WorldVec};
use iso_store::chunks::{StoreChunkCoord, StoreChunkKind};
use iso_store::objects::{PlacementKind, StableObjectId, StableObjectIdAllocator};
use iso_store::save::{
    build_load_plan, extract_save_game, restore_owned_chunks, save_object_order,
    store_save_from_area, validate_loaded_store_area,
    LoadIssue, ObjectLoadPlan, ObjectSave, SaveGame, SaveLoadError, SaveLoadLimits,
    StoreChunkSave, StoreSave, CURRENT_SAVE_VERSION,
};

fn chunk(x: i32, y: i32) -> StoreChunkSave {
    StoreChunkSave {
        coord: StoreChunkCoord { x, y },
        kind: StoreChunkKind::Default,
    }
}

fn object(id: u64, placement_kind: PlacementKind, coordinates_finite: bool) -> ObjectSave {
    ObjectSave {
        id: StableObjectId(id),
        placement_kind,
        coordinates_finite,
    }
}

fn save_with(objects: Vec<ObjectSave>, next_object_id: u64) -> SaveGame {
    SaveGame {
        version: CURRENT_SAVE_VERSION,
        next_object_id,
        store: StoreSave {
            owned_chunks: vec![chunk(-1, -1), chunk(-2, -1)],
        },
        objects,
    }
}

#[test]
fn saved_chunks_are_sorted_by_row_then_column() {
    let store = StoreArea::new(WorldVec { x: 0, y: 0 });
    let save = store_save_from_area(&store);
    assert_eq!(save.owned_chunks.len(), 20);
    assert_eq!(save.owned_chunks[0].coord, StoreChunkCoord { x: -5, y: -4 });
    assert_eq!(save.owned_chunks[1].coord, StoreChunkCoord { x: -4, y: -4 });
    assert_eq!(save.owned_chunks[4].coord, StoreChunkCoord { x: -1, y: -4 });
    assert_eq!(save.owned_chunks[5].coord, StoreChunkCoord { x: -5, y: -3 });
    assert_eq!(save.owned_chunks[19].coord, StoreChunkCoord { x: -1, y: -1 });
}

#[test]
fn save_and_load_give_the_store_back() {
    let store = StoreArea::new(WorldVec { x: 0, y: 0 });
    let world = WorldBounds::default();
    let save = store_save_from_area(&store);
    let report = validate_loaded_store_area(&save, &world);
    assert!(!report.fatal);
    assert!(report.issues.is_empty());
    assert_eq!(report.valid_chunks, save.owned_chunks);
    let mut loaded = StoreArea::new(WorldVec { x: 0, y: 0 });
    loaded.owned_chunks.clear();
    restore_owned_chunks(&mut loaded, &report.valid_chunks);
    assert_eq!(loaded.owned_chunks.len(), 20);
    for x in -5..0 {
        for y in -4..0 {
            assert!(loaded.owned_chunks.contains_key(&StoreChunkCoord { x, y }));
        }
    }
}

#[test]
fn loaded_store_area_drops_duplicates_and_far_chunks() {
    let world = WorldBounds::default();
    let save = StoreSave {
        owned_chunks: vec![chunk(1, 2), chunk(101, 0), chunk(1, 2), chunk(0, -100), chunk(101, 0), chunk(3, -101)],
    };
    let report = validate_loaded_store_area(&save, &world);
    assert!(!report.fatal);
    assert_eq!(report.valid_chunks, vec![chunk(1, 2), chunk(0, -100)]);
    assert_eq!(report.issues.len(), 2);
    assert!(matches!(report.issues[0], LoadIssue::InvalidChunk(c) if c == StoreChunkCoord { x: 101, y: 0 }));
    assert!(matches!(report.issues[1], LoadIssue::InvalidChunk(c) if c == StoreChunkCoord { x: 3, y: -101 }));
}

#[test]
fn load_limits_default() {
    let limits = SaveLoadLimits::default();
    assert_eq!(limits.max_objects, 1000);
    assert_eq!(limits.max_chunks, 400);
}

#[test]
fn load_plan_refuses_other_versions() {
    let mut save = save_with(vec![], 1);
    save.version = 7;
    let r = build_load_plan(save, &SaveLoadLimits::default(), &WorldBounds::default());
    assert!(matches!(r, Err(SaveLoadError::UnsupportedVersion(7))));
}

#[test]
fn load_plan_refuses_oversized_saves() {
    let save = save_with(vec![object(1, PlacementKind::Floor, true), object(2, PlacementKind::Floor, true)], 3);
    let limits = SaveLoadLimits {
        max_objects: 1,
        max_chunks: 400,
    };
    let r = build_load_plan(save, &limits, &WorldBounds::default());
    assert!(matches!(r, Err(SaveLoadError::FatalValidationError(ref v)) if v.is_empty()));
    let save = save_with(vec![], 3);
    let limits = SaveLoadLimits {
        max_objects: 10,
        max_chunks: 1,
    };
    let r = build_load_plan(save, &limits, &WorldBounds::default());
    assert!(matches!(r, Err(SaveLoadError::FatalValidationError(ref v)) if v.is_empty()));
}

#[test]
fn load_plan_refuses_repeated_ids() {
    let save = save_with(
        vec![
            object(4, PlacementKind::Floor, true),
            object(9, PlacementKind::Floor, false),
            object(4, PlacementKind::WallMounted, true),
            object(9, PlacementKind::Floor, true),
        ],
        20,
    );
    let r = build_load_plan(save, &SaveLoadLimits::default(), &WorldBounds::default());
    match r {
        Err(SaveLoadError::FatalValidationError(v)) => {
            assert_eq!(v.len(), 1);
            assert!(matches!(v[0], LoadIssue::DuplicateStableObjectId(StableObjectId(4))));
        }
        _ => panic!("a repeated id must be fatal"),
    }
}

#[test]
fn load_plan_skips_non_finite_objects_and_raises_the_counter() {
    let save = save_with(
        vec![
            object(1001, PlacementKind::Floor, true),
            object(1002, PlacementKind::Floor, false),
            object(3001, PlacementKind::WallMounted, false),
        ],
        2000,
    );
    let plan = build_load_plan(save, &SaveLoadLimits::default(), &WorldBounds::default()).unwrap();
    assert_eq!(plan.normalized_next_object_id, 3002);
    assert_eq!(plan.valid_chunks, vec![chunk(-1, -1), chunk(-2, -1)]);
    assert_eq!(plan.object_plans.len(), 3);
    assert!(matches!(plan.object_plans[0], ObjectLoadPlan::Spawn(StableObjectId(1001))));
    assert!(matches!(
        plan.object_plans[1],
        ObjectLoadPlan::Skip { id: StableObjectId(1002), reason: LoadIssue::NonFiniteWorldPos { .. } }
    ));
    assert!(matches!(
        plan.object_plans[2],
        ObjectLoadPlan::Skip { id: StableObjectId(3001), reason: LoadIssue::ObjectPlacementInvalid { .. } }
    ));
    assert_eq!(plan.report.issues.len(), 3);
    assert!(matches!(
        plan.report.issues[2],
        LoadIssue::AllocatorNextIdTooSmall { save_next: 2000, normalized_next: 3002 }
    ));
    assert_eq!(plan.report.skipped_objects, 3);
    assert_eq!(plan.report.loaded_objects, 0);
    assert_eq!(plan.report.loaded_chunks, 2);
}

#[test]
fn load_plan_keeps_a_large_enough_counter() {
    let save = save_with(vec![object(1001, PlacementKind::Floor, true)], 2000);
    let plan = build_load_plan(save, &SaveLoadLimits::default(), &WorldBounds::default()).unwrap();
    assert_eq!(plan.normalized_next_object_id, 2000);
    assert!(plan.report.issues.is_empty());
    let empty = save_with(vec![], 0);
    let plan = build_load_plan(empty, &SaveLoadLimits::default(), &WorldBounds::default()).unwrap();
    assert_eq!(plan.normalized_next_object_id, 1);
}

#[test]
fn objects_are_saved_by_id_with_ties_in_given_order() {
    let ids = vec![
        StableObjectId(5),
        StableObjectId(2),
        StableObjectId(5),
        StableObjectId(1),
    ];
    assert_eq!(save_object_order(&ids), vec![3, 1, 0, 2]);
    assert_eq!(save_object_order(&vec![]), Vec::<usize>::new());
}

#[test]
fn extracted_save_carries_version_counter_chunks_and_object_order() {
    let store = StoreArea::new(WorldVec { x: 0, y: 0 });
    let allocator = StableObjectIdAllocator { next: 9 };
    let ids = vec![StableObjectId(8), StableObjectId(3)];
    let outline = extract_save_game(&store, &allocator, &ids);
    assert_eq!(outline.version, CURRENT_SAVE_VERSION);
    assert_eq!(outline.next_object_id, 9);
    assert_eq!(outline.store.owned_chunks.len(), 20);
    assert_eq!(outline.store.owned_chunks[0].coord, StoreChunkCoord { x: -5, y: -4 });
    assert_eq!(outline.object_order, vec![1, 0]);
}
