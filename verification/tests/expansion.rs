use iso_store::area::{StoreArea, WorldBounds, WorldVec};
use iso_store::chunks::{StoreChunkCoord, StoreChunkData, StoreChunkKind};
use iso_store::expansion::{
    is_side_adjacent_to_owned, validate_chunk_purchase, ChunkPurchaseValidation,
    StoreChunkPurchaseRejectReason,
};

fn origin_store() -> StoreArea {
    StoreArea::new(WorldVec { x: 0, y: 0 })
}

fn check_owned_and_non_adjacent_are_invalid() {
    let world = WorldBounds::default();
    let store = origin_store();
    assert_eq!(
        validate_chunk_purchase(&world, &store, StoreChunkCoord { x: -1, y: -1 }, StoreChunkKind::Default)
            .reason,
        Some(StoreChunkPurchaseRejectReason::AlreadyOwned)
    );
    assert_eq!(
        validate_chunk_purchase(&world, &store, StoreChunkCoord { x: -7, y: -7 }, StoreChunkKind::Default)
            .reason,
        Some(StoreChunkPurchaseRejectReason::NotSideAdjacent)
    );
}

#[test]
fn expansion_owned_and_non_adjacent_are_invalid() {
    check_owned_and_non_adjacent_are_invalid();
}

#[test]
fn tests_owned_and_non_adjacent_are_invalid() {
    check_owned_and_non_adjacent_are_invalid();
}

fn check_current_policy_allows_left_and_down_not_right_or_up() {
    let world = WorldBounds::default();
    let store = origin_store();
    assert!(
        validate_chunk_purchase(&world, &store, StoreChunkCoord { x: -6, y: -1 }, StoreChunkKind::Default)
            .valid
    );
    assert!(
        validate_chunk_purchase(&world, &store, StoreChunkCoord { x: -1, y: -5 }, StoreChunkKind::Default)
            .valid
    );
    assert_eq!(
        validate_chunk_purchase(&world, &store, StoreChunkCoord { x: 0, y: -1 }, StoreChunkKind::Default)
            .reason,
        Some(StoreChunkPurchaseRejectReason::DirectionNotAllowed)
    );
    assert_eq!(
        validate_chunk_purchase(&world, &store, StoreChunkCoord { x: -1, y: 0 }, StoreChunkKind::Default)
            .reason,
        Some(StoreChunkPurchaseRejectReason::DirectionNotAllowed)
    );
}

#[test]
fn expansion_current_policy_allows_left_and_down_not_right_or_up() {
    check_current_policy_allows_left_and_down_not_right_or_up();
}

#[test]
fn tests_current_policy_allows_left_and_down_not_right_or_up() {
    check_current_policy_allows_left_and_down_not_right_or_up();
}

fn check_side_adjacency() {
    let store = origin_store();
    assert!(is_side_adjacent_to_owned(&store, StoreChunkCoord { x: 0, y: -1 }));
    assert!(is_side_adjacent_to_owned(&store, StoreChunkCoord { x: -6, y: -1 }));
    assert!(is_side_adjacent_to_owned(&store, StoreChunkCoord { x: -1, y: 0 }));
    assert!(is_side_adjacent_to_owned(&store, StoreChunkCoord { x: -1, y: -5 }));
    assert!(!is_side_adjacent_to_owned(&store, StoreChunkCoord { x: 1, y: 1 }));
    assert!(!is_side_adjacent_to_owned(&store, StoreChunkCoord { x: 0, y: 0 }));
}

#[test]
fn expansion_side_adjacency_check() {
    check_side_adjacency();
}

#[test]
fn tests_side_adjacency_check() {
    check_side_adjacency();
}

fn default_data() -> StoreChunkData {
    StoreChunkData {
        kind: StoreChunkKind::Default,
    }
}

fn check_hole_prevention_in_purchase_validation() {
    let world = WorldBounds::default();
    let mut store = origin_store();
    store.expansion_policy.allow_right = true;
    store.expansion_policy.allow_up = true;
    store.owned_chunks.insert(StoreChunkCoord { x: 0, y: -1 }, default_data());
    store.owned_chunks.insert(StoreChunkCoord { x: 0, y: 0 }, default_data());
    store.owned_chunks.insert(StoreChunkCoord { x: -1, y: 0 }, default_data());
    store.owned_chunks.clear();
    for coord in [
        StoreChunkCoord { x: -1, y: -1 },
        StoreChunkCoord { x: 0, y: -1 },
        StoreChunkCoord { x: 1, y: -1 },
        StoreChunkCoord { x: -1, y: 0 },
        StoreChunkCoord { x: 1, y: 0 },
        StoreChunkCoord { x: -1, y: 1 },
        StoreChunkCoord { x: 0, y: 1 },
    ] {
        store.owned_chunks.insert(coord, default_data());
    }
    store.expansion_policy.allow_right = true;
    store.expansion_policy.allow_up = true;
    store.expansion_policy.allow_left = true;
    store.expansion_policy.allow_down = true;
    assert_eq!(
        validate_chunk_purchase(&world, &store, StoreChunkCoord { x: 1, y: 1 }, StoreChunkKind::Default)
            .reason,
        Some(StoreChunkPurchaseRejectReason::WouldCreateHole)
    );
}

#[test]
fn expansion_hole_prevention_in_purchase_validation() {
    check_hole_prevention_in_purchase_validation();
}

#[test]
fn tests_hole_prevention_in_purchase_validation() {
    check_hole_prevention_in_purchase_validation();
}

fn check_allows_filling_rows_after_expanding_frontier() {
    let world = WorldBounds::default();
    let mut store = origin_store();
    let coord1 = StoreChunkCoord { x: -6, y: -1 };
    assert!(validate_chunk_purchase(&world, &store, coord1, StoreChunkKind::Default).valid);
    store.owned_chunks.insert(coord1, default_data());
    let coord2 = StoreChunkCoord { x: -6, y: -2 };
    assert!(validate_chunk_purchase(&world, &store, coord2, StoreChunkKind::Default).valid);
}

#[test]
fn expansion_allows_filling_rows_after_expanding_frontier() {
    check_allows_filling_rows_after_expanding_frontier();
}

#[test]
fn tests_allows_filling_rows_after_expanding_frontier() {
    check_allows_filling_rows_after_expanding_frontier();
}

#[test]
fn purchase_outside_the_world_is_refused() {
    let mut world = WorldBounds::default();
    world.rect.min.x = -700;
    let store = origin_store();
    assert_eq!(
        validate_chunk_purchase(&world, &store, StoreChunkCoord { x: -6, y: -1 }, StoreChunkKind::Default)
            .reason,
        Some(StoreChunkPurchaseRejectReason::OutsideWorldBounds)
    );
}

#[test]
fn purchase_into_an_empty_store_needs_a_neighbour() {
    let world = WorldBounds::default();
    let mut store = origin_store();
    store.owned_chunks.clear();
    assert_eq!(
        validate_chunk_purchase(&world, &store, StoreChunkCoord { x: 0, y: 0 }, StoreChunkKind::Default)
            .reason,
        Some(StoreChunkPurchaseRejectReason::NotSideAdjacent)
    );
}

#[test]
fn purchase_validation_constructors() {
    let ok = ChunkPurchaseValidation::ok();
    assert!(ok.valid);
    assert_eq!(ok.reason, None);
    let no = ChunkPurchaseValidation::reject(StoreChunkPurchaseRejectReason::WouldCreateHole);
    assert!(!no.valid);
    assert_eq!(no.reason, Some(StoreChunkPurchaseRejectReason::WouldCreateHole));
}
