use iso_store::area::{CellCount, StoreArea, StoreExpansionPolicy, WorldBounds, WorldRect, WorldVec};
use iso_store::chunks::StoreChunkCoord;

fn check_initial_store_has_20_chunks() {
    let store = StoreArea::new(WorldVec { x: 0, y: 0 });
    assert_eq!(store.owned_chunks.len(), 20);
    assert_eq!(store.owned_chunk_bounds().unwrap().min, StoreChunkCoord { x: -5, y: -4 });
    assert_eq!(store.owned_chunk_bounds().unwrap().max, StoreChunkCoord { x: -1, y: -1 });
}

#[test]
fn area_initial_store_has_20_chunks() {
    check_initial_store_has_20_chunks();
}

#[test]
fn tests_initial_store_has_20_chunks() {
    check_initial_store_has_20_chunks();
}

#[test]
fn chunk_geometry_of_the_initial_store() {
    let store = StoreArea::new(WorldVec { x: 10, y: -20 });
    assert_eq!(store.cell_size, WorldVec { x: 32, y: 32 });
    assert_eq!(store.chunk_size_cells, CellCount { x: 4, y: 4 });
    assert_eq!(store.chunk_world_size(), WorldVec { x: 128, y: 128 });
    let r = store.chunk_rect(StoreChunkCoord { x: -2, y: 3 });
    assert_eq!(r.min, WorldVec { x: -246, y: 364 });
    assert_eq!(r.max, WorldVec { x: -118, y: 492 });
    assert_eq!(store.expansion_policy, StoreExpansionPolicy::default());
}

#[test]
fn world_bounds_default_and_chunk_containment() {
    let world = WorldBounds::default();
    assert_eq!(world.rect.min, WorldVec { x: -1200, y: -1000 });
    assert_eq!(world.rect.max, WorldVec { x: 1200, y: 1000 });
    assert!(world.contains_chunk(StoreChunkCoord { x: 0, y: 0 }));
    assert!(world.contains_chunk(StoreChunkCoord { x: -9, y: -7 }));
    assert!(!world.contains_chunk(StoreChunkCoord { x: 9, y: 0 }));
    assert!(!world.contains_chunk(StoreChunkCoord { x: 0, y: -8 }));
}

#[test]
fn rect_from_corners_orders_them() {
    let r = WorldRect::from_corners(WorldVec { x: 5, y: -3 }, WorldVec { x: -7, y: 9 });
    assert_eq!(r.min, WorldVec { x: -7, y: -3 });
    assert_eq!(r.max, WorldVec { x: 5, y: 9 });
    assert!(r.contains(WorldVec { x: 5, y: 9 }));
    assert!(!r.contains(WorldVec { x: 6, y: 0 }));
}

#[test]
fn default_policy_grows_left_and_down() {
    let p = StoreExpansionPolicy::default();
    assert!(p.allow_left && p.allow_down);
    assert!(!p.allow_right && !p.allow_up);
    assert!(p.require_side_adjacency && p.forbid_holes);
}
