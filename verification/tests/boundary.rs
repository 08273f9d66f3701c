use iso_store::boundary::{expand_dirty_wall_keys, wall_cache_changes};
use iso_store::area::{StoreArea, WorldBounds, WorldVec};
use iso_store::boundary::{
    boundary_wall_interior_direction, collect_boundary_segments, is_locked_boundary_side,
    left_neighbor_key, right_neighbor_key, StoreBoundarySide, WallSegmentKey,
};
use iso_store::chunks::StoreChunkCoord;

fn origin_store() -> StoreArea {
    StoreArea::new(WorldVec { x: 0, y: 0 })
}

fn check_initial_store_walls() {
    let store = origin_store();
    let world = WorldBounds::default();
    let segments = collect_boundary_segments(&store, &world);
    assert_eq!(segments.len(), 9);
    assert!(segments.iter().any(|segment| segment.key.side == StoreBoundarySide::Top));
    assert!(segments.iter().any(|segment| segment.key.side == StoreBoundarySide::Right));
    let chunk_size = store.chunk_world_size();
    for segment in segments {
        assert_eq!(segment.height * 2, chunk_size.y * 3);
        assert_eq!(segment.length, chunk_size.x);
        assert_eq!(segment.thickness, 8);
    }
}

#[test]
fn initial_store_generates_two_corner_segments() {
    check_initial_store_walls();
}

#[test]
fn initial_store_generates_boundary_runs() {
    check_initial_store_walls();
}

fn check_missing_outer_corner() {
    let mut store = origin_store();
    store.owned_chunks.remove(&StoreChunkCoord { x: -1, y: -1 });
    let world = WorldBounds::default();
    let segments = collect_boundary_segments(&store, &world);
    assert!(segments.is_empty());
}

#[test]
fn boundary_missing_outer_corner_does_not_shift_wall_inward() {
    check_missing_outer_corner();
}

#[test]
fn tests_missing_outer_corner_does_not_shift_wall_inward() {
    check_missing_outer_corner();
}

fn check_top_row_stops_at_first_gap() {
    let mut store = origin_store();
    store.owned_chunks.remove(&StoreChunkCoord { x: -2, y: -1 });
    let world = WorldBounds::default();
    let segments = collect_boundary_segments(&store, &world);
    let top_segments = segments
        .iter()
        .filter(|segment| segment.key.side == StoreBoundarySide::Top)
        .count();
    let right_segments = segments
        .iter()
        .filter(|segment| segment.key.side == StoreBoundarySide::Right)
        .count();
    assert_eq!(top_segments, 1);
    assert_eq!(right_segments, 4);
}

#[test]
fn boundary_top_row_stops_at_first_gap_from_corner() {
    check_top_row_stops_at_first_gap();
}

#[test]
fn tests_top_row_stops_at_first_gap_from_corner() {
    check_top_row_stops_at_first_gap();
}

#[test]
fn test_boundary_wall_interior_direction() {
    assert_eq!(
        boundary_wall_interior_direction(StoreBoundarySide::Top),
        WorldVec { x: 0, y: -1 }
    );
    assert_eq!(
        boundary_wall_interior_direction(StoreBoundarySide::Right),
        WorldVec { x: -1, y: 0 }
    );
}

#[test]
fn initial_walls_are_sorted_and_placed_on_the_outer_edges() {
    let store = origin_store();
    let world = WorldBounds::default();
    let segments = collect_boundary_segments(&store, &world);
    let keys: Vec<(i32, i32, StoreBoundarySide)> = segments
        .iter()
        .map(|s| (s.key.chunk.x, s.key.chunk.y, s.key.side))
        .collect();
    assert_eq!(
        keys,
        vec![
            (-1, -4, StoreBoundarySide::Right),
            (-1, -3, StoreBoundarySide::Right),
            (-1, -2, StoreBoundarySide::Right),
            (-5, -1, StoreBoundarySide::Top),
            (-4, -1, StoreBoundarySide::Top),
            (-3, -1, StoreBoundarySide::Top),
            (-2, -1, StoreBoundarySide::Top),
            (-1, -1, StoreBoundarySide::Top),
            (-1, -1, StoreBoundarySide::Right),
        ]
    );
    let top = segments[3];
    assert_eq!(top.start, WorldVec { x: -640, y: 0 });
    assert_eq!(top.end, WorldVec { x: -512, y: 0 });
    assert_eq!(top.normal, WorldVec { x: 0, y: 1 });
    let right = segments[0];
    assert_eq!(right.start, WorldVec { x: 0, y: -512 });
    assert_eq!(right.end, WorldVec { x: 0, y: -384 });
    assert_eq!(right.normal, WorldVec { x: 1, y: 0 });
    assert_eq!(right.height, 192);
}

#[test]
fn unlocked_sides_carry_no_walls() {
    let mut store = origin_store();
    store.expansion_policy.allow_up = true;
    let world = WorldBounds::default();
    let segments = collect_boundary_segments(&store, &world);
    assert_eq!(segments.len(), 4);
    assert!(segments.iter().all(|s| s.key.side == StoreBoundarySide::Right));
    assert!(!is_locked_boundary_side(store.expansion_policy, StoreBoundarySide::Top));
    assert!(is_locked_boundary_side(store.expansion_policy, StoreBoundarySide::Right));
}

#[test]
fn walls_leaving_the_world_stop_the_run() {
    let store = origin_store();
    let mut world = WorldBounds::default();
    world.rect.min.y = -400;
    let segments = collect_boundary_segments(&store, &world);
    let right_segments = segments
        .iter()
        .filter(|segment| segment.key.side == StoreBoundarySide::Right)
        .count();
    assert_eq!(right_segments, 3);
}

#[test]
fn neighbour_keys_follow_the_wall() {
    let top = WallSegmentKey {
        chunk: StoreChunkCoord { x: -3, y: -1 },
        side: StoreBoundarySide::Top,
    };
    assert_eq!(right_neighbor_key(top).chunk, StoreChunkCoord { x: -2, y: -1 });
    assert_eq!(left_neighbor_key(top).chunk, StoreChunkCoord { x: -4, y: -1 });
    let right = WallSegmentKey {
        chunk: StoreChunkCoord { x: -1, y: -3 },
        side: StoreBoundarySide::Right,
    };
    assert_eq!(right_neighbor_key(right).chunk, StoreChunkCoord { x: -1, y: -2 });
    assert_eq!(left_neighbor_key(right).chunk, StoreChunkCoord { x: -1, y: -4 });
    assert_eq!(left_neighbor_key(right).side, StoreBoundarySide::Right);
}

#[test]
fn dirty_walls_pull_in_their_existing_neighbours() {
    let store = origin_store();
    let world = WorldBounds::default();
    let segments = collect_boundary_segments(&store, &world);
    let key = |x: i32, y: i32, side: StoreBoundarySide| WallSegmentKey {
        chunk: StoreChunkCoord { x, y },
        side,
    };
    let expanded = expand_dirty_wall_keys(&vec![key(-3, -1, StoreBoundarySide::Top)], &segments);
    assert_eq!(
        expanded,
        vec![
            key(-3, -1, StoreBoundarySide::Top),
            key(-4, -1, StoreBoundarySide::Top),
            key(-2, -1, StoreBoundarySide::Top),
        ]
    );
    let corner = expand_dirty_wall_keys(&vec![key(-1, -1, StoreBoundarySide::Right), key(-1, -1, StoreBoundarySide::Right)], &segments);
    assert_eq!(
        corner,
        vec![key(-1, -1, StoreBoundarySide::Right), key(-1, -2, StoreBoundarySide::Right)]
    );
}

#[test]
fn wall_cache_changes_list_stale_and_new_segments() {
    let store = origin_store();
    let world = WorldBounds::default();
    let segments = collect_boundary_segments(&store, &world);
    let gone = WallSegmentKey {
        chunk: StoreChunkCoord { x: 4, y: 4 },
        side: StoreBoundarySide::Top,
    };
    let cached = vec![segments[0].key, gone, segments[8].key];
    let (stale, added) = wall_cache_changes(&cached, &segments);
    assert_eq!(stale, vec![gone]);
    assert_eq!(added.len(), 7);
    assert!(added.iter().all(|s| s.key != segments[0].key && s.key != segments[8].key));
    assert_eq!(added[0].key, segments[1].key);
}
