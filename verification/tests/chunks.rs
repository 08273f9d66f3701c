use iso_store::chunks::{
    owned_bounds, side_neighbors, would_create_hole, ChunkMap, StoreChunkCoord, StoreChunkData,
    StoreChunkKind,
};

fn data() -> StoreChunkData {
    StoreChunkData {
        kind: StoreChunkKind::Default,
    }
}

fn check_side_neighbors_are_cardinal_only() {
    let n = side_neighbors(StoreChunkCoord { x: 0, y: 0 });
    assert_eq!(n.len(), 4);
    assert!(n.contains(&StoreChunkCoord { x: -1, y: 0 }));
    assert!(n.contains(&StoreChunkCoord { x: 1, y: 0 }));
    assert!(n.contains(&StoreChunkCoord { x: 0, y: -1 }));
    assert!(n.contains(&StoreChunkCoord { x: 0, y: 1 }));
    assert!(!n.contains(&StoreChunkCoord { x: 1, y: 1 }));
}

#[test]
fn chunks_side_neighbors_are_cardinal_only() {
    check_side_neighbors_are_cardinal_only();
}

#[test]
fn tests_side_neighbors_are_cardinal_only() {
    check_side_neighbors_are_cardinal_only();
}

fn ring_with_missing_corner() -> ChunkMap {
    let mut chunks = ChunkMap::new();
    for coord in [
        StoreChunkCoord { x: -1, y: -1 },
        StoreChunkCoord { x: 0, y: -1 },
        StoreChunkCoord { x: 1, y: -1 },
        StoreChunkCoord { x: -1, y: 0 },
        StoreChunkCoord { x: 1, y: 0 },
        StoreChunkCoord { x: -1, y: 1 },
        StoreChunkCoord { x: 0, y: 1 },
    ] {
        chunks.insert(coord, data());
    }
    chunks
}

#[test]
fn chunks_detects_simple_enclosed_hole() {
    let mut chunks = ChunkMap::new();
    for x in -1..=1 {
        for y in -1..=1 {
            if x == 0 && y == 0 {
                continue;
            }
            chunks.insert(StoreChunkCoord { x, y }, data());
        }
    }
    let chunks = ring_with_missing_corner();
    assert!(would_create_hole(&chunks, StoreChunkCoord { x: 1, y: 1 }));
}

#[test]
fn tests_detects_simple_enclosed_hole() {
    let chunks = ring_with_missing_corner();
    assert!(would_create_hole(&chunks, StoreChunkCoord { x: 1, y: 1 }));
}

#[test]
fn adding_to_solid_block_does_not_create_hole() {
    let mut chunks = ChunkMap::new();
    chunks.insert(StoreChunkCoord { x: 0, y: 0 }, data());
    assert!(!would_create_hole(&chunks, StoreChunkCoord { x: 1, y: 0 }));
}

#[test]
fn diagonal_purchase_without_filling_middle_is_not_hole_per_se_but_flood_fill_checks_enclosed_empty_space()
 {
    let mut chunks = ChunkMap::new();
    chunks.insert(StoreChunkCoord { x: 0, y: 0 }, data());
    assert!(!would_create_hole(&chunks, StoreChunkCoord { x: 1, y: 1 }));
}

#[test]
fn large_solid_block_no_hole() {
    let mut chunks = ChunkMap::new();
    for x in 0..5 {
        for y in 0..5 {
            chunks.insert(StoreChunkCoord { x, y }, data());
        }
    }
    assert!(!would_create_hole(&chunks, StoreChunkCoord { x: 5, y: 0 }));
}

#[test]
fn hole_check_on_an_owned_candidate_sees_the_same_set() {
    let mut chunks = ring_with_missing_corner();
    chunks.insert(StoreChunkCoord { x: 1, y: 1 }, data());
    assert!(would_create_hole(&chunks, StoreChunkCoord { x: 1, y: 1 }));
    assert!(!would_create_hole(&chunks, StoreChunkCoord { x: 0, y: 0 }));
}

#[test]
fn closing_an_open_cup_encloses_its_inside() {
    let mut chunks = ChunkMap::new();
    for coord in [
        StoreChunkCoord { x: 0, y: 0 },
        StoreChunkCoord { x: 1, y: 0 },
        StoreChunkCoord { x: 2, y: 0 },
        StoreChunkCoord { x: 0, y: 1 },
        StoreChunkCoord { x: 2, y: 1 },
        StoreChunkCoord { x: 0, y: 2 },
        StoreChunkCoord { x: 2, y: 2 },
    ] {
        chunks.insert(coord, data());
    }
    assert!(would_create_hole(&chunks, StoreChunkCoord { x: 1, y: 2 }));
    assert!(!would_create_hole(&chunks, StoreChunkCoord { x: 3, y: 1 }));
}

#[test]
fn owned_bounds_of_empty_and_scattered_chunks() {
    let mut chunks = ChunkMap::new();
    assert_eq!(owned_bounds(&chunks), None);
    chunks.insert(StoreChunkCoord { x: 3, y: -2 }, data());
    chunks.insert(StoreChunkCoord { x: -4, y: 7 }, data());
    chunks.insert(StoreChunkCoord { x: 0, y: 0 }, data());
    let b = owned_bounds(&chunks).unwrap();
    assert_eq!(b.min, StoreChunkCoord { x: -4, y: -2 });
    assert_eq!(b.max, StoreChunkCoord { x: 3, y: 7 });
}

#[test]
fn chunk_map_insert_get_remove() {
    let mut chunks = ChunkMap::new();
    assert!(chunks.is_empty());
    let c = StoreChunkCoord { x: 2, y: 3 };
    assert_eq!(chunks.insert(c, data()), None);
    assert_eq!(chunks.insert(c, data()), Some(data()));
    assert_eq!(chunks.len(), 1);
    assert!(chunks.contains_key(&c));
    assert_eq!(chunks.get(&c), Some(&data()));
    assert_eq!(chunks.get(&StoreChunkCoord { x: 0, y: 0 }), None);
    assert_eq!(chunks.keys(), vec![c]);
    assert_eq!(chunks.entries(), vec![(c, data())]);
    assert_eq!(chunks.remove(&c), Some(data()));
    assert_eq!(chunks.remove(&c), None);
    assert!(chunks.is_empty());
    chunks.insert(c, data());
    chunks.clear();
    assert_eq!(chunks.len(), 0);
}
