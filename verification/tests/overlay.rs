use iso_store::area::{StoreArea, WorldBounds, WorldVec};
use iso_store::chunks::StoreChunkCoord;
use iso_store::overlay::{
    available_expansion_chunks, owned_chunks_within_margin, plan_chunk_overlays,
    StoreChunkOverlayKind,
};

#[test]
fn available_expansion_chunks_respect_policy_and_frontier() {
    let store = StoreArea::new(WorldVec { x: 0, y: 0 });
    let world = WorldBounds::default();
    let mut coords = available_expansion_chunks(&world, &store);
    coords.sort_by_key(|coord| (coord.y, coord.x));
    assert_eq!(coords.len(), 9);
    assert!(coords.contains(&StoreChunkCoord { x: -6, y: -4 }));
    assert!(coords.contains(&StoreChunkCoord { x: -6, y: -1 }));
    assert!(coords.contains(&StoreChunkCoord { x: -5, y: -5 }));
    assert!(coords.contains(&StoreChunkCoord { x: -1, y: -5 }));
    assert!(!coords.contains(&StoreChunkCoord { x: -4, y: -4 }));
    assert!(!coords.contains(&StoreChunkCoord { x: -1, y: 0 }));
    assert!(!coords.contains(&StoreChunkCoord { x: 0, y: -1 }));
}

#[test]
fn available_chunks_come_in_row_major_order() {
    let store = StoreArea::new(WorldVec { x: 0, y: 0 });
    let world = WorldBounds::default();
    let coords = available_expansion_chunks(&world, &store);
    assert_eq!(
        coords,
        vec![
            StoreChunkCoord { x: -5, y: -5 },
            StoreChunkCoord { x: -4, y: -5 },
            StoreChunkCoord { x: -3, y: -5 },
            StoreChunkCoord { x: -2, y: -5 },
            StoreChunkCoord { x: -1, y: -5 },
            StoreChunkCoord { x: -6, y: -4 },
            StoreChunkCoord { x: -6, y: -3 },
            StoreChunkCoord { x: -6, y: -2 },
            StoreChunkCoord { x: -6, y: -1 },
        ]
    );
}

#[test]
fn overlays_show_owned_chunks_and_offers_only_while_expanding() {
    let store = StoreArea::new(WorldVec { x: 0, y: 0 });
    let world = WorldBounds::default();
    let idle = plan_chunk_overlays(&world, &store, false, None, false);
    assert_eq!(idle.len(), 20);
    assert!(idle.iter().all(|(_, k)| *k == StoreChunkOverlayKind::Owned));
    let hovered = StoreChunkCoord { x: -6, y: -2 };
    let active = plan_chunk_overlays(&world, &store, true, Some(hovered), true);
    assert_eq!(active.len(), 29);
    assert!(active.contains(&(hovered, StoreChunkOverlayKind::HoveredAvailable)));
    assert!(active.contains(&(StoreChunkCoord { x: -6, y: -1 }, StoreChunkOverlayKind::Available)));
    let invalid_hover = plan_chunk_overlays(&world, &store, true, Some(hovered), false);
    assert!(invalid_hover.contains(&(hovered, StoreChunkOverlayKind::Available)));
}

#[test]
fn margin_check_of_owned_chunks() {
    let mut store = StoreArea::new(WorldVec { x: 0, y: 0 });
    assert!(owned_chunks_within_margin(&store, 3));
    store.owned_chunks.insert(
        StoreChunkCoord { x: i32::MAX - 1, y: 0 },
        iso_store::chunks::StoreChunkData {
            kind: iso_store::chunks::StoreChunkKind::Default,
        },
    );
    assert!(owned_chunks_within_margin(&store, 1));
    assert!(!owned_chunks_within_margin(&store, 2));
}
