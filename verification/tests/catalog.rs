use iso_store::catalog::{
    validate_object_catalog, wall_occupancy_kind_for_prototype, CapabilityCheck, CatalogEntry,
    CatalogIssue, CatalogIssueKind, NpcInteractionKind, OpeningShapeCheck,
};
use iso_store::objects::{BuildObjectId, PlacementKind, WallOccupancyKind};

fn entry(name: &str, placement_kind: PlacementKind, capabilities: Vec<CapabilityCheck>) -> CatalogEntry {
    CatalogEntry {
        id: BuildObjectId::new("fail"),
        display_name: name.to_string(),
        placement_kind,
        capabilities,
    }
}

fn check_missing_browse_point() {
    let catalog = vec![entry("Fail", PlacementKind::Floor, vec![CapabilityCheck::ProductContainer])];
    let errors = validate_object_catalog(&catalog);
    assert!(errors
        .iter()
        .any(|e| e.kind.describe().contains("no BrowseProducts interaction point")));
}

#[test]
fn prototypes_test_catalog_validation_missing_browse_point() {
    check_missing_browse_point();
}

#[test]
fn tests_test_catalog_validation_missing_browse_point() {
    check_missing_browse_point();
}

#[test]
fn consistent_prototypes_raise_no_issue() {
    let shelf = entry(
        "Shelf",
        PlacementKind::Floor,
        vec![
            CapabilityCheck::ProductContainer,
            CapabilityCheck::NpcInteractionPoints {
                kinds: vec![NpcInteractionKind::BrowseProducts],
            },
        ],
    );
    let window = entry(
        "Window",
        PlacementKind::WallMounted,
        vec![
            CapabilityCheck::WallMounted {
                size_positive: true,
                default_height_valid: true,
                allowed_sides_empty: false,
            },
            CapabilityCheck::Window {
                size_positive: true,
                glass_alpha_valid: true,
            },
            CapabilityCheck::WallOpening {
                shape: OpeningShapeCheck::Rect { size_positive: true },
            },
        ],
    );
    assert!(validate_object_catalog(&vec![shelf, window]).is_empty());
}

#[test]
fn every_inconsistency_is_reported_in_order() {
    let register = entry(
        "",
        PlacementKind::Floor,
        vec![
            CapabilityCheck::CheckoutPoint,
            CapabilityCheck::NpcInteractionPoints {
                kinds: vec![NpcInteractionKind::BrowseProducts],
            },
        ],
    );
    let broken_wall = entry(
        "Broken",
        PlacementKind::Floor,
        vec![
            CapabilityCheck::WallMounted {
                size_positive: false,
                default_height_valid: false,
                allowed_sides_empty: true,
            },
            CapabilityCheck::Window {
                size_positive: false,
                glass_alpha_valid: false,
            },
        ],
    );
    let bare_opening = entry(
        "Opening",
        PlacementKind::WallMounted,
        vec![CapabilityCheck::WallOpening {
            shape: OpeningShapeCheck::Polygon,
        }],
    );
    let issues = validate_object_catalog(&vec![register, broken_wall, bare_opening]);
    let tag = |prototype_index: usize, kind: CatalogIssueKind| CatalogIssue { prototype_index, kind };
    assert_eq!(
        issues,
        vec![
            tag(0, CatalogIssueKind::EmptyDisplayName),
            tag(0, CatalogIssueKind::MissingCheckoutPoint),
            tag(1, CatalogIssueKind::WallMountedOnFloorPlacement),
            tag(1, CatalogIssueKind::InvalidWallMountedSize),
            tag(1, CatalogIssueKind::InvalidDefaultWallHeight),
            tag(1, CatalogIssueKind::NoAllowedWallSides),
            tag(1, CatalogIssueKind::WindowNotWallMounted),
            tag(1, CatalogIssueKind::InvalidWindowSize),
            tag(1, CatalogIssueKind::InvalidWindowGlassAlpha),
            tag(2, CatalogIssueKind::OpeningWithoutWallMountedSpec),
            tag(2, CatalogIssueKind::UnsupportedOpeningPolygon),
        ]
    );
}

#[test]
fn opening_with_flat_rect_and_floor_placement() {
    let opening = entry(
        "Door",
        PlacementKind::Floor,
        vec![
            CapabilityCheck::Unchecked,
            CapabilityCheck::WallOpening {
                shape: OpeningShapeCheck::Rect { size_positive: false },
            },
        ],
    );
    let issues = validate_object_catalog(&vec![opening]);
    let kinds: Vec<CatalogIssueKind> = issues.iter().map(|i| i.kind).collect();
    assert_eq!(
        kinds,
        vec![
            CatalogIssueKind::OpeningNotWallMounted,
            CatalogIssueKind::OpeningWithoutWallMountedSpec,
            CatalogIssueKind::InvalidOpeningRect,
        ]
    );
}

#[test]
fn occupancy_of_wall_prototypes() {
    let decor = entry(
        "Decor",
        PlacementKind::WallMounted,
        vec![CapabilityCheck::WallMounted {
            size_positive: true,
            default_height_valid: true,
            allowed_sides_empty: false,
        }],
    );
    assert_eq!(wall_occupancy_kind_for_prototype(&decor), WallOccupancyKind::DecorativeOverlay);
    let window = entry(
        "Window",
        PlacementKind::WallMounted,
        vec![CapabilityCheck::Window {
            size_positive: true,
            glass_alpha_valid: true,
        }],
    );
    assert_eq!(wall_occupancy_kind_for_prototype(&window), WallOccupancyKind::Opening);
}
