use iso_store::objects::{
    rotation_step_index, BuildObjectId, BuildRibbonGroup, BuildRibbonTab, HighlightKind,
    StableObjectId, StableObjectIdAllocator,
};

#[test]
fn allocator_hands_out_increasing_ids() {
    let mut a = StableObjectIdAllocator { next: 41 };
    assert_eq!(a.allocate(), StableObjectId(41));
    assert_eq!(a.allocate(), StableObjectId(42));
    assert_eq!(a.next, 43);
}

#[test]
fn highlight_priorities() {
    assert_eq!(HighlightKind::DeleteDanger.priority(), 100);
    assert_eq!(HighlightKind::MoveInvalid.priority(), 90);
    assert_eq!(HighlightKind::BuildInvalid.priority(), 90);
    assert_eq!(HighlightKind::MoveValid.priority(), 70);
    assert_eq!(HighlightKind::BuildValid.priority(), 70);
    assert_eq!(HighlightKind::Selected.priority(), 50);
    assert_eq!(HighlightKind::Hover.priority(), 10);
}

#[test]
fn rotation_steps_wrap_both_ways() {
    assert_eq!(rotation_step_index(0, 1, 2), 1);
    assert_eq!(rotation_step_index(1, 1, 2), 0);
    assert_eq!(rotation_step_index(0, -1, 4), 3);
    assert_eq!(rotation_step_index(3, 1, 4), 0);
    assert_eq!(rotation_step_index(1, 6, 4), 3);
    assert_eq!(rotation_step_index(2, -7, 4), 3);
    assert_eq!(rotation_step_index(0, -8, 4), 0);
    assert_eq!(rotation_step_index(0, 0, 1), 0);
}

#[test]
fn rotation_arithmetic_is_done_in_i32() {
    assert_eq!(rotation_step_index(4_294_967_297, 1, 4), 2);
    assert_eq!(rotation_step_index(1, 2, 4_294_967_292), 3);
    assert_eq!(rotation_step_index(0, -1, 4_294_967_292), 3);
}

#[test]
fn ribbon_labels() {
    assert_eq!(BuildRibbonTab::Fixtures.label(), "Fixtures");
    assert_eq!(BuildRibbonTab::Service.label(), "Service");
    assert_eq!(BuildRibbonTab::Decor.label(), "Decor");
    assert_eq!(BuildRibbonTab::Walls.label(), "Walls");
    assert_eq!(BuildRibbonTab::Store.label(), "Store");
    assert_eq!(BuildRibbonGroup::Shelves.label(), "Shelves");
    assert_eq!(BuildRibbonGroup::RacksHangers.label(), "Racks / Hangers");
    assert_eq!(BuildRibbonGroup::Fridges.label(), "Fridges");
    assert_eq!(BuildRibbonGroup::Checkout.label(), "Checkout");
    assert_eq!(BuildRibbonGroup::Decor.label(), "Decor");
    assert_eq!(BuildRibbonGroup::Walls.label(), "Walls");
    assert_eq!(BuildRibbonGroup::Expansion.label(), "Expansion");
}

#[test]
fn build_object_id_keeps_its_text() {
    assert_eq!(BuildObjectId::new("fixture.shelf.basic").0, "fixture.shelf.basic");
}
