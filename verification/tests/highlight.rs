use iso_store::highlight::{
    collect_dirty_entities, plan_highlight_intents, push_unique, HighlightRuntimeState,
    HighlightToolMode,
};
use iso_store::objects::HighlightKind;

fn check_collect_dirty_entities() {
    let previous = HighlightRuntimeState {
        hovered: Some(1),
        selected: Some(2),
        move_source: Some(3),
        preview: Some(4),
        dirty: Vec::new(),
    };
    let dirty = collect_dirty_entities(&previous, Some(3), Some(5), Some(4), Some(6));
    assert_eq!(dirty, vec![1, 2, 3, 4, 5, 6]);
}

#[test]
fn highlight_collect_dirty_entities_deduplicates_and_preserves_order() {
    check_collect_dirty_entities();
}

#[test]
fn tests_collect_dirty_entities_deduplicates_and_preserves_order() {
    check_collect_dirty_entities();
}

#[test]
fn push_unique_skips_absent_and_known_entities() {
    let mut list = vec![7];
    push_unique(&mut list, None);
    push_unique(&mut list, Some(7));
    push_unique(&mut list, Some(8));
    assert_eq!(list, vec![7, 8]);
}

#[test]
fn selected_and_hovered_objects_get_highlights() {
    let previous = HighlightRuntimeState::default();
    let plan = plan_highlight_intents(&previous, HighlightToolMode::Other, Some(10), Some(11), None, None, false, false);
    assert_eq!(plan.intents, vec![(11, HighlightKind::Selected), (10, HighlightKind::Hover)]);
    assert_eq!(plan.state.hovered, Some(10));
    assert_eq!(plan.state.selected, Some(11));
    assert_eq!(plan.state.dirty, vec![10, 11]);
}

#[test]
fn moved_object_shows_no_selection_or_hover() {
    let previous = HighlightRuntimeState::default();
    let plan = plan_highlight_intents(&previous, HighlightToolMode::Move, Some(5), Some(5), Some(5), Some(9), true, true);
    assert!(plan.intents.is_empty());
    assert_eq!(plan.state.dirty, vec![5, 9]);
}

#[test]
fn tool_modes_filter_the_hover_highlight() {
    let previous = HighlightRuntimeState::default();
    let moving = plan_highlight_intents(&previous, HighlightToolMode::Move, Some(3), None, None, None, false, true);
    assert!(moving.intents.is_empty());
    let moving = plan_highlight_intents(&previous, HighlightToolMode::Move, Some(3), None, None, None, true, false);
    assert_eq!(moving.intents, vec![(3, HighlightKind::Hover)]);
    let deleting = plan_highlight_intents(&previous, HighlightToolMode::Delete, Some(3), None, None, None, true, false);
    assert!(deleting.intents.is_empty());
    let deleting = plan_highlight_intents(&previous, HighlightToolMode::Delete, Some(3), None, None, None, false, true);
    assert_eq!(deleting.intents, vec![(3, HighlightKind::DeleteDanger)]);
}
