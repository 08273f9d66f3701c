use iso_store::npc::{animation_intent_from_locomotion, push_npc_task, take_next_npc_task, NpcDirection, NpcDirectionMapping, NpcLocomotionState};
use std::collections::VecDeque;
use iso_store::npc::{
    validate_task_for_npc_role, NpcRole, NpcTask, NpcTaskKindId, NpcTaskProfileSpec,
    NpcTaskQueueKind, NpcTaskSource, NpcTaskValidationError,
};

fn create_test_profile(role: NpcRole) -> NpcTaskProfileSpec {
    let personal = vec![NpcTaskKindId("base.move_to".to_string())];
    let mut assigned = Vec::new();
    if role == NpcRole::Staff {
        assigned.push(NpcTaskKindId("staff.work".to_string()));
    }
    NpcTaskProfileSpec {
        role,
        allowed_personal_tasks: personal,
        allowed_assigned_tasks: assigned,
        task_sources: vec![NpcTaskSource::Player, NpcTaskSource::AiSelf],
    }
}

fn task(kind: &str, source: NpcTaskSource) -> NpcTask {
    NpcTask {
        kind: NpcTaskKindId(kind.to_string()),
        requested_animation: None,
        source,
    }
}

#[test]
fn test_task_validation() {
    let customer_profile = create_test_profile(NpcRole::Customer);
    let staff_profile = create_test_profile(NpcRole::Staff);
    let move_task = task("base.move_to", NpcTaskSource::Player);
    let staff_task = task("staff.work", NpcTaskSource::Player);
    assert!(validate_task_for_npc_role(NpcRole::Customer, &customer_profile, NpcTaskQueueKind::Personal, &move_task).is_ok());
    assert!(matches!(
        validate_task_for_npc_role(NpcRole::Customer, &customer_profile, NpcTaskQueueKind::Assigned, &move_task),
        Err(NpcTaskValidationError::QueueMismatch)
    ));
    assert!(validate_task_for_npc_role(NpcRole::Staff, &staff_profile, NpcTaskQueueKind::Assigned, &staff_task).is_ok());
    assert!(matches!(
        validate_task_for_npc_role(NpcRole::Customer, &customer_profile, NpcTaskQueueKind::Personal, &staff_task),
        Err(NpcTaskValidationError::TaskKindNotAllowed)
    ));
}

#[test]
fn role_and_source_are_checked_first() {
    let staff_profile = create_test_profile(NpcRole::Staff);
    let move_task = task("base.move_to", NpcTaskSource::Player);
    assert_eq!(
        validate_task_for_npc_role(NpcRole::Visitor, &staff_profile, NpcTaskQueueKind::Personal, &move_task),
        Err(NpcTaskValidationError::RoleMismatch)
    );
    let automated = task("base.move_to", NpcTaskSource::Automation);
    assert_eq!(
        validate_task_for_npc_role(NpcRole::Staff, &staff_profile, NpcTaskQueueKind::Personal, &automated),
        Err(NpcTaskValidationError::SourceNotAllowed)
    );
    let unknown = task("staff.sweep", NpcTaskSource::AiSelf);
    assert_eq!(
        validate_task_for_npc_role(NpcRole::Staff, &staff_profile, NpcTaskQueueKind::Assigned, &unknown),
        Err(NpcTaskValidationError::TaskKindNotAllowed)
    );
}

#[test]
fn accepted_tasks_join_their_queue_and_personal_tasks_run_first() {
    let staff_profile = create_test_profile(NpcRole::Staff);
    let mut personal = VecDeque::new();
    let mut assigned = VecDeque::new();
    let r = push_npc_task(
        NpcRole::Staff,
        &staff_profile,
        NpcTaskQueueKind::Assigned,
        task("staff.work", NpcTaskSource::Player),
        &mut personal,
        &mut assigned,
    );
    assert!(r.is_ok());
    let r = push_npc_task(
        NpcRole::Staff,
        &staff_profile,
        NpcTaskQueueKind::Personal,
        task("base.move_to", NpcTaskSource::AiSelf),
        &mut personal,
        &mut assigned,
    );
    assert!(r.is_ok());
    let refused = push_npc_task(
        NpcRole::Staff,
        &staff_profile,
        NpcTaskQueueKind::Personal,
        task("staff.work", NpcTaskSource::Player),
        &mut personal,
        &mut assigned,
    );
    assert_eq!(refused, Err(NpcTaskValidationError::TaskKindNotAllowed));
    assert_eq!(personal.len(), 1);
    assert_eq!(assigned.len(), 1);
    assert!(take_next_npc_task(true, &mut personal, &mut assigned).is_none());
    assert_eq!(take_next_npc_task(false, &mut personal, &mut assigned).unwrap().kind.0, "base.move_to");
    assert_eq!(take_next_npc_task(false, &mut personal, &mut assigned).unwrap().kind.0, "staff.work");
    assert!(take_next_npc_task(false, &mut personal, &mut assigned).is_none());
}

#[test]
fn locomotion_picks_walk_or_idle_animation() {
    let walking = animation_intent_from_locomotion(NpcLocomotionState::Moving, NpcDirection::SE);
    assert_eq!(walking.action.0, "base.walk");
    assert_eq!(walking.direction, Some(NpcDirection::SE));
    let idle = animation_intent_from_locomotion(NpcLocomotionState::Idle, NpcDirection::N);
    assert_eq!(idle.action.0, "base.idle");
    let mapping = NpcDirectionMapping::default();
    assert_eq!(mapping.positive_x, NpcDirection::E);
    assert_eq!(mapping.negative_x, NpcDirection::W);
    assert_eq!(mapping.positive_y, NpcDirection::N);
    assert_eq!(mapping.negative_y, NpcDirection::S);
}
