//! Which tasks an NPC accepts: the role profiles that filter task requests.
use vstd::prelude::*;
use std::collections::VecDeque;

verus! {

/// The part an NPC plays in the store.
#[derive(Debug, Clone, Copy, PartialEq, Eq, Hash, Structural)]
pub enum NpcRole {
    Customer,
    Staff,
    Service,
    Visitor,
    DebugDummy,
}

/// Identifier of a kind of NPC task, such as `base.move_to`.
#[derive(Clone, Debug, PartialEq, Eq, Hash)]
pub struct NpcTaskKindId(pub String);

/// Identifier of an NPC animation action.
#[derive(Clone, Debug, PartialEq, Eq, Hash)]
pub struct NpcAnimActionId(pub String);

/// The queue a task is pushed to: the NPC's own, or the one of tasks assigned to it.
#[derive(Debug, Clone, Copy, PartialEq, Eq, Structural)]
pub enum NpcTaskQueueKind {
    Personal,
    Assigned,
}

/// Who asked for a task.
#[derive(Debug, Clone, Copy, PartialEq, Eq, Hash, Structural)]
pub enum NpcTaskSource {
    Player,
    Automation,
    AiSelf,
    Debug,
}

/// A task request as validation reads it: its kind, the animation it asks for and who
/// asked for it.
#[derive(Debug, Clone)]
pub struct NpcTask {
    pub kind: NpcTaskKindId,
    pub requested_animation: Option<NpcAnimActionId>,
    pub source: NpcTaskSource,
}

/// What an NPC role accepts: task kinds per queue and the sources it listens to. Each
/// list is read as a set.
#[derive(Debug, Clone)]
pub struct NpcTaskProfileSpec {
    pub role: NpcRole,
    pub allowed_personal_tasks: Vec<NpcTaskKindId>,
    pub allowed_assigned_tasks: Vec<NpcTaskKindId>,
    pub task_sources: Vec<NpcTaskSource>,
}

/// Why a task is refused.
#[derive(Debug, Clone, Copy, PartialEq, Eq, Structural)]
pub enum NpcTaskValidationError {
    RoleMismatch,
    QueueMismatch,
    SourceNotAllowed,
    TaskKindNotAllowed,
    PayloadMismatch,
}

/// Some entry of `kinds` has the text of `kind`.
pub open spec fn kind_listed(kinds: Seq<NpcTaskKindId>, kind: NpcTaskKindId) -> bool {
    exists|i: int| 0 <= i < kinds.len() && (#[trigger] kinds[i]).0@ == kind.0@
}

/// The answer to a task request: the role must be the profile's, the source one it
/// listens to, and the kind allowed for the queue; customers take no assigned tasks.
pub open spec fn task_verdict(
    role: NpcRole,
    profile: &NpcTaskProfileSpec,
    queue: NpcTaskQueueKind,
    task: &NpcTask,
) -> Result<(), NpcTaskValidationError> {
    if role != profile.role {
        Err(NpcTaskValidationError::RoleMismatch)
    } else if !profile.task_sources@.contains(task.source) {
        Err(NpcTaskValidationError::SourceNotAllowed)
    } else {
        match queue {
            NpcTaskQueueKind::Personal => if !kind_listed(profile.allowed_personal_tasks@, task.kind) {
                Err(NpcTaskValidationError::TaskKindNotAllowed)
            } else {
                Ok(())
            },
            NpcTaskQueueKind::Assigned => if role == NpcRole::Customer {
                Err(NpcTaskValidationError::QueueMismatch)
            } else if !kind_listed(profile.allowed_assigned_tasks@, task.kind) {
                Err(NpcTaskValidationError::TaskKindNotAllowed)
            } else {
                Ok(())
            },
        }
    }
}

/// Whether `kinds` lists the text of `kind`.
fn kinds_contain(kinds: &Vec<NpcTaskKindId>, kind: &NpcTaskKindId) -> (r: bool)
    ensures
        r == kind_listed(kinds@, *kind),
{
    let mut i: usize = 0;
    while i < kinds.len()
        invariant
            i <= kinds@.len(),
            forall|j: int| 0 <= j < i ==> (#[trigger] kinds@[j]).0@ != kind.0@,
        decreases kinds@.len() - i,
    {
        if kinds[i].0 == kind.0 {
            return true;
        }
        i = i + 1;
    }
    false
}

/// Whether `sources` holds `source`.
fn sources_contain(sources: &Vec<NpcTaskSource>, source: NpcTaskSource) -> (r: bool)
    ensures
        r == sources@.contains(source),
{
    let mut i: usize = 0;
    while i < sources.len()
        invariant
            i <= sources@.len(),
            forall|j: int| 0 <= j < i ==> sources@[j] != source,
        decreases sources@.len() - i,
    {
        if sources[i] == source {
            proof {
                assert(sources@[i as int] == source);
            }
            return true;
        }
        i = i + 1;
    }
    false
}

/// Checks a task request for an NPC of `role` against its profile; the answer is
/// `task_verdict`.
pub fn validate_task_for_npc_role(
    role: NpcRole,
    profile: &NpcTaskProfileSpec,
    queue: NpcTaskQueueKind,
    task: &NpcTask,
) -> (r: Result<(), NpcTaskValidationError>)
    ensures
        r == task_verdict(role, profile, queue, task),
        role == profile.role && !profile.task_sources@.contains(task.source) ==> r == Err::<
            (),
            NpcTaskValidationError,
        >(NpcTaskValidationError::SourceNotAllowed),
        r is Ok ==> {
            &&& role == profile.role
            &&& profile.task_sources@.contains(task.source)
            &&& queue == NpcTaskQueueKind::Personal ==> exists|i: int|
                0 <= i < profile.allowed_personal_tasks@.len()
                    && (#[trigger] profile.allowed_personal_tasks@[i]).0@ == task.kind.0@
            &&& queue == NpcTaskQueueKind::Assigned ==> role != NpcRole::Customer && exists|i: int|
                0 <= i < profile.allowed_assigned_tasks@.len()
                    && (#[trigger] profile.allowed_assigned_tasks@[i]).0@ == task.kind.0@
        },
{
    proof {
        lemma_accepted_tasks_pass_every_check(role, profile, queue, task);
    }
    if role != profile.role {
        return Err(NpcTaskValidationError::RoleMismatch);
    }
    if !sources_contain(&profile.task_sources, task.source) {
        return Err(NpcTaskValidationError::SourceNotAllowed);
    }
    match queue {
        NpcTaskQueueKind::Personal => {
            if !kinds_contain(&profile.allowed_personal_tasks, &task.kind) {
                return Err(NpcTaskValidationError::TaskKindNotAllowed);
            }
        },
        NpcTaskQueueKind::Assigned => {
            if role == NpcRole::Customer {
                return Err(NpcTaskValidationError::QueueMismatch);
            }
            if !kinds_contain(&profile.allowed_assigned_tasks, &task.kind) {
                return Err(NpcTaskValidationError::TaskKindNotAllowed);
            }
        },
    }
    Ok(())
}

/// A task is accepted only from an NPC of the profile's role, from a source the profile
/// listens to, of a kind the profile allows on the chosen queue, and on the assigned queue
/// never by a customer. A request of the right role from a source the profile does not
/// listen to is refused for its source, on every queue.
pub proof fn lemma_accepted_tasks_pass_every_check(
    role: NpcRole,
    profile: &NpcTaskProfileSpec,
    queue: NpcTaskQueueKind,
    task: &NpcTask,
)
    ensures
        role == profile.role && !profile.task_sources@.contains(task.source) ==> task_verdict(
            role,
            profile,
            queue,
            task,
        ) == Err::<(), NpcTaskValidationError>(NpcTaskValidationError::SourceNotAllowed),
        task_verdict(role, profile, queue, task) is Ok ==> {
            &&& role == profile.role
            &&& profile.task_sources@.contains(task.source)
            &&& queue == NpcTaskQueueKind::Personal ==> exists|i: int|
                0 <= i < profile.allowed_personal_tasks@.len()
                    && (#[trigger] profile.allowed_personal_tasks@[i]).0@ == task.kind.0@
            &&& queue == NpcTaskQueueKind::Assigned ==> role != NpcRole::Customer && exists|i: int|
                0 <= i < profile.allowed_assigned_tasks@.len()
                    && (#[trigger] profile.allowed_assigned_tasks@[i]).0@ == task.kind.0@
        },
{
}

/// Customers never accept a task on the assigned queue.
pub proof fn lemma_customers_take_no_assignments(profile: &NpcTaskProfileSpec, task: &NpcTask)
    ensures
        task_verdict(NpcRole::Customer, profile, NpcTaskQueueKind::Assigned, task) is Err,
{
}

/// The eight facings of an NPC sprite.
#[derive(Debug, Clone, Copy, PartialEq, Eq, Hash, Structural)]
pub enum NpcDirection {
    E,
    N,
    NW,
    S,
    SE,
    W,
    SW,
    NE,
}

/// Which facing each world axis direction maps to.
#[derive(Debug, Clone, Copy, PartialEq, Eq, Structural)]
pub struct NpcDirectionMapping {
    pub positive_x: NpcDirection,
    pub negative_x: NpcDirection,
    pub positive_y: NpcDirection,
    pub negative_y: NpcDirection,
}

impl Default for NpcDirectionMapping {
    /// The axis-aligned mapping: +x east, -x west, +y north, -y south.
    fn default() -> (r: NpcDirectionMapping)
        ensures
            r == (NpcDirectionMapping {
                positive_x: NpcDirection::E,
                negative_x: NpcDirection::W,
                positive_y: NpcDirection::N,
                negative_y: NpcDirection::S,
            }),
    {
        NpcDirectionMapping {
            positive_x: NpcDirection::E,
            negative_x: NpcDirection::W,
            positive_y: NpcDirection::N,
            negative_y: NpcDirection::S,
        }
    }
}

/// Whether an NPC is walking.
#[derive(Debug, Clone, Copy, PartialEq, Eq, Structural)]
pub enum NpcLocomotionState {
    Idle,
    Moving,
}

/// The animation an NPC shows: an action and, if known, a facing.
#[derive(Debug, Clone)]
pub struct NpcAnimationIntent {
    pub action: NpcAnimActionId,
    pub direction: Option<NpcDirection>,
}

/// The animation that follows from locomotion: `base.walk` while moving, `base.idle`
/// otherwise, facing where the NPC faces.
pub fn animation_intent_from_locomotion(state: NpcLocomotionState, facing: NpcDirection) -> (r: NpcAnimationIntent)
    ensures
        r.action.0@ == match state {
            NpcLocomotionState::Moving => "base.walk"@,
            NpcLocomotionState::Idle => "base.idle"@,
        },
        r.direction == Some(facing),
{
    let action = match state {
        NpcLocomotionState::Moving => NpcAnimActionId("base.walk".to_owned()),
        NpcLocomotionState::Idle => NpcAnimActionId("base.idle".to_owned()),
    };
    NpcAnimationIntent { action, direction: Some(facing) }
}

/// Validates a task request and, when it is accepted, appends the task to the queue it
/// names; a refused task leaves both queues as they were.
pub fn push_npc_task(
    role: NpcRole,
    profile: &NpcTaskProfileSpec,
    queue: NpcTaskQueueKind,
    task: NpcTask,
    personal: &mut VecDeque<NpcTask>,
    assigned: &mut VecDeque<NpcTask>,
) -> (r: Result<(), NpcTaskValidationError>)
    ensures
        r == task_verdict(role, profile, queue, &task),
        r is Ok && queue == NpcTaskQueueKind::Personal ==> final(personal)@ == old(personal)@.push(task)
            && final(assigned)@ == old(assigned)@,
        r is Ok && queue == NpcTaskQueueKind::Assigned ==> final(assigned)@ == old(assigned)@.push(task)
            && final(personal)@ == old(personal)@,
        r is Err ==> final(personal)@ == old(personal)@ && final(assigned)@ == old(assigned)@,
{
    let verdict = validate_task_for_npc_role(role, profile, queue, &task);
    if verdict.is_err() {
        return verdict;
    }
    match queue {
        NpcTaskQueueKind::Personal => personal.push_back(task),
        NpcTaskQueueKind::Assigned => assigned.push_back(task),
    }
    verdict
}

/// Takes the task an idle NPC starts next: nothing while it still walks a route, else the
/// first personal task, else the first assigned task.
pub fn take_next_npc_task(
    route_in_progress: bool,
    personal: &mut VecDeque<NpcTask>,
    assigned: &mut VecDeque<NpcTask>,
) -> (r: Option<NpcTask>)
    ensures
        route_in_progress ==> r is None && final(personal)@ == old(personal)@ && final(assigned)@
            == old(assigned)@,
        !route_in_progress && old(personal)@.len() > 0 ==> r == Some(old(personal)@[0])
            && final(personal)@ == old(personal)@.drop_first() && final(assigned)@ == old(assigned)@,
        !route_in_progress && old(personal)@.len() == 0 && old(assigned)@.len() > 0 ==> r == Some(
            old(assigned)@[0],
        ) && final(assigned)@ == old(assigned)@.drop_first() && final(personal)@ == old(personal)@,
        !route_in_progress && old(personal)@.len() == 0 && old(assigned)@.len() == 0 ==> r is None
            && final(personal)@ == old(personal)@ && final(assigned)@ == old(assigned)@,
{
    if route_in_progress {
        return None;
    }
    match personal.pop_front() {
        Some(task) => Some(task),
        None => assigned.pop_front(),
    }
}

} // verus!
