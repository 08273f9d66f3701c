//! Input actions: which buttons trigger which action, and the per-frame action state
//! derived from the buttons that are down, went down or went up this frame.
use vstd::prelude::*;

verus! {

/// Something the player can do with a button.
#[derive(Debug, Clone, Copy, PartialEq, Eq, Hash, Structural)]
pub enum InputAction {
    ToolCursor,
    ToolMove,
    ToolDelete,
    ToolBuild,
    PrimaryClick,
    SecondaryClick,
    Cancel,
    Confirm,
    Rotate,
    QuickSave,
    QuickLoad,
    CameraZoomIn,
    CameraZoomOut,
    ToggleFullscreen,
    PrintDebugPositions,
}

/// The keyboard keys that actions can be bound to.
#[derive(Debug, Clone, Copy, PartialEq, Eq, Hash, Structural)]
pub enum BoundKey {
    Digit1,
    Digit2,
    Digit3,
    Digit4,
    Escape,
    Enter,
    KeyR,
    F1,
    F5,
    F8,
    F11,
    Equal,
    Minus,
}

/// The mouse buttons that actions can be bound to.
#[derive(Debug, Clone, Copy, PartialEq, Eq, Hash, Structural)]
pub enum BoundMouseButton {
    Left,
    Right,
}

/// A button that triggers an action.
#[derive(Debug, Clone, Copy, PartialEq, Eq, Hash, Structural)]
pub enum InputBinding {
    Key(BoundKey),
    Mouse(BoundMouseButton),
}

/// The bindings of all actions: each entry binds one button to one action; an action
/// may have several buttons.
#[derive(Debug, Clone)]
pub struct InputBindings {
    pub map: Vec<(InputAction, InputBinding)>,
}

/// The buttons that are down, that went down this frame and that went up this frame.
#[derive(Debug, Clone)]
pub struct ButtonStates {
    pub pressed: Vec<InputBinding>,
    pub just_pressed: Vec<InputBinding>,
    pub just_released: Vec<InputBinding>,
}

/// The actions that are active, that started this frame and that ended this frame.
#[derive(Debug, Clone, Default)]
pub struct InputActionState {
    pub pressed: Vec<InputAction>,
    pub just_pressed: Vec<InputAction>,
    pub just_released: Vec<InputAction>,
}

impl InputActionState {
    /// Whether `action` is active.
    pub fn pressed(&self, action: InputAction) -> (r: bool)
        ensures
            r == self.pressed@.contains(action),
    {
        action_listed(&self.pressed, action)
    }

    /// Whether `action` started this frame.
    pub fn just_pressed(&self, action: InputAction) -> (r: bool)
        ensures
            r == self.just_pressed@.contains(action),
    {
        action_listed(&self.just_pressed, action)
    }

    /// Whether `action` ended this frame.
    pub fn just_released(&self, action: InputAction) -> (r: bool)
        ensures
            r == self.just_released@.contains(action),
    {
        action_listed(&self.just_released, action)
    }
}

/// Whether `v` holds `a`.
fn action_listed(v: &Vec<InputAction>, a: InputAction) -> (r: bool)
    ensures
        r == v@.contains(a),
{
    let mut i: usize = 0;
    while i < v.len()
        invariant
            i <= v@.len(),
            forall|j: int| 0 <= j < i ==> v@[j] != a,
        decreases v@.len() - i,
    {
        if v[i] == a {
            proof {
                assert(v@[i as int] == a);
            }
            return true;
        }
        i = i + 1;
    }
    false
}

/// Whether `v` holds `b`.
fn binding_listed(v: &Vec<InputBinding>, b: InputBinding) -> (r: bool)
    ensures
        r == v@.contains(b),
{
    let mut i: usize = 0;
    while i < v.len()
        invariant
            i <= v@.len(),
            forall|j: int| 0 <= j < i ==> v@[j] != b,
        decreases v@.len() - i,
    {
        if v[i] == b {
            proof {
                assert(v@[i as int] == b);
            }
            return true;
        }
        i = i + 1;
    }
    false
}

/// Some button bound to `action` is among `buttons`.
pub open spec fn action_triggered(
    map: Seq<(InputAction, InputBinding)>,
    buttons: Seq<InputBinding>,
    action: InputAction,
) -> bool {
    exists|i: int| 0 <= i < map.len() && (#[trigger] map[i]).0 == action && buttons.contains(map[i].1)
}

/// The default bindings, one button per action.
pub open spec fn default_binding(action: InputAction) -> InputBinding {
    match action {
        InputAction::ToolCursor => InputBinding::Key(BoundKey::Digit1),
        InputAction::ToolMove => InputBinding::Key(BoundKey::Digit2),
        InputAction::ToolDelete => InputBinding::Key(BoundKey::Digit3),
        InputAction::ToolBuild => InputBinding::Key(BoundKey::Digit4),
        InputAction::PrimaryClick => InputBinding::Mouse(BoundMouseButton::Left),
        InputAction::SecondaryClick => InputBinding::Mouse(BoundMouseButton::Right),
        InputAction::Cancel => InputBinding::Key(BoundKey::Escape),
        InputAction::Confirm => InputBinding::Key(BoundKey::Enter),
        InputAction::Rotate => InputBinding::Key(BoundKey::KeyR),
        InputAction::QuickSave => InputBinding::Key(BoundKey::F5),
        InputAction::QuickLoad => InputBinding::Key(BoundKey::F8),
        InputAction::CameraZoomIn => InputBinding::Key(BoundKey::Equal),
        InputAction::CameraZoomOut => InputBinding::Key(BoundKey::Minus),
        InputAction::ToggleFullscreen => InputBinding::Key(BoundKey::F11),
        InputAction::PrintDebugPositions => InputBinding::Key(BoundKey::F1),
    }
}

impl Default for InputBindings {
    /// Every action bound to exactly its `default_binding`, one entry per action.
    fn default() -> (r: InputBindings)
        ensures
            r.map@.len() == 15,
            forall|a: InputAction, b: InputBinding|
                #[trigger] r.map@.contains((a, b)) <==> b == default_binding(a),
    {
        let mut bindings = InputBindings { map: Vec::new() };
        bindings.insert(InputAction::ToolCursor, InputBinding::Key(BoundKey::Digit1));
        bindings.insert(InputAction::ToolMove, InputBinding::Key(BoundKey::Digit2));
        bindings.insert(InputAction::ToolDelete, InputBinding::Key(BoundKey::Digit3));
        bindings.insert(InputAction::ToolBuild, InputBinding::Key(BoundKey::Digit4));
        bindings.insert(InputAction::PrimaryClick, InputBinding::Mouse(BoundMouseButton::Left));
        bindings.insert(InputAction::SecondaryClick, InputBinding::Mouse(BoundMouseButton::Right));
        bindings.insert(InputAction::Cancel, InputBinding::Key(BoundKey::Escape));
        bindings.insert(InputAction::Confirm, InputBinding::Key(BoundKey::Enter));
        bindings.insert(InputAction::Rotate, InputBinding::Key(BoundKey::KeyR));
        bindings.insert(InputAction::QuickSave, InputBinding::Key(BoundKey::F5));
        bindings.insert(InputAction::QuickLoad, InputBinding::Key(BoundKey::F8));
        bindings.insert(InputAction::CameraZoomIn, InputBinding::Key(BoundKey::Equal));
        bindings.insert(InputAction::CameraZoomOut, InputBinding::Key(BoundKey::Minus));
        bindings.insert(InputAction::ToggleFullscreen, InputBinding::Key(BoundKey::F11));
        bindings.insert(InputAction::PrintDebugPositions, InputBinding::Key(BoundKey::F1));
        proof {
            let m = bindings.map@;
            assert forall|a: InputAction, b: InputBinding| #[trigger] m.contains((a, b)) <==> b == default_binding(a) by {
                if m.contains((a, b)) {
                    let i = choose|i: int| 0 <= i < m.len() && m[i] == (a, b);
                }
                if b == default_binding(a) {
                    let i: int = match a {
                        InputAction::ToolCursor => 0,
                        InputAction::ToolMove => 1,
                        InputAction::ToolDelete => 2,
                        InputAction::ToolBuild => 3,
                        InputAction::PrimaryClick => 4,
                        InputAction::SecondaryClick => 5,
                        InputAction::Cancel => 6,
                        InputAction::Confirm => 7,
                        InputAction::Rotate => 8,
                        InputAction::QuickSave => 9,
                        InputAction::QuickLoad => 10,
                        InputAction::CameraZoomIn => 11,
                        InputAction::CameraZoomOut => 12,
                        InputAction::ToggleFullscreen => 13,
                        InputAction::PrintDebugPositions => 14,
                    };
                    assert(m[i] == (a, b));
                }
            }
        }
        bindings
    }
}

impl InputBindings {
    /// Binds `binding` to `action`, in addition to the buttons bound already.
    pub fn insert(&mut self, action: InputAction, binding: InputBinding)
        ensures
            final(self).map@ == old(self).map@.push((action, binding)),
    {
        self.map.push((action, binding));
    }

    /// Whether some button of `buttons` is bound to `action`.
    fn triggered(&self, action: InputAction, buttons: &Vec<InputBinding>) -> (r: bool)
        ensures
            r == action_triggered(self.map@, buttons@, action),
    {
        let mut i: usize = 0;
        while i < self.map.len()
            invariant
                i <= self.map@.len(),
                forall|j: int|
                    0 <= j < i ==> !((#[trigger] self.map@[j]).0 == action && buttons@.contains(self.map@[j].1)),
            decreases self.map@.len() - i,
        {
            let (a, b) = self.map[i];
            if a == action && binding_listed(buttons, b) {
                return true;
            }
            i = i + 1;
        }
        false
    }

    /// Whether a button bound to `action` went down this frame.
    pub fn just_pressed(&self, action: InputAction, buttons: &ButtonStates) -> (r: bool)
        ensures
            r == action_triggered(self.map@, buttons.just_pressed@, action),
    {
        self.triggered(action, &buttons.just_pressed)
    }

    /// Whether a button bound to `action` is down.
    pub fn pressed(&self, action: InputAction, buttons: &ButtonStates) -> (r: bool)
        ensures
            r == action_triggered(self.map@, buttons.pressed@, action),
    {
        self.triggered(action, &buttons.pressed)
    }

    /// Whether a button bound to `action` went up this frame.
    pub fn just_released(&self, action: InputAction, buttons: &ButtonStates) -> (r: bool)
        ensures
            r == action_triggered(self.map@, buttons.just_released@, action),
    {
        self.triggered(action, &buttons.just_released)
    }
}

/// The actions of `map` that some button of `buttons` triggers, each once.
fn triggered_actions(map: &Vec<(InputAction, InputBinding)>, buttons: &Vec<InputBinding>) -> (r: Vec<InputAction>)
    ensures
        r@.no_duplicates(),
        forall|a: InputAction| #[trigger] r@.contains(a) <==> action_triggered(map@, buttons@, a),
{
    let mut out: Vec<InputAction> = Vec::new();
    let mut i: usize = 0;
    while i < map.len()
        invariant
            i <= map@.len(),
            out@.no_duplicates(),
            forall|a: InputAction|
                #[trigger] out@.contains(a) <==> exists|j: int|
                    0 <= j < i && (#[trigger] map@[j]).0 == a && buttons@.contains(map@[j].1),
        decreases map@.len() - i,
    {
        let (a, b) = map[i];
        if binding_listed(buttons, b) && !action_listed(&out, a) {
            let ghost before = out@;
            out.push(a);
            proof {
                assert forall|x: InputAction| #[trigger] out@.contains(x) <==> (before.contains(x) || x == a) by {
                    if out@.contains(x) {
                        let k = choose|k: int| 0 <= k < out@.len() && out@[k] == x;
                        if k < before.len() {
                            assert(before[k] == x);
                        }
                    }
                    if before.contains(x) {
                        let k = choose|k: int| 0 <= k < before.len() && before[k] == x;
                        assert(out@[k] == x);
                    }
                    if x == a {
                        assert(out@[before.len() as int] == x);
                    }
                }
                assert forall|p: int, q: int| 0 <= p < q < out@.len() implies out@[p] != out@[q] by {
                    if q == before.len() {
                        assert(before.contains(before[p]));
                    }
                }
            }
        }
        proof {
            assert forall|x: InputAction| #[trigger] out@.contains(x) <==> exists|j: int|
                0 <= j < i + 1 && (#[trigger] map@[j]).0 == x && buttons@.contains(map@[j].1) by {
                if exists|j: int| 0 <= j < i + 1 && (#[trigger] map@[j]).0 == x && buttons@.contains(map@[j].1) {
                    let j = choose|j: int| 0 <= j < i + 1 && (#[trigger] map@[j]).0 == x && buttons@.contains(map@[j].1);
                    if j == i {
                        assert(map@[i as int] == (a, b));
                    }
                }
                if out@.contains(x) && !(exists|j: int| 0 <= j < i && (#[trigger] map@[j]).0 == x && buttons@.contains(map@[j].1)) {
                    assert(map@[i as int] == (a, b));
                }
            }
        }
        i = i + 1;
    }
    out
}

/// Recomputes the action state from the buttons of this frame: an action is active,
/// started or ended when one of its buttons is down, went down or went up.
pub fn update_input_action_state(
    bindings: &InputBindings,
    buttons: &ButtonStates,
    state: &mut InputActionState,
)
    ensures
        final(state).pressed@.no_duplicates(),
        final(state).just_pressed@.no_duplicates(),
        final(state).just_released@.no_duplicates(),
        forall|a: InputAction|
            #[trigger] final(state).pressed@.contains(a) <==> action_triggered(bindings.map@, buttons.pressed@, a),
        forall|a: InputAction|
            #[trigger] final(state).just_pressed@.contains(a) <==> action_triggered(
                bindings.map@,
                buttons.just_pressed@,
                a,
            ),
        forall|a: InputAction|
            #[trigger] final(state).just_released@.contains(a) <==> action_triggered(
                bindings.map@,
                buttons.just_released@,
                a,
            ),
{
    state.pressed = triggered_actions(&bindings.map, &buttons.pressed);
    state.just_pressed = triggered_actions(&bindings.map, &buttons.just_pressed);
    state.just_released = triggered_actions(&bindings.map, &buttons.just_released);
}

} // verus!
