//! Held buttons and the presses derived from them.
//!
//! A snapshot says which of the ten logical buttons are held during a tick.
//! Snapshots of several sources merge button by button. The discrete actions of
//! the menus are edges: an action happens in the tick in which it is held and
//! was not held in the snapshot before.

use vstd::prelude::*;

verus! {

/// One of the ten logical buttons.
#[derive(Clone, Copy, Debug, PartialEq, Eq, Structural)]
pub enum Button {
    SystemOnePlayer,
    SystemTwoPlayer,
    Player1Left,
    Player1Right,
    Player1Up,
    Player1Down,
    Player1A,
    Player2Left,
    Player2Right,
    Player2A,
}

/// Which buttons are held, as the keyboard reports them key by key.
#[derive(Clone, Copy, Debug, PartialEq, Eq, Structural)]
pub struct KeyboardState {
    pub system_one_player: bool,
    pub system_two_player: bool,
    pub player1_left: bool,
    pub player1_right: bool,
    pub player1_up: bool,
    pub player1_down: bool,
    pub player1_a: bool,
    pub player2_left: bool,
    pub player2_right: bool,
    pub player2_a: bool,
}

/// Which buttons are held during one tick.
#[derive(Clone, Copy, Debug, PartialEq, Eq, Structural)]
pub struct InputSnapshot {
    pub system_one_player: bool,
    pub system_two_player: bool,
    pub player1_left: bool,
    pub player1_right: bool,
    pub player1_up: bool,
    pub player1_down: bool,
    pub player1_a: bool,
    pub player2_left: bool,
    pub player2_right: bool,
    pub player2_a: bool,
}

/// A discrete action of the menus and of name entry.
#[derive(Clone, Copy, Debug, PartialEq, Eq, Structural)]
pub enum Action {
    SystemOnePlayer,
    SystemTwoPlayer,
    Confirm,
    Up,
    Down,
    Left,
    Right,
}

/// The actions that happen in one tick.
#[derive(Clone, Copy, Debug, PartialEq, Eq, Structural)]
pub struct EdgeSet {
    pub system_one_player: bool,
    pub system_two_player: bool,
    pub confirm: bool,
    pub up: bool,
    pub down: bool,
    pub left: bool,
    pub right: bool,
}

/// The button that a key of the keyboard stands for, by the key's code.
pub open spec fn button_for_code(code: Seq<char>) -> Option<Button> {
    if code == "Digit1"@ {
        Some(Button::SystemOnePlayer)
    } else if code == "Digit2"@ {
        Some(Button::SystemTwoPlayer)
    } else if code == "ArrowLeft"@ {
        Some(Button::Player1Left)
    } else if code == "ArrowRight"@ {
        Some(Button::Player1Right)
    } else if code == "ArrowUp"@ {
        Some(Button::Player1Up)
    } else if code == "ArrowDown"@ {
        Some(Button::Player1Down)
    } else if code == "ControlLeft"@ {
        Some(Button::Player1A)
    } else if code == "KeyD"@ {
        Some(Button::Player2Left)
    } else if code == "KeyG"@ {
        Some(Button::Player2Right)
    } else if code == "KeyA"@ {
        Some(Button::Player2A)
    } else {
        None
    }
}

/// Tells whether two strings hold the same characters.
pub fn same_text(left: &str, right: &str) -> (same: bool)
    ensures
        same == (left@ == right@),
{
    let length: usize = left.unicode_len();
    if right.unicode_len() != length {
        return false;
    }
    let mut i: usize = 0;
    while i < length
        invariant
            i <= length,
            length == left@.len(),
            length == right@.len(),
            forall|k: int| 0 <= k < i ==> left@[k] == right@[k],
        decreases length - i,
    {
        if left.get_char(i) != right.get_char(i) {
            return false;
        }
        i = i + 1;
    }
    assert(left@ =~= right@);
    true
}

/// The button that a key of the keyboard stands for, by the key's code.
pub fn button_for(code: &str) -> (button: Option<Button>)
    ensures
        button == button_for_code(code@),
{
    if same_text(code, "Digit1") {
        Some(Button::SystemOnePlayer)
    } else if same_text(code, "Digit2") {
        Some(Button::SystemTwoPlayer)
    } else if same_text(code, "ArrowLeft") {
        Some(Button::Player1Left)
    } else if same_text(code, "ArrowRight") {
        Some(Button::Player1Right)
    } else if same_text(code, "ArrowUp") {
        Some(Button::Player1Up)
    } else if same_text(code, "ArrowDown") {
        Some(Button::Player1Down)
    } else if same_text(code, "ControlLeft") {
        Some(Button::Player1A)
    } else if same_text(code, "KeyD") {
        Some(Button::Player2Left)
    } else if same_text(code, "KeyG") {
        Some(Button::Player2Right)
    } else if same_text(code, "KeyA") {
        Some(Button::Player2A)
    } else {
        None
    }
}

impl KeyboardState {
    /// No key is held.
    pub open spec fn released() -> KeyboardState {
        KeyboardState {
            system_one_player: false,
            system_two_player: false,
            player1_left: false,
            player1_right: false,
            player1_up: false,
            player1_down: false,
            player1_a: false,
            player2_left: false,
            player2_right: false,
            player2_a: false,
        }
    }

    /// The state with one button pressed or released.
    pub open spec fn with_button(self, button: Button, pressed: bool) -> KeyboardState {
        match button {
            Button::SystemOnePlayer => KeyboardState { system_one_player: pressed, ..self },
            Button::SystemTwoPlayer => KeyboardState { system_two_player: pressed, ..self },
            Button::Player1Left => KeyboardState { player1_left: pressed, ..self },
            Button::Player1Right => KeyboardState { player1_right: pressed, ..self },
            Button::Player1Up => KeyboardState { player1_up: pressed, ..self },
            Button::Player1Down => KeyboardState { player1_down: pressed, ..self },
            Button::Player1A => KeyboardState { player1_a: pressed, ..self },
            Button::Player2Left => KeyboardState { player2_left: pressed, ..self },
            Button::Player2Right => KeyboardState { player2_right: pressed, ..self },
            Button::Player2A => KeyboardState { player2_a: pressed, ..self },
        }
    }

    /// The state after a key event: the key's button is pressed or released, and
    /// a key that stands for no button changes nothing.
    pub open spec fn after_key(self, code: Seq<char>, pressed: bool) -> KeyboardState {
        match button_for_code(code) {
            Some(button) => self.with_button(button, pressed),
            None => self,
        }
    }

    /// The snapshot that says what the keyboard holds.
    pub open spec fn snapshot(self) -> InputSnapshot {
        InputSnapshot {
            system_one_player: self.system_one_player,
            system_two_player: self.system_two_player,
            player1_left: self.player1_left,
            player1_right: self.player1_right,
            player1_up: self.player1_up,
            player1_down: self.player1_down,
            player1_a: self.player1_a,
            player2_left: self.player2_left,
            player2_right: self.player2_right,
            player2_a: self.player2_a,
        }
    }

    /// A keyboard with no key held.
    pub fn new() -> (state: KeyboardState)
        ensures
            state == KeyboardState::released(),
    {
        KeyboardState {
            system_one_player: false,
            system_two_player: false,
            player1_left: false,
            player1_right: false,
            player1_up: false,
            player1_down: false,
            player1_a: false,
            player2_left: false,
            player2_right: false,
            player2_a: false,
        }
    }

    /// Presses or releases one button.
    pub fn set_button(&mut self, button: Button, pressed: bool)
        ensures
            *final(self) == old(self).with_button(button, pressed),
    {
        match button {
            Button::SystemOnePlayer => {
                self.system_one_player = pressed;
            },
            Button::SystemTwoPlayer => {
                self.system_two_player = pressed;
            },
            Button::Player1Left => {
                self.player1_left = pressed;
            },
            Button::Player1Right => {
                self.player1_right = pressed;
            },
            Button::Player1Up => {
                self.player1_up = pressed;
            },
            Button::Player1Down => {
                self.player1_down = pressed;
            },
            Button::Player1A => {
                self.player1_a = pressed;
            },
            Button::Player2Left => {
                self.player2_left = pressed;
            },
            Button::Player2Right => {
                self.player2_right = pressed;
            },
            Button::Player2A => {
                self.player2_a = pressed;
            },
        }
    }

    /// Records a key event by the key's code. Tells whether the key stands for a
    /// button; only then does the state change.
    pub fn handle_code(&mut self, code: &str, pressed: bool) -> (handled: bool)
        ensures
            handled == (button_for_code(code@) is Some),
            *final(self) == old(self).after_key(code@, pressed),
    {
        match button_for(code) {
            Some(button) => {
                self.set_button(button, pressed);
                true
            },
            None => false,
        }
    }
}

impl InputSnapshot {
    /// No button is held.
    pub open spec fn none() -> InputSnapshot {
        KeyboardState::released().snapshot()
    }

    /// Button by button, what either of two snapshots holds.
    pub open spec fn or(self, other: InputSnapshot) -> InputSnapshot {
        InputSnapshot {
            system_one_player: self.system_one_player || other.system_one_player,
            system_two_player: self.system_two_player || other.system_two_player,
            player1_left: self.player1_left || other.player1_left,
            player1_right: self.player1_right || other.player1_right,
            player1_up: self.player1_up || other.player1_up,
            player1_down: self.player1_down || other.player1_down,
            player1_a: self.player1_a || other.player1_a,
            player2_left: self.player2_left || other.player2_left,
            player2_right: self.player2_right || other.player2_right,
            player2_a: self.player2_a || other.player2_a,
        }
    }

    /// What a source contributes: its snapshot, or nothing where it is absent.
    pub open spec fn of_source(source: Option<InputSnapshot>) -> InputSnapshot {
        match source {
            Some(snapshot) => snapshot,
            None => InputSnapshot::none(),
        }
    }

    /// Whether the action's button is held: either player's for confirm, left
    /// and right; the first player's for up and down.
    pub open spec fn holds(self, action: Action) -> bool {
        match action {
            Action::SystemOnePlayer => self.system_one_player,
            Action::SystemTwoPlayer => self.system_two_player,
            Action::Confirm => self.player1_a || self.player2_a,
            Action::Up => self.player1_up,
            Action::Down => self.player1_down,
            Action::Left => self.player1_left || self.player2_left,
            Action::Right => self.player1_right || self.player2_right,
        }
    }

    /// A snapshot with no button held.
    pub fn empty() -> (snapshot: InputSnapshot)
        ensures
            snapshot == InputSnapshot::none(),
    {
        InputSnapshot {
            system_one_player: false,
            system_two_player: false,
            player1_left: false,
            player1_right: false,
            player1_up: false,
            player1_down: false,
            player1_a: false,
            player2_left: false,
            player2_right: false,
            player2_a: false,
        }
    }

    /// The snapshot that says what the keyboard holds.
    pub fn from_keyboard(state: &KeyboardState) -> (snapshot: InputSnapshot)
        ensures
            snapshot == state.snapshot(),
    {
        InputSnapshot {
            system_one_player: state.system_one_player,
            system_two_player: state.system_two_player,
            player1_left: state.player1_left,
            player1_right: state.player1_right,
            player1_up: state.player1_up,
            player1_down: state.player1_down,
            player1_a: state.player1_a,
            player2_left: state.player2_left,
            player2_right: state.player2_right,
            player2_a: state.player2_a,
        }
    }

    /// Adds what a controller holds: afterwards a button is held if it was held
    /// before or the controller holds it.
    pub fn merge_controller(&mut self, controller: &InputSnapshot)
        ensures
            *final(self) == old(self).or(*controller),
    {
        self.system_one_player = self.system_one_player || controller.system_one_player;
        self.system_two_player = self.system_two_player || controller.system_two_player;
        self.player1_left = self.player1_left || controller.player1_left;
        self.player1_right = self.player1_right || controller.player1_right;
        self.player1_up = self.player1_up || controller.player1_up;
        self.player1_down = self.player1_down || controller.player1_down;
        self.player1_a = self.player1_a || controller.player1_a;
        self.player2_left = self.player2_left || controller.player2_left;
        self.player2_right = self.player2_right || controller.player2_right;
        self.player2_a = self.player2_a || controller.player2_a;
    }

    /// The snapshot of a tick: what the keyboard holds together with what the
    /// controller holds, where there is one.
    pub fn merge(keyboard: &KeyboardState, controller: Option<InputSnapshot>) -> (snapshot:
        InputSnapshot)
        ensures
            snapshot == keyboard.snapshot().or(InputSnapshot::of_source(controller)),
    {
        let mut snapshot: InputSnapshot = InputSnapshot::from_keyboard(keyboard);
        match controller {
            Some(held) => {
                snapshot.merge_controller(&held);
            },
            None => {},
        }
        snapshot
    }
}

impl EdgeSet {
    /// Whether the action is among those of the tick.
    pub open spec fn has(self, action: Action) -> bool {
        match action {
            Action::SystemOnePlayer => self.system_one_player,
            Action::SystemTwoPlayer => self.system_two_player,
            Action::Confirm => self.confirm,
            Action::Up => self.up,
            Action::Down => self.down,
            Action::Left => self.left,
            Action::Right => self.right,
        }
    }

    /// The actions of a tick: each one whose button is held now and was not held
    /// in the snapshot before.
    pub open spec fn between(previous: InputSnapshot, current: InputSnapshot) -> EdgeSet {
        EdgeSet {
            system_one_player: current.holds(Action::SystemOnePlayer) && !previous.holds(
                Action::SystemOnePlayer,
            ),
            system_two_player: current.holds(Action::SystemTwoPlayer) && !previous.holds(
                Action::SystemTwoPlayer,
            ),
            confirm: current.holds(Action::Confirm) && !previous.holds(Action::Confirm),
            up: current.holds(Action::Up) && !previous.holds(Action::Up),
            down: current.holds(Action::Down) && !previous.holds(Action::Down),
            left: current.holds(Action::Left) && !previous.holds(Action::Left),
            right: current.holds(Action::Right) && !previous.holds(Action::Right),
        }
    }
}

/// Derives the actions of a tick from the snapshot before and the current one.
pub fn detect_edges(previous: &InputSnapshot, current: &InputSnapshot) -> (edges: EdgeSet)
    ensures
        edges == EdgeSet::between(*previous, *current),
{
    let confirm_now: bool = current.player1_a || current.player2_a;
    let confirm_before: bool = previous.player1_a || previous.player2_a;
    let left_now: bool = current.player1_left || current.player2_left;
    let left_before: bool = previous.player1_left || previous.player2_left;
    let right_now: bool = current.player1_right || current.player2_right;
    let right_before: bool = previous.player1_right || previous.player2_right;
    EdgeSet {
        system_one_player: current.system_one_player && !previous.system_one_player,
        system_two_player: current.system_two_player && !previous.system_two_player,
        confirm: confirm_now && !confirm_before,
        up: current.player1_up && !previous.player1_up,
        down: current.player1_down && !previous.player1_down,
        left: left_now && !left_before,
        right: right_now && !right_before,
    }
}

/// Number of ticks of a run of snapshots in which the action happens. The first
/// snapshot is the one before the first tick.
pub open spec fn edge_count(snapshots: Seq<InputSnapshot>, action: Action) -> nat
    decreases snapshots.len(),
{
    if snapshots.len() < 2 {
        0
    } else {
        let earlier = edge_count(snapshots.drop_last(), action);
        if EdgeSet::between(snapshots[snapshots.len() - 2], snapshots.last()).has(action) {
            earlier + 1
        } else {
            earlier
        }
    }
}

/// A button that is pressed and then held gives its action once: in the tick of
/// the press, and in none of the ticks through which it stays held.
pub proof fn lemma_hold_is_one_edge(snapshots: Seq<InputSnapshot>, action: Action)
    requires
        snapshots.len() >= 2,
        !snapshots[0].holds(action),
        forall|i: int| 1 <= i < snapshots.len() ==> (#[trigger] snapshots[i]).holds(action),
    ensures
        edge_count(snapshots, action) == 1,
        EdgeSet::between(snapshots[0], snapshots[1]).has(action),
        forall|i: int|
            2 <= i < snapshots.len() ==> !EdgeSet::between(
                #[trigger] snapshots[i - 1],
                snapshots[i],
            ).has(action),
    decreases snapshots.len(),
{
    let earlier = snapshots.drop_last();
    if snapshots.len() == 2 {
        assert(edge_count(earlier, action) == 0);
    } else {
        assert(earlier[0] == snapshots[0]);
        assert forall|i: int| 1 <= i < earlier.len() implies (#[trigger] earlier[i]).holds(
            action,
        ) by {
            assert(earlier[i] == snapshots[i]);
        }
        lemma_hold_is_one_edge(earlier, action);
        assert(snapshots[snapshots.len() - 2].holds(action));
    }
    assert forall|i: int| 2 <= i < snapshots.len() implies !EdgeSet::between(
        #[trigger] snapshots[i - 1],
        snapshots[i],
    ).has(action) by {
        assert(snapshots[i - 1].holds(action));
    }
}

/// A button that stays held from before the first tick gives its action in
/// none of the ticks.
pub proof fn lemma_held_is_no_edge(snapshots: Seq<InputSnapshot>, action: Action)
    requires
        forall|i: int| 0 <= i < snapshots.len() ==> (#[trigger] snapshots[i]).holds(action),
    ensures
        edge_count(snapshots, action) == 0,
    decreases snapshots.len(),
{
    if snapshots.len() >= 2 {
        let earlier = snapshots.drop_last();
        assert forall|i: int| 0 <= i < earlier.len() implies (#[trigger] earlier[i]).holds(
            action,
        ) by {
            assert(earlier[i] == snapshots[i]);
        }
        lemma_held_is_no_edge(earlier, action);
        assert(snapshots[snapshots.len() - 2].holds(action));
    }
}

} // verus!
