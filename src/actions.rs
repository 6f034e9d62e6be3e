//! The action catalog, its binding tables, and the pass that neutralises action state
//! while input is frozen.

use vstd::prelude::*;
use crate::freeze::ActionsFrozen;
use crate::vector::{Vec2, ZERO_BITS};

verus! {

/// What the controlled character can do.
#[derive(Clone, Copy, Debug, PartialEq, Eq, Structural, Hash)]
pub enum PlayerAction {
    Move,
    Sprint,
    Jump,
    Interact,
}

/// What the camera can do.
#[derive(Clone, Copy, Debug, PartialEq, Eq, Structural, Hash)]
pub enum CameraAction {
    Orbit,
    Zoom,
}

/// What the user interface can do.
#[derive(Clone, Copy, Debug, PartialEq, Eq, Structural, Hash)]
pub enum UiAction {
    TogglePause,
}

/// The keys that the binding tables use.
#[derive(Clone, Copy, Debug, PartialEq, Eq, Structural, Hash)]
pub enum KeyCode {
    KeyW,
    KeyA,
    KeyS,
    KeyD,
    KeyE,
    Space,
    ShiftLeft,
    Escape,
}

/// A raw input pattern that an action can be bound to.
#[derive(Clone, Copy, Debug, PartialEq, Eq, Structural)]
pub enum InputSource {
    /// One key.
    Key(KeyCode),
    /// Four keys read as a two-dimensional pad.
    VirtualDPad { up: KeyCode, down: KeyCode, left: KeyCode, right: KeyCode },
    /// Both axes of the mouse's motion.
    MouseMotion,
    /// The vertical axis of the mouse wheel.
    MouseWheelY,
}

/// The W, A, S and D keys read as a pad.
pub open spec fn wasd() -> InputSource {
    InputSource::VirtualDPad {
        up: KeyCode::KeyW,
        down: KeyCode::KeyS,
        left: KeyCode::KeyA,
        right: KeyCode::KeyD,
    }
}

pub open spec fn player_binding_table() -> Seq<(PlayerAction, InputSource)> {
    seq![
        (PlayerAction::Jump, InputSource::Key(KeyCode::Space)),
        (PlayerAction::Sprint, InputSource::Key(KeyCode::ShiftLeft)),
        (PlayerAction::Interact, InputSource::Key(KeyCode::KeyE)),
        (PlayerAction::Move, wasd()),
    ]
}

pub open spec fn camera_binding_table() -> Seq<(CameraAction, InputSource)> {
    seq![
        (CameraAction::Orbit, InputSource::MouseMotion),
        (CameraAction::Zoom, InputSource::MouseWheelY),
    ]
}

pub open spec fn ui_binding_table() -> Seq<(UiAction, InputSource)> {
    seq![(UiAction::TogglePause, InputSource::Key(KeyCode::Escape))]
}

/// The player's bindings: jump on space, sprint on left shift, interact on E,
/// and movement on the WASD pad.
pub fn player_bindings() -> (r: Vec<(PlayerAction, InputSource)>)
    ensures
        r@ == player_binding_table(),
{
    let mut r: Vec<(PlayerAction, InputSource)> = Vec::new();
    r.push((PlayerAction::Jump, InputSource::Key(KeyCode::Space)));
    r.push((PlayerAction::Sprint, InputSource::Key(KeyCode::ShiftLeft)));
    r.push((PlayerAction::Interact, InputSource::Key(KeyCode::KeyE)));
    r.push(
        (
            PlayerAction::Move,
            InputSource::VirtualDPad {
                up: KeyCode::KeyW,
                down: KeyCode::KeyS,
                left: KeyCode::KeyA,
                right: KeyCode::KeyD,
            },
        ),
    );
    assert(r@ =~= player_binding_table());
    r
}

/// The camera's bindings: orbit on mouse motion, zoom on the mouse wheel.
pub fn camera_bindings() -> (r: Vec<(CameraAction, InputSource)>)
    ensures
        r@ == camera_binding_table(),
{
    let mut r: Vec<(CameraAction, InputSource)> = Vec::new();
    r.push((CameraAction::Orbit, InputSource::MouseMotion));
    r.push((CameraAction::Zoom, InputSource::MouseWheelY));
    assert(r@ =~= camera_binding_table());
    r
}

/// The interface's bindings: pause on escape.
pub fn ui_bindings() -> (r: Vec<(UiAction, InputSource)>)
    ensures
        r@ == ui_binding_table(),
{
    let mut r: Vec<(UiAction, InputSource)> = Vec::new();
    r.push((UiAction::TogglePause, InputSource::Key(KeyCode::Escape)));
    assert(r@ =~= ui_binding_table());
    r
}

/// Whether a digital action is held, and whether that changed this frame.
#[derive(Clone, Copy, Debug, PartialEq, Eq, Structural)]
pub enum ButtonState {
    JustPressed,
    Pressed,
    JustReleased,
    Released,
}

impl ButtonState {
    pub open spec fn is_pressed(self) -> bool {
        self == ButtonState::JustPressed || self == ButtonState::Pressed
    }

    /// Whether the action is held.
    pub fn pressed(&self) -> (r: bool)
        ensures
            r == self.is_pressed(),
    {
        match self {
            ButtonState::JustPressed | ButtonState::Pressed => true,
            _ => false,
        }
    }
}

/// The live state of one action: its button state, its scalar value and its axis pair,
/// each number held as the bit pattern of an `f32`.
#[derive(Clone, Copy, Debug, PartialEq, Eq, Structural)]
pub struct ActionData {
    pub state: ButtonState,
    pub value: u32,
    pub axis_pair: Option<Vec2>,
}

impl ActionData {
    /// Sets the action to not pressed, with no edge of this frame left; the value and
    /// the axis pair stay.
    pub fn release(&mut self)
        ensures
            *final(self) == (ActionData { state: ButtonState::Released, ..*old(self) }),
    {
        self.state = ButtonState::Released;
    }
}

/// The neutral axis pair, `(0.0, 0.0)`.
pub open spec fn zero_pair() -> Vec2 {
    Vec2 { x: ZERO_BITS, y: ZERO_BITS }
}

/// One player consumer's action state.
#[derive(Clone, Copy, Debug, PartialEq, Eq, Structural)]
pub struct PlayerActionState {
    pub movement: ActionData,
    pub sprint: ActionData,
    pub jump: ActionData,
    pub interact: ActionData,
}

/// One camera consumer's action state.
#[derive(Clone, Copy, Debug, PartialEq, Eq, Structural)]
pub struct CameraActionState {
    pub orbit: ActionData,
    pub zoom: ActionData,
}

/// `s` with movement's axis pair set to neutral, and jump, interact and sprint released.
pub open spec fn player_neutralized(s: PlayerActionState) -> PlayerActionState {
    PlayerActionState {
        movement: ActionData { axis_pair: Some(zero_pair()), ..s.movement },
        sprint: ActionData { state: ButtonState::Released, ..s.sprint },
        jump: ActionData { state: ButtonState::Released, ..s.jump },
        interact: ActionData { state: ButtonState::Released, ..s.interact },
    }
}

/// `s` with orbit's axis pair and zoom's value set to neutral.
pub open spec fn camera_neutralized(s: CameraActionState) -> CameraActionState {
    CameraActionState {
        orbit: ActionData { axis_pair: Some(zero_pair()), ..s.orbit },
        zoom: ActionData { value: ZERO_BITS, ..s.zoom },
    }
}

/// Every player consumer neutralised, in order.
pub open spec fn players_after_pass(players: Seq<PlayerActionState>) -> Seq<PlayerActionState> {
    players.map_values(|s: PlayerActionState| player_neutralized(s))
}

/// Every camera consumer neutralised, in order.
pub open spec fn cameras_after_pass(cameras: Seq<CameraActionState>) -> Seq<CameraActionState> {
    cameras.map_values(|s: CameraActionState| camera_neutralized(s))
}

/// Neutralises one player consumer.
pub fn neutralize_player(s: &mut PlayerActionState)
    ensures
        *final(s) == player_neutralized(*old(s)),
{
    s.movement.axis_pair = Some(Vec2::new(ZERO_BITS, ZERO_BITS));
    s.jump.release();
    s.interact.release();
    s.sprint.release();
}

/// Neutralises one camera consumer.
pub fn neutralize_camera(s: &mut CameraActionState)
    ensures
        *final(s) == camera_neutralized(*old(s)),
{
    s.orbit.axis_pair = Some(Vec2::new(ZERO_BITS, ZERO_BITS));
    s.zoom.value = ZERO_BITS;
}

/// Neutralises every player and camera consumer. Interface state is not taken, so
/// that a pause menu still hears its toggle while the world is frozen.
pub fn remove_actions_when_frozen(
    players: &mut Vec<PlayerActionState>,
    cameras: &mut Vec<CameraActionState>,
)
    ensures
        final(players)@ == players_after_pass(old(players)@),
        final(cameras)@ == cameras_after_pass(old(cameras)@),
{
    let ghost players0 = players@;
    let ghost cameras0 = cameras@;
    let mut i: usize = 0;
    while i < players.len()
        invariant
            0 <= i <= players@.len(),
            players@.len() == players0.len(),
            forall|j: int| 0 <= j < i ==> players@[j] == player_neutralized(players0[j]),
            forall|j: int| i <= j < players@.len() ==> players@[j] == players0[j],
        decreases players@.len() - i,
    {
        let mut s = players[i];
        neutralize_player(&mut s);
        players.set(i, s);
        i = i + 1;
    }
    let mut k: usize = 0;
    while k < cameras.len()
        invariant
            0 <= k <= cameras@.len(),
            cameras@.len() == cameras0.len(),
            forall|j: int| 0 <= j < k ==> cameras@[j] == camera_neutralized(cameras0[j]),
            forall|j: int| k <= j < cameras@.len() ==> cameras@[j] == cameras0[j],
        decreases cameras@.len() - k,
    {
        let mut s = cameras[k];
        neutralize_camera(&mut s);
        cameras.set(k, s);
        k = k + 1;
    }
    assert(players@ =~= players_after_pass(players0));
    assert(cameras@ =~= cameras_after_pass(cameras0));
}

/// Runs the suppression pass when input is frozen, and leaves every state as it is
/// otherwise.
pub fn suppress_if_frozen(
    frozen: &ActionsFrozen,
    players: &mut Vec<PlayerActionState>,
    cameras: &mut Vec<CameraActionState>,
)
    ensures
        frozen.count() > 0 ==> final(players)@ == players_after_pass(old(players)@),
        frozen.count() > 0 ==> final(cameras)@ == cameras_after_pass(old(cameras)@),
        frozen.count() == 0 ==> final(players)@ == old(players)@,
        frozen.count() == 0 ==> final(cameras)@ == old(cameras)@,
{
    if frozen.is_frozen() {
        remove_actions_when_frozen(players, cameras);
    }
}

/// After the suppression pass, every player consumer's movement axis is exactly
/// `(0.0, 0.0)` and its jump, interact and sprint are not pressed; every camera
/// consumer's orbit axis is exactly `(0.0, 0.0)` and its zoom value exactly `0.0`.
/// Everything else the pass leaves as it was.
pub proof fn lemma_suppression_neutral(
    players: Seq<PlayerActionState>,
    cameras: Seq<CameraActionState>,
)
    ensures
        forall|i: int|
            0 <= i < players.len() ==> {
                let s = #[trigger] players_after_pass(players)[i];
                &&& s.movement.axis_pair == Some(Vec2 { x: 0, y: 0 })
                &&& !s.jump.state.is_pressed()
                &&& !s.interact.state.is_pressed()
                &&& !s.sprint.state.is_pressed()
                &&& s.movement.state == players[i].movement.state
                &&& s.movement.value == players[i].movement.value
            },
        forall|i: int|
            0 <= i < cameras.len() ==> {
                let s = #[trigger] cameras_after_pass(cameras)[i];
                &&& s.orbit.axis_pair == Some(Vec2 { x: 0, y: 0 })
                &&& s.zoom.value == 0
                &&& s.orbit.state == cameras[i].orbit.state
                &&& s.zoom.state == cameras[i].zoom.state
            },
{
}

} // verus!
