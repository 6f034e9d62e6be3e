use foxtrot::actions::{
    camera_bindings, player_bindings, remove_actions_when_frozen, suppress_if_frozen, ui_bindings,
    ActionData, ButtonState, CameraAction, CameraActionState, InputSource, KeyCode, PlayerAction,
    PlayerActionState, UiAction,
};
use foxtrot::freeze::ActionsFrozen;
use foxtrot::vector::Vec2;

fn pair(x: f32, y: f32) -> Option<Vec2> {
    Some(Vec2::new(x.to_bits(), y.to_bits()))
}

fn data(state: ButtonState, value: f32, axis_pair: Option<Vec2>) -> ActionData {
    ActionData { state, value: value.to_bits(), axis_pair }
}

fn busy_player() -> PlayerActionState {
    PlayerActionState {
        movement: data(ButtonState::Pressed, 1.0, pair(0.6, -0.8)),
        sprint: data(ButtonState::JustPressed, 1.0, None),
        jump: data(ButtonState::Pressed, 1.0, None),
        interact: data(ButtonState::JustReleased, 0.0, None),
    }
}

fn busy_camera() -> CameraActionState {
    CameraActionState {
        orbit: data(ButtonState::Pressed, 2.5, pair(3.0, 4.0)),
        zoom: data(ButtonState::Pressed, -1.5, None),
    }
}

#[test]
fn pass_neutralizes_players_and_cameras() {
    let mut players = vec![busy_player(), busy_player()];
    let mut cameras = vec![busy_camera()];
    remove_actions_when_frozen(&mut players, &mut cameras);
    assert_eq!(players.len(), 2);
    for p in &players {
        assert_eq!(p.movement.axis_pair, pair(0.0, 0.0));
        assert_eq!(p.movement.state, ButtonState::Pressed);
        assert!(!p.jump.state.pressed());
        assert!(!p.interact.state.pressed());
        assert!(!p.sprint.state.pressed());
        assert_eq!(p.jump.state, ButtonState::Released);
    }
    assert_eq!(cameras[0].orbit.axis_pair, pair(0.0, 0.0));
    assert_eq!(cameras[0].zoom.value, 0.0f32.to_bits());
    assert_eq!(cameras[0].orbit.value, 2.5f32.to_bits());
}

#[test]
fn pass_runs_only_while_frozen() {
    let mut counter = ActionsFrozen::new();
    let mut players = vec![busy_player()];
    let mut cameras = vec![busy_camera()];
    suppress_if_frozen(&counter, &mut players, &mut cameras);
    assert_eq!(players[0], busy_player());
    assert_eq!(cameras[0], busy_camera());
    counter.freeze();
    suppress_if_frozen(&counter, &mut players, &mut cameras);
    assert_eq!(players[0].movement.axis_pair, pair(0.0, 0.0));
    assert_eq!(cameras[0].zoom.value, 0.0f32.to_bits());
}

#[test]
fn empty_consumer_lists_stay_empty() {
    let mut players: Vec<PlayerActionState> = vec![];
    let mut cameras: Vec<CameraActionState> = vec![];
    remove_actions_when_frozen(&mut players, &mut cameras);
    assert!(players.is_empty() && cameras.is_empty());
}

#[test]
fn release_clears_edges_and_keeps_values() {
    let mut d = data(ButtonState::JustPressed, 0.25, pair(1.0, 0.0));
    d.release();
    assert_eq!(d, data(ButtonState::Released, 0.25, pair(1.0, 0.0)));
}

#[test]
fn binding_tables() {
    assert_eq!(
        player_bindings(),
        vec![
            (PlayerAction::Jump, InputSource::Key(KeyCode::Space)),
            (PlayerAction::Sprint, InputSource::Key(KeyCode::ShiftLeft)),
            (PlayerAction::Interact, InputSource::Key(KeyCode::KeyE)),
            (
                PlayerAction::Move,
                InputSource::VirtualDPad {
                    up: KeyCode::KeyW,
                    down: KeyCode::KeyS,
                    left: KeyCode::KeyA,
                    right: KeyCode::KeyD,
                }
            ),
        ]
    );
    assert_eq!(
        camera_bindings(),
        vec![
            (CameraAction::Orbit, InputSource::MouseMotion),
            (CameraAction::Zoom, InputSource::MouseWheelY),
        ]
    );
    assert_eq!(ui_bindings(), vec![(UiAction::TogglePause, InputSource::Key(KeyCode::Escape))]);
}
