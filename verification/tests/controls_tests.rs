use spectrogram::controls::{FrameAction, FramePlan, KeyPresses, Scene, ViewState};

fn no_keys() -> KeyPresses {
    KeyPresses { tutorial: false, target: false, view: false, pause: false, quit: false }
}

#[test]
fn view_starts_with_overlays_on_and_the_history_drawn() {
    let state = ViewState::new();
    assert!(state.show_tutorial);
    assert!(state.show_target);
    assert!(!state.show_instantaneous);
}

#[test]
fn frame_without_commands_draws_the_current_view() {
    let mut state = ViewState::new();
    let plan = state.handle_keys(no_keys());
    assert_eq!(
        plan,
        FramePlan {
            toggle_pause: false,
            action: FrameAction::Draw {
                scene: Scene::Spectrogram,
                target_overlay: true,
                tutorial_overlay: true
            },
        }
    );
    assert_eq!(state, ViewState::new());
}

#[test]
fn each_command_flips_its_own_switch() {
    let mut state = ViewState::new();
    state.handle_keys(KeyPresses { tutorial: true, ..no_keys() });
    assert_eq!(
        state,
        ViewState { show_tutorial: false, show_target: true, show_instantaneous: false }
    );
    state.handle_keys(KeyPresses { target: true, ..no_keys() });
    assert_eq!(
        state,
        ViewState { show_tutorial: false, show_target: false, show_instantaneous: false }
    );
    let plan = state.handle_keys(KeyPresses { view: true, ..no_keys() });
    assert_eq!(
        state,
        ViewState { show_tutorial: false, show_target: false, show_instantaneous: true }
    );
    assert_eq!(
        plan.action,
        FrameAction::Draw {
            scene: Scene::Instantaneous,
            target_overlay: false,
            tutorial_overlay: false
        }
    );
}

#[test]
fn the_same_command_twice_restores_the_switches() {
    let mut state = ViewState::new();
    let keys = KeyPresses { tutorial: true, target: true, view: true, pause: true, quit: false };
    state.handle_keys(keys);
    state.handle_keys(keys);
    assert_eq!(state, ViewState::new());
}

#[test]
fn pause_command_is_passed_on_and_flips_no_switch() {
    let mut state = ViewState::new();
    let plan = state.handle_keys(KeyPresses { pause: true, ..no_keys() });
    assert!(plan.toggle_pause);
    assert_eq!(state, ViewState::new());
}

#[test]
fn quit_wins_over_drawing_but_the_switches_still_flip() {
    let mut state = ViewState::new();
    let plan =
        state.handle_keys(KeyPresses { view: true, pause: true, quit: true, ..no_keys() });
    assert_eq!(plan.action, FrameAction::Quit);
    assert!(plan.toggle_pause);
    assert!(state.show_instantaneous);
}
