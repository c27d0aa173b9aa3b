use shuttle::layout::{camera_move, CameraMove, FocusCenteringMode};
use shuttle::state::{ManageCycle, RiverState};

#[test]
fn request_at_rest_sends_dirty_mark() {
    let mut c = ManageCycle::new();
    assert!(c.request_manage(true));
    assert_eq!(c.river_state, RiverState::ManageRequested);
    assert!(!c.needs_manage);
}

#[test]
fn request_without_window_manager_stays_pending() {
    let mut c = ManageCycle::new();
    assert!(!c.request_manage(false));
    assert_eq!(c.river_state, RiverState::Idle);
    assert!(c.needs_manage);
    assert!(c.try_send_manage_dirty(true));
}

#[test]
fn request_during_sequence_is_sent_after_render() {
    let mut c = ManageCycle::new();
    assert!(c.request_manage(true));
    assert!(!c.request_manage(true));
    c.begin_manage();
    assert!(!c.request_manage(true));
    c.finish_manage();
    assert_eq!(c.river_state, RiverState::WaitingForRender);
    c.begin_render();
    assert_eq!(c.river_state, RiverState::Rendering);
    assert!(c.needs_manage);
    assert!(c.finish_render(true));
    assert_eq!(c.river_state, RiverState::ManageRequested);
    assert!(!c.needs_manage);
}

#[test]
fn finish_render_without_request_rests() {
    let mut c = ManageCycle::new();
    c.begin_render();
    assert!(!c.finish_render(true));
    assert_eq!(c.river_state, RiverState::Idle);
    assert_eq!(RiverState::default(), RiverState::Idle);
}

#[test]
fn camera_policy_by_mode() {
    assert_eq!(camera_move(FocusCenteringMode::Always, false, false, false), CameraMove::Center);
    assert_eq!(camera_move(FocusCenteringMode::Never, false, false, false), CameraMove::Keep);
    assert_eq!(camera_move(FocusCenteringMode::Never, true, true, true), CameraMove::AlignLeft);
    assert_eq!(camera_move(FocusCenteringMode::Never, false, false, true), CameraMove::AlignRight);
    assert_eq!(camera_move(FocusCenteringMode::OnOverflow, true, false, false), CameraMove::Center);
    assert_eq!(camera_move(FocusCenteringMode::OnOverflow, false, true, false), CameraMove::AlignLeft);
    assert_eq!(camera_move(FocusCenteringMode::OnOverflow, false, false, true), CameraMove::AlignRight);
    assert_eq!(camera_move(FocusCenteringMode::OnOverflow, false, false, false), CameraMove::Keep);
}

#[test]
fn globals_to_bind() {
    assert_eq!(shuttle::state::global_to_bind("wl_seat"), Some((shuttle::state::Global::Seat, 1)));
    assert_eq!(
        shuttle::state::global_to_bind("river_window_manager_v1"),
        Some((shuttle::state::Global::WindowManager, 3))
    );
    assert_eq!(
        shuttle::state::global_to_bind("river_xkb_bindings_v1"),
        Some((shuttle::state::Global::XkbBindings, 2))
    );
    assert_eq!(
        shuttle::state::global_to_bind("river_layer_shell_v1"),
        Some((shuttle::state::Global::LayerShell, 1))
    );
    assert_eq!(shuttle::state::global_to_bind("wl_compositor"), None);
}
