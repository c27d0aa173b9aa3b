use calloop::timer::{TimeoutAction, Timer};
use calloop::{EventLoop, LoopHandle, RegistrationToken};
use shuttle::key_repeat::{Action, ExecuteAction, KeyRepeatManager, REPEAT_DELAY_MS, REPEAT_RATE_MS};
use std::time::Duration;

struct MockShuttleState {
    execution_count: u32,
    repeat_manager: KeyRepeatManager<u32, RegistrationToken>,
}

impl ExecuteAction for MockShuttleState {
    fn execute_action(&mut self, _action: Action) {
        self.execution_count += 1;
    }
}

/// Starts a repeat timer for `id`, as the event loop of the application
/// does: the manager decides which timer runs and which is cancelled.
fn start_timer(state: &mut MockShuttleState, handle: &LoopHandle<'static, MockShuttleState>, id: u32, action: Action) {
    if let Some(old) = state.repeat_manager.stop_repeat(None) {
        handle.remove(old);
    }
    let timer = Timer::from_duration(Duration::from_millis(state.repeat_manager.delay_ms()));
    let rate = Duration::from_millis(state.repeat_manager.rate_ms());
    let token = handle
        .insert_source(timer, move |_event, _metadata, s: &mut MockShuttleState| {
            s.execute_action(action);
            TimeoutAction::ToDuration(rate)
        })
        .expect("Failed to insert timer into event loop");
    if let Some(old) = state.repeat_manager.start_repeat(id, token) {
        handle.remove(old);
    }
}

fn stop_timer(state: &mut MockShuttleState, handle: &LoopHandle<'static, MockShuttleState>, id: Option<u32>) {
    if let Some(token) = state.repeat_manager.stop_repeat(id) {
        handle.remove(token);
    }
}

#[test]
fn test_key_repeat_timing() {
    let mut event_loop: EventLoop<'static, MockShuttleState> =
        EventLoop::try_new().expect("Failed to create event loop");
    let handle = event_loop.handle();
    let mut state = MockShuttleState { execution_count: 0, repeat_manager: KeyRepeatManager::new() };
    assert_eq!(state.repeat_manager.delay_ms(), 200);
    assert_eq!(state.repeat_manager.rate_ms(), 30);

    let mock_key_id = 1001;

    // Key pressed: the action runs once at once, then the repeater starts.
    state.execute_action(Action::FocusLeft);
    start_timer(&mut state, &handle, mock_key_id, Action::FocusLeft);
    assert_eq!(state.repeat_manager.current_key(), Some(mock_key_id));
    assert_eq!(state.execution_count, 1);

    event_loop.dispatch(Duration::from_millis(100), &mut state).unwrap();
    assert_eq!(state.execution_count, 1, "Should not trigger within 100ms");

    event_loop.dispatch(Duration::from_millis(120), &mut state).unwrap();
    assert_eq!(state.execution_count, 2, "Crossed 200ms, triggered one repeat");

    event_loop.dispatch(Duration::from_millis(50), &mut state).unwrap();
    assert_eq!(state.execution_count, 3, "First 30ms repeat");

    event_loop.dispatch(Duration::from_millis(50), &mut state).unwrap();
    assert_eq!(state.execution_count, 4, "Second 30ms repeat");

    event_loop.dispatch(Duration::from_millis(50), &mut state).unwrap();
    assert_eq!(state.execution_count, 5, "Third 30ms repeat");

    // Key released: the manager hands back the timer, which is cancelled.
    stop_timer(&mut state, &handle, Some(mock_key_id));
    assert_eq!(state.repeat_manager.current_key(), None);

    event_loop.dispatch(Duration::from_millis(200), &mut state).unwrap();
    assert_eq!(state.execution_count, 5, "Should not trigger after release");
}

#[test]
fn release_hands_back_the_timer_of_the_released_key() {
    let mut m: KeyRepeatManager<u32, &str> = KeyRepeatManager::new();
    assert_eq!(m.delay_ms(), 200);
    assert_eq!(m.rate_ms(), 30);
    assert_eq!(m.start_repeat(1001, "timer"), None);
    assert_eq!(m.current_key(), Some(1001));
    assert_eq!(m.stop_repeat(Some(1001)), Some("timer"));
    assert_eq!(m.current_key(), None);
    assert_eq!(m.stop_repeat(Some(1001)), None);
}

#[test]
fn test_spurious_release() {
    // Press A, press B, release A: B keeps repeating.
    let mut repeat_manager: KeyRepeatManager<u32, &str> = KeyRepeatManager::new();
    let key_a = 1;
    let key_b = 2;

    assert_eq!(repeat_manager.start_repeat(key_a, "timer a"), None);
    assert_eq!(repeat_manager.start_repeat(key_b, "timer b"), Some("timer a"));
    assert_eq!(repeat_manager.stop_repeat(Some(key_a)), None);

    assert!(repeat_manager.current_key().is_some());
    assert_eq!(repeat_manager.current_key().unwrap(), key_b);
}

#[test]
fn default_timing() {
    let m: KeyRepeatManager<u32, u8> = KeyRepeatManager::new();
    assert_eq!(m.delay_ms(), 200);
    assert_eq!(m.rate_ms(), 30);
    assert_eq!(REPEAT_DELAY_MS, 200);
    assert_eq!(REPEAT_RATE_MS, 30);
    assert_eq!(m.current_key(), None);
}

#[test]
fn release_of_repeating_key_stops_it() {
    let mut m: KeyRepeatManager<u64, u8> = KeyRepeatManager::new();
    m.start_repeat(5, 50);
    assert_eq!(m.stop_repeat(Some(5)), Some(50));
    assert_eq!(m.current_key(), None);
    assert_eq!(m.stop_repeat(Some(5)), None);
}

#[test]
fn stop_without_target_stops_any_repeat() {
    let mut m: KeyRepeatManager<u32, u8> = KeyRepeatManager::new();
    assert_eq!(m.stop_repeat(None), None);
    m.start_repeat(9, 90);
    assert_eq!(m.stop_repeat(None), Some(90));
    assert_eq!(m.current_key(), None);
}

#[test]
fn repeat_actions_are_distinct() {
    assert_ne!(Action::FocusLeft, Action::FocusRight);
    assert_ne!(Action::MoveLeft, Action::MoveRight);
}
