use shuttle::action::{apply_repeat_action, repeat_action_of};
use shuttle::config::Action;
use shuttle::key_repeat;
use shuttle::state::Shuttle;

#[test]
fn repeatable_actions() {
    assert_eq!(repeat_action_of(Action::FocusLeft), Some(key_repeat::Action::FocusLeft));
    assert_eq!(repeat_action_of(Action::FocusRight), Some(key_repeat::Action::FocusRight));
    assert_eq!(repeat_action_of(Action::MoveLeft), Some(key_repeat::Action::MoveLeft));
    assert_eq!(repeat_action_of(Action::MoveRight), Some(key_repeat::Action::MoveRight));
    assert_eq!(repeat_action_of(Action::Quit), None);
    assert_eq!(repeat_action_of(Action::CloseWindow), None);
    assert_eq!(repeat_action_of(Action::SpawnTerminal), None);
}

#[test]
fn repeat_actions_drive_the_active_workspace() {
    let mut s = Shuttle::<u32>::new();
    s.add_window(1, 1);
    s.add_window(1, 2);
    s.add_window(1, 3);
    apply_repeat_action(&mut s, 1, key_repeat::Action::FocusLeft);
    assert_eq!(s.focused_window_on(1), Some(2));
    apply_repeat_action(&mut s, 1, key_repeat::Action::MoveLeft);
    let order = s.outputs.get(&1).unwrap().workspaces.get(&1).unwrap().windows.clone();
    assert_eq!(order, vec![2, 1, 3]);
    apply_repeat_action(&mut s, 1, key_repeat::Action::FocusRight);
    assert_eq!(s.focused_window_on(1), Some(1));
    apply_repeat_action(&mut s, 1, key_repeat::Action::MoveRight);
    let order = s.outputs.get(&1).unwrap().workspaces.get(&1).unwrap().windows.clone();
    assert_eq!(order, vec![2, 3, 1]);
}
