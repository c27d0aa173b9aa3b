use shuttle::config::{Action, Config, KeybindConfig};
use shuttle::input::InputManager;

fn binding(mods: &[&str], key: &str, action: Action) -> KeybindConfig {
    KeybindConfig {
        modifiers: mods.iter().map(|m| m.to_string()).collect(),
        key: key.to_string(),
        action,
    }
}

#[test]
fn test_input_manager_routing() {
    // The configuration written in TOML as:
    //   [[bindings]] modifiers = ["Super"] key = "h" action = "focus_left"
    //   [[bindings]] modifiers = ["Super", "Shift"] key = "q" action = "quit"
    let config = Config {
        bindings: vec![
            binding(&["Super"], "h", Action::FocusLeft),
            binding(&["Super", "Shift"], "q", Action::Quit),
        ],
    };

    let mut input_manager: InputManager<u32> = InputManager::new();

    let prepared_data = input_manager.prepare_bindings(&config);
    assert_eq!(prepared_data.len(), 2);

    assert_eq!(prepared_data[0].0, 64);
    assert_eq!(prepared_data[0].1, 104);
    assert_eq!(prepared_data[0].2, Action::FocusLeft);

    let mock_object_id_h = 1001;
    let mock_object_id_q = 1002;

    input_manager.register_wayland_object(mock_object_id_h, prepared_data[0].2.clone());
    input_manager.register_wayland_object(mock_object_id_q, prepared_data[1].2.clone());

    assert_eq!(input_manager.bindings_map.len(), 2);

    let action_to_take = input_manager.handle_pressed(mock_object_id_h);
    assert_eq!(action_to_take, Some(Action::FocusLeft));

    let action_to_take = input_manager.handle_pressed(mock_object_id_q);
    assert_eq!(action_to_take, Some(Action::Quit));

    let unknown_action = input_manager.handle_pressed(9999);
    assert_eq!(unknown_action, None);
}

#[test]
fn prepare_bindings_skips_unknown_keys() {
    let config = Config {
        bindings: vec![
            binding(&["Alt"], "F13", Action::Quit),
            binding(&["ctrl", "SHIFT"], "Return", Action::SpawnTerminal),
            binding(&[], "Left", Action::MoveLeft),
        ],
    };
    let m: InputManager<u64> = InputManager::new();
    let p = m.prepare_bindings(&config);
    assert_eq!(p, vec![(5, 0xff0d, Action::SpawnTerminal), (0, 0xff51, Action::MoveLeft)]);
}

#[test]
fn prepared_mask_ignores_unknown_modifiers() {
    let config = Config { bindings: vec![binding(&["Hyper", "logo"], "x", Action::CloseWindow)] };
    let m: InputManager<u32> = InputManager::new();
    let p = m.prepare_bindings(&config);
    assert_eq!(p, vec![(64, 120, Action::CloseWindow)]);
}

#[test]
fn register_replaces_earlier_action() {
    let mut m: InputManager<u32> = InputManager::new();
    m.register_wayland_object(7, Action::FocusLeft);
    m.register_wayland_object(8, Action::Quit);
    m.register_wayland_object(7, Action::MoveRight);
    assert_eq!(m.bindings_map.len(), 2);
    assert_eq!(m.handle_pressed(7), Some(Action::MoveRight));
    assert_eq!(m.handle_pressed(8), Some(Action::Quit));
}

#[test]
fn fresh_manager_routes_nothing() {
    let m: InputManager<usize> = InputManager::new();
    assert_eq!(m.handle_pressed(0), None);
    assert!(m.bindings_map.is_empty());
}
