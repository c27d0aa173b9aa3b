//! What the keybinding actions do to the window-manager state.

use vstd::prelude::*;
use crate::config;
use crate::key_repeat;
use crate::state::tree::{
    Shuttle, WorkspaceView, OutputView, active_of, with_active, cycle_ok, cycle_target, move_ok,
    moved, promoted,
};
use crate::state::window::WindowId;

verus! {

/// The repeatable action behind a configured action, if it repeats while
/// its key is held.
pub open spec fn repeat_action_spec(action: config::Action) -> Option<key_repeat::Action> {
    match action {
        config::Action::FocusLeft => Some(key_repeat::Action::FocusLeft),
        config::Action::FocusRight => Some(key_repeat::Action::FocusRight),
        config::Action::MoveLeft => Some(key_repeat::Action::MoveLeft),
        config::Action::MoveRight => Some(key_repeat::Action::MoveRight),
        _ => None,
    }
}

/// The repeatable action behind a configured action: focus and move
/// actions repeat while their key is held, the others do not.
pub fn repeat_action_of(action: config::Action) -> (r: Option<key_repeat::Action>)
    ensures
        r == repeat_action_spec(action),
{
    match action {
        config::Action::FocusLeft => Some(key_repeat::Action::FocusLeft),
        config::Action::FocusRight => Some(key_repeat::Action::FocusRight),
        config::Action::MoveLeft => Some(key_repeat::Action::MoveLeft),
        config::Action::MoveRight => Some(key_repeat::Action::MoveRight),
        _ => None,
    }
}

/// The signed step of a repeatable action: -1 leftwards, +1 rightwards.
pub open spec fn step_of(action: key_repeat::Action) -> int {
    match action {
        key_repeat::Action::FocusLeft | key_repeat::Action::MoveLeft => -1,
        key_repeat::Action::FocusRight | key_repeat::Action::MoveRight => 1,
    }
}

/// Whether a repeatable action applies to a workspace without a panic
/// (see `cycle_ok` and `move_ok`).
pub open spec fn repeat_ok<ID>(w: WorkspaceView<ID>, action: key_repeat::Action) -> bool {
    match action {
        key_repeat::Action::FocusLeft | key_repeat::Action::FocusRight =>
            cycle_ok(w.windows, w.focus_stack, step_of(action)),
        key_repeat::Action::MoveLeft | key_repeat::Action::MoveRight =>
            move_ok(w.windows, w.focus_stack, step_of(action)),
    }
}

/// A workspace after a repeatable action: focus actions cycle the focus,
/// move actions move the focused window.
pub open spec fn applied<ID>(w: WorkspaceView<ID>, action: key_repeat::Action) -> WorkspaceView<ID> {
    match action {
        key_repeat::Action::FocusLeft | key_repeat::Action::FocusRight => WorkspaceView {
            focus_stack: match cycle_target(w.windows, w.focus_stack, step_of(action)) {
                Some(t) => promoted(w.focus_stack, t),
                None => w.focus_stack,
            },
            ..w
        },
        key_repeat::Action::MoveLeft | key_repeat::Action::MoveRight => WorkspaceView {
            windows: moved(w.windows, w.focus_stack, step_of(action)),
            ..w
        },
    }
}

/// The output after a repeatable action on its active workspace (created
/// when missing).
pub open spec fn output_after<ID>(o: OutputView<ID>, action: key_repeat::Action) -> OutputView<ID> {
    with_active(o, applied(active_of(o), action))
}

/// Applies a repeatable action to the active workspace of output
/// `output_id`, which must exist.
pub fn apply_repeat_action<ID: WindowId>(
    shuttle: &mut Shuttle<ID>,
    output_id: u32,
    action: key_repeat::Action,
)
    requires
        old(shuttle)@.outputs.contains_key(output_id),
        repeat_ok(active_of(old(shuttle)@.outputs[output_id]), action),
    ensures
        final(shuttle)@.window_db == old(shuttle)@.window_db,
        final(shuttle)@.outputs == old(shuttle)@.outputs.insert(
            output_id,
            output_after(old(shuttle)@.outputs[output_id], action),
        ),
{
    let ghost m0 = shuttle.outputs@;
    let mut o = shuttle.outputs.remove(&output_id).unwrap();
    let ghost w0 = o.workspaces@;
    let ws = o.current_workspace_mut();
    match action {
        key_repeat::Action::FocusLeft => ws.cycle_focus(-1),
        key_repeat::Action::FocusRight => ws.cycle_focus(1),
        key_repeat::Action::MoveLeft => ws.move_focused_window(-1),
        key_repeat::Action::MoveRight => ws.move_focused_window(1),
    }
    proof {
        crate::state::tree::lemma_views_insert(w0, o.active_workspace_id, o.workspaces@[o.active_workspace_id]);
        assert(o.workspaces@ == w0.insert(o.active_workspace_id, o.workspaces@[o.active_workspace_id]));
    }
    shuttle.outputs.insert(output_id, o);
    proof {
        assert(shuttle.outputs@ =~= m0.insert(output_id, o));
        crate::state::tree::lemma_output_views_insert(m0, output_id, o);
    }
}

} // verus!
