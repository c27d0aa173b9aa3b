use shuttle::state::{Output, Shuttle, UsableArea, Window, Workspace};

type TestWorkspace = Workspace<u32>;

#[test]
fn test_window_insertion_order() {
    let mut ws = TestWorkspace::new();

    ws.insert_window(100, true);
    assert_eq!(ws.windows, vec![100]);
    assert_eq!(ws.focused_window(), Some(100));

    ws.insert_window(200, true);
    assert_eq!(ws.windows, vec![100, 200]);
    assert_eq!(ws.focused_window(), Some(200));

    ws.focus_window(100);
    ws.insert_window(300, true);

    // 300 lands directly to the right of the focused 100.
    assert_eq!(ws.windows, vec![100, 300, 200]);
}

#[test]
fn test_mru_focus_stack() {
    let mut ws = TestWorkspace::new();
    ws.insert_window(1, true);
    ws.insert_window(2, true);
    ws.insert_window(3, true);
    assert_eq!(ws.focused_window(), Some(3));

    ws.focus_window(1);
    ws.remove_window(1);

    assert_eq!(ws.focused_window(), Some(3));
    assert!(!ws.windows.contains(&1));
}

#[test]
fn test_cycle_focus() {
    let mut ws = TestWorkspace::new();
    ws.insert_window(10, true);
    ws.insert_window(20, true);
    ws.insert_window(30, true);

    ws.focus_window(10);

    ws.cycle_focus(1);
    assert_eq!(ws.focused_window(), Some(20));

    ws.cycle_focus(1);
    assert_eq!(ws.focused_window(), Some(30));

    ws.cycle_focus(1);
    assert_eq!(ws.focused_window(), Some(10));
}

#[test]
fn test_cleanup_closed_windows() {
    let mut shuttle = Shuttle::<u32>::new();
    let output_id = 1;

    shuttle.outputs.insert(output_id, Output::new());
    let workspace = shuttle.outputs.get_mut(&output_id).unwrap().current_workspace_mut();

    shuttle.window_db.insert(1, Window::new(1));
    shuttle.window_db.insert(2, Window::new(2));
    workspace.insert_window(1, true);
    workspace.insert_window(2, true);

    assert_eq!(shuttle.window_db.len(), 2);
    assert_eq!(workspace.windows.len(), 2);
    assert_eq!(workspace.focus_stack.len(), 2);

    shuttle.window_db.get_mut(&1).unwrap().is_closed = true;

    shuttle.cleanup_closed_windows();

    assert_eq!(shuttle.window_db.len(), 1, "Database should only contain 1 window");
    assert!(shuttle.window_db.get(&1).is_none(), "Window 1 entity must be destroyed");

    let cleaned_ws = shuttle.outputs.get_mut(&output_id).unwrap().current_workspace_mut();
    assert_eq!(cleaned_ws.windows, vec![2], "Window 1 must be removed from the view list");
    assert_eq!(cleaned_ws.focus_stack, vec![2], "No dangling pointers should remain in the focus stack");
}

#[test]
fn insert_without_focus_goes_to_bottom_of_stack() {
    let mut ws = TestWorkspace::new();
    ws.insert_window(1, true);
    ws.insert_window(2, false);
    assert_eq!(ws.windows, vec![1, 2]);
    assert_eq!(ws.focus_stack, vec![2, 1]);
    assert_eq!(ws.focused_window(), Some(1));
}

#[test]
fn insert_into_empty_workspace_appends() {
    let mut ws = TestWorkspace::new();
    ws.insert_window(7, false);
    assert_eq!(ws.windows, vec![7]);
    assert_eq!(ws.focus_stack, vec![7]);
}

#[test]
fn focusing_unknown_window_is_ignored() {
    let mut ws = TestWorkspace::new();
    ws.insert_window(1, true);
    ws.insert_window(2, true);
    ws.focus_window(99);
    assert_eq!(ws.focus_stack, vec![1, 2]);
    assert_eq!(ws.focused_window(), Some(2));
}

#[test]
fn remove_unknown_window_changes_nothing() {
    let mut ws = TestWorkspace::new();
    ws.insert_window(1, true);
    ws.remove_window(5);
    assert_eq!(ws.windows, vec![1]);
    assert_eq!(ws.focus_stack, vec![1]);
}

#[test]
fn cycle_left_wraps_to_last() {
    let mut ws = TestWorkspace::new();
    ws.insert_window(10, true);
    ws.insert_window(20, true);
    ws.insert_window(30, true);
    ws.focus_window(10);
    ws.cycle_focus(-1);
    assert_eq!(ws.focused_window(), Some(30));
}

#[test]
fn cycle_right_then_left_returns_focus() {
    let mut ws = TestWorkspace::new();
    for id in [4, 5, 6, 7] {
        ws.insert_window(id, true);
    }
    ws.focus_window(7);
    ws.cycle_focus(1);
    assert_eq!(ws.focused_window(), Some(4));
    ws.cycle_focus(-1);
    assert_eq!(ws.focused_window(), Some(7));
}

#[test]
fn cycle_on_empty_workspace_does_nothing() {
    let mut ws = TestWorkspace::new();
    ws.cycle_focus(1);
    assert!(ws.focus_stack.is_empty());
    assert!(ws.windows.is_empty());
}

#[test]
fn move_focused_window_swaps_with_neighbour() {
    let mut ws = TestWorkspace::new();
    ws.insert_window(1, true);
    ws.insert_window(2, true);
    ws.insert_window(3, true);
    ws.focus_window(1);
    ws.move_focused_window(1);
    assert_eq!(ws.windows, vec![2, 1, 3]);
    assert_eq!(ws.focused_window(), Some(1));
    ws.move_focused_window(-1);
    assert_eq!(ws.windows, vec![1, 2, 3]);
}

#[test]
fn move_focused_window_stops_at_the_ends() {
    let mut ws = TestWorkspace::new();
    ws.insert_window(1, true);
    ws.insert_window(2, true);
    ws.move_focused_window(1);
    assert_eq!(ws.windows, vec![1, 2]);
    ws.focus_window(1);
    ws.move_focused_window(-1);
    assert_eq!(ws.windows, vec![1, 2]);
}

#[test]
fn new_output_has_workspace_one_active() {
    let o = Output::<u32>::new();
    assert_eq!(o.active_workspace_id, 1);
    assert_eq!(o.workspaces.len(), 1);
    assert!(o.workspaces.contains_key(&1));
    assert!(o.usable_area.is_none());
}

#[test]
fn current_workspace_mut_creates_missing_workspace() {
    let mut o = Output::<u32>::new();
    o.active_workspace_id = 4;
    o.current_workspace_mut().insert_window(9, true);
    assert_eq!(o.workspaces.len(), 2);
    assert_eq!(o.workspaces.get(&4).unwrap().windows, vec![9]);
}

#[test]
fn switch_workspace_creates_and_activates() {
    let mut o = Output::<u32>::new();
    o.current_workspace_mut().insert_window(1, true);
    o.switch_workspace(3);
    assert_eq!(o.active_workspace_id, 3);
    assert!(o.workspaces.get(&3).unwrap().windows.is_empty());
    assert_eq!(o.workspaces.get(&1).unwrap().windows, vec![1]);
    o.switch_workspace(1);
    assert_eq!(o.active_workspace_id, 1);
    assert_eq!(o.workspaces.len(), 2);
}

#[test]
fn move_focused_to_workspace_moves_window() {
    let mut o = Output::<u32>::new();
    o.current_workspace_mut().insert_window(1, true);
    o.current_workspace_mut().insert_window(2, true);
    o.move_focused_to_workspace(2);
    assert_eq!(o.active_workspace_id, 1);
    let src = o.workspaces.get(&1).unwrap();
    assert_eq!(src.windows, vec![1]);
    assert_eq!(src.focus_stack, vec![1]);
    let dst = o.workspaces.get(&2).unwrap();
    assert_eq!(dst.windows, vec![2]);
    assert_eq!(dst.focused_window(), Some(2));
}

#[test]
fn move_focused_to_same_workspace_does_nothing() {
    let mut o = Output::<u32>::new();
    o.current_workspace_mut().insert_window(1, true);
    o.move_focused_to_workspace(1);
    assert_eq!(o.workspaces.get(&1).unwrap().windows, vec![1]);
    assert_eq!(o.workspaces.len(), 1);
}

#[test]
fn add_window_registers_and_focuses() {
    let mut s = Shuttle::<u32>::new();
    s.add_window(1, 10);
    s.add_window(1, 11);
    assert_eq!(s.window_db.len(), 2);
    assert!(!s.window_db.get(&10).unwrap().is_closed);
    assert_eq!(s.focused_window_on(1), Some(11));
    assert_eq!(s.focused_window_on(2), None);
    let ws = s.outputs.get_mut(&1).unwrap().current_workspace_mut();
    assert_eq!(ws.windows, vec![10, 11]);
}

#[test]
fn mark_closed_then_cleanup_forgets_window() {
    let mut s = Shuttle::<u32>::new();
    s.add_window(1, 10);
    s.add_window(1, 11);
    s.mark_window_closed(11);
    s.mark_window_closed(99);
    assert!(s.window_db.get(&11).unwrap().is_closed);
    assert_eq!(s.window_db.len(), 2);
    s.cleanup_closed_windows();
    assert_eq!(s.window_db.len(), 1);
    assert_eq!(s.focused_window_on(1), Some(10));
}

#[test]
fn cleanup_without_closed_windows_changes_nothing() {
    let mut s = Shuttle::<u32>::new();
    s.add_window(1, 10);
    let mut o = Output::new();
    o.active_workspace_id = 5;
    s.outputs.insert(2, o);
    s.cleanup_closed_windows();
    assert_eq!(s.window_db.len(), 1);
    // The missing active workspace of output 2 is not created.
    assert_eq!(s.outputs.get(&2).unwrap().workspaces.len(), 1);
}

#[test]
fn cleanup_touches_every_output() {
    let mut s = Shuttle::<u32>::new();
    s.add_window(1, 10);
    s.add_window(2, 20);
    s.add_window(2, 21);
    s.mark_window_closed(10);
    s.mark_window_closed(21);
    s.cleanup_closed_windows();
    assert_eq!(s.window_db.len(), 1);
    assert_eq!(s.focused_window_on(1), None);
    assert_eq!(s.focused_window_on(2), Some(20));
    assert_eq!(s.outputs.get(&2).unwrap().workspaces.get(&1).unwrap().windows, vec![20]);
}

#[test]
fn ensure_output_creates_once() {
    let mut s = Shuttle::<u32>::new();
    s.ensure_output(3).usable_area = Some(UsableArea { x: 0, y: 30, width: 1920, height: 1050 });
    assert_eq!(s.outputs.len(), 1);
    let o = s.ensure_output(3);
    assert_eq!(o.usable_area, Some(UsableArea { x: 0, y: 30, width: 1920, height: 1050 }));
    assert_eq!(o.active_workspace_id, 1);
}

fn assert_well_formed(ws: &TestWorkspace) {
    let mut w = ws.windows.clone();
    let mut f = ws.focus_stack.clone();
    w.sort();
    f.sort();
    let n = w.len();
    w.dedup();
    assert_eq!(w.len(), n, "a window appears twice in the window order");
    assert_eq!(w, f, "the focus stack and the window order differ");
}

#[test]
fn workspace_stays_well_formed() {
    let mut ws = TestWorkspace::new();
    for id in 1..=6 {
        ws.insert_window(id, id % 2 == 0);
        assert_well_formed(&ws);
    }
    ws.cycle_focus(1);
    assert_well_formed(&ws);
    ws.move_focused_window(-1);
    assert_well_formed(&ws);
    ws.focus_window(3);
    assert_well_formed(&ws);
    ws.remove_window(3);
    assert_well_formed(&ws);
    assert!(!ws.windows.contains(&3));
    ws.cycle_focus(-1);
    ws.remove_window(ws.focused_window().unwrap());
    assert_well_formed(&ws);
    assert_eq!(ws.windows.len(), 4);
}

#[test]
fn laid_out_windows_skips_unknown_ones() {
    let mut s = Shuttle::<u32>::new();
    assert!(s.laid_out_windows(1).is_empty());
    s.add_window(1, 10);
    s.add_window(1, 11);
    s.ensure_output(1).current_workspace_mut().insert_window(12, true);
    assert_eq!(s.laid_out_windows(1), vec![10, 11]);
    s.ensure_output(1).switch_workspace(2);
    assert!(s.laid_out_windows(1).is_empty());
}

#[test]
fn cleanup_reaches_inactive_workspaces() {
    let mut s = Shuttle::<u32>::new();
    s.add_window(1, 10);
    s.add_window(1, 11);
    s.add_window(1, 12);
    // Move 12 to workspace 2, which stays inactive.
    s.outputs.get_mut(&1).unwrap().move_focused_to_workspace(2);
    assert_eq!(s.outputs.get(&1).unwrap().active_workspace_id, 1);
    assert_eq!(s.outputs.get(&1).unwrap().workspaces.get(&2).unwrap().windows, vec![12]);
    s.mark_window_closed(12);
    s.mark_window_closed(10);
    s.cleanup_closed_windows();
    assert_eq!(s.window_db.len(), 1);
    let o = s.outputs.get(&1).unwrap();
    let inactive = o.workspaces.get(&2).unwrap();
    assert!(inactive.windows.is_empty(), "closed window leaves the inactive workspace");
    assert!(inactive.focus_stack.is_empty(), "and its focus stack");
    let active = o.workspaces.get(&1).unwrap();
    assert_eq!(active.windows, vec![11]);
    assert_eq!(active.focus_stack, vec![11]);
}

#[test]
fn cleanup_creates_no_workspace() {
    let mut s = Shuttle::<u32>::new();
    s.add_window(1, 10);
    s.add_window(1, 11);
    let mut o = Output::new();
    o.active_workspace_id = 5;
    s.outputs.insert(2, o);
    s.mark_window_closed(11);
    s.cleanup_closed_windows();
    assert_eq!(s.window_db.len(), 1);
    // The missing active workspace of output 2 is not created.
    let o2 = s.outputs.get(&2).unwrap();
    assert_eq!(o2.workspaces.len(), 1);
    assert!(o2.workspaces.get(&5).is_none());
    assert_eq!(s.outputs.get(&1).unwrap().workspaces.len(), 1);
    assert_eq!(s.focused_window_on(1), Some(10));
}
