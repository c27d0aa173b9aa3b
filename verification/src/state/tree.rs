//! Workspaces (the scrolling canvases), outputs and the global
//! window-manager state, with their mathematical model.

use std::collections::HashMap;
use vstd::prelude::*;
use vstd::std_specs::iter::IteratorSpec;
use crate::layout::FocusCenteringMode;
use crate::state::window::{Window, WindowId};

verus! {

// ---------------------------------------------------------------------------
// Mathematical model of a workspace
// ---------------------------------------------------------------------------

/// `s` with every occurrence of `id` taken out, order otherwise kept.
pub open spec fn without<ID>(s: Seq<ID>, id: ID) -> Seq<ID> {
    s.filter(|w: ID| w != id)
}

/// The top of a focus stack: the most recently focused window.
pub open spec fn top_of<ID>(fs: Seq<ID>) -> Option<ID> {
    if fs.len() == 0 {
        None
    } else {
        Some(fs.last())
    }
}

/// The focus stack after `id` is brought to its top.
pub open spec fn promoted<ID>(fs: Seq<ID>, id: ID) -> Seq<ID> {
    without(fs, id).push(id)
}

/// The focus stack after a request to focus `id`: windows that are not
/// on the workspace cannot be focused.
pub open spec fn focus_result<ID>(windows: Seq<ID>, fs: Seq<ID>, id: ID) -> Seq<ID> {
    if windows.contains(id) {
        promoted(fs, id)
    } else {
        fs
    }
}

/// The window order after `id` is placed: directly to the right of the
/// focused window when that window is on the workspace, else at the end.
pub open spec fn placed<ID>(windows: Seq<ID>, fs: Seq<ID>, id: ID) -> Seq<ID> {
    match top_of(fs) {
        Some(f) => match windows.index_of_first(f) {
            Some(i) => windows.insert(i + 1, id),
            None => windows.push(id),
        },
        None => windows.push(id),
    }
}

/// The focus stack after `id` is inserted: on top when it is focused at
/// once, else at the bottom of the stack.
pub open spec fn inserted_focus<ID>(fs: Seq<ID>, id: ID, focus_immediately: bool) -> Seq<ID> {
    if focus_immediately {
        promoted(fs, id)
    } else {
        seq![id] + fs
    }
}

/// Index of the focused window in the window order (when both exist).
pub open spec fn focused_index<ID>(windows: Seq<ID>, fs: Seq<ID>) -> int {
    windows.index_of_first(fs.last()).unwrap()
}

/// Whether cycling the focus by `direction` is handled without a panic by
/// its 32-bit index arithmetic (which wraps modulo the window count): the
/// focused window must be on the workspace and the shifted index must not
/// become negative or overflow.
pub open spec fn cycle_ok<ID>(windows: Seq<ID>, fs: Seq<ID>, direction: int) -> bool {
    (windows.len() > 0 && fs.len() > 0) ==> {
        &&& windows.len() <= i32::MAX
        &&& windows.contains(fs.last())
        &&& 0 <= focused_index(windows, fs) + direction + windows.len() <= i32::MAX
    }
}

/// The window that a cycle by `direction` focuses, if any.
pub open spec fn cycle_target<ID>(windows: Seq<ID>, fs: Seq<ID>, direction: int) -> Option<ID> {
    if windows.len() == 0 || fs.len() == 0 {
        None
    } else {
        let n = windows.len() as int;
        Some(windows[(focused_index(windows, fs) + direction + n) % n])
    }
}

/// Whether moving the focused window by `direction` is handled without a
/// panic: the focused window must be on the workspace and the 32-bit
/// target index must not overflow.
pub open spec fn move_ok<ID>(windows: Seq<ID>, fs: Seq<ID>, direction: int) -> bool {
    fs.len() > 0 ==> {
        &&& windows.len() <= i32::MAX
        &&& windows.contains(fs.last())
        &&& i32::MIN <= focused_index(windows, fs) + direction <= i32::MAX
    }
}

/// The window order after the focused window moved by `direction`
/// (a swap with its neighbour; nothing happens at the ends).
pub open spec fn moved<ID>(windows: Seq<ID>, fs: Seq<ID>, direction: int) -> Seq<ID> {
    if fs.len() == 0 {
        windows
    } else {
        let i = focused_index(windows, fs);
        let j = i + direction;
        if 0 <= j < windows.len() {
            windows.update(i, windows[j]).update(j, windows[i])
        } else {
            windows
        }
    }
}

/// Abstract state of a workspace.
pub struct WorkspaceView<ID> {
    pub windows: Seq<ID>,
    pub focus_stack: Seq<ID>,
    pub centering_mode: FocusCenteringMode,
}

/// The state of a freshly created workspace.
pub open spec fn empty_workspace<ID>() -> WorkspaceView<ID> {
    WorkspaceView {
        windows: Seq::empty(),
        focus_stack: Seq::empty(),
        centering_mode: FocusCenteringMode::OnOverflow,
    }
}

// ---------------------------------------------------------------------------
// Sequence helpers
// ---------------------------------------------------------------------------

fn same<ID: WindowId>(a: &ID, b: &ID) -> (r: bool)
    ensures
        r == (*a == *b),
{
    proof {
        ID::lemma_id_laws();
        reveal(vstd::laws_eq::obeys_concrete_eq);
    }
    *a == *b
}

/// Position of the first occurrence of `id` in `v`.
fn position<ID: WindowId>(v: &Vec<ID>, id: &ID) -> (r: Option<usize>)
    ensures
        match r {
            Some(i) => {
                &&& v@.index_of_first(*id) == Some(i as int)
                &&& i < v@.len() <= usize::MAX
                &&& v@[i as int] == *id
                &&& forall|j: int| 0 <= j < i ==> v@[j] != *id
            },
            None => v@.index_of_first(*id) == None::<int> && !v@.contains(*id),
        },
{
    proof {
        v@.index_of_first_ensures(*id);
    }
    let mut i: usize = 0;
    while i < v.len()
        invariant
            i <= v@.len(),
            forall|j: int| 0 <= j < i ==> v@[j] != *id,
        decreases v@.len() - i,
    {
        if same(&v[i], id) {
            proof {
                v@.index_of_first_ensures(*id);
                let k = v@.index_of_first(*id).unwrap();
                assert(k == i as int) by {
                    if k < i as int {
                    } else if k > i as int {
                    }
                }
            }
            return Some(i);
        }
        i = i + 1;
    }
    proof {
        v@.index_of_first_ensures(*id);
        if v@.contains(*id) {
            let k = v@.index_of_first(*id).unwrap();
            assert(v@[k] == *id);
        }
    }
    None
}

fn contains<ID: WindowId>(v: &Vec<ID>, id: &ID) -> (r: bool)
    ensures
        r == v@.contains(*id),
{
    proof {
        v@.index_of_first_ensures(*id);
    }
    position(v, id).is_some()
}

/// Keeps the elements of `v` that differ from `id`, in order.
fn retain_not<ID: WindowId>(v: &mut Vec<ID>, id: &ID)
    ensures
        final(v)@ == without(old(v)@, *id),
{
    let ghost pred = |w: ID| w != *id;
    let mut kept: Vec<ID> = Vec::new();
    let mut i: usize = 0;
    while i < v.len()
        invariant
            i <= v@.len(),
            v@ == old(v)@,
            kept@ == v@.take(i as int).filter(pred),
            pred == (|w: ID| w != *id),
        decreases v@.len() - i,
    {
        let w = v[i];
        proof {
            v@.take(i as int).lemma_filter_push(w, pred);
            assert(v@.take(i as int).push(w) =~= v@.take(i + 1));
        }
        let keep = !same(&w, id);
        if keep {
            kept.push(w);
        }
        i = i + 1;
    }
    proof {
        assert(v@.take(v@.len() as int) =~= v@);
    }
    *v = kept;
}

// ---------------------------------------------------------------------------
// Workspace
// ---------------------------------------------------------------------------

/// Workspace (The Canvas / Scroll).
///
/// A workspace acts as an infinitely long horizontal scroll of windows.
pub struct Workspace<ID: WindowId> {
    /// The sequential, left-to-right order of windows on the canvas.
    pub windows: Vec<ID>,
    /// The Most Recently Used (MRU) focus history stack; its top element
    /// is the currently focused window.
    pub focus_stack: Vec<ID>,
    /// The active tracking strategy for the camera.
    pub centering_mode: FocusCenteringMode,
}

impl<ID: WindowId> View for Workspace<ID> {
    type V = WorkspaceView<ID>;

    open spec fn view(&self) -> WorkspaceView<ID> {
        WorkspaceView {
            windows: self.windows@,
            focus_stack: self.focus_stack@,
            centering_mode: self.centering_mode,
        }
    }
}

impl<ID: WindowId> Workspace<ID> {
    /// Creates a new, empty workspace with the default camera strategy.
    pub fn new() -> (ws: Self)
        ensures
            ws@ == empty_workspace::<ID>(),
    {
        Workspace {
            windows: Vec::new(),
            focus_stack: Vec::new(),
            centering_mode: FocusCenteringMode::OnOverflow,
        }
    }

    /// Retrieves the ID of the currently focused window.
    pub fn focused_window(&self) -> (r: Option<ID>)
        ensures
            r == top_of(self.focus_stack@),
    {
        if self.focus_stack.len() == 0 {
            None
        } else {
            Some(self.focus_stack[self.focus_stack.len() - 1])
        }
    }

    /// Focuses a specific window and updates the MRU stack. A window that
    /// is not on this workspace is ignored.
    pub fn focus_window(&mut self, id: ID)
        ensures
            final(self).windows@ == old(self).windows@,
            final(self).focus_stack@ == focus_result(old(self).windows@, old(self).focus_stack@, id),
            final(self).centering_mode == old(self).centering_mode,
    {
        if !contains(&self.windows, &id) {
            return;
        }
        retain_not(&mut self.focus_stack, &id);
        self.focus_stack.push(id);
    }

    /// Inserts a new window into the workspace, directly to the right of
    /// the focused window.
    pub fn insert_window(&mut self, id: ID, focus_immediately: bool)
        ensures
            final(self).windows@ == placed(old(self).windows@, old(self).focus_stack@, id),
            final(self).focus_stack@ == inserted_focus(old(self).focus_stack@, id, focus_immediately),
            final(self).centering_mode == old(self).centering_mode,
    {
        let ghost w0 = self.windows@;
        let ghost f0 = self.focus_stack@;
        if let Some(focus_id) = self.focused_window() {
            if let Some(idx) = position(&self.windows, &focus_id) {
                self.windows.insert(idx + 1, id);
            } else {
                self.windows.push(id);
            }
        } else {
            self.windows.push(id);
        }
        assert(self.windows@ == placed(w0, f0, id));
        assert(self.windows@.contains(id)) by {
            match top_of(f0) {
                Some(f) => match w0.index_of_first(f) {
                    Some(i) => {
                        w0.index_of_first_ensures(f);
                        w0.insert_ensures(i + 1, id);
                        assert(self.windows@[i + 1] == id);
                    },
                    None => {
                        assert(self.windows@[w0.len() as int] == id);
                    },
                },
                None => {
                    assert(self.windows@[w0.len() as int] == id);
                },
            }
        }
        if focus_immediately {
            self.focus_window(id);
        } else {
            self.focus_stack.insert(0, id);
        }
    }

    /// Removes a window from both the layout list and the MRU focus stack.
    pub fn remove_window(&mut self, id: ID)
        ensures
            final(self).windows@ == old(self).windows@.remove_value(id),
            final(self).focus_stack@ == without(old(self).focus_stack@, id),
            final(self).centering_mode == old(self).centering_mode,
    {
        let ghost w0 = self.windows@;
        proof {
            w0.index_of_first_ensures(id);
        }
        if let Some(idx) = position(&self.windows, &id) {
            self.windows.remove(idx);
        }
        assert(self.windows@ == w0.remove_value(id));
        retain_not(&mut self.focus_stack, &id);
    }

    /// Shifts the focus sequentially (left or right) through the window
    /// list, wrapping around at both ends.
    pub fn cycle_focus(&mut self, direction: i32)
        requires
            cycle_ok(old(self).windows@, old(self).focus_stack@, direction as int),
        ensures
            final(self).windows@ == old(self).windows@,
            final(self).focus_stack@ == (match cycle_target(
                old(self).windows@,
                old(self).focus_stack@,
                direction as int,
            ) {
                Some(t) => promoted(old(self).focus_stack@, t),
                None => old(self).focus_stack@,
            }),
            final(self).centering_mode == old(self).centering_mode,
    {
        if self.windows.len() == 0 {
            return;
        }
        let current_focus = match self.focused_window() {
            Some(id) => id,
            None => return,
        };
        proof {
            self.windows@.index_of_first_ensures(current_focus);
        }
        let current_idx = position(&self.windows, &current_focus).unwrap();
        let len = self.windows.len() as i32;
        let new_idx = (current_idx as i32 + direction + len) % len;
        let new_focus_id = self.windows[new_idx as usize];
        self.focus_window(new_focus_id);
    }

    /// Moves the focused window one step (`direction`) along the window
    /// order by swapping it with its neighbour; nothing happens at the ends.
    pub fn move_focused_window(&mut self, direction: i32)
        requires
            move_ok(old(self).windows@, old(self).focus_stack@, direction as int),
        ensures
            final(self).windows@ == moved(old(self).windows@, old(self).focus_stack@, direction as int),
            final(self).focus_stack@ == old(self).focus_stack@,
            final(self).centering_mode == old(self).centering_mode,
    {
        let focused_id = match self.focused_window() {
            Some(id) => id,
            None => return,
        };
        proof {
            self.windows@.index_of_first_ensures(focused_id);
        }
        let current_idx = position(&self.windows, &focused_id).unwrap();
        let new_idx = current_idx as i32 + direction;
        if new_idx >= 0 && (new_idx as usize) < self.windows.len() {
            let j = new_idx as usize;
            let a = self.windows[current_idx];
            let b = self.windows[j];
            self.windows.set(current_idx, b);
            self.windows.set(j, a);
        }
    }
}


// ---------------------------------------------------------------------------
// Output
// ---------------------------------------------------------------------------

/// The part of an output that is not covered by layer-shell surfaces
/// (bars, panels), in output coordinates.
#[derive(Clone, Copy, Debug, PartialEq, Eq, Structural)]
pub struct UsableArea {
    pub x: i32,
    pub y: i32,
    pub width: i32,
    pub height: i32,
}

/// Abstract state of an output.
pub struct OutputView<ID> {
    pub workspaces: Map<u32, WorkspaceView<ID>>,
    pub active_workspace_id: u32,
    pub usable_area: Option<UsableArea>,
}

/// The abstract states of a map of workspaces.
pub open spec fn workspace_views<ID: WindowId>(m: Map<u32, Workspace<ID>>) -> Map<u32, WorkspaceView<ID>> {
    m.map_values(|w: Workspace<ID>| w@)
}

/// The workspace stored under `k`, or a fresh one when there is none.
pub open spec fn workspace_or_new<ID>(m: Map<u32, WorkspaceView<ID>>, k: u32) -> WorkspaceView<ID> {
    if m.contains_key(k) {
        m[k]
    } else {
        empty_workspace()
    }
}

/// The output after switching to workspace `target` (created when missing).
pub open spec fn switched<ID>(o: OutputView<ID>, target: u32) -> OutputView<ID> {
    if o.active_workspace_id == target {
        o
    } else {
        OutputView {
            workspaces: o.workspaces.insert(target, workspace_or_new(o.workspaces, target)),
            active_workspace_id: target,
            usable_area: o.usable_area,
        }
    }
}

/// The output after its focused window moved to workspace `target`: the
/// window leaves the active workspace entirely and is inserted, focused,
/// into the target workspace (created when missing). The active workspace
/// does not change.
pub open spec fn moved_to_workspace<ID>(o: OutputView<ID>, target: u32) -> OutputView<ID> {
    if o.active_workspace_id == target || !o.workspaces.contains_key(o.active_workspace_id)
        || o.workspaces[o.active_workspace_id].focus_stack.len() == 0 {
        o
    } else {
        let a = o.active_workspace_id;
        let src = o.workspaces[a];
        let id = src.focus_stack.last();
        let src2 = WorkspaceView {
            windows: without(src.windows, id),
            focus_stack: without(src.focus_stack, id),
            centering_mode: src.centering_mode,
        };
        let w1 = o.workspaces.insert(a, src2);
        let tgt = workspace_or_new(w1, target);
        let tgt2 = WorkspaceView {
            windows: placed(tgt.windows, tgt.focus_stack, id),
            focus_stack: inserted_focus(tgt.focus_stack, id, true),
            centering_mode: tgt.centering_mode,
        };
        OutputView { workspaces: w1.insert(target, tgt2), active_workspace_id: a, usable_area: o.usable_area }
    }
}

pub proof fn lemma_views_insert<ID: WindowId>(m: Map<u32, Workspace<ID>>, k: u32, w: Workspace<ID>)
    ensures
        workspace_views(m.insert(k, w)) == workspace_views(m).insert(k, w@),
{
    assert(workspace_views(m.insert(k, w)) =~= workspace_views(m).insert(k, w@));
}

/// Output (Monitor / Screen). Each output manages its own set of workspaces.
pub struct Output<ID: WindowId> {
    /// The workspaces of this output, keyed by workspace id (River's tag).
    pub workspaces: HashMap<u32, Workspace<ID>>,
    /// The ID of the workspace currently displayed on this output.
    pub active_workspace_id: u32,
    /// The area not covered by layer-shell surfaces, once known.
    pub usable_area: Option<UsableArea>,
}

impl<ID: WindowId> View for Output<ID> {
    type V = OutputView<ID>;

    open spec fn view(&self) -> OutputView<ID> {
        OutputView {
            workspaces: workspace_views(self.workspaces@),
            active_workspace_id: self.active_workspace_id,
            usable_area: self.usable_area,
        }
    }
}

impl<ID: WindowId> Output<ID> {
    /// Creates a new output whose only workspace is workspace 1, active.
    pub fn new() -> (o: Self)
        ensures
            o@.workspaces == map![1u32 => empty_workspace::<ID>()],
            o@.active_workspace_id == 1,
            o@.usable_area == None::<UsableArea>,
    {
        let mut workspaces = HashMap::new();
        let w = Workspace::new();
        workspaces.insert(1u32, w);
        proof {
            lemma_views_insert(Map::<u32, Workspace<ID>>::empty(), 1u32, w);
            assert(workspace_views(Map::<u32, Workspace<ID>>::empty()) =~= Map::empty());
            assert(map![1u32 => empty_workspace::<ID>()] =~= Map::<u32, WorkspaceView<ID>>::empty().insert(1u32, empty_workspace::<ID>()));
        }
        Output { workspaces, active_workspace_id: 1, usable_area: None }
    }

    /// Retrieves a mutable reference to the currently active workspace,
    /// creating it (empty) when it does not exist.
    pub fn current_workspace_mut(&mut self) -> (ws: &mut Workspace<ID>)
        ensures
            (*ws)@ == workspace_or_new(old(self)@.workspaces, old(self).active_workspace_id),
            final(self).workspaces@ == old(self).workspaces@.insert(old(self).active_workspace_id, *final(ws)),
            final(self).active_workspace_id == old(self).active_workspace_id,
            final(self).usable_area == old(self).usable_area,
    {
        self.workspaces.entry(self.active_workspace_id).or_insert(Workspace::new())
    }

    /// Makes `target` the active workspace, creating it when missing.
    pub fn switch_workspace(&mut self, target: u32)
        ensures
            final(self)@ == switched(old(self)@, target),
    {
        if self.active_workspace_id != target {
            self.active_workspace_id = target;
            let ghost m0 = self.workspaces@;
            let _ = self.workspaces.entry(target).or_insert(Workspace::new());
            proof {
                if m0.contains_key(target) {
                    assert(self.workspaces@ =~= m0.insert(target, m0[target]));
                    lemma_views_insert(m0, target, m0[target]);
                    assert(self.workspaces@ == m0);
                } else {
                    lemma_views_insert(m0, target, self.workspaces@[target]);
                }
            }
        }
    }

    /// Moves the focused window of the active workspace to workspace
    /// `target` (created when missing), where it is inserted and focused.
    pub fn move_focused_to_workspace(&mut self, target: u32)
        ensures
            final(self)@ == moved_to_workspace(old(self)@, target),
    {
        if self.active_workspace_id == target {
            return;
        }
        let ghost m0 = self.workspaces@;
        let active = self.active_workspace_id;
        let focused_id = match self.workspaces.get(&active) {
            Some(ws) => ws.focused_window(),
            None => None,
        };
        if let Some(id) = focused_id {
            let mut ws = self.workspaces.remove(&active).unwrap();
            retain_not(&mut ws.windows, &id);
            retain_not(&mut ws.focus_stack, &id);
            self.workspaces.insert(active, ws);
            let ghost m1 = self.workspaces@;
            proof {
                lemma_views_insert(m0, active, ws);
            }
            let ghost o0 = old(self)@;
            assert(workspace_views(m1) == o0.workspaces.insert(active, WorkspaceView {
                windows: without(o0.workspaces[active].windows, id),
                focus_stack: without(o0.workspaces[active].focus_stack, id),
                centering_mode: o0.workspaces[active].centering_mode,
            }));
            let target_ws = self.workspaces.entry(target).or_insert(Workspace::new());
            let ghost t0 = (*target_ws)@;
            assert(t0 == workspace_or_new(workspace_views(m1), target));
            target_ws.insert_window(id, true);
            proof {
                lemma_views_insert(m1, target, self.workspaces@[target]);
                assert(self.workspaces@ == m1.insert(target, self.workspaces@[target]));
            }
        }
    }
}


// ---------------------------------------------------------------------------
// Shuttle
// ---------------------------------------------------------------------------

/// The windows of `db` that carry the closed tombstone.
pub open spec fn closed_ids<ID: WindowId>(db: Map<ID, Window<ID>>) -> Set<ID> {
    db.dom().filter(|k: ID| db[k].is_closed)
}

/// `s` with every member of `dead` taken out, order otherwise kept.
pub open spec fn without_all<ID>(s: Seq<ID>, dead: Set<ID>) -> Seq<ID> {
    s.filter(|w: ID| !dead.contains(w))
}

/// A workspace after every window of `dead` was removed from it: from
/// the window order and from the focus stack, order otherwise kept.
pub open spec fn purged_workspace<ID>(w: WorkspaceView<ID>, dead: Set<ID>) -> WorkspaceView<ID> {
    WorkspaceView {
        windows: without_all(w.windows, dead),
        focus_stack: without_all(w.focus_stack, dead),
        centering_mode: w.centering_mode,
    }
}

/// An output after every window of `dead` was removed from each of its
/// workspaces (none is created).
pub open spec fn purged_output<ID>(o: OutputView<ID>, dead: Set<ID>) -> OutputView<ID> {
    OutputView {
        workspaces: o.workspaces.map_values(|w: WorkspaceView<ID>| purged_workspace(w, dead)),
        active_workspace_id: o.active_workspace_id,
        usable_area: o.usable_area,
    }
}

/// Abstract state of the window manager.
#[verifier::reject_recursive_types(ID)]
pub struct ShuttleView<ID: WindowId> {
    pub window_db: Map<ID, Window<ID>>,
    pub outputs: Map<u32, OutputView<ID>>,
}

/// The abstract states of a map of outputs.
pub open spec fn output_views<ID: WindowId>(m: Map<u32, Output<ID>>) -> Map<u32, OutputView<ID>> {
    m.map_values(|o: Output<ID>| o@)
}

/// The state after the closed windows were cleaned up: they leave the
/// database and every workspace of every output.
pub open spec fn cleaned<ID: WindowId>(s: ShuttleView<ID>) -> ShuttleView<ID> {
    let dead = closed_ids(s.window_db);
    if dead.is_empty() {
        s
    } else {
        ShuttleView {
            window_db: s.window_db.remove_keys(dead),
            outputs: s.outputs.map_values(|o: OutputView<ID>| purged_output(o, dead)),
        }
    }
}

/// The keys of a map keyed by `u32`, each once.
fn u32_keys<V>(m: &HashMap<u32, V>) -> (r: Vec<u32>)
    ensures
        r@.no_duplicates(),
        r@.to_set() == m@.dom(),
{
    let mut keys: Vec<u32> = Vec::new();
    for key in kit: m.keys()
        invariant
            keys@ == kit.seq().take(kit.index()).map_values(|r: &u32| *r),
    {
        proof {
            assert(kit.seq().take(kit.index() + 1) =~= kit.seq().take(kit.index()).push(key));
            assert(kit.seq().take(kit.index() + 1).map_values(|r: &u32| *r)
                =~= kit.seq().take(kit.index()).map_values(|r: &u32| *r).push(*key));
        }
        keys.push(*key);
    }
    proof {
        let ks = vstd::std_specs::hash::spec_keys_iter(m).remaining();
        assert(ks.take(ks.len() as int) =~= ks);
        assert(keys@ =~= ks.unref());
        assert(keys@.no_duplicates()) by {
            assert forall|a: int, b: int| 0 <= a < keys@.len() && 0 <= b < keys@.len() && a != b
                implies keys@[a] != keys@[b] by {
                assert(ks[a] != ks[b]);
            }
        }
    }
    keys
}

/// Keeps the elements of `v` that are not in `dead`, in order.
fn retain_not_in<ID: WindowId>(v: &mut Vec<ID>, dead: &Vec<ID>)
    ensures
        final(v)@ == without_all(old(v)@, dead@.to_set()),
{
    let ghost d = dead@.to_set();
    let ghost pred = |w: ID| !d.contains(w);
    let mut kept: Vec<ID> = Vec::new();
    let mut i: usize = 0;
    while i < v.len()
        invariant
            i <= v@.len(),
            v@ == old(v)@,
            d == dead@.to_set(),
            pred == (|w: ID| !d.contains(w)),
            kept@ == v@.take(i as int).filter(pred),
        decreases v@.len() - i,
    {
        let w = v[i];
        proof {
            v@.take(i as int).lemma_filter_push(w, pred);
            assert(v@.take(i as int).push(w) =~= v@.take(i + 1));
        }
        if !contains(dead, &w) {
            kept.push(w);
        }
        i = i + 1;
    }
    proof {
        assert(v@.take(v@.len() as int) =~= v@);
    }
    *v = kept;
}

/// Removes every window of `dead` from `ws`.
fn purge_workspace<ID: WindowId>(ws: &mut Workspace<ID>, dead: &Vec<ID>)
    ensures
        final(ws)@ == purged_workspace(old(ws)@, dead@.to_set()),
{
    retain_not_in(&mut ws.windows, dead);
    retain_not_in(&mut ws.focus_stack, dead);
}

/// Removes every window of `dead` from every workspace of `o`.
fn purge_output<ID: WindowId>(o: &mut Output<ID>, dead: &Vec<ID>)
    ensures
        final(o)@ == purged_output(old(o)@, dead@.to_set()),
{
    let keys = u32_keys(&o.workspaces);
    let ghost w0 = workspace_views(o.workspaces@);
    let ghost a0 = o.active_workspace_id;
    let ghost u0 = o.usable_area;
    let ghost d = dead@.to_set();
    let mut i: usize = 0;
    while i < keys.len()
        invariant
            i <= keys@.len(),
            keys@.no_duplicates(),
            keys@.to_set() == w0.dom(),
            d == dead@.to_set(),
            o.active_workspace_id == a0,
            o.usable_area == u0,
            workspace_views(o.workspaces@).dom() == w0.dom(),
            forall|k: u32| #[trigger] w0.contains_key(k) ==> workspace_views(o.workspaces@)[k] == (if keys@.take(i as int).contains(k) {
                purged_workspace(w0[k], d)
            } else {
                w0[k]
            }),
        decreases keys@.len() - i,
    {
        let key = keys[i];
        let ghost m0 = o.workspaces@;
        proof {
            assert(keys@.to_set().contains(key));
            assert(!keys@.take(i as int).contains(key)) by {
                if keys@.take(i as int).contains(key) {
                    let k = choose|k: int| 0 <= k < i && keys@.take(i as int)[k] == key;
                    assert(keys@[k] == keys@[i as int]);
                }
            }
        }
        let mut ws = o.workspaces.remove(&key).unwrap();
        purge_workspace(&mut ws, dead);
        o.workspaces.insert(key, ws);
        proof {
            assert(o.workspaces@ =~= m0.insert(key, ws));
            lemma_views_insert(m0, key, ws);
            assert(keys@.take(i + 1) =~= keys@.take(i as int).push(key));
            assert forall|k: u32| #[trigger] w0.contains_key(k) implies workspace_views(o.workspaces@)[k] == (if keys@.take(i + 1).contains(k) {
                purged_workspace(w0[k], d)
            } else {
                w0[k]
            }) by {
                if k == key {
                    assert(keys@.take(i + 1)[i as int] == key);
                } else {
                    assert(keys@.take(i + 1).contains(k) == keys@.take(i as int).contains(k)) by {
                        if keys@.take(i + 1).contains(k) {
                            let a = choose|a: int| 0 <= a < i + 1 && #[trigger] keys@.take(i + 1)[a] == k;
                            assert(keys@.take(i as int)[a] == k);
                        }
                        if keys@.take(i as int).contains(k) {
                            let a = choose|a: int| 0 <= a < i && #[trigger] keys@.take(i as int)[a] == k;
                            assert(keys@.take(i + 1)[a] == k);
                        }
                    }
                }
            }
            assert(workspace_views(o.workspaces@).dom() =~= w0.dom());
        }
        i = i + 1;
    }
    proof {
        assert(keys@.take(keys@.len() as int) =~= keys@);
        assert forall|k: u32| w0.contains_key(k) implies keys@.contains(k) by {
            assert(keys@.to_set().contains(k));
        }
        assert(workspace_views(o.workspaces@) =~= w0.map_values(|w: WorkspaceView<ID>| purged_workspace(w, d)));
    }
}

/// The state of a freshly created output.
pub open spec fn fresh_output<ID>() -> OutputView<ID> {
    OutputView {
        workspaces: map![1u32 => empty_workspace::<ID>()],
        active_workspace_id: 1,
        usable_area: None,
    }
}

/// The output stored under `k`, or a fresh one when there is none.
pub open spec fn output_or_fresh<ID>(m: Map<u32, OutputView<ID>>, k: u32) -> OutputView<ID> {
    if m.contains_key(k) {
        m[k]
    } else {
        fresh_output()
    }
}

/// A workspace after `id` was inserted into it.
pub open spec fn with_inserted<ID>(w: WorkspaceView<ID>, id: ID, focus_immediately: bool) -> WorkspaceView<ID> {
    WorkspaceView {
        windows: placed(w.windows, w.focus_stack, id),
        focus_stack: inserted_focus(w.focus_stack, id, focus_immediately),
        centering_mode: w.centering_mode,
    }
}

/// The output `o` with its active workspace replaced by `w`.
pub open spec fn with_active<ID>(o: OutputView<ID>, w: WorkspaceView<ID>) -> OutputView<ID> {
    OutputView {
        workspaces: o.workspaces.insert(o.active_workspace_id, w),
        active_workspace_id: o.active_workspace_id,
        usable_area: o.usable_area,
    }
}

/// The active workspace of an output (fresh when missing).
pub open spec fn active_of<ID>(o: OutputView<ID>) -> WorkspaceView<ID> {
    workspace_or_new(o.workspaces, o.active_workspace_id)
}

/// The focused window of the active workspace of output `output_id`, if
/// the output and that workspace exist.
pub open spec fn focused_on<ID: WindowId>(s: ShuttleView<ID>, output_id: u32) -> Option<ID> {
    if s.outputs.contains_key(output_id) {
        let o = s.outputs[output_id];
        if o.workspaces.contains_key(o.active_workspace_id) {
            top_of(o.workspaces[o.active_workspace_id].focus_stack)
        } else {
            None
        }
    } else {
        None
    }
}

/// The windows of the active workspace of output `output_id` that are in
/// the window database, in layout order (none when the output or that
/// workspace is missing).
pub open spec fn laid_out<ID: WindowId>(s: ShuttleView<ID>, output_id: u32) -> Seq<ID> {
    if s.outputs.contains_key(output_id) && s.outputs[output_id].workspaces.contains_key(
        s.outputs[output_id].active_workspace_id,
    ) {
        let o = s.outputs[output_id];
        o.workspaces[o.active_workspace_id].windows.filter(|id: ID| s.window_db.contains_key(id))
    } else {
        Seq::empty()
    }
}

pub proof fn lemma_output_views_insert<ID: WindowId>(m: Map<u32, Output<ID>>, k: u32, o: Output<ID>)
    ensures
        output_views(m.insert(k, o)) == output_views(m).insert(k, o@),
{
    assert(output_views(m.insert(k, o)) =~= output_views(m).insert(k, o@));
}

/// Shuttle (Global Application State): the central state of the window
/// manager.
pub struct Shuttle<ID: WindowId> {
    /// The window database, the single source of truth for windows.
    pub window_db: HashMap<ID, Window<ID>>,
    /// The outputs, keyed by output id.
    pub outputs: HashMap<u32, Output<ID>>,
}

impl<ID: WindowId> View for Shuttle<ID> {
    type V = ShuttleView<ID>;

    open spec fn view(&self) -> ShuttleView<ID> {
        ShuttleView { window_db: self.window_db@, outputs: output_views(self.outputs@) }
    }
}

impl<ID: WindowId> Shuttle<ID> {
    /// Initializes a new, empty global state.
    pub fn new() -> (s: Self)
        ensures
            s@.window_db == Map::<ID, Window<ID>>::empty(),
            s@.outputs == Map::<u32, OutputView<ID>>::empty(),
    {
        let s = Shuttle { window_db: HashMap::new(), outputs: HashMap::new() };
        assert(output_views(s.outputs@) =~= Map::<u32, OutputView<ID>>::empty());
        s
    }

    /// Centrally cleans up all windows marked as closed: they leave the
    /// window database and every workspace of every output (window order
    /// and focus stack alike); no workspace is created.
    pub fn cleanup_closed_windows(&mut self)
        ensures
            final(self)@ == cleaned(old(self)@),
    {
        proof {
            ID::lemma_id_laws();
        }
        let ghost db0 = self.window_db@;
        let ghost dead = closed_ids(db0);
        let mut dead_ids: Vec<ID> = Vec::new();
        for pair in it: self.window_db.iter()
            invariant
                db0 == self.window_db@,
                dead == closed_ids(db0),
                dead_ids@.no_duplicates(),
                forall|j: int| 0 <= j < dead_ids@.len() ==> #[trigger] dead.contains(dead_ids@[j]),
                forall|i: int| 0 <= i < it.index() ==> (#[trigger] it.seq()[i]).1.is_closed
                    ==> dead_ids@.contains(*it.seq()[i].0),
        {
            let (k, w) = pair;
            assert(pair == it.seq()[it.index()]);
            assert(db0.contains_key(*k) && db0[*k] == *w);
            assert(w.is_closed ==> dead.contains(*k)) by {
                if w.is_closed {
                    assert(db0.dom().contains(*k));
                    assert(db0[*k].is_closed);
                }
            }
            let ghost d0 = dead_ids@;
            if w.is_closed && !contains(&dead_ids, k) {
                dead_ids.push(*k);
            }
            proof {
                assert forall|x: ID| d0.contains(x) implies dead_ids@.contains(x) by {
                    let j = choose|j: int| 0 <= j < d0.len() && d0[j] == x;
                    assert(dead_ids@[j] == x);
                }
                if w.is_closed {
                    if d0.contains(*k) {
                    } else {
                        assert(dead_ids@[d0.len() as int] == *k);
                    }
                }
            }
        }
        proof {
            assert(dead_ids@.to_set() =~= dead) by {
                assert forall|k: ID| dead.contains(k) implies dead_ids@.to_set().contains(k) by {
                    let v = vstd::std_specs::hash::spec_hash_map_iter(&self.window_db).remaining();
                    assert(v.contains((&k, &db0[k])));
                }
            }
        }
        if dead_ids.len() == 0 {
            proof {
                assert(dead =~= Set::<ID>::empty());
            }
            return;
        }
        let out_keys = u32_keys(&self.outputs);
        let ghost o0 = output_views(self.outputs@);
        let mut i: usize = 0;
        while i < out_keys.len()
            invariant
                i <= out_keys@.len(),
                out_keys@.no_duplicates(),
                out_keys@.to_set() == o0.dom(),
                dead_ids@.no_duplicates(),
                dead_ids@.to_set() == dead,
                self.window_db@ == db0,
                output_views(self.outputs@).dom() == o0.dom(),
                forall|k: u32| #[trigger] o0.contains_key(k) ==> output_views(self.outputs@)[k] == (if out_keys@.take(i as int).contains(k) {
                    purged_output(o0[k], dead)
                } else {
                    o0[k]
                }),
            decreases out_keys@.len() - i,
        {
            let key = out_keys[i];
            let ghost m0 = self.outputs@;
            proof {
                assert(out_keys@.to_set().contains(key));
                assert(!out_keys@.take(i as int).contains(key)) by {
                    if out_keys@.take(i as int).contains(key) {
                        let k = choose|k: int| 0 <= k < i && out_keys@.take(i as int)[k] == key;
                        assert(out_keys@[k] == out_keys@[i as int]);
                    }
                }
            }
            let mut o = self.outputs.remove(&key).unwrap();
            purge_output(&mut o, &dead_ids);
            self.outputs.insert(key, o);
            proof {
                assert(self.outputs@ =~= m0.insert(key, o));
                assert(out_keys@.take(i + 1) =~= out_keys@.take(i as int).push(key));
                assert forall|k: u32| #[trigger] o0.contains_key(k) implies output_views(self.outputs@)[k] == (if out_keys@.take(i + 1).contains(k) {
                    purged_output(o0[k], dead)
                } else {
                    o0[k]
                }) by {
                    if k == key {
                        assert(out_keys@.take(i + 1)[i as int] == key);
                    } else {
                        assert(out_keys@.take(i + 1).contains(k) == out_keys@.take(i as int).contains(k)) by {
                            if out_keys@.take(i + 1).contains(k) {
                                let a = choose|a: int| 0 <= a < i + 1 && #[trigger] out_keys@.take(i + 1)[a] == k;
                                assert(out_keys@.take(i as int)[a] == k);
                            }
                            if out_keys@.take(i as int).contains(k) {
                                let a = choose|a: int| 0 <= a < i && #[trigger] out_keys@.take(i as int)[a] == k;
                                assert(out_keys@.take(i + 1)[a] == k);
                            }
                        }
                    }
                }
                assert(output_views(self.outputs@).dom() =~= o0.dom());
            }
            i = i + 1;
        }
        proof {
            assert(out_keys@.take(out_keys@.len() as int) =~= out_keys@);
            assert forall|k: u32| o0.contains_key(k) implies out_keys@.contains(k) by {
                assert(out_keys@.to_set().contains(k));
            }
            assert(output_views(self.outputs@) =~= o0.map_values(|o: OutputView<ID>| purged_output(o, dead)));
        }
        let mut j: usize = 0;
        proof {
            assert(dead_ids@.take(0).to_set() =~= Set::<ID>::empty());
            assert(db0.remove_keys(Set::<ID>::empty()) =~= db0);
        }
        while j < dead_ids.len()
            invariant
                j <= dead_ids@.len(),
                self.window_db@ == db0.remove_keys(dead_ids@.take(j as int).to_set()),
                output_views(self.outputs@) == o0.map_values(|o: OutputView<ID>| purged_output(o, dead)),
            decreases dead_ids@.len() - j,
        {
            let x = dead_ids[j];
            proof {
                ID::lemma_id_laws();
            }
            self.window_db.remove(&x);
            proof {
                assert(dead_ids@.take(j + 1) =~= dead_ids@.take(j as int).push(x));
                dead_ids@.take(j as int).lemma_push_to_set_commute(x);
                assert(self.window_db@ =~= db0.remove_keys(dead_ids@.take(j + 1).to_set()));
            }
            j = j + 1;
        }
        proof {
            assert(dead_ids@.take(dead_ids@.len() as int) =~= dead_ids@);
            assert(dead.contains(dead_ids@[0]));
            assert(!dead.is_empty());
            assert(self@.window_db == db0.remove_keys(dead));
        }
    }

    /// The output `output_id`, created (with workspace 1 active) when
    /// missing.
    pub fn ensure_output(&mut self, output_id: u32) -> (o: &mut Output<ID>)
        ensures
            (*o)@ == output_or_fresh(old(self)@.outputs, output_id),
            final(self).outputs@ == old(self).outputs@.insert(output_id, *final(o)),
            final(self).window_db@ == old(self).window_db@,
    {
        let r = self.outputs.entry(output_id).or_insert(Output::new());
        proof {
            assert(map![1u32 => empty_workspace::<ID>()] == fresh_output::<ID>().workspaces);
        }
        r
    }

    /// Registers a new window: it enters the window database and is
    /// inserted, focused, into the active workspace of output `output_id`
    /// (both created when missing).
    pub fn add_window(&mut self, output_id: u32, id: ID)
        ensures
            final(self)@.window_db == old(self)@.window_db.insert(id, Window { id, is_floating: false, is_closed: false }),
            final(self)@.outputs == old(self)@.outputs.insert(
                output_id,
                with_active(
                    output_or_fresh(old(self)@.outputs, output_id),
                    with_inserted(active_of(output_or_fresh(old(self)@.outputs, output_id)), id, true),
                ),
            ),
    {
        proof {
            ID::lemma_id_laws();
        }
        self.window_db.insert(id, Window::new(id));
        let ghost m0 = self.outputs@;
        let mut o = match self.outputs.remove(&output_id) {
            Some(o) => o,
            None => Output::new(),
        };
        let ghost o0 = o@;
        let ghost w0 = o.workspaces@;
        proof {
            assert(o0 == output_or_fresh(output_views(m0), output_id));
        }
        let ws = o.current_workspace_mut();
        ws.insert_window(id, true);
        proof {
            lemma_views_insert(w0, o.active_workspace_id, o.workspaces@[o.active_workspace_id]);
            assert(o.workspaces@ == w0.insert(o.active_workspace_id, o.workspaces@[o.active_workspace_id]));
        }
        self.outputs.insert(output_id, o);
        proof {
            assert(self.outputs@ =~= m0.insert(output_id, o));
            lemma_output_views_insert(m0, output_id, o);
        }
    }

    /// Marks a window closed (a tombstone for the next cleanup); unknown
    /// windows are ignored.
    pub fn mark_window_closed(&mut self, id: ID)
        ensures
            final(self)@.window_db == (if old(self)@.window_db.contains_key(id) {
                old(self)@.window_db.insert(id, Window { is_closed: true, ..old(self)@.window_db[id] })
            } else {
                old(self)@.window_db
            }),
            final(self)@.outputs == old(self)@.outputs,
    {
        proof {
            ID::lemma_id_laws();
        }
        let ghost d0 = self.window_db@;
        if let Some(w) = self.window_db.remove(&id) {
            self.window_db.insert(id, Window { is_closed: true, ..w });
            proof {
                assert(self.window_db@ =~= d0.insert(id, Window { is_closed: true, ..d0[id] }));
            }
        }
    }

    /// The focused window of the active workspace of output `output_id`.
    pub fn focused_window_on(&self, output_id: u32) -> (r: Option<ID>)
        ensures
            r == focused_on(self@, output_id),
    {
        match self.outputs.get(&output_id) {
            Some(o) => match o.workspaces.get(&o.active_workspace_id) {
                Some(ws) => ws.focused_window(),
                None => None,
            },
            None => None,
        }
    }

    /// The windows of the active workspace of output `output_id` that are
    /// in the window database, in layout order: the windows that the layout
    /// positions.
    pub fn laid_out_windows(&self, output_id: u32) -> (r: Vec<ID>)
        ensures
            r@ == laid_out(self@, output_id),
    {
        proof {
            ID::lemma_id_laws();
        }
        let mut r: Vec<ID> = Vec::new();
        let o = match self.outputs.get(&output_id) {
            Some(o) => o,
            None => return r,
        };
        let ws = match o.workspaces.get(&o.active_workspace_id) {
            Some(ws) => ws,
            None => return r,
        };
        let ghost pred = |id: ID| self.window_db@.contains_key(id);
        let mut i: usize = 0;
        while i < ws.windows.len()
            invariant
                i <= ws.windows@.len(),
                pred == (|id: ID| self.window_db@.contains_key(id)),
                r@ == ws.windows@.take(i as int).filter(pred),
                vstd::std_specs::hash::obeys_key_model::<ID>(),
            decreases ws.windows@.len() - i,
        {
            let id = ws.windows[i];
            proof {
                ws.windows@.take(i as int).lemma_filter_push(id, pred);
                assert(ws.windows@.take(i as int).push(id) =~= ws.windows@.take(i + 1));
            }
            if self.window_db.contains_key(&id) {
                r.push(id);
            }
            i = i + 1;
        }
        proof {
            assert(ws.windows@.take(ws.windows@.len() as int) =~= ws.windows@);
        }
        r
    }
}

} // verus!
