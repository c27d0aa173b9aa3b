//! Laws of workspaces, outputs and the window-manager state: what every
//! operation keeps, what one operation undoes, and what the operations
//! promise together.

use vstd::prelude::*;
use crate::state::tree::{
    OutputView, ShuttleView, WorkspaceView, active_of, cleaned, closed_ids, cycle_ok, cycle_target,
    focus_result, focused_index, focused_on, inserted_focus, laid_out, move_ok, moved,
    moved_to_workspace, output_or_fresh, placed, promoted, purged_workspace, switched, top_of,
    with_active, with_inserted, without, without_all, workspace_or_new,
};
use crate::state::window::{Window, WindowId};

verus! {


/// Well-formedness of a workspace: no window appears twice in the window
/// order or in the focus stack, and both hold the same windows.
pub open spec fn workspace_wf<ID>(w: WorkspaceView<ID>) -> bool {
    &&& w.windows.no_duplicates()
    &&& w.focus_stack.no_duplicates()
    &&& w.focus_stack.to_set() == w.windows.to_set()
}

proof fn lemma_filter_contains_iff<ID>(s: Seq<ID>, p: spec_fn(ID) -> bool, x: ID)
    ensures
        s.filter(p).contains(x) <==> (s.contains(x) && p(x)),
{
    if s.filter(p).contains(x) {
        s.lemma_filter_contains_rev(p, x);
        let i = choose|i: int| 0 <= i < s.filter(p).len() && s.filter(p)[i] == x;
        s.lemma_filter_pred(p, i);
    }
    if s.contains(x) && p(x) {
        let i = choose|i: int| 0 <= i < s.len() && s[i] == x;
        s.lemma_filter_contains(p, i);
    }
}

proof fn lemma_without_contains<ID>(s: Seq<ID>, id: ID, x: ID)
    ensures
        without(s, id).contains(x) <==> (s.contains(x) && x != id),
{
    lemma_filter_contains_iff(s, |w: ID| w != id, x);
}

proof fn lemma_push_no_duplicates<ID>(s: Seq<ID>, x: ID)
    requires
        s.no_duplicates(),
        !s.contains(x),
    ensures
        s.push(x).no_duplicates(),
{
    let t = s.push(x);
    assert forall|i: int, j: int| 0 <= i < t.len() && 0 <= j < t.len() && i != j implies t[i] != t[j] by {
        if i < s.len() && j < s.len() {
        } else if i < s.len() {
            assert(s.contains(t[i]));
        } else if j < s.len() {
            assert(s.contains(t[j]));
        }
    }
}

proof fn lemma_filter_no_duplicates<ID>(s: Seq<ID>, p: spec_fn(ID) -> bool)
    requires
        s.no_duplicates(),
    ensures
        s.filter(p).no_duplicates(),
    decreases s.len(),
{
    reveal(Seq::filter);
    if s.len() > 0 {
        let t = s.drop_last();
        assert(t.no_duplicates());
        lemma_filter_no_duplicates(t, p);
        if p(s.last()) {
            if t.filter(p).contains(s.last()) {
                t.lemma_filter_contains_rev(p, s.last());
                let i = choose|i: int| 0 <= i < t.len() && t[i] == s.last();
                assert(s[i] == s[s.len() - 1]);
            }
            lemma_push_no_duplicates(t.filter(p), s.last());
        }
    }
}

proof fn lemma_promoted<ID>(fs: Seq<ID>, id: ID)
    requires
        fs.no_duplicates(),
    ensures
        promoted(fs, id).no_duplicates(),
        forall|x: ID| promoted(fs, id).contains(x) <==> (fs.contains(x) || x == id),
        promoted(fs, id).last() == id,
{
    lemma_filter_no_duplicates(fs, |w: ID| w != id);
    lemma_without_contains(fs, id, id);
    lemma_push_no_duplicates(without(fs, id), id);
    assert forall|x: ID| promoted(fs, id).contains(x) <==> (fs.contains(x) || x == id) by {
        lemma_without_contains(fs, id, x);
        if promoted(fs, id).contains(x) && x != id {
            let i = choose|i: int| 0 <= i < promoted(fs, id).len() && promoted(fs, id)[i] == x;
            assert(without(fs, id)[i] == x);
        }
        if x == id {
            assert(promoted(fs, id)[without(fs, id).len() as int] == id);
        } else if fs.contains(x) {
            let i = choose|i: int| 0 <= i < without(fs, id).len() && without(fs, id)[i] == x;
            assert(promoted(fs, id)[i] == x);
        }
    }
}

proof fn lemma_insert_props<ID>(s: Seq<ID>, i: int, y: ID)
    requires
        0 <= i <= s.len(),
    ensures
        forall|x: ID| s.insert(i, y).contains(x) <==> (s.contains(x) || x == y),
        s.no_duplicates() && !s.contains(y) ==> s.insert(i, y).no_duplicates(),
{
    let t = s.insert(i, y);
    s.insert_ensures(i, y);
    assert forall|x: ID| t.contains(x) <==> (s.contains(x) || x == y) by {
        if t.contains(x) {
            let k = choose|k: int| 0 <= k < t.len() && t[k] == x;
            if k < i {
                assert(s[k] == x);
            } else if k > i {
                assert(s[k - 1] == x);
            }
        }
        if x == y {
            assert(t[i] == y);
        } else if s.contains(x) {
            let k = choose|k: int| 0 <= k < s.len() && s[k] == x;
            if k < i {
                assert(t[k] == x);
            } else {
                assert(t[k + 1] == x);
            }
        }
    }
    if s.no_duplicates() && !s.contains(y) {
        assert forall|a: int, b: int| 0 <= a < t.len() && 0 <= b < t.len() && a != b implies t[a] != t[b] by {
            let sa = if a < i { a } else { a - 1 };
            let sb = if b < i { b } else { b - 1 };
            if a == i {
                assert(s[sb] == t[b]);
            } else if b == i {
                assert(s[sa] == t[a]);
            } else {
                assert(s[sa] == t[a] && s[sb] == t[b]);
            }
        }
    }
}

proof fn lemma_index_of_unique<ID>(s: Seq<ID>, j: int)
    requires
        s.no_duplicates(),
        0 <= j < s.len(),
    ensures
        s.index_of_first(s[j]) == Some(j),
{
    s.index_of_first_ensures(s[j]);
    let k = s.index_of_first(s[j]).unwrap();
    if k != j {
        assert(s[k] == s[j]);
    }
}

proof fn lemma_remove_value_props<ID>(s: Seq<ID>, id: ID)
    requires
        s.no_duplicates(),
    ensures
        s.remove_value(id).no_duplicates(),
        forall|x: ID| s.remove_value(id).contains(x) <==> (s.contains(x) && x != id),
{
    s.index_of_first_ensures(id);
    if let Some(i) = s.index_of_first(id) {
        let t = s.remove(i);
        s.remove_ensures(i);
        assert forall|x: ID| t.contains(x) <==> (s.contains(x) && x != id) by {
            if t.contains(x) {
                let k = choose|k: int| 0 <= k < t.len() && t[k] == x;
                let sk = if k < i { k } else { k + 1 };
                assert(s[sk] == x);
                assert(sk != i);
            }
            if s.contains(x) && x != id {
                let k = choose|k: int| 0 <= k < s.len() && s[k] == x;
                assert(k != i);
                if k < i {
                    assert(t[k] == x);
                } else {
                    assert(t[k - 1] == x);
                }
            }
        }
        assert forall|a: int, b: int| 0 <= a < t.len() && 0 <= b < t.len() && a != b implies t[a] != t[b] by {
            let sa = if a < i { a } else { a + 1 };
            let sb = if b < i { b } else { b + 1 };
            assert(s[sa] == t[a] && s[sb] == t[b]);
        }
    }
}

/// Focusing keeps a workspace well-formed.
pub proof fn lemma_wf_focus<ID>(w: WorkspaceView<ID>, id: ID)
    requires
        workspace_wf(w),
    ensures
        workspace_wf(WorkspaceView { focus_stack: focus_result(w.windows, w.focus_stack, id), ..w }),
{
    if w.windows.contains(id) {
        lemma_promoted(w.focus_stack, id);
        assert(w.focus_stack.to_set().contains(id));
        assert(promoted(w.focus_stack, id).to_set() =~= w.windows.to_set()) by {
            assert forall|x: ID| promoted(w.focus_stack, id).to_set().contains(x) <==> w.windows.to_set().contains(x) by {
                assert(w.focus_stack.to_set().contains(x) == w.windows.to_set().contains(x));
            }
        }
    }
}

/// Inserting a window that is not yet on a well-formed workspace keeps it
/// well-formed.
pub proof fn lemma_wf_insert<ID>(w: WorkspaceView<ID>, id: ID, focus_immediately: bool)
    requires
        workspace_wf(w),
        !w.windows.contains(id),
    ensures
        workspace_wf(with_inserted(w, id, focus_immediately)),
{
    let w2 = with_inserted(w, id, focus_immediately);
    assert(!w.focus_stack.contains(id)) by {
        assert(!w.windows.to_set().contains(id));
    }
    match top_of(w.focus_stack) {
        Some(f) => match w.windows.index_of_first(f) {
            Some(i) => {
                w.windows.index_of_first_ensures(f);
                lemma_insert_props(w.windows, i + 1, id);
            },
            None => {
                lemma_insert_props(w.windows, w.windows.len() as int, id);
                assert(w.windows.push(id) =~= w.windows.insert(w.windows.len() as int, id));
            },
        },
        None => {
            lemma_insert_props(w.windows, w.windows.len() as int, id);
            assert(w.windows.push(id) =~= w.windows.insert(w.windows.len() as int, id));
        },
    }
    if focus_immediately {
        lemma_promoted(w.focus_stack, id);
    } else {
        lemma_insert_props(w.focus_stack, 0, id);
        assert(seq![id] + w.focus_stack =~= w.focus_stack.insert(0, id));
    }
    assert(w2.focus_stack.to_set() =~= w2.windows.to_set()) by {
        assert forall|x: ID| w2.focus_stack.to_set().contains(x) <==> w2.windows.to_set().contains(x) by {
            assert(w.focus_stack.to_set().contains(x) == w.windows.to_set().contains(x));
        }
    }
}

/// Removing a window keeps a workspace well-formed, and the window is gone
/// from it.
pub proof fn lemma_wf_remove<ID>(w: WorkspaceView<ID>, id: ID)
    requires
        workspace_wf(w),
    ensures
        workspace_wf(WorkspaceView {
            windows: w.windows.remove_value(id),
            focus_stack: without(w.focus_stack, id),
            ..w
        }),
        !w.windows.remove_value(id).contains(id),
        !without(w.focus_stack, id).contains(id),
{
    lemma_remove_value_props(w.windows, id);
    lemma_filter_no_duplicates(w.focus_stack, |x: ID| x != id);
    lemma_without_contains(w.focus_stack, id, id);
    assert(without(w.focus_stack, id).to_set() =~= w.windows.remove_value(id).to_set()) by {
        assert forall|x: ID| without(w.focus_stack, id).to_set().contains(x) <==> w.windows.remove_value(id).to_set().contains(x) by {
            lemma_without_contains(w.focus_stack, id, x);
            assert(w.focus_stack.to_set().contains(x) == w.windows.to_set().contains(x));
        }
    }
}

/// Moving the focused window keeps a workspace well-formed.
pub proof fn lemma_wf_move<ID>(w: WorkspaceView<ID>, direction: int)
    requires
        workspace_wf(w),
        move_ok(w.windows, w.focus_stack, direction),
    ensures
        workspace_wf(WorkspaceView { windows: moved(w.windows, w.focus_stack, direction), ..w }),
{
    if w.focus_stack.len() > 0 {
        let s = w.windows;
        let i = focused_index(s, w.focus_stack);
        s.index_of_first_ensures(w.focus_stack.last());
        let j = i + direction;
        if 0 <= j < s.len() {
            let t = s.update(i, s[j]).update(j, s[i]);
            let sw = |k: int| if k == i { j } else if k == j { i } else { k };
            assert forall|k: int| 0 <= k < t.len() implies t[k] == s[sw(k)] by {}
            assert forall|a: int, b: int| 0 <= a < t.len() && 0 <= b < t.len() && a != b implies t[a] != t[b] by {
                assert(t[a] == s[sw(a)] && t[b] == s[sw(b)]);
            }
            assert(t.to_set() =~= s.to_set()) by {
                assert forall|x: ID| t.contains(x) <==> s.contains(x) by {
                    if t.contains(x) {
                        let k = choose|k: int| 0 <= k < t.len() && t[k] == x;
                        assert(s[sw(k)] == x);
                    }
                    if s.contains(x) {
                        let k = choose|k: int| 0 <= k < s.len() && s[k] == x;
                        assert(t[sw(k)] == x);
                    }
                }
            }
        }
    }
}

/// A well-formed workspace of fewer than 2^30 windows can cycle its focus
/// one step either way without a panic.
pub proof fn lemma_wf_cycle_ok<ID>(w: WorkspaceView<ID>, direction: int)
    requires
        workspace_wf(w),
        w.windows.len() <= 0x3fff_ffff,
        -1 <= direction <= 1,
    ensures
        cycle_ok(w.windows, w.focus_stack, direction),
{
    if w.windows.len() > 0 && w.focus_stack.len() > 0 {
        assert(w.focus_stack.contains(w.focus_stack.last()));
        assert(w.windows.to_set().contains(w.focus_stack.last()));
        w.windows.index_of_first_ensures(w.focus_stack.last());
    }
}

/// A well-formed workspace can move its focused window one step either way
/// without a panic.
pub proof fn lemma_wf_move_ok<ID>(w: WorkspaceView<ID>, direction: int)
    requires
        workspace_wf(w),
        w.windows.len() <= i32::MAX,
        -1 <= direction <= 1,
    ensures
        move_ok(w.windows, w.focus_stack, direction),
{
    if w.focus_stack.len() > 0 {
        assert(w.focus_stack.contains(w.focus_stack.last()));
        assert(w.windows.to_set().contains(w.focus_stack.last()));
        w.windows.index_of_first_ensures(w.focus_stack.last());
    }
}

/// Focusing a window of the workspace makes it the focused window (the top
/// of the MRU stack).
pub proof fn lemma_focus_then_focused<ID>(windows: Seq<ID>, fs: Seq<ID>, id: ID)
    requires
        windows.contains(id),
    ensures
        top_of(focus_result(windows, fs, id)) == Some(id),
{
}

/// A newly inserted window lands directly to the right of the focused
/// window when that window is on the workspace, and at the end otherwise.
pub proof fn lemma_insert_right_of_focus<ID>(windows: Seq<ID>, fs: Seq<ID>, id: ID)
    ensures
        fs.len() > 0 && windows.contains(fs.last()) ==>
            placed(windows, fs, id)[focused_index(windows, fs) + 1] == id,
        !(fs.len() > 0 && windows.contains(fs.last())) ==> placed(windows, fs, id) == windows.push(id),
{
    if fs.len() > 0 {
        windows.index_of_first_ensures(fs.last());
    }
}

/// Removing the focused window of a well-formed workspace hands the focus
/// back to the most recently focused window before it.
pub proof fn lemma_remove_restores_previous_focus<ID>(w: WorkspaceView<ID>)
    requires
        workspace_wf(w),
        w.focus_stack.len() > 0,
    ensures
        without(w.focus_stack, w.focus_stack.last()) == w.focus_stack.drop_last(),
        top_of(without(w.focus_stack, w.focus_stack.last())) == top_of(w.focus_stack.drop_last()),
{
    let fs = w.focus_stack;
    let id = fs.last();
    let t = fs.drop_last();
    reveal(Seq::filter);
    assert(fs.filter(|x: ID| x != id) == t.filter(|x: ID| x != id));
    lemma_filter_all::<ID>(t, |x: ID| x != id);
}

proof fn lemma_filter_all<ID>(s: Seq<ID>, p: spec_fn(ID) -> bool)
    requires
        forall|i: int| 0 <= i < s.len() ==> p(s[i]),
    ensures
        s.filter(p) == s,
    decreases s.len(),
{
    reveal(Seq::filter);
    if s.len() > 0 {
        lemma_filter_all(s.drop_last(), p);
        assert(s.drop_last().push(s.last()) =~= s);
    }
}

/// Cycling the focus right and then left on a well-formed workspace
/// returns the focus to the window it started on.
pub proof fn lemma_cycle_right_then_left<ID>(w: WorkspaceView<ID>)
    requires
        workspace_wf(w),
        w.windows.len() > 0,
        w.focus_stack.len() > 0,
    ensures
        ({
            let t1 = cycle_target(w.windows, w.focus_stack, 1).unwrap();
            cycle_target(w.windows, promoted(w.focus_stack, t1), -1) == top_of(w.focus_stack)
        }),
{
    let s = w.windows;
    let fs = w.focus_stack;
    let n = s.len() as int;
    assert(s.to_set().contains(fs.last()));
    s.index_of_first_ensures(fs.last());
    let i = focused_index(s, fs);
    let j = (i + 1 + n) % n;
    let t1 = s[j];
    lemma_promoted(fs, t1);
    lemma_index_of_unique(s, j);
    assert(focused_index(s, promoted(fs, t1)) == j);
    if i + 1 < n {
        assert(j == i + 1) by (nonlinear_arith)
            requires
                j == (i + 1 + n) % n,
                0 <= i + 1 < n,
        ;
        assert((j - 1 + n) % n == i) by (nonlinear_arith)
            requires
                j == i + 1,
                0 <= i < n,
        ;
    } else {
        assert(j == 0) by (nonlinear_arith)
            requires
                j == (i + 1 + n) % n,
                i + 1 == n,
                n > 0,
        ;
        assert((j - 1 + n) % n == n - 1) by (nonlinear_arith)
            requires
                j == 0,
                n > 0,
        ;
    }
}

/// Moving the focused window right and then left on a well-formed
/// workspace restores the window order.
pub proof fn lemma_move_right_then_left<ID>(w: WorkspaceView<ID>)
    requires
        workspace_wf(w),
        w.focus_stack.len() > 0,
        w.windows.len() <= i32::MAX,
    ensures
        moved(moved(w.windows, w.focus_stack, 1), w.focus_stack, -1) == w.windows
            || focused_index(w.windows, w.focus_stack) + 1 == w.windows.len(),
{
    let s = w.windows;
    let fs = w.focus_stack;
    assert(s.to_set().contains(fs.last()));
    s.index_of_first_ensures(fs.last());
    let i = focused_index(s, fs);
    if i + 1 < s.len() {
        lemma_wf_move_ok(w, 1);
        lemma_wf_move(w, 1);
        let s1 = moved(s, fs, 1);
        assert(s1[i + 1] == fs.last());
        lemma_index_of_unique(s1, i + 1);
        assert(moved(s1, fs, -1) =~= s);
    }
}

/// Moving the focused window to another workspace takes it off the active
/// workspace and makes it the focused window of the target workspace.
pub proof fn lemma_move_to_workspace_focuses<ID>(o: OutputView<ID>, target: u32)
    requires
        o.active_workspace_id != target,
        o.workspaces.contains_key(o.active_workspace_id),
        o.workspaces[o.active_workspace_id].focus_stack.len() > 0,
    ensures
        ({
            let id = o.workspaces[o.active_workspace_id].focus_stack.last();
            let r = moved_to_workspace(o, target);
            &&& r.active_workspace_id == o.active_workspace_id
            &&& !r.workspaces[o.active_workspace_id].windows.contains(id)
            &&& !r.workspaces[o.active_workspace_id].focus_stack.contains(id)
            &&& r.workspaces.contains_key(target)
            &&& top_of(r.workspaces[target].focus_stack) == Some(id)
            &&& r.workspaces[target].windows.contains(id)
        }),
{
    let a = o.active_workspace_id;
    let id = o.workspaces[a].focus_stack.last();
    lemma_without_contains(o.workspaces[a].windows, id, id);
    lemma_without_contains(o.workspaces[a].focus_stack, id, id);
    let src = o.workspaces[a];
    let src2 = WorkspaceView {
        windows: without(src.windows, id),
        focus_stack: without(src.focus_stack, id),
        centering_mode: src.centering_mode,
    };
    let w1 = o.workspaces.insert(a, src2);
    let tgt = workspace_or_new(w1, target);
    let r = moved_to_workspace(o, target);
    assert(r.workspaces[a] == src2);
    assert(r.workspaces[target].focus_stack == promoted(tgt.focus_stack, id));
    match top_of(tgt.focus_stack) {
        Some(f) => match tgt.windows.index_of_first(f) {
            Some(i) => {
                tgt.windows.index_of_first_ensures(f);
                tgt.windows.insert_ensures(i + 1, id);
                assert(tgt.windows.insert(i + 1, id)[i + 1] == id);
                assert(tgt.windows.insert(i + 1, id).contains(id));
                assert(placed(tgt.windows, tgt.focus_stack, id) == tgt.windows.insert(i + 1, id));
            },
            None => {
                lemma_insert_props(tgt.windows, tgt.windows.len() as int, id);
                assert(tgt.windows.push(id)[tgt.windows.len() as int] == id);
            },
        },
        None => {
            lemma_insert_props(tgt.windows, tgt.windows.len() as int, id);
            assert(tgt.windows.push(id)[tgt.windows.len() as int] == id);
        },
    }
    assert(r.workspaces[target].windows == placed(tgt.windows, tgt.focus_stack, id));
    assert(r.workspaces[target].windows.contains(id));
    assert(top_of(r.workspaces[target].focus_stack) == Some(id));
    assert(!r.workspaces[a].windows.contains(id));
    assert(!r.workspaces[a].focus_stack.contains(id));
}

/// Switching workspaces makes the target the active one and keeps every
/// other workspace as it was.
pub proof fn lemma_switch_workspace<ID>(o: OutputView<ID>, target: u32)
    ensures
        switched(o, target).active_workspace_id == target,
        o.active_workspace_id != target ==> switched(o, target).workspaces.contains_key(target),
        forall|k: u32| k != target && o.workspaces.contains_key(k) ==>
            #[trigger] switched(o, target).workspaces.contains_key(k)
            && switched(o, target).workspaces[k] == o.workspaces[k],
        o.workspaces.contains_key(target) ==> switched(o, target).workspaces[target] == o.workspaces[target],
{
}

/// After the cleanup no window of the database is closed, every open
/// window is kept as it was, and no closed window remains in the window
/// order or the focus stack of any workspace of any output, whether that
/// workspace is the active one or not.
pub proof fn lemma_cleanup_removes_closed<ID: WindowId>(s: ShuttleView<ID>, k: ID, out: u32, wk: u32)
    requires
        s.window_db.dom().finite(),
    ensures
        cleaned(s).window_db.contains_key(k) ==> !cleaned(s).window_db[k].is_closed,
        s.window_db.contains_key(k) && !s.window_db[k].is_closed ==>
            cleaned(s).window_db.contains_key(k) && cleaned(s).window_db[k] == s.window_db[k],
        cleaned(s).outputs.dom() == s.outputs.dom(),
        s.outputs.contains_key(out) ==>
            cleaned(s).outputs[out].workspaces.dom() == s.outputs[out].workspaces.dom(),
        s.window_db.contains_key(k) && s.window_db[k].is_closed && s.outputs.contains_key(out)
            && s.outputs[out].workspaces.contains_key(wk) ==> {
            let w = cleaned(s).outputs[out].workspaces[wk];
            !w.windows.contains(k) && !w.focus_stack.contains(k)
        },
{
    let dead = closed_ids(s.window_db);
    if s.window_db.contains_key(k) && s.window_db[k].is_closed {
        assert(dead.contains(k));
        if s.outputs.contains_key(out) && s.outputs[out].workspaces.contains_key(wk) {
            let w = s.outputs[out].workspaces[wk];
            lemma_filter_contains_iff(w.windows, |x: ID| !dead.contains(x), k);
            lemma_filter_contains_iff(w.focus_stack, |x: ID| !dead.contains(x), k);
        }
    }
    if s.outputs.contains_key(out) && !dead.is_empty() {
        assert(cleaned(s).outputs[out].workspaces.dom() =~= s.outputs[out].workspaces.dom());
    }
    assert(cleaned(s).outputs.dom() =~= s.outputs.dom());
}

/// The last element of a filtered sequence whose last element passes the
/// filter is that element.
proof fn lemma_filter_keeps_last<ID>(s: Seq<ID>, p: spec_fn(ID) -> bool)
    requires
        s.len() > 0,
        p(s.last()),
    ensures
        s.filter(p).len() > 0,
        s.filter(p).last() == s.last(),
{
    reveal(Seq::filter);
}

/// The cleanup keeps every workspace in order: its window order and its
/// MRU focus stack are the old ones with the closed windows of the database
/// filtered out, order kept, and its camera strategy is unchanged. So the
/// focused window keeps the focus when it is still open, and otherwise the
/// most recently focused open window takes it.
pub proof fn lemma_cleanup_keeps_order<ID: WindowId>(s: ShuttleView<ID>, out: u32, wk: u32)
    requires
        s.outputs.contains_key(out),
        s.outputs[out].workspaces.contains_key(wk),
    ensures
        ({
            let w = s.outputs[out].workspaces[wk];
            let c = cleaned(s).outputs[out].workspaces[wk];
            &&& c.windows == w.windows.filter(|x: ID| !(s.window_db.contains_key(x) && s.window_db[x].is_closed))
            &&& c.focus_stack == w.focus_stack.filter(|x: ID| !(s.window_db.contains_key(x) && s.window_db[x].is_closed))
            &&& c.centering_mode == w.centering_mode
        }),
        ({
            let w = s.outputs[out].workspaces[wk];
            let c = cleaned(s).outputs[out].workspaces[wk];
            let f = w.focus_stack.last();
            w.focus_stack.len() > 0 && !(s.window_db.contains_key(f) && s.window_db[f].is_closed) ==>
                c.focus_stack.len() > 0 && c.focus_stack.last() == f
        }),
{
    let dead = closed_ids(s.window_db);
    let open = |x: ID| !(s.window_db.contains_key(x) && s.window_db[x].is_closed);
    let keep = |x: ID| !dead.contains(x);
    let w = s.outputs[out].workspaces[wk];
    assert forall|x: ID| #[trigger] keep(x) == open(x) by {
        if s.window_db.contains_key(x) && s.window_db[x].is_closed {
            assert(dead.contains(x));
        }
    }
    lemma_filter_congruent(w.windows, keep, open);
    lemma_filter_congruent(w.focus_stack, keep, open);
    if dead.is_empty() {
        assert forall|x: ID| #[trigger] open(x) by {
            if !open(x) {
                assert(dead.contains(x));
            }
        }
        lemma_filter_all(w.windows, open);
        lemma_filter_all(w.focus_stack, open);
    }
    if w.focus_stack.len() > 0 && open(w.focus_stack.last()) {
        lemma_filter_keeps_last(w.focus_stack, open);
    }
}

/// Moving the focused window `id` to an existing workspace whose focused
/// window sits at index `i` of its window order inserts `id` at index
/// `i + 1`, directly right of that window, and leaves the rest of the
/// order as it was; `id` becomes the top of the target's focus stack,
/// whose other entries keep their order.
pub proof fn lemma_move_to_workspace_places_right_of_focus<ID>(o: OutputView<ID>, target: u32, i: int)
    requires
        o.active_workspace_id != target,
        o.workspaces.contains_key(o.active_workspace_id),
        o.workspaces[o.active_workspace_id].focus_stack.len() > 0,
        o.workspaces.contains_key(target),
        o.workspaces[target].focus_stack.len() > 0,
        0 <= i < o.workspaces[target].windows.len(),
        o.workspaces[target].windows[i] == o.workspaces[target].focus_stack.last(),
        forall|j: int| 0 <= j < i ==> o.workspaces[target].windows[j] != o.workspaces[target].focus_stack.last(),
    ensures
        ({
            let id = o.workspaces[o.active_workspace_id].focus_stack.last();
            let t = o.workspaces[target];
            let r = moved_to_workspace(o, target).workspaces[target];
            &&& r.windows == t.windows.insert(i + 1, id)
            &&& r.focus_stack == t.focus_stack.filter(|x: ID| x != id).push(id)
        }),
{
    let t = o.workspaces[target];
    let f = t.focus_stack.last();
    t.windows.index_of_first_ensures(f);
    assert(t.windows.contains(f));
    let k = t.windows.index_of_first(f).unwrap();
    assert(k == i) by {
        if k < i {
        } else if k > i {
        }
    }
}

/// Moving the focused window `id` to a workspace that does not exist yet
/// creates it holding `id` alone, focused.
pub proof fn lemma_move_to_new_workspace<ID>(o: OutputView<ID>, target: u32)
    requires
        o.active_workspace_id != target,
        o.workspaces.contains_key(o.active_workspace_id),
        o.workspaces[o.active_workspace_id].focus_stack.len() > 0,
        !o.workspaces.contains_key(target),
    ensures
        ({
            let id = o.workspaces[o.active_workspace_id].focus_stack.last();
            let r = moved_to_workspace(o, target).workspaces[target];
            &&& r.windows == seq![id]
            &&& r.focus_stack == seq![id]
        }),
{
    let id = o.workspaces[o.active_workspace_id].focus_stack.last();
    reveal(Seq::filter);
    assert(Seq::<ID>::empty().filter(|x: ID| x != id) =~= Seq::<ID>::empty());
    assert(Seq::<ID>::empty().push(id) =~= seq![id]);
}

/// A window inserted next to a focused window at index `i` of the window
/// order (its first occurrence) lands at index `i + 1`, the rest of the
/// order unchanged; inserted with focus it becomes the top of the focus
/// stack, the other entries keeping their order.
pub proof fn lemma_insert_next_to_focus<ID>(windows: Seq<ID>, fs: Seq<ID>, id: ID, i: int)
    requires
        fs.len() > 0,
        0 <= i < windows.len(),
        windows[i] == fs.last(),
        forall|j: int| 0 <= j < i ==> windows[j] != fs.last(),
    ensures
        placed(windows, fs, id) == windows.insert(i + 1, id),
        inserted_focus(fs, id, true) == fs.filter(|x: ID| x != id).push(id),
{
    let f = fs.last();
    windows.index_of_first_ensures(f);
    assert(windows.contains(f));
    let k = windows.index_of_first(f).unwrap();
    assert(k == i) by {
        if k < i {
        } else if k > i {
        }
    }
}

/// A window inserted into a workspace without a focused window on it goes
/// to the end of the window order.
pub proof fn lemma_insert_without_focus_appends<ID>(windows: Seq<ID>, fs: Seq<ID>, id: ID)
    requires
        fs.len() == 0 || !windows.contains(fs.last()),
    ensures
        placed(windows, fs, id) == windows.push(id),
{
    if fs.len() > 0 {
        windows.index_of_first_ensures(fs.last());
    }
}

/// Focusing a window of the workspace puts it on top of the focus stack
/// and keeps the order of the other entries; focusing a window that is not
/// on the workspace changes nothing.
pub proof fn lemma_focus_moves_to_top<ID>(windows: Seq<ID>, fs: Seq<ID>, id: ID)
    ensures
        windows.contains(id) ==> focus_result(windows, fs, id).len() > 0
            && focus_result(windows, fs, id).last() == id
            && focus_result(windows, fs, id).drop_last() == fs.filter(|x: ID| x != id),
        !windows.contains(id) ==> focus_result(windows, fs, id) == fs,
{
    if windows.contains(id) {
        assert(focus_result(windows, fs, id).drop_last() =~= fs.filter(|x: ID| x != id));
    }
}

/// A window inserted without focus goes to the bottom of the MRU focus
/// stack: the stack grows by one, the new window is its first entry and
/// the old stack follows unchanged, so the focused window keeps the focus.
pub proof fn lemma_insert_unfocused_at_bottom<ID>(fs: Seq<ID>, id: ID)
    ensures
        inserted_focus(fs, id, false).len() == fs.len() + 1,
        inserted_focus(fs, id, false)[0] == id,
        inserted_focus(fs, id, false).subrange(1, fs.len() + 1 as int) == fs,
        fs.len() > 0 ==> inserted_focus(fs, id, false).last() == fs.last(),
{
    assert(inserted_focus(fs, id, false).subrange(1, fs.len() + 1 as int) =~= fs);
}

/// A window inserted without focus is the last to get the focus back: when
/// the focused window of a stack of at least two windows is then removed,
/// the focus goes to the window focused before it, not to the new one.
pub proof fn lemma_insert_unfocused_then_remove_focused<ID>(fs: Seq<ID>, id: ID)
    requires
        fs.len() >= 2,
        fs.no_duplicates(),
        !fs.contains(id),
    ensures
        ({
            let g = inserted_focus(fs, id, false);
            top_of(without(g, fs.last())) == Some(fs[fs.len() - 2])
        }),
{
    let g = inserted_focus(fs, id, false);
    let f = fs.last();
    let p = |x: ID| x != f;
    assert(g.last() == f);
    reveal(Seq::filter);
    assert(g.drop_last().last() == fs[fs.len() - 2]);
    assert(g.filter(p) == g.drop_last().filter(p));
    assert(fs[fs.len() - 2] != f);
    lemma_filter_keeps_last(g.drop_last(), p);
}

/// The layout places the windows of the active workspace in window order,
/// left to right: when they are all in the database the laid-out windows
/// are exactly the window order, and the focus stack has no say in it
/// (replacing it by any other stack, as focusing does, changes nothing).
pub proof fn lemma_laid_out_in_window_order<ID: WindowId>(s: ShuttleView<ID>, out: u32, fs2: Seq<ID>)
    requires
        s.outputs.contains_key(out),
        s.outputs[out].workspaces.contains_key(s.outputs[out].active_workspace_id),
    ensures
        ({
            let o = s.outputs[out];
            let w = o.workspaces[o.active_workspace_id];
            (forall|i: int| 0 <= i < w.windows.len() ==> s.window_db.contains_key(#[trigger] w.windows[i]))
                ==> laid_out(s, out) == w.windows
        }),
        ({
            let o = s.outputs[out];
            let w = o.workspaces[o.active_workspace_id];
            let w2 = WorkspaceView { windows: w.windows, focus_stack: fs2, centering_mode: w.centering_mode };
            let o2 = OutputView {
                workspaces: o.workspaces.insert(o.active_workspace_id, w2),
                active_workspace_id: o.active_workspace_id,
                usable_area: o.usable_area,
            };
            let s2 = ShuttleView { window_db: s.window_db, outputs: s.outputs.insert(out, o2) };
            laid_out(s2, out) == laid_out(s, out)
        }),
{
    let o = s.outputs[out];
    let w = o.workspaces[o.active_workspace_id];
    if forall|i: int| 0 <= i < w.windows.len() ==> s.window_db.contains_key(#[trigger] w.windows[i]) {
        lemma_filter_all(w.windows, |id: ID| s.window_db.contains_key(id));
    }
}

/// A newly added window is the focused window of its output.
pub proof fn lemma_add_window_focuses<ID: WindowId>(s: ShuttleView<ID>, output_id: u32, id: ID)
    ensures
        ({
            let o = output_or_fresh(s.outputs, output_id);
            let s2 = ShuttleView {
                window_db: s.window_db.insert(id, Window { id, is_floating: false, is_closed: false }),
                outputs: s.outputs.insert(output_id, with_active(o, with_inserted(active_of(o), id, true))),
            };
            focused_on(s2, output_id) == Some(id)
        }),
{
}


proof fn lemma_filter_congruent<ID>(s: Seq<ID>, p: spec_fn(ID) -> bool, q: spec_fn(ID) -> bool)
    requires
        forall|i: int| 0 <= i < s.len() ==> p(s[i]) == q(s[i]),
    ensures
        s.filter(p) == s.filter(q),
    decreases s.len(),
{
    reveal(Seq::filter);
    if s.len() > 0 {
        lemma_filter_congruent(s.drop_last(), p, q);
    }
}

/// Cleaning closed windows out of a well-formed workspace keeps it
/// well-formed and leaves none of them on it.
pub proof fn lemma_wf_purge<ID>(w: WorkspaceView<ID>, dead: Set<ID>)
    requires
        workspace_wf(w),
    ensures
        workspace_wf(purged_workspace(w, dead)),
        forall|x: ID| dead.contains(x) ==> !(#[trigger] purged_workspace(w, dead).windows.contains(x))
            && !purged_workspace(w, dead).focus_stack.contains(x),
{
    let p = |x: ID| !dead.contains(x);
    lemma_filter_no_duplicates(w.windows, p);
    lemma_filter_no_duplicates(w.focus_stack, p);
    let w2 = purged_workspace(w, dead);
    assert forall|x: ID| #[trigger] w2.windows.contains(x) <==> (w.windows.contains(x) && !dead.contains(x)) by {
        lemma_filter_contains_iff(w.windows, p, x);
    }
    assert forall|x: ID| #[trigger] w2.focus_stack.contains(x) <==> (w.focus_stack.contains(x) && !dead.contains(x)) by {
        lemma_filter_contains_iff(w.focus_stack, p, x);
    }
    assert(w2.focus_stack.to_set() =~= w2.windows.to_set()) by {
        assert forall|x: ID| w2.focus_stack.to_set().contains(x) <==> w2.windows.to_set().contains(x) by {
            assert(w.focus_stack.to_set().contains(x) == w.windows.to_set().contains(x));
        }
    }
}

/// Moving the focused window of a well-formed workspace to another
/// well-formed workspace that does not hold it keeps both well-formed.
pub proof fn lemma_wf_move_to_workspace<ID>(o: OutputView<ID>, target: u32)
    requires
        o.active_workspace_id != target,
        o.workspaces.contains_key(o.active_workspace_id),
        o.workspaces[o.active_workspace_id].focus_stack.len() > 0,
        workspace_wf(o.workspaces[o.active_workspace_id]),
        workspace_wf(workspace_or_new(o.workspaces, target)),
        !workspace_or_new(o.workspaces, target).windows.contains(
            o.workspaces[o.active_workspace_id].focus_stack.last(),
        ),
    ensures
        workspace_wf(moved_to_workspace(o, target).workspaces[o.active_workspace_id]),
        workspace_wf(moved_to_workspace(o, target).workspaces[target]),
{
    let a = o.active_workspace_id;
    let src = o.workspaces[a];
    let id = src.focus_stack.last();
    let src2 = WorkspaceView {
        windows: without(src.windows, id),
        focus_stack: without(src.focus_stack, id),
        centering_mode: src.centering_mode,
    };
    lemma_filter_no_duplicates(src.windows, |x: ID| x != id);
    lemma_filter_no_duplicates(src.focus_stack, |x: ID| x != id);
    assert(src2.focus_stack.to_set() =~= src2.windows.to_set()) by {
        assert forall|x: ID| src2.focus_stack.to_set().contains(x) <==> src2.windows.to_set().contains(x) by {
            lemma_without_contains(src.windows, id, x);
            lemma_without_contains(src.focus_stack, id, x);
            assert(src.focus_stack.to_set().contains(x) == src.windows.to_set().contains(x));
        }
    }
    let w1 = o.workspaces.insert(a, src2);
    assert(workspace_or_new(w1, target) == workspace_or_new(o.workspaces, target));
    lemma_wf_insert(workspace_or_new(w1, target), id, true);
}

} // verus!
