//! The manage/render handshake with the River compositor.
//!
//! River drives the window manager through sequences: after the window
//! manager marks its state dirty, the compositor sends a manage sequence,
//! then a render sequence. At most one dirty mark may be outstanding, and
//! a change requested in the middle of a sequence must not be lost.

use vstd::prelude::*;
use crate::config::str_eq;

verus! {

/// Where the window manager stands in River's manage/render cycle.
#[derive(Clone, Copy, Debug, PartialEq, Eq, Structural)]
pub enum RiverState {
    Idle,
    ManageRequested,
    Managing,
    WaitingForRender,
    Rendering,
}

impl Default for RiverState {
    fn default() -> (r: Self)
        ensures
            r == RiverState::Idle,
    {
        RiverState::Idle
    }
}

/// The compositor globals the window manager binds.
#[derive(Clone, Copy, Debug, PartialEq, Eq, Structural)]
pub enum Global {
    Seat,
    WindowManager,
    XkbBindings,
    LayerShell,
}

/// The global to bind, with the protocol version to bind it at, for an
/// advertised interface name; other interfaces are not bound.
pub open spec fn global_spec(interface: Seq<char>) -> Option<(Global, u32)> {
    if interface == "wl_seat"@ {
        Some((Global::Seat, 1))
    } else if interface == "river_window_manager_v1"@ {
        Some((Global::WindowManager, 3))
    } else if interface == "river_xkb_bindings_v1"@ {
        Some((Global::XkbBindings, 2))
    } else if interface == "river_layer_shell_v1"@ {
        Some((Global::LayerShell, 1))
    } else {
        None
    }
}

/// Decides whether an advertised global is bound, and at which version.
pub fn global_to_bind(interface: &str) -> (r: Option<(Global, u32)>)
    ensures
        r == global_spec(interface@),
{
    if str_eq(interface, "wl_seat") {
        Some((Global::Seat, 1))
    } else if str_eq(interface, "river_window_manager_v1") {
        Some((Global::WindowManager, 3))
    } else if str_eq(interface, "river_xkb_bindings_v1") {
        Some((Global::XkbBindings, 2))
    } else if str_eq(interface, "river_layer_shell_v1") {
        Some((Global::LayerShell, 1))
    } else {
        None
    }
}

/// The handshake state: the cycle position and whether a new manage
/// sequence is wanted.
pub struct ManageCycle {
    pub river_state: RiverState,
    pub needs_manage: bool,
}

/// Whether a dirty mark is sent now: a manage sequence is wanted, none is
/// under way, and the window manager global is bound.
pub open spec fn sends(c: ManageCycle, has_window_manager: bool) -> bool {
    c.needs_manage && c.river_state == RiverState::Idle && has_window_manager
}

/// The state after an attempt to send a dirty mark.
pub open spec fn after_try_send(c: ManageCycle, has_window_manager: bool) -> ManageCycle {
    if sends(c, has_window_manager) {
        ManageCycle { river_state: RiverState::ManageRequested, needs_manage: false }
    } else {
        c
    }
}

/// The state after a manage sequence is requested.
pub open spec fn after_request(c: ManageCycle, has_window_manager: bool) -> ManageCycle {
    after_try_send(ManageCycle { needs_manage: true, ..c }, has_window_manager)
}

impl ManageCycle {
    /// A cycle at rest, with nothing requested.
    pub fn new() -> (c: Self)
        ensures
            c.river_state == RiverState::Idle,
            !c.needs_manage,
    {
        ManageCycle { river_state: RiverState::Idle, needs_manage: false }
    }

    /// Asks for a manage sequence. Returns whether the dirty mark must be
    /// sent to the compositor now.
    pub fn request_manage(&mut self, has_window_manager: bool) -> (send: bool)
        ensures
            send == sends(ManageCycle { needs_manage: true, ..*old(self) }, has_window_manager),
            *final(self) == after_request(*old(self), has_window_manager),
    {
        self.needs_manage = true;
        self.try_send_manage_dirty(has_window_manager)
    }

    /// Sends the dirty mark when one is wanted and no sequence is under
    /// way. Returns whether the mark must be sent to the compositor now.
    pub fn try_send_manage_dirty(&mut self, has_window_manager: bool) -> (send: bool)
        ensures
            send == sends(*old(self), has_window_manager),
            *final(self) == after_try_send(*old(self), has_window_manager),
    {
        if self.needs_manage && self.river_state == RiverState::Idle && has_window_manager {
            self.river_state = RiverState::ManageRequested;
            self.needs_manage = false;
            true
        } else {
            false
        }
    }

    /// The compositor started a manage sequence.
    pub fn begin_manage(&mut self)
        ensures
            *final(self) == (ManageCycle { river_state: RiverState::Managing, ..*old(self) }),
    {
        self.river_state = RiverState::Managing;
    }

    /// The window manager finished its manage sequence.
    pub fn finish_manage(&mut self)
        ensures
            *final(self) == (ManageCycle { river_state: RiverState::WaitingForRender, ..*old(self) }),
    {
        self.river_state = RiverState::WaitingForRender;
    }

    /// The compositor started a render sequence.
    pub fn begin_render(&mut self)
        ensures
            *final(self) == (ManageCycle { river_state: RiverState::Rendering, ..*old(self) }),
    {
        self.river_state = RiverState::Rendering;
    }

    /// The window manager finished its render sequence; a manage sequence
    /// that was asked for meanwhile is requested now. Returns whether the
    /// dirty mark must be sent to the compositor now.
    pub fn finish_render(&mut self, has_window_manager: bool) -> (send: bool)
        ensures
            send == sends(ManageCycle { river_state: RiverState::Idle, ..*old(self) }, has_window_manager),
            *final(self) == after_try_send(
                ManageCycle { river_state: RiverState::Idle, ..*old(self) },
                has_window_manager,
            ),
    {
        self.river_state = RiverState::Idle;
        self.try_send_manage_dirty(has_window_manager)
    }
}


/// A dirty mark is sent only from rest, and while a sequence is under way
/// (including the one just requested) no second mark is sent.
pub proof fn lemma_single_outstanding(c: ManageCycle, has_window_manager: bool, has_window_manager2: bool)
    ensures
        sends(c, has_window_manager) ==> c.river_state == RiverState::Idle,
        sends(c, has_window_manager) ==> after_try_send(c, has_window_manager).river_state
            == RiverState::ManageRequested,
        c.river_state != RiverState::Idle ==> !sends(
            ManageCycle { needs_manage: true, ..c },
            has_window_manager2,
        ),
{
}

/// No request is lost: a request that cannot be sent at once stays
/// pending, and it is sent when the cycle comes back to rest.
pub proof fn lemma_request_not_lost(c: ManageCycle, has_window_manager: bool)
    ensures
        sends(ManageCycle { needs_manage: true, ..c }, has_window_manager)
            || after_request(c, has_window_manager).needs_manage,
        has_window_manager ==> sends(
            ManageCycle { river_state: RiverState::Idle, ..after_request(c, has_window_manager) },
            has_window_manager,
        ) || !after_request(c, has_window_manager).needs_manage,
{
}

} // verus!
