//! Key-repeat bookkeeping: which held key currently repeats, and which
//! timer must be cancelled when keys are pressed or released.
//!
//! The timers themselves live in the event loop of the application; this
//! module decides when a timer starts and which one a release cancels.

use vstd::prelude::*;

verus! {

/// Represents the actions that can be triggered by a key repeat event.
#[derive(Clone, Copy, Debug, PartialEq, Eq, Structural)]
pub enum Action {
    FocusLeft,
    FocusRight,
    MoveLeft,
    MoveRight,
}

/// A binding ID used to distinguish which shortcut triggered the event.
/// Identifiers are compared by value; every implementation proves that its
/// `==` is mathematical equality.
pub trait BindingId: Copy + Eq + core::fmt::Debug {
    proof fn lemma_eq_laws()
        ensures
            vstd::laws_eq::obeys_concrete_eq::<Self>(),
    ;
}

impl BindingId for u32 {
    proof fn lemma_eq_laws() {
    }
}

impl BindingId for u64 {
    proof fn lemma_eq_laws() {
    }
}

impl BindingId for usize {
    proof fn lemma_eq_laws() {
    }
}

/// Implemented by the application state to execute the actions that a
/// repeat timer fires.
pub trait ExecuteAction {
    fn execute_action(&mut self, action: Action);
}

/// The initial delay before repeating begins, in milliseconds.
pub const REPEAT_DELAY_MS: u64 = 200;

/// The period of the repeats after the initial delay, in milliseconds
/// (about 33 repeats per second).
pub const REPEAT_RATE_MS: u64 = 30;

/// Tracks the key whose repeat timer is running, together with the handle
/// (`T`) of that timer in the event loop.
pub struct KeyRepeatManager<ID: BindingId, T> {
    current_timer: Option<(ID, T)>,
    delay_ms: u64,
    rate_ms: u64,
}

/// The timer that a release of `target` (or of any key, for `None`)
/// cancels, given the running one.
pub open spec fn cancelled_by<ID, T>(current: Option<(ID, T)>, target: Option<ID>) -> Option<T> {
    match current {
        Some((id, tok)) => if target is None || target == Some(id) {
            Some(tok)
        } else {
            None
        },
        None => None,
    }
}

impl<ID: BindingId, T> KeyRepeatManager<ID, T> {
    /// The running timer: the repeating key and its timer handle.
    pub closed spec fn current(&self) -> Option<(ID, T)> {
        self.current_timer
    }

    /// Creates a manager with no running timer and the default delay and
    /// rate.
    pub fn new() -> (m: Self)
        ensures
            m.current() is None,
            m.delay() == REPEAT_DELAY_MS,
            m.rate() == REPEAT_RATE_MS,
    {
        KeyRepeatManager { current_timer: None, delay_ms: REPEAT_DELAY_MS, rate_ms: REPEAT_RATE_MS }
    }

    /// The initial delay before repeating begins, in milliseconds.
    pub closed spec fn delay(&self) -> u64 {
        self.delay_ms
    }

    /// The repeat period after the initial delay, in milliseconds.
    pub closed spec fn rate(&self) -> u64 {
        self.rate_ms
    }

    /// The initial delay before repeating begins, in milliseconds.
    pub fn delay_ms(&self) -> (r: u64)
        ensures
            r == self.delay(),
    {
        self.delay_ms
    }

    /// The repeat period after the initial delay, in milliseconds.
    pub fn rate_ms(&self) -> (r: u64)
        ensures
            r == self.rate(),
    {
        self.rate_ms
    }

    /// The key whose repeat timer is running, if any.
    pub fn current_key(&self) -> (r: Option<ID>)
        ensures
            r == (match self.current() {
                Some((id, _)) => Some(id),
                None => None,
            }),
    {
        match &self.current_timer {
            Some((id, _)) => Some(*id),
            None => None,
        }
    }

    /// Records that the timer `token` now repeats the key `id` (the latest
    /// key wins) and hands back the timer that was running before, which
    /// must be cancelled.
    pub fn start_repeat(&mut self, id: ID, token: T) -> (cancel: Option<T>)
        ensures
            final(self).current() == Some((id, token)),
            cancel == cancelled_by(old(self).current(), None),
            final(self).delay() == old(self).delay(),
            final(self).rate() == old(self).rate(),
    {
        let cancel = self.stop_repeat(None);
        self.current_timer = Some((id, token));
        cancel
    }

    /// Stops the repeat on the release of `target_id`; `None` stops any
    /// repeat. A release of another key than the repeating one changes
    /// nothing. Hands back the timer that must be cancelled.
    pub fn stop_repeat(&mut self, target_id: Option<ID>) -> (cancel: Option<T>)
        ensures
            cancel == cancelled_by(old(self).current(), target_id),
            final(self).current() == (if cancel is Some {
                None
            } else {
                old(self).current()
            }),
            final(self).delay() == old(self).delay(),
            final(self).rate() == old(self).rate(),
    {
        proof {
            ID::lemma_eq_laws();
            reveal(vstd::laws_eq::obeys_concrete_eq);
        }
        let matches = match (&self.current_timer, &target_id) {
            (Some(_), None) => true,
            (Some((cur, _)), Some(t)) => *cur == *t,
            (None, _) => false,
        };
        if matches {
            let cur = self.current_timer.take();
            match cur {
                Some((_, tok)) => Some(tok),
                None => None,
            }
        } else {
            None
        }
    }
}


/// Latest key wins: starting a repeat cancels the timer that was running.
pub proof fn lemma_latest_key_wins<ID, T>(current: Option<(ID, T)>)
    ensures
        current matches Some((_, t)) ==> cancelled_by(current, None) == Some(t),
        current is None ==> cancelled_by(current, None) is None,
{
}

/// The release of a key that is not the repeating one cancels nothing (and
/// so leaves the running repeat alone).
pub proof fn lemma_spurious_release<ID, T>(current: Option<(ID, T)>, key: ID)
    requires
        !(current matches Some((c, _)) && c == key),
    ensures
        cancelled_by(current, Some(key)) is None,
{
}

/// The release of the repeating key cancels its timer.
pub proof fn lemma_release_stops<ID, T>(key: ID, token: T)
    ensures
        cancelled_by(Some((key, token)), Some(key)) == Some(token),
{
}

} // verus!
