//! Window identifiers and the logical window entity.

use vstd::prelude::*;

verus! {

/// A generic identifier for a window.
///
/// Identifiers are compared by value: two identifiers name the same window
/// exactly when they are equal, and they can be used as hash-map keys.
/// Every implementation proves that its `==` is mathematical equality and
/// that it obeys the hash-table key model.
pub trait WindowId: Copy + Eq + core::hash::Hash + core::fmt::Debug {
    proof fn lemma_id_laws()
        ensures
            vstd::laws_eq::obeys_concrete_eq::<Self>(),
            vstd::std_specs::hash::obeys_key_model::<Self>(),
    ;
}

impl WindowId for u32 {
    proof fn lemma_id_laws() {
    }
}

impl WindowId for u64 {
    proof fn lemma_id_laws() {
    }
}

impl WindowId for usize {
    proof fn lemma_id_laws() {
    }
}

/// The logical entity of a window, as the window-management logic sees it.
pub struct Window<ID: WindowId> {
    pub id: ID,
    /// Indicates whether the window is floating (exempt from tiling layout).
    pub is_floating: bool,
    /// A mark used for delayed cleanup (tombstone).
    pub is_closed: bool,
}

impl<ID: WindowId> Window<ID> {
    /// Creates a new, tiled, open window.
    pub fn new(id: ID) -> (w: Self)
        ensures
            w.id == id,
            !w.is_floating,
            !w.is_closed,
    {
        Window { id, is_floating: false, is_closed: false }
    }
}

} // verus!
