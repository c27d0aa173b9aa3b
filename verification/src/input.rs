//! Routing of keybinding presses to actions.

use std::collections::HashMap;
use vstd::prelude::*;
use crate::config::{Action, Config, prepared, parse_keysym, parse_modifiers};

verus! {

/// A generic identifier for a compositor object that represents a
/// keybinding. Identifiers are compared by value and obey the hash-table
/// key model; every implementation proves it.
pub trait BindingId: Copy + Eq + core::hash::Hash + core::fmt::Debug {
    proof fn lemma_key_model()
        ensures
            vstd::std_specs::hash::obeys_key_model::<Self>(),
    ;
}

impl BindingId for u32 {
    proof fn lemma_key_model() {
    }
}

impl BindingId for u64 {
    proof fn lemma_key_model() {
    }
}

impl BindingId for usize {
    proof fn lemma_key_model() {
    }
}

/// Maps binding object IDs to their actions: the router for input events.
pub struct InputManager<ID: BindingId> {
    /// The routing table from binding object IDs to actions.
    pub bindings_map: HashMap<ID, Action>,
}

impl<ID: BindingId> InputManager<ID> {
    /// Creates a new, empty `InputManager`.
    pub fn new() -> (m: Self)
        ensures
            m.bindings_map@ == Map::<ID, Action>::empty(),
    {
        InputManager { bindings_map: HashMap::new() }
    }

    /// Parses the configuration into the (modifier mask, keysym, action)
    /// triples that must be registered with the compositor, in the order
    /// of the configuration; bindings with an unknown key are skipped.
    pub fn prepare_bindings(&self, config: &Config) -> (r: Vec<(u32, u32, Action)>)
        ensures
            r@ == prepared(config@),
    {
        let ghost bs = config@;
        let mut out: Vec<(u32, u32, Action)> = Vec::new();
        let mut i: usize = 0;
        while i < config.bindings.len()
            invariant
                i <= config.bindings@.len(),
                bs == config@,
                out@ == prepared(bs.take(i as int)),
            decreases config.bindings@.len() - i,
        {
            let b = &config.bindings[i];
            let mods_mask = parse_modifiers(&b.modifiers);
            let keysym = parse_keysym(b.key.as_str());
            proof {
                assert(bs.take(i + 1).drop_last() =~= bs.take(i as int));
                assert(bs.take(i + 1).last() == b@);
            }
            if keysym != 0 {
                out.push((mods_mask, keysym, b.action));
            }
            i = i + 1;
        }
        proof {
            assert(bs.take(config.bindings@.len() as int) =~= bs);
        }
        out
    }

    /// Records the action of a binding object registered with the
    /// compositor, replacing any earlier action of the same object.
    pub fn register_wayland_object(&mut self, object_id: ID, action: Action)
        ensures
            final(self).bindings_map@ == old(self).bindings_map@.insert(object_id, action),
    {
        proof {
            ID::lemma_key_model();
        }
        self.bindings_map.insert(object_id, action);
    }

    /// The action bound to the pressed binding object, if any.
    pub fn handle_pressed(&self, object_id: ID) -> (r: Option<Action>)
        ensures
            r == self.bindings_map@.get(object_id),
    {
        proof {
            ID::lemma_key_model();
        }
        match self.bindings_map.get(&object_id) {
            Some(a) => Some(*a),
            None => None,
        }
    }
}


/// A registered binding routes its presses to its action, and registering
/// it leaves the route of every other binding as it was.
pub proof fn lemma_register_then_pressed<ID>(m: Map<ID, Action>, id: ID, action: Action, other: ID)
    ensures
        m.insert(id, action).get(id) == Some(action),
        other != id ==> m.insert(id, action).get(other) == m.get(other),
{
}

/// A fresh router routes no press.
pub proof fn lemma_fresh_routes_nothing<ID>(id: ID)
    ensures
        Map::<ID, Action>::empty().get(id) == None::<Action>,
{
}

} // verus!
