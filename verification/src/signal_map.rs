use vstd::prelude::*;

use std::collections::HashMap;

verus! {

broadcast use vstd::std_specs::hash::group_hash_axioms;

/// Routes user-interface signals to their listeners: each connection gets a
/// fresh numeric id, under which the listener's sending end is kept.
pub struct SignalMap<S> {
    id_counter: u32,
    connections: HashMap<u32, S>,
}

impl<S> SignalMap<S> {
    /// The last id handed out; 0 before the first.
    pub closed spec fn last_id(&self) -> u32 {
        self.id_counter
    }

    /// The live connections, by id.
    pub closed spec fn connections(&self) -> Map<u32, S> {
        self.connections@
    }

    /// Every live connection carries an id that was handed out already.
    #[verifier::type_invariant]
    spec fn ids_handed_out(&self) -> bool {
        forall|id: u32| #[trigger] self.connections@.contains_key(id) ==> 0 < id <= self.id_counter
    }

    /// A map without connections that has handed out no id yet.
    pub fn new() -> (r: Self)
        ensures
            r.last_id() == 0,
            r.connections() == Map::<u32, S>::empty(),
    {
        SignalMap { id_counter: 0, connections: HashMap::new() }
    }

    /// Hands out the next id.
    pub fn next_id(&mut self) -> (id: u32)
        requires
            old(self).last_id() < u32::MAX,
        ensures
            id == old(self).last_id() + 1,
            final(self).last_id() == id,
            final(self).connections() == old(self).connections(),
    {
        proof {
            use_type_invariant(&*self);
        }
        self.id_counter = self.id_counter + 1;
        self.id_counter
    }

    /// Keeps `sender` under a fresh id and returns the id.
    pub fn register(&mut self, sender: S) -> (id: u32)
        requires
            old(self).last_id() < u32::MAX,
        ensures
            id == old(self).last_id() + 1,
            final(self).last_id() == id,
            !old(self).connections().contains_key(id),
            final(self).connections() == old(self).connections().insert(id, sender),
    {
        proof {
            use_type_invariant(&*self);
        }
        let id = self.next_id();
        let mut connections: HashMap<u32, S> = HashMap::new();
        std::mem::swap(&mut connections, &mut self.connections);
        connections.insert(id, sender);
        self.connections = connections;
        id
    }

    /// The sending end kept under `id`, if the connection is live.
    pub fn sender(&self, id: u32) -> (r: Option<&S>)
        ensures
            match r {
                Some(s) => self.connections().contains_key(id) && *s == self.connections()[id],
                None => !self.connections().contains_key(id),
            },
    {
        self.connections.get(&id)
    }

    /// Drops the connection `id` (after its listener went away) and returns
    /// its sending end.
    pub fn remove(&mut self, id: u32) -> (r: Option<S>)
        ensures
            final(self).last_id() == old(self).last_id(),
            final(self).connections() == old(self).connections().remove(id),
            match r {
                Some(s) => old(self).connections().contains_key(id) && s == old(
                    self,
                ).connections()[id],
                None => !old(self).connections().contains_key(id),
            },
    {
        proof {
            use_type_invariant(&*self);
        }
        let mut connections: HashMap<u32, S> = HashMap::new();
        std::mem::swap(&mut connections, &mut self.connections);
        let r = connections.remove(&id);
        self.connections = connections;
        r
    }
}

/// Ids are handed out in increasing order, so two registrations in a row
/// get different ids and both connections stay live: `middle` is what
/// `register(a)` makes of `before`, and `after` what `register(b)` makes of
/// `middle`.
pub proof fn law_register_fresh<S>(
    before: SignalMap<S>,
    middle: SignalMap<S>,
    after: SignalMap<S>,
    first: u32,
    second: u32,
    a: S,
    b: S,
)
    requires
        first == before.last_id() + 1,
        middle.last_id() == first,
        !before.connections().contains_key(first),
        middle.connections() == before.connections().insert(first, a),
        second == middle.last_id() + 1,
        !middle.connections().contains_key(second),
        after.connections() == middle.connections().insert(second, b),
    ensures
        first != second,
        after.connections().contains_key(first) && after.connections()[first] == a,
        after.connections().contains_key(second) && after.connections()[second] == b,
{
}

} // verus!
