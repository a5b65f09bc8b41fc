use vstd::prelude::*;
use std::collections::HashMap;
use crate::actor::Actor;
use crate::actor_cell::ActorCell;

verus! {

broadcast use vstd::std_specs::hash::group_hash_axioms;

/// The registry of one actor type: the cells by identifier. It owns them.
pub struct ActorContainer<A: Actor> {
    actors: HashMap<u128, ActorCell<A>>,
}

impl<A: Actor> View for ActorContainer<A> {
    type V = Map<u128, ActorCell<A>>;

    closed spec fn view(&self) -> Map<u128, ActorCell<A>> {
        self.actors@
    }
}

impl<A: Actor> ActorContainer<A> {
    pub fn new() -> (container: Self)
        ensures
            container@ == Map::<u128, ActorCell<A>>::empty(),
    {
        ActorContainer { actors: HashMap::new() }
    }

    /// Puts `actor` under `id` and returns the cell that was there before.
    pub fn insert(&mut self, id: u128, actor: ActorCell<A>) -> (previous: Option<ActorCell<A>>)
        ensures
            final(self)@ == old(self)@.insert(id, actor),
            match previous {
                Some(cell) => old(self)@.contains_key(id) && cell == old(self)@[id],
                None => !old(self)@.contains_key(id),
            },
    {
        self.actors.insert(id, actor)
    }

    /// Takes the cell under `id` out, if there is one.
    pub fn remove(&mut self, id: &u128) -> (removed: Option<ActorCell<A>>)
        ensures
            final(self)@ == old(self)@.remove(*id),
            match removed {
                Some(cell) => old(self)@.contains_key(*id) && cell == old(self)@[*id],
                None => !old(self)@.contains_key(*id),
            },
    {
        self.actors.remove(id)
    }

    pub fn get(&self, id: &u128) -> (found: Option<&ActorCell<A>>)
        ensures
            match found {
                Some(cell) => self@.contains_key(*id) && *cell == self@[*id],
                None => !self@.contains_key(*id),
            },
    {
        self.actors.get(id)
    }

    pub fn contains(&self, id: &u128) -> (found: bool)
        ensures
            found == self@.contains_key(*id),
    {
        self.actors.get(id).is_some()
    }

    /// How many cells are registered.
    pub fn len(&self) -> (len: usize)
        ensures
            len == self@.len(),
    {
        self.actors.len()
    }
}

} // verus!
