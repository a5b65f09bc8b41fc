use vstd::prelude::*;
use crate::actor::Actor;
use crate::actor_cell::ActorCellHandle;
use crate::actor_system::ActorSystem;
use crate::errors::ErrorKind;
use crate::mailbox::SystemMessage;

verus! {

/// A clonable, non-owning handle to a cell. It may outlive the cell; the null
/// reference stands for "no actor" and is the sender of a message that comes
/// from outside any handler. A reference points at a cell of the system's
/// actor type, at the bridge of an ask, or at the guardian: the kinds are
/// registered apart, each under its own identifiers.
#[derive(Clone, Copy, Debug, PartialEq, Eq, Structural)]
pub struct ActorRef {
    pub cell: Option<ActorCellHandle>,
    pub bridge: Option<u128>,
    pub guardian: Option<u128>,
}

impl ActorRef {
    /// The identifier of the cell that the reference points at; `None` for
    /// the null reference and for a reference to a bridge.
    pub open spec fn target(self) -> Option<u128> {
        match self.cell {
            Some(handle) => Some(handle.id_spec()),
            None => None,
        }
    }

    /// The identifier of the bridge that the reference points at; `None` for
    /// the null reference and for a reference to a cell.
    pub open spec fn asker(self) -> Option<u128> {
        match self.cell {
            Some(_) => None,
            None => self.bridge,
        }
    }

    /// The identifier of the guardian that the reference points at; `None`
    /// for any other reference.
    pub open spec fn guard(self) -> Option<u128> {
        match (self.cell, self.bridge) {
            (None, None) => self.guardian,
            _ => None,
        }
    }

    /// Whether the reference points at nothing.
    pub open spec fn is_null_spec(self) -> bool {
        self.target() is None && self.asker() is None && self.guard() is None
    }

    pub fn new(cell: ActorCellHandle) -> (reference: Self)
        ensures
            reference == (ActorRef { cell: Some(cell), bridge: None, guardian: None }),
            reference.target() == Some(cell.id_spec()),
            reference.asker() is None,
    {
        ActorRef { cell: Some(cell), bridge: None, guardian: None }
    }

    /// The reference to the cell under `id`.
    pub open spec fn of_cell_spec(id: u128) -> Self {
        ActorRef { cell: Some(ActorCellHandle { id }), bridge: None, guardian: None }
    }

    /// The reference to the bridge under `id`.
    pub open spec fn of_bridge_spec(id: u128) -> Self {
        ActorRef { cell: None, bridge: Some(id), guardian: None }
    }

    /// The reference to the bridge under `id`.
    pub fn of_bridge(id: u128) -> (reference: Self)
        ensures
            reference == Self::of_bridge_spec(id),
            reference.asker() == Some(id),
            reference.target() is None,
    {
        ActorRef { cell: None, bridge: Some(id), guardian: None }
    }

    /// The reference to the guardian under `id`.
    pub open spec fn of_guardian_spec(id: u128) -> Self {
        ActorRef { cell: None, bridge: None, guardian: Some(id) }
    }

    /// The reference to the guardian under `id`.
    pub fn of_guardian(id: u128) -> (reference: Self)
        ensures
            reference == Self::of_guardian_spec(id),
            reference.guard() == Some(id),
            reference.target() is None,
            reference.asker() is None,
    {
        ActorRef { cell: None, bridge: None, guardian: Some(id) }
    }

    pub open spec fn null_spec() -> Self {
        ActorRef { cell: None, bridge: None, guardian: None }
    }

    /// The reference that points at no actor.
    pub fn null() -> (reference: Self)
        ensures
            reference.target() is None,
            reference.asker() is None,
            reference.guard() is None,
            reference == Self::null_spec(),
    {
        ActorRef { cell: None, bridge: None, guardian: None }
    }

    pub fn is_null(&self) -> (null: bool)
        ensures
            null == self.is_null_spec(),
    {
        self.cell.is_none() && self.bridge.is_none() && self.guardian.is_none()
    }

    /// The identifier that the reference points at; the nil identifier for
    /// the null reference.
    pub open spec fn id_spec(self) -> u128 {
        match self.target() {
            Some(target) => target,
            None => match self.asker() {
                Some(bridge) => bridge,
                None => match self.guard() {
                    Some(guardian) => guardian,
                    None => 0,
                },
            },
        }
    }

    /// The identifier of the actor, of the bridge or of the guardian; the
    /// nil identifier for the null reference.
    pub fn id(&self) -> (id: u128)
        ensures
            id == self.id_spec(),
    {
        match self.cell {
            Some(handle) => handle.id(),
            None => match self.bridge {
                Some(bridge) => bridge,
                None => match self.guardian {
                    Some(guardian) => guardian,
                    None => 0,
                },
            },
        }
    }

    /// The identifier of the bridge behind the reference, if it points at
    /// one.
    pub fn bridge_id(&self) -> (id: Option<u128>)
        ensures
            id == self.asker(),
    {
        match self.cell {
            Some(_) => None,
            None => self.bridge,
        }
    }

    /// The weak handle behind the reference, if it is not null.
    pub fn handle(&self) -> (handle: Option<ActorCellHandle>)
        ensures
            handle is Some == (self.target() is Some),
            handle is Some ==> Some(handle.unwrap().id_spec()) == self.target(),
    {
        self.cell
    }

    /// Whether what the reference points at is still there: the cell, the
    /// bridge, or the guardian, which is there as long as the system is.
    pub fn is_alive<A: Actor>(&self, system: &ActorSystem<A>) -> (alive: bool)
        ensures
            alive == ActorSystem::alive(*system, *self),
    {
        system.is_alive(self)
    }

    /// Fire-and-forget from outside any handler: the sender is the null
    /// reference. A message to a dead reference is dropped.
    pub fn send<A: Actor>(&self, system: &mut ActorSystem<A>, message: A::Message)
        requires
            old(system).wf(),
        ensures
            final(system).wf(),
            old(system).grows(final(system)),
            ActorSystem::sent(
                *old(system),
                *final(system),
                *self,
                message,
                ActorRef::null_spec(),
                None,
                ActorSystem::reachable(*old(system), *self),
            ),
    {
        let _ = system.enqueue_message(*self, message, ActorRef::null(), None);
    }

    /// Fire-and-forget on behalf of `sender`. A message to a dead reference
    /// is dropped.
    pub fn send_from<A: Actor>(
        &self,
        system: &mut ActorSystem<A>,
        message: A::Message,
        sender: &ActorRef,
    )
        requires
            old(system).wf(),
        ensures
            final(system).wf(),
            old(system).grows(final(system)),
            ActorSystem::sent(
                *old(system),
                *final(system),
                *self,
                message,
                *sender,
                None,
                ActorSystem::reachable(*old(system), *self),
            ),
    {
        let _ = system.enqueue_message(*self, message, *sender, None);
    }

    /// A message whose handler's response goes to `promise`. On a dead
    /// reference the promise fails at once, and the result says so.
    pub fn request<A: Actor>(
        &self,
        system: &mut ActorSystem<A>,
        message: A::Message,
        promise: u64,
    ) -> (result: Result<(), ErrorKind>)
        requires
            old(system).wf(),
        ensures
            final(system).wf(),
            old(system).grows(final(system)),
            ActorSystem::sent(
                *old(system),
                *final(system),
                *self,
                message,
                ActorRef::null_spec(),
                Some(promise),
                result is Ok,
            ),
            result is Err ==> result == Err::<(), ErrorKind>(ErrorKind::ActorDestroyed),
    {
        system.enqueue_message(*self, message, ActorRef::null(), Some(promise))
    }

    /// The stop command, behind whatever the mailbox holds; `promise` is told
    /// when it has been processed. On a dead reference the promise fails at
    /// once, and the result says so.
    pub fn stop<A: Actor>(&self, system: &mut ActorSystem<A>, promise: u64) -> (result: Result<
        (),
        ErrorKind,
    >)
        requires
            old(system).wf(),
        ensures
            final(system).wf(),
            old(system).grows(final(system)),
            ActorSystem::commanded(
                *old(system),
                *final(system),
                *self,
                SystemMessage::Stop(promise),
                result is Ok,
            ),
            result is Err ==> result == Err::<(), ErrorKind>(ErrorKind::ActorDestroyed),
    {
        system.enqueue_system_message(*self, SystemMessage::Stop(promise))
    }

    /// Sends `message` on behalf of a new bridge, which gives the first
    /// answer it gets to `promise`: a reply to the bridge, or the handler's
    /// response. The result is the bridge's reference. On a dead reference
    /// the promise fails at once.
    pub fn ask<A: Actor>(
        &self,
        system: &mut ActorSystem<A>,
        message: A::Message,
        promise: u64,
    ) -> (result: Result<ActorRef, ErrorKind>)
        requires
            old(system).wf(),
        ensures
            final(system).wf(),
            old(system).grows(final(system)),
            ActorSystem::asked(*old(system), *final(system), *self, message, promise, result),
    {
        system.ask(*self, message, promise)
    }

    /// Creates and registers an actor under `id`, as a child of the actor
    /// behind this reference; `None` where `id` is taken.
    pub fn spawn<A: Actor>(&self, system: &mut ActorSystem<A>, id: u128, actor: A) -> (reference:
        Option<ActorRef>)
        requires
            old(system).wf(),
        ensures
            final(system).wf(),
            old(system).grows(final(system)),
            ActorSystem::registered(*old(system), *final(system), id, reference is Some),
            reference is Some == !ActorSystem::taken(*old(system), id),
            reference is Some ==> reference.unwrap().target() == Some(id),
    {
        system.spawn(id, actor)
    }
}

} // verus!
