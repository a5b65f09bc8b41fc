use vstd::prelude::*;
use crate::actor::Actor;
use crate::actor_cell::{ActorCell, ActorCellHandle, Event};
use crate::actor_ref::ActorRef;
use crate::actor_system::ActorSystem;
use crate::errors::ErrorKind;

verus! {

/// The bits of an identifier that say which version and variant it is.
pub const VERSION_BITS: u128 = 0x0000_0000_0000_f000_c000_0000_0000_0000;

/// The version and variant bits of a random identifier.
pub const RANDOM_VERSION: u128 = 0x0000_0000_0000_4000_8000_0000_0000_0000;

/// `uuid::Uuid::new_v4` followed by `uuid::Uuid::as_u128`: a random
/// identifier. Of the number only the version and variant bits are fixed.
#[verifier::external_body]
fn fresh_id() -> (id: u128)
    ensures
        id & VERSION_BITS == RANDOM_VERSION,
{
    uuid::Uuid::new_v4().as_u128()
}

/// A random identifier for a new actor. It is never the nil identifier.
pub fn new_id() -> (id: u128)
    ensures
        id & VERSION_BITS == RANDOM_VERSION,
        id != 0,
{
    let id = fresh_id();
    assert(id & 0x0000_0000_0000_f000_c000_0000_0000_0000u128
        == 0x0000_0000_0000_4000_8000_0000_0000_0000u128 ==> id != 0) by (bit_vector);
    id
}

/// Makes the cell for `actor`, runs its start hook, and registers it under
/// `id`: the cell is reachable with its start hook behind it and nothing
/// pending. Where a cell has taken `id`, the actor is dropped and nothing
/// changes. A bridge under the same identifier is no hindrance: bridges are
/// registered apart.
pub fn create_actor<A: Actor>(system: &mut ActorSystem<A>, id: u128, actor: A) -> (created: Result<
    ActorRef,
    ErrorKind,
>)
    requires
        old(system).wf(),
    ensures
        final(system).guardian_mail() == old(system).guardian_mail(),
        final(system).guardian_scheduled() == old(system).guardian_scheduled(),
        final(system).guardian_running() == old(system).guardian_running(),
        final(system).tasks() == old(system).tasks(),
        final(system).wf(),
        old(system).grows(final(system)),
        ActorSystem::registered(*old(system), *final(system), id, created is Ok),
        match created {
            Ok(reference) => reference == ActorRef::of_cell_spec(id) && !ActorSystem::taken(
                *old(system),
                id,
            ),
            Err(error) => error == ErrorKind::ActorAlreadyExists(id) && ActorSystem::taken(
                *old(system),
                id,
            ),
        },
        created is Ok ==> ActorSystem::started_as(*final(system), id, actor),
{
    let mut cell = ActorCell::new(id, actor);
    let handle = ActorCellHandle::new(id);
    cell.on_start();
    assert(cell.journal() =~= seq![Event::Started]);
    match system.register_actor(id, cell) {
        Ok(()) => Ok(ActorRef::new(handle)),
        Err(error) => Err(error),
    }
}

} // verus!
