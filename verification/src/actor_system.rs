use vstd::prelude::*;
use std::collections::HashMap;
use std::collections::VecDeque;
use crate::actor::{asked_all, deeds_of, Actor, ActorResponse, Completion, Deed, Waiter};
use crate::actor_cell::{
    batch_len,
    cancelled,
    lemma_batch_len_bounds,
    lemma_outcomes_add,
    lifecycle,
    lemma_orphaned_tell_only,
    observed,
    orphaned,
    outcomes,
    owed,
    stops,
    ActorCell,
    ActorCellHandle,
    ActorStatus,
    Event,
};
use crate::actor_container::ActorContainer;
use crate::actor_factory::{create_actor, new_id};
use crate::actor_ref::ActorRef;
use crate::ask_actor::AskActor;
use crate::batch::{entries_ran, lemma_messages_keep_lifecycle, Batch};
use crate::context::{ActorContext, Effect, ThreadContext};
use crate::dispatcher::{
    is_queued,
    guardian_once,
    guardian_queued,
    lemma_guardian_after_pop,
    lemma_guardian_kept_by_push,
    lemma_guardian_kept_by_stops,
    lemma_guardian_kept_by_withdrawal,
    lemma_guardian_pushed,
    lemma_pop_item,
    lemma_push_item,
    lemma_push_plain,
    milestone,
    queued_once,
    tallied,
    withdrawn,
    Dispatcher,
    ThreadMessage,
};
use crate::errors::ErrorKind;
use crate::mailbox::{Envelope, MailboxMessage, SystemMessage};

verus! {

broadcast use vstd::std_specs::hash::group_hash_axioms;

/// How many messages of one cell a worker runs before it turns to the next.
pub const BATCH: usize = 10;

/// What a worker gets when it begins its turn.
pub enum Turn<A: Actor> {
    /// Its inbox was empty.
    Idle,
    /// It was told to leave its loop.
    Stopped,
    /// A batch of a cell, for the worker to run and to hand back.
    Batch(Batch<A>),
    /// A message of the guardian, which is setup code: the worker runs the
    /// code that the host keeps under the token, under this context, and
    /// hands the context back.
    Startup { token: u64, context: ActorContext<A::Message, A, A::Response> },
}

/// What a worker did with its turn.
#[derive(Clone, Copy, Debug, PartialEq, Eq, Structural)]
pub enum Progress {
    /// Its inbox was empty.
    Idle,
    /// It ran one batch of a cell, of this many messages.
    Processed(usize),
    /// It was told to leave its loop.
    Stopped,
    /// It took the setup code of this token from the guardian's mailbox, for
    /// the caller to run.
    Startup(u64),
}

/// What holds of every registered cell.
pub open spec fn cell_ok<A: Actor>(cell: ActorCell<A>, id: u128) -> bool {
    &&& cell.wf()
    &&& cell.id_spec() == id
    &&& cell.status_spec() != ActorStatus::Terminated
    &&& cell.status_spec() == ActorStatus::Idle ==> cell.pending().len() == 0
    &&& cell.running() ==> cell.status_spec() == ActorStatus::Scheduled
    &&& lifecycle(cell.journal())
}

/// Whether a cell waits for a worker: it is scheduled, and no batch of it is
/// checked out.
pub open spec fn waits<A: Actor>(cell: ActorCell<A>) -> bool {
    cell.status_spec() == ActorStatus::Scheduled && !cell.running()
}

/// Whether `id` is registered and waits for a worker.
pub open spec fn ready<A: Actor>(cells: Map<u128, ActorCell<A>>, id: u128) -> bool {
    cells.contains_key(id) && waits(cells[id])
}

/// A cell that has only been sent to: it holds the same actor with the same
/// past, or has the same batch out, and what was pending is still pending,
/// in front of what came.
pub open spec fn kept<A: Actor>(before: ActorCell<A>, after: ActorCell<A>) -> bool {
    &&& after.id_spec() == before.id_spec()
    &&& after.journal() == before.journal()
    &&& after.actor_spec() == before.actor_spec()
    &&& after.lease_spec() == before.lease_spec()
    &&& before.pending().is_prefix_of(after.pending())
}

/// A cell after one entry has been put at the end of its mailbox.
pub open spec fn enqueued<A: Actor>(
    before: ActorCell<A>,
    after: ActorCell<A>,
    entry: Envelope<A::Message>,
) -> bool {
    &&& after.id_spec() == before.id_spec()
    &&& after.journal() == before.journal()
    &&& after.actor_spec() == before.actor_spec()
    &&& after.lease_spec() == before.lease_spec()
    &&& after.pending() == before.pending().push(entry)
    &&& after.status_spec() == ActorStatus::Scheduled
}

/// The inboxes after a cell was handed to some worker, where `submit` says
/// that it was; unchanged where it was not.
pub open spec fn placed(
    before: Seq<Seq<ThreadMessage>>,
    after: Seq<Seq<ThreadMessage>>,
    submit: bool,
    id: u128,
) -> bool {
    if submit {
        exists|worker: int|
            0 <= worker < before.len() && after == #[trigger] before.update(
                worker,
                before[worker].push(ThreadMessage::ProcessActor(ActorCellHandle { id })),
            )
    } else {
        after == before
    }
}

/// The identifier that no handler of a batch can have taken again: that of
/// the cell itself, where the batch has stopped it.
pub open spec fn reserved_by<M>(batch: Seq<Envelope<M>>, id: u128) -> Option<u128> {
    if stops(batch) {
        Some(id)
    } else {
        None
    }
}

/// The completion that a promise gets where its message cannot be delivered.
pub open spec fn refused<A: Actor>(promise: Option<u64>, error: ErrorKind) -> Seq<Completion<A>> {
    match promise {
        Some(p) => seq![Completion::Failed { promise: p, error }],
        None => Seq::empty(),
    }
}

/// The top-level container: it owns the scheduler and the registry, and keeps
/// what it owes to the host's promises until the host collects it.
pub struct ActorSystem<A: Actor> {
    dispatcher: Dispatcher,
    root_actor: Option<ActorRef>,
    actors: ActorContainer<A>,
    asks: HashMap<u128, AskActor>,
    done_signal: Option<u64>,
    completions: Vec<Completion<A>>,
    leases: u64,
    tasks: HashMap<u64, Waiter>,
    guardian: VecDeque<u64>,
    guardian_scheduled: bool,
    guardian_running: bool,
}

impl<A: Actor> ActorSystem<A> {
    /// The registered cells, by identifier.
    pub closed spec fn cells(&self) -> Map<u128, ActorCell<A>> {
        self.actors@
    }

    /// The workers' inboxes, by worker.
    pub closed spec fn inboxes(&self) -> Seq<Seq<ThreadMessage>> {
        self.dispatcher.inboxes()
    }

    /// The core that each worker is pinned to, by worker.
    pub closed spec fn cores(&self) -> Seq<Option<usize>> {
        self.dispatcher.cores()
    }

    /// How many messages the workers have run, as far as counted.
    pub closed spec fn processed(&self) -> usize {
        self.dispatcher.processed()
    }

    /// The deferred responses that are yet to be completed, by task, each
    /// with who waits for it.
    pub closed spec fn tasks(&self) -> Map<u64, Waiter> {
        self.tasks@
    }

    /// The guardian's mailbox: the tokens of the setup code that was sent to
    /// it and has not run, oldest first. The guardian is the root actor; it
    /// is registered from the start, under `root_spec`, beside the cells of
    /// the system's actor type.
    pub closed spec fn guardian_mail(&self) -> Seq<u64> {
        self.guardian@
    }

    /// Whether the guardian is scheduled: a worker's inbox holds its work
    /// item, or a worker runs its setup code.
    pub closed spec fn guardian_scheduled(&self) -> bool {
        self.guardian_scheduled
    }

    /// Whether a worker runs setup code: it has taken a message of the
    /// guardian and not handed the guardian's context back.
    pub closed spec fn guardian_running(&self) -> bool {
        self.guardian_running
    }

    /// The invariant of the guardian: at most one inbox asks for it, and at
    /// most once; one asks for it only while it is scheduled and no worker
    /// runs its setup code; and setup code runs only while it is scheduled.
    /// So at most one worker runs setup code at any time.
    pub open spec fn guardian_wf(&self) -> bool {
        &&& guardian_once(self.inboxes())
        &&& guardian_queued(self.inboxes()) ==> self.guardian_scheduled()
            && !self.guardian_running()
        &&& self.guardian_running() ==> self.guardian_scheduled()
    }

    /// Whether the workers have been told to leave their loops.
    pub closed spec fn joined(&self) -> bool {
        self.dispatcher.joined()
    }

    /// The bridges that wait for an answer, by identifier.
    pub closed spec fn bridges(&self) -> Map<u128, AskActor> {
        self.asks@
    }

    /// What the system owes to the host and has not handed over yet.
    pub closed spec fn settled(&self) -> Seq<Completion<A>> {
        self.completions@
    }

    /// The promise that waits for the shutdown, if the system was started.
    pub closed spec fn done_signal_spec(&self) -> Option<u64> {
        self.done_signal
    }

    pub closed spec fn root_spec(&self) -> Option<ActorRef> {
        self.root_actor
    }

    /// The invariant of the runtime. A cell is in some worker's inbox exactly
    /// while it is scheduled and no batch of it is checked out, and then
    /// once: so at most one worker holds a batch of it at any time. Only a
    /// scheduled cell has a batch out. An idle cell has nothing pending, no
    /// registered cell is terminated, every actor has seen its start hook
    /// and then messages only, and every bridge still holds its promise. Of
    /// the guardian the same holds as of a cell: see `guardian_wf`.
    pub open spec fn wf(&self) -> bool {
        &&& self.inboxes().len() >= 1
        &&& self.root_spec() is Some
        &&& self.guardian_wf()
        &&& queued_once(self.inboxes())
        &&& forall|id: u128|
            #![trigger is_queued(self.inboxes(), id)]
            #![trigger ready(self.cells(), id)]
            is_queued(self.inboxes(), id) <==> ready(self.cells(), id)
        &&& forall|id: u128| #[trigger]
            self.cells().contains_key(id) ==> cell_ok(self.cells()[id], id)
        &&& forall|id: u128| #[trigger]
            self.bridges().contains_key(id) ==> self.bridges()[id].promise_spec() is Some
    }

    /// What holds between two states of which the later came from the
    /// earlier by sending, spawning, asking and answering alone: every cell
    /// is still there with the same past, and nothing owed has been taken
    /// back.
    pub open spec fn grows(&self, later: &Self) -> bool {
        &&& later.inboxes().len() == self.inboxes().len()
        &&& self.settled().is_prefix_of(later.settled())
        &&& later.done_signal_spec() == self.done_signal_spec()
        &&& later.root_spec() == self.root_spec()
        &&& later.processed() == self.processed()
        &&& forall|id: u128| #[trigger]
            self.cells().contains_key(id) ==> later.cells().contains_key(id) && kept(
                self.cells()[id],
                later.cells()[id],
            )
    }

    /// How a registration changes the system: where it `succeeded`, an idle
    /// cell with an empty mailbox, whose actor has seen its start hook and
    /// nothing else, stands under `id`; nothing else has changed.
    pub open spec fn registered(before: Self, after: Self, id: u128, succeeded: bool) -> bool {
        &&& after.inboxes() == before.inboxes()
        &&& after.bridges() == before.bridges()
        &&& after.settled() == before.settled()
        &&& after.done_signal_spec() == before.done_signal_spec()
        &&& after.root_spec() == before.root_spec()
        &&& if succeeded {
            &&& after.cells().dom() == before.cells().dom().insert(id)
            &&& forall|other: u128|
                other != id && before.cells().contains_key(other)
                    ==> #[trigger] after.cells()[other] == before.cells()[other]
            &&& after.cells()[id].id_spec() == id
            &&& after.cells()[id].status_spec() == ActorStatus::Idle
            &&& after.cells()[id].pending().len() == 0
            &&& !after.cells()[id].running()
            &&& lifecycle(after.cells()[id].journal())
        } else {
            after.cells() == before.cells()
        }
    }

    /// A system with a started scheduler and no actors but the guardian,
    /// which is registered under the root reference, with an empty mailbox,
    /// and is not scheduled.
    pub fn new() -> (system: Self)
        ensures
            system.wf(),
            system.guardian_mail() == Seq::<u64>::empty(),
            !system.guardian_scheduled(),
            !system.guardian_running(),
            system.tasks() == Map::<u64, Waiter>::empty(),
            system.cells() == Map::<u128, ActorCell<A>>::empty(),
            system.bridges() == Map::<u128, AskActor>::empty(),
            system.settled() == Seq::<Completion<A>>::empty(),
            system.done_signal_spec() is None,
            system.root_spec() is Some,
            system.root_spec().unwrap().guard() is Some,
            Self::alive(system, system.root_spec().unwrap()),
            forall|worker: int|
                0 <= worker < system.inboxes().len() ==> (#[trigger] system.inboxes()[worker]).len()
                    == 0,
    {
        let mut dispatcher = Dispatcher::new();
        dispatcher.start();
        let root = ActorRef::of_guardian(new_id());
        let system = ActorSystem {
            dispatcher,
            root_actor: Some(root),
            actors: ActorContainer::new(),
            asks: HashMap::new(),
            done_signal: None,
            completions: Vec::new(),
            leases: 0,
            tasks: HashMap::new(),
            guardian: VecDeque::new(),
            guardian_scheduled: false,
            guardian_running: false,
        };
        proof {
            let inboxes = system.inboxes();
            assert forall|id: u128| !is_queued(inboxes, id) by {
                if is_queued(inboxes, id) {
                    let (w, s) = choose|w: int, s: int| crate::dispatcher::holds(inboxes, w, s, id);
                    assert(inboxes[w].len() == 0);
                }
            }
            assert(queued_once(inboxes)) by {
                assert forall|w1: int, s1: int, w2: int, s2: int, id: u128|
                    #[trigger] crate::dispatcher::holds(inboxes, w1, s1, id)
                        && #[trigger] crate::dispatcher::holds(
                        inboxes,
                        w2,
                        s2,
                        id,
                    ) implies w1 == w2 && s1 == s2 by {
                    assert(inboxes[w1].len() == 0);
                }
            }
        }
        system
    }

    /// The guardian's reference: the well-known identity under which setup
    /// code runs. The guardian is registered apart from the cells of the
    /// system's actor type, as the bridges are, and takes setup code only:
    /// see `on_startup`.
    pub fn root_actor(&self) -> (root: Option<ActorRef>)
        ensures
            root == self.root_spec(),
    {
        self.root_actor
    }

    /// Puts a new cell into the registry. The cell must be the one that the
    /// factory made for `id`: idle, with its actor, and with nothing pending;
    /// any other is refused as invalid, and an identifier that a cell has
    /// taken is refused too.
    pub fn register_actor(&mut self, id: u128, actor: ActorCell<A>) -> (result: Result<
        (),
        ErrorKind,
    >)
        requires
            old(self).wf(),
            actor.wf(),
            lifecycle(actor.journal()),
        ensures
            final(self).guardian_mail() == old(self).guardian_mail(),
            final(self).guardian_scheduled() == old(self).guardian_scheduled(),
            final(self).guardian_running() == old(self).guardian_running(),
            final(self).tasks() == old(self).tasks(),
            final(self).wf(),
            old(self).grows(final(self)),
            Self::registered(*old(self), *final(self), id, result is Ok),
            result is Ok ==> final(self).cells()[id] == actor,
            result == if old(self).cells().contains_key(id) {
                Err::<(), ErrorKind>(ErrorKind::ActorAlreadyExists(id))
            } else if actor.id_spec() != id || actor.status_spec() != ActorStatus::Idle
                || actor.pending().len() != 0 || actor.running() {
                Err::<(), ErrorKind>(ErrorKind::InvalidActor(id))
            } else {
                Ok::<(), ErrorKind>(())
            },
    {
        if self.actors.contains(&id) {
            return Err(ErrorKind::ActorAlreadyExists(id));
        }
        if actor.id() != id || !actor.status().is_idle() || !actor.is_empty()
            || actor.is_running() {
            return Err(ErrorKind::InvalidActor(id));
        }
        self.actors.insert(id, actor);
        proof {
            assert(!ready(old(self).cells(), id));
            assert forall|other: u128|
                #![trigger is_queued(self.inboxes(), other)]
                #![trigger ready(self.cells(), other)]
                is_queued(self.inboxes(), other) <==> ready(self.cells(), other) by {
                assert(is_queued(old(self).inboxes(), other) <==> ready(
                    old(self).cells(),
                    other,
                ));
            }
            assert(self.cells().dom() =~= old(self).cells().dom().insert(id));
        }
        Ok(())
    }

    /// A reference to the actor under `id`, or `None` where there is none.
    pub fn get_actor(&self, id: &u128) -> (found: Option<ActorRef>)
        ensures
            found is Some == self.cells().contains_key(*id),
            found is Some ==> found.unwrap().target() == Some(*id),
    {
        if self.actors.contains(id) {
            Some(ActorRef::new(ActorCellHandle::new(*id)))
        } else {
            None
        }
    }

    /// Whether what `reference` points at is still there: a cell, a bridge,
    /// or the guardian, which is there as long as the system is.
    pub fn is_alive(&self, reference: &ActorRef) -> (alive: bool)
        ensures
            alive == Self::alive(*self, *reference),
    {
        match reference.handle() {
            Some(handle) => {
                let id = handle.id();
                self.actors.contains(&id)
            },
            None => match reference.bridge_id() {
                Some(id) => self.asks.get(&id).is_some(),
                None => match self.root_actor {
                    Some(root) => !reference.is_null() && root == *reference,
                    None => false,
                },
            },
        }
    }

    /// The actor under `id`, to look at; `None` while a batch has it.
    pub fn actor(&self, id: &u128) -> (found: Option<&A>)
        ensures
            found is Some == (self.cells().contains_key(*id) && !self.cells()[*id].running()),
            found is Some ==> Some(*found.unwrap()) == self.cells()[*id].actor_spec(),
    {
        match self.actors.get(id) {
            Some(cell) => cell.actor(),
            None => None,
        }
    }

    /// The scheduling state of the cell under `id`.
    pub fn status(&self, id: &u128) -> (found: Option<ActorStatus>)
        ensures
            found is Some == self.cells().contains_key(*id),
            found is Some ==> found.unwrap() == self.cells()[*id].status_spec(),
    {
        match self.actors.get(id) {
            Some(cell) => Some(cell.status()),
            None => None,
        }
    }

    /// How many workers there are.
    pub fn worker_count(&self) -> (count: usize)
        ensures
            count == self.inboxes().len(),
    {
        self.dispatcher.worker_count()
    }

    /// The core that worker `worker` is to be pinned to, if any.
    pub fn affinity(&self, worker: usize) -> (pin: Option<usize>)
        ensures
            pin == if worker < self.cores().len() {
                self.cores()[worker as int]
            } else {
                None
            },
    {
        self.dispatcher.affinity(worker)
    }

    /// How many work items wait in worker `worker`'s inbox; none for a
    /// worker that does not exist.
    pub fn queued(&self, worker: usize) -> (len: usize)
        ensures
            len == if worker < self.inboxes().len() {
                self.inboxes()[worker as int].len()
            } else {
                0
            },
    {
        self.dispatcher.queued(worker)
    }

    /// How many actors are registered.
    pub fn actor_count(&self) -> (count: usize)
        ensures
            count == self.cells().len(),
    {
        self.actors.len()
    }

    /// The invariant with one cell taken out of the registry: nothing is
    /// claimed of whether an inbox asks for `hole`.
    pub open spec fn wf_without(&self, hole: u128) -> bool {
        &&& self.inboxes().len() >= 1
        &&& self.root_spec() is Some
        &&& self.guardian_wf()
        &&& queued_once(self.inboxes())
        &&& !self.cells().contains_key(hole)
        &&& forall|id: u128|
            #![trigger is_queued(self.inboxes(), id)]
            #![trigger ready(self.cells(), id)]
            id != hole ==> (is_queued(self.inboxes(), id) <==> ready(self.cells(), id))
        &&& forall|id: u128| #[trigger]
            self.cells().contains_key(id) ==> cell_ok(self.cells()[id], id)
        &&& forall|id: u128| #[trigger]
            self.bridges().contains_key(id) ==> self.bridges()[id].promise_spec() is Some
    }

    /// Takes a cell out of the registry to change it.
    fn detach(&mut self, id: u128) -> (taken: Option<ActorCell<A>>)
        requires
            old(self).wf(),
        ensures
            final(self).guardian_mail() == old(self).guardian_mail(),
            final(self).guardian_scheduled() == old(self).guardian_scheduled(),
            final(self).guardian_running() == old(self).guardian_running(),
            final(self).tasks() == old(self).tasks(),
            final(self).inboxes() == old(self).inboxes(),
            final(self).bridges() == old(self).bridges(),
            final(self).settled() == old(self).settled(),
            final(self).done_signal_spec() == old(self).done_signal_spec(),
            final(self).root_spec() == old(self).root_spec(),
            final(self).processed() == old(self).processed(),
            final(self).cells() == old(self).cells().remove(id),
            match taken {
                Some(cell) => {
                    &&& old(self).cells().contains_key(id)
                    &&& cell == old(self).cells()[id]
                    &&& cell_ok(cell, id)
                    &&& final(self).wf_without(id)
                    &&& is_queued(final(self).inboxes(), id) <==> waits(cell)
                },
                None => !old(self).cells().contains_key(id) && final(self).wf(),
            },
    {
        let taken = self.actors.remove(&id);
        proof {
            assert(is_queued(old(self).inboxes(), id) <==> ready(old(self).cells(), id));
            assert forall|other: u128| #[trigger]
                self.cells().contains_key(other) implies cell_ok(self.cells()[other], other) by {
                assert(old(self).cells().contains_key(other));
            }
            assert forall|other: u128|
                #![trigger is_queued(self.inboxes(), other)]
                #![trigger ready(self.cells(), other)]
                other != id implies (is_queued(self.inboxes(), other) <==> ready(
                    self.cells(),
                    other,
                )) by {
                assert(is_queued(old(self).inboxes(), other) <==> ready(
                    old(self).cells(),
                    other,
                ));
            }
            if taken is None {
                assert(self.cells() =~= old(self).cells());
            }
        }
        taken
    }

    /// Puts a cell back that was taken out to be changed, and hands it to a
    /// worker where `submit` asks for that.
    fn reinsert(&mut self, id: u128, cell: ActorCell<A>, submit: bool)
        requires
            old(self).wf_without(id),
            cell_ok(cell, id),
            submit ==> !is_queued(old(self).inboxes(), id),
            waits(cell) <==> (submit || is_queued(old(self).inboxes(), id)),
        ensures
            final(self).guardian_mail() == old(self).guardian_mail(),
            final(self).guardian_scheduled() == old(self).guardian_scheduled(),
            final(self).guardian_running() == old(self).guardian_running(),
            final(self).tasks() == old(self).tasks(),
            final(self).wf(),
            final(self).cells() == old(self).cells().insert(id, cell),
            placed(old(self).inboxes(), final(self).inboxes(), submit, id),
            final(self).bridges() == old(self).bridges(),
            final(self).settled() == old(self).settled(),
            final(self).done_signal_spec() == old(self).done_signal_spec(),
            final(self).root_spec() == old(self).root_spec(),
            final(self).processed() == old(self).processed(),
    {
        self.actors.insert(id, cell);
        if submit {
            let handle = ActorCellHandle::new(id);
            let ghost before = self.inboxes();
            let worker = self.dispatcher.dispatch(handle);
            proof {
                lemma_push_item(
                    before,
                    worker as int,
                    ThreadMessage::ProcessActor(handle),
                    id,
                );
                lemma_guardian_kept_by_push(
                    before,
                    worker as int,
                    ThreadMessage::ProcessActor(handle),
                );
                assert(handle == ActorCellHandle { id });
            }
        }
        proof {
            assert forall|other: u128|
                #![trigger is_queued(self.inboxes(), other)]
                #![trigger ready(self.cells(), other)]
                is_queued(self.inboxes(), other) <==> ready(self.cells(), other) by {
                if other != id {
                    assert(is_queued(old(self).inboxes(), other) <==> ready(
                        old(self).cells(),
                        other,
                    ));
                }
            }
        }
    }

    /// Puts what a promise is owed where its message could not be delivered.
    fn refuse(&mut self, promise: Option<u64>, error: ErrorKind)
        ensures
            final(self).guardian_mail() == old(self).guardian_mail(),
            final(self).guardian_scheduled() == old(self).guardian_scheduled(),
            final(self).guardian_running() == old(self).guardian_running(),
            final(self).tasks() == old(self).tasks(),
            final(self).settled() == old(self).settled() + refused::<A>(promise, error),
            final(self).cells() == old(self).cells(),
            final(self).inboxes() == old(self).inboxes(),
            final(self).bridges() == old(self).bridges(),
            final(self).done_signal_spec() == old(self).done_signal_spec(),
            final(self).root_spec() == old(self).root_spec(),
            final(self).processed() == old(self).processed(),
            final(self).wf() == old(self).wf(),
    {
        match promise {
            Some(p) => {
                self.completions.push(Completion::Failed { promise: p, error });
                assert(self.settled() =~= old(self).settled() + refused::<A>(promise, error));
            },
            None => {
                assert(self.settled() =~= old(self).settled() + refused::<A>(promise, error));
            },
        }
    }

    /// What an enqueue on a registered cell does to the cells and the
    /// inboxes: the entry stands at the end of the cell's mailbox, the cell is
    /// scheduled, and where it was idle some worker's inbox has got it; no
    /// other cell has changed.
    pub open spec fn delivered_cells(
        before: Self,
        after: Self,
        id: u128,
        entry: Envelope<A::Message>,
    ) -> bool {
        &&& after.cells().dom() == before.cells().dom()
        &&& forall|other: u128|
            other != id && before.cells().contains_key(other) ==> #[trigger] after.cells()[other]
                == before.cells()[other]
        &&& enqueued(before.cells()[id], after.cells()[id], entry)
        &&& placed(
            before.inboxes(),
            after.inboxes(),
            before.cells()[id].status_spec() == ActorStatus::Idle,
            id,
        )
    }

    /// What an enqueue on a registered cell does: see `delivered_cells`;
    /// nothing else has changed.
    pub open spec fn delivered(
        before: Self,
        after: Self,
        id: u128,
        entry: Envelope<A::Message>,
    ) -> bool {
        &&& Self::delivered_cells(before, after, id, entry)
        &&& after.bridges() == before.bridges()
        &&& after.settled() == before.settled()
        &&& after.done_signal_spec() == before.done_signal_spec()
        &&& after.root_spec() == before.root_spec()
    }

    /// What an enqueue does where it cannot reach a cell: only what is owed
    /// has grown, by `extra`.
    pub open spec fn only_settled(before: Self, after: Self, extra: Seq<Completion<A>>) -> bool {
        &&& after.cells() == before.cells()
        &&& after.inboxes() == before.inboxes()
        &&& after.bridges() == before.bridges()
        &&& after.settled() == before.settled() + extra
        &&& after.done_signal_spec() == before.done_signal_spec()
        &&& after.root_spec() == before.root_spec()
    }

    /// What sending a user message does. On a registered cell, see
    /// `delivered`. A bridge behind `target` captures the message as its
    /// reply: it is gone, its promise has the reply, and a response-sink that
    /// came with the message fails, because a bridge answers no request.
    /// Where neither is behind `target`, the message is dropped and its
    /// response-sink fails; only then was it not `accepted`. The guardian
    /// takes setup code only: a user message to it is dropped in this way.
    pub open spec fn sent(
        before: Self,
        after: Self,
        target: ActorRef,
        message: A::Message,
        sender: ActorRef,
        promise: Option<u64>,
        accepted: bool,
    ) -> bool {
        match target.target() {
            Some(id) if before.cells().contains_key(id) => accepted && Self::delivered(
                before,
                after,
                id,
                Envelope::User { message, sender, promise },
            ),
            _ => match target.asker() {
                Some(id) if before.bridges().contains_key(id) => {
                    &&& accepted
                    &&& after.cells() == before.cells()
                    &&& after.inboxes() == before.inboxes()
                    &&& after.bridges() == before.bridges().remove(id)
                    &&& after.done_signal_spec() == before.done_signal_spec()
                    &&& after.root_spec() == before.root_spec()
                    &&& after.settled() == before.settled().push(
                        Completion::Replied {
                            promise: before.bridges()[id].promise_spec().unwrap(),
                            reply: message,
                        },
                    ) + refused::<A>(promise, ErrorKind::InvalidActor(id))
                },
                _ => !accepted && Self::only_settled(
                    before,
                    after,
                    refused::<A>(promise, ErrorKind::ActorDestroyed),
                ),
            },
        }
    }

    /// What sending a system command does. On a registered cell, see
    /// `delivered`. Where no cell is behind `target`, the command's promise
    /// fails; only then was it not `accepted`.
    pub open spec fn commanded(
        before: Self,
        after: Self,
        target: ActorRef,
        message: SystemMessage,
        accepted: bool,
    ) -> bool {
        match target.target() {
            Some(id) if before.cells().contains_key(id) => accepted && Self::delivered(
                before,
                after,
                id,
                MailboxMessage::<A>::System(message)@,
            ),
            _ => !accepted && Self::only_settled(
                before,
                after,
                refused::<A>(
                    MailboxMessage::<A>::System(message)@.promise(),
                    ErrorKind::ActorDestroyed,
                ),
            ),
        }
    }

    /// Enqueues a user message on the cell behind `target`, and hands the
    /// cell to a worker where it was idle. A bridge behind `target` captures
    /// the message as its reply and is gone; it answers no request. Where
    /// nothing is behind `target`, the message is dropped and its promise
    /// fails.
    pub fn enqueue_message(
        &mut self,
        target: ActorRef,
        message: A::Message,
        sender: ActorRef,
        promise: Option<u64>,
    ) -> (result: Result<(), ErrorKind>)
        requires
            old(self).wf(),
        ensures
            final(self).guardian_mail() == old(self).guardian_mail(),
            final(self).guardian_scheduled() == old(self).guardian_scheduled(),
            final(self).guardian_running() == old(self).guardian_running(),
            final(self).tasks() == old(self).tasks(),
            final(self).wf(),
            old(self).grows(final(self)),
            Self::sent(*old(self), *final(self), target, message, sender, promise, result is Ok),
            result is Err ==> result == Err::<(), ErrorKind>(ErrorKind::ActorDestroyed),
    {
        match target.handle() {
            Some(handle) => {
                let id = handle.id();
                match self.detach(id) {
                    Some(mut cell) => {
                        let submit = cell.enqueue_message(message, sender, promise);
                        let submit = match submit {
                            Ok(submit) => submit,
                            Err(_) => false,
                        };
                        self.reinsert(id, cell, submit);
                        proof {
                            assert(self.cells().dom() =~= old(self).cells().dom());
                        }
                        Ok(())
                    },
                    None => {
                        proof {
                            assert(self.cells() =~= old(self).cells());
                        }
                        self.refuse(promise, ErrorKind::ActorDestroyed);
                        proof {
                            assert(old(self).settled().is_prefix_of(self.settled()));
                        }
                        Err(ErrorKind::ActorDestroyed)
                    },
                }
            },
            None => {
                let found = match target.bridge_id() {
                    Some(id) => match self.asks.remove(&id) {
                        Some(bridge) => Some((id, bridge)),
                        None => None,
                    },
                    None => None,
                };
                match found {
                    Some((id, mut bridge)) => {
                        let captured = bridge.handle::<A>(message);
                        match captured {
                            Some(completion) => {
                                self.completions.push(completion);
                            },
                            None => {},
                        }
                        proof {
                            assert(self.cells() =~= old(self).cells());
                        }
                        self.refuse(promise, ErrorKind::InvalidActor(id));
                        proof {
                            assert(old(self).settled().is_prefix_of(self.settled()));
                        }
                        Ok(())
                    },
                    None => {
                        proof {
                            assert(self.cells() =~= old(self).cells());
                            assert(self.bridges() =~= old(self).bridges());
                        }
                        self.refuse(promise, ErrorKind::ActorDestroyed);
                        proof {
                            assert(old(self).settled().is_prefix_of(self.settled()));
                        }
                        Err(ErrorKind::ActorDestroyed)
                    },
                }
            },
        }
    }

    /// Enqueues a system command on the cell behind `target`, behind whatever
    /// is pending, and hands the cell to a worker where it was idle. Where no
    /// cell is behind `target`, the command's promise fails.
    pub fn enqueue_system_message(&mut self, target: ActorRef, message: SystemMessage) -> (result:
        Result<(), ErrorKind>)
        requires
            old(self).wf(),
        ensures
            final(self).guardian_mail() == old(self).guardian_mail(),
            final(self).guardian_scheduled() == old(self).guardian_scheduled(),
            final(self).guardian_running() == old(self).guardian_running(),
            final(self).tasks() == old(self).tasks(),
            final(self).wf(),
            old(self).grows(final(self)),
            Self::commanded(*old(self), *final(self), target, message, result is Ok),
            result is Err ==> result == Err::<(), ErrorKind>(ErrorKind::ActorDestroyed),
    {
        let promise = match message {
            SystemMessage::Stop(promise) => Some(promise),
        };
        let id = match target.handle() {
            Some(handle) => handle.id(),
            None => {
                self.refuse(promise, ErrorKind::ActorDestroyed);
                return Err(ErrorKind::ActorDestroyed);
            },
        };
        match self.detach(id) {
            Some(mut cell) => {
                let submit = cell.enqueue_system_message(message);
                let submit = match submit {
                    Ok(submit) => submit,
                    Err(_) => false,
                };
                self.reinsert(id, cell, submit);
                proof {
                    assert(self.cells().dom() =~= old(self).cells().dom());
                }
                Ok(())
            },
            None => {
                proof {
                    assert(self.cells() =~= old(self).cells());
                }
                self.refuse(promise, ErrorKind::ActorDestroyed);
                proof {
                    assert(old(self).settled().is_prefix_of(self.settled()));
                }
                Err(ErrorKind::ActorDestroyed)
            },
        }
    }

    /// Creates and registers an actor under `id`; `None` where `id` is taken.
    pub fn spawn(&mut self, id: u128, actor: A) -> (reference: Option<ActorRef>)
        requires
            old(self).wf(),
        ensures
            final(self).guardian_mail() == old(self).guardian_mail(),
            final(self).guardian_scheduled() == old(self).guardian_scheduled(),
            final(self).guardian_running() == old(self).guardian_running(),
            final(self).tasks() == old(self).tasks(),
            final(self).wf(),
            old(self).grows(final(self)),
            Self::registered(*old(self), *final(self), id, reference is Some),
            reference == if Self::taken(*old(self), id) {
                None
            } else {
                Some(ActorRef::of_cell_spec(id))
            },
            reference is Some ==> Self::started_as(*final(self), id, actor),
    {
        match create_actor(self, id, actor) {
            Ok(reference) => Some(reference),
            Err(_) => None,
        }
    }

    /// Whether the cell under `id` is new: it holds `actor` as its start
    /// hook left it, has seen the start hook and nothing else, and is idle
    /// with nothing pending.
    pub open spec fn started_as(after: Self, id: u128, actor: A) -> bool {
        &&& after.cells().contains_key(id)
        &&& after.cells()[id].journal() == seq![Event::<A::Message>::Started]
        &&& after.cells()[id].actor_spec() matches Some(started) && A::starts(actor, started)
        &&& after.cells()[id].status_spec() == ActorStatus::Idle
        &&& after.cells()[id].pending().len() == 0
    }

    /// Whether a cell stands under `id`.
    pub open spec fn taken(before: Self, id: u128) -> bool {
        before.cells().contains_key(id)
    }

    /// Whether a cell or a bridge is behind `target`.
    pub open spec fn reachable(before: Self, target: ActorRef) -> bool {
        match target.target() {
            Some(id) => before.cells().contains_key(id),
            None => match target.asker() {
                Some(id) => before.bridges().contains_key(id),
                None => false,
            },
        }
    }

    /// Whether what `target` points at is there: a cell, a bridge, or the
    /// guardian.
    pub open spec fn alive(before: Self, target: ActorRef) -> bool {
        Self::reachable(before, target) || (target.guard() is Some && before.root_spec() == Some(
            target,
        ))
    }

    /// Whether a cell is behind `target`.
    pub open spec fn registered_cell(before: Self, target: ActorRef) -> bool {
        match target.target() {
            Some(id) => before.cells().contains_key(id),
            None => false,
        }
    }

    /// What an ask does. Where it succeeds, a new bridge holds the promise
    /// under an identifier that no bridge had, and the message stands in
    /// the target's mailbox with the bridge as its sender. Where no cell is
    /// behind the target, or a bridge has the identifier, only the promise
    /// has changed: it has failed.
    pub open spec fn asked(
        before: Self,
        after: Self,
        target: ActorRef,
        message: A::Message,
        promise: u64,
        result: Result<ActorRef, ErrorKind>,
    ) -> bool {
        match result {
            Ok(bridge) => {
                &&& Self::registered_cell(before, target)
                &&& bridge.asker() is Some
                &&& bridge == ActorRef::of_bridge_spec(bridge.asker().unwrap())
                &&& !before.bridges().contains_key(bridge.asker().unwrap())
                &&& after.bridges().dom() == before.bridges().dom().insert(bridge.asker().unwrap())
                &&& after.bridges()[bridge.asker().unwrap()].promise_spec() == Some(promise)
                &&& forall|other: u128|
                    before.bridges().contains_key(other) ==> #[trigger] after.bridges()[other]
                        == before.bridges()[other]
                &&& Self::delivered_cells(
                    before,
                    after,
                    target.target().unwrap(),
                    Envelope::User { message, sender: bridge, promise: None },
                )
                &&& after.settled() == before.settled()
                &&& after.done_signal_spec() == before.done_signal_spec()
                &&& after.root_spec() == before.root_spec()
            },
            Err(error) => {
                &&& Self::only_settled(before, after, seq![Completion::Failed { promise, error }])
                &&& if Self::registered_cell(before, target) {
                    error matches ErrorKind::ActorAlreadyExists(taken)
                        && before.bridges().contains_key(taken)
                } else {
                    error == ErrorKind::ActorDestroyed
                }
            },
        }
    }

    /// What spawning by a handler does: where `id` is taken or `reserved`,
    /// the actor is dropped and the host is told; otherwise it is registered.
    pub open spec fn spawned(before: Self, after: Self, id: u128, reserved: Option<u128>) -> bool {
        if Some(id) == reserved || before.cells().contains_key(id) {
            Self::only_settled(
                before,
                after,
                seq![Completion::Rejected { error: ErrorKind::ActorAlreadyExists(id) }],
            )
        } else {
            Self::registered(before, after, id, true)
        }
    }

    /// Whether two states differ in nothing but the deferred responses.
    pub open spec fn same_but_tasks(before: Self, after: Self) -> bool {
        &&& after.cells() == before.cells()
        &&& after.inboxes() == before.inboxes()
        &&& after.bridges() == before.bridges()
        &&& after.settled() == before.settled()
        &&& after.done_signal_spec() == before.done_signal_spec()
        &&& after.root_spec() == before.root_spec()
        &&& after.processed() == before.processed()
    }

    /// What leaving `waiter` to wait for `task` does: nothing but that.
    pub open spec fn waiting_for(before: Self, after: Self, task: u64, waiter: Waiter) -> bool {
        Self::same_but_tasks(before, after) && after.tasks() == before.tasks().insert(
            task,
            waiter,
        )
    }

    /// What handing a value to an actor does: the actor is sent the message
    /// that its type makes of the value, from nobody; where the type makes
    /// none, nothing changes.
    pub open spec fn handed(before: Self, after: Self, target: ActorRef, value: A::Response) -> bool {
        match A::answers(value) {
            Some(message) => Self::sent(
                before,
                after,
                target,
                message,
                ActorRef::null_spec(),
                None,
                Self::reachable(before, target),
            ),
            None => Self::only_settled(before, after, Seq::empty()),
        }
    }

    /// What handing a handler's response to the sender of its message does.
    /// A bridge behind `sender` takes it for the answer to its ask, and is
    /// gone; where the response is deferred, the bridge's promise waits for
    /// the task. An actor behind `sender` is handed the value, see `handed`,
    /// or waits for the task where the response is deferred. Any other
    /// sender has no use for it, and nothing changes.
    pub open spec fn answered(
        before: Self,
        after: Self,
        sender: ActorRef,
        response: ActorResponse<A::Response>,
    ) -> bool {
        match sender.asker() {
            Some(id) if before.bridges().contains_key(id) => {
                &&& after.cells() == before.cells()
                &&& after.inboxes() == before.inboxes()
                &&& after.bridges() == before.bridges().remove(id)
                &&& after.done_signal_spec() == before.done_signal_spec()
                &&& after.root_spec() == before.root_spec()
                &&& after.settled() == before.settled().push(
                    Completion::Responded {
                        promise: before.bridges()[id].promise_spec().unwrap(),
                        response,
                    },
                )
                &&& after.tasks() == match response {
                    ActorResponse::Async(task) => before.tasks().insert(
                        task,
                        Waiter::Promise(before.bridges()[id].promise_spec().unwrap()),
                    ),
                    _ => before.tasks(),
                }
            },
            _ => if Self::registered_cell(before, sender) {
                match response {
                    ActorResponse::Normal(Some(value)) => Self::handed(before, after, sender, value)
                        && after.tasks() == before.tasks(),
                    ActorResponse::Async(task) => Self::waiting_for(
                        before,
                        after,
                        task,
                        Waiter::Actor(sender),
                    ),
                    ActorResponse::Normal(None) => Self::only_settled(before, after, Seq::empty())
                        && after.tasks() == before.tasks(),
                }
            } else {
                Self::only_settled(before, after, Seq::empty()) && after.tasks() == before.tasks()
            },
        }
    }

    /// What completing the deferred response `task` with `value` does. A
    /// promise that waits for the task is told the value; an actor that
    /// waits for it is handed the value, see `handed`; either way nobody
    /// waits for the task any more. Where nobody waited, nothing changes.
    pub open spec fn completed(before: Self, after: Self, task: u64, value: A::Response) -> bool {
        if before.tasks().contains_key(task) {
            &&& after.tasks() == before.tasks().remove(task)
            &&& match before.tasks()[task] {
                Waiter::Promise(promise) => Self::only_settled(
                    before,
                    after,
                    seq![
                        Completion::Responded {
                            promise,
                            response: ActorResponse::Normal(Some(value)),
                        },
                    ],
                ),
                Waiter::Actor(target) => Self::handed(before, after, target, value),
            }
        } else {
            Self::only_settled(before, after, Seq::empty()) && after.tasks() == before.tasks()
        }
    }

    /// What telling the sender of a dropped message does: the ask of a
    /// bridge behind `sender` fails, and the bridge is gone; any other
    /// sender is not told, and nothing changes.
    pub open spec fn bereft(before: Self, after: Self, sender: ActorRef) -> bool {
        match sender.asker() {
            Some(id) if before.bridges().contains_key(id) => {
                &&& after.cells() == before.cells()
                &&& after.inboxes() == before.inboxes()
                &&& after.bridges() == before.bridges().remove(id)
                &&& after.done_signal_spec() == before.done_signal_spec()
                &&& after.root_spec() == before.root_spec()
                &&& after.settled() == before.settled().push(
                    Completion::Failed {
                        promise: before.bridges()[id].promise_spec().unwrap(),
                        error: ErrorKind::ActorDestroyed,
                    },
                )
            },
            _ => Self::only_settled(before, after, Seq::empty()),
        }
    }

    /// What doing one deed does.
    pub open spec fn performed(
        before: Self,
        deed: Deed<A>,
        reserved: Option<u128>,
        after: Self,
    ) -> bool {
        match deed {
            Deed::Asked(effect) => Self::acted(before, effect, reserved, after),
            Deed::Answered { sender, response } => Self::answered(before, after, sender, response),
            Deed::Orphaned { sender } => Self::bereft(before, after, sender),
            Deed::Deferred { task, promise } => Self::waiting_for(
                before,
                after,
                task,
                Waiter::Promise(promise),
            ),
        }
    }

    /// What acting on one recorded request of a handler does.
    pub open spec fn acted(
        before: Self,
        effect: Effect<A::Message, A, A::Response>,
        reserved: Option<u128>,
        after: Self,
    ) -> bool {
        match effect {
            Effect::Send { target, message, sender, promise } => Self::sent(
                before,
                after,
                target,
                message,
                sender,
                promise,
                Self::reachable(before, target),
            ),
            Effect::Ask { target, message, promise } => exists|result: Result<ActorRef, ErrorKind>|
                Self::asked(before, after, target, message, promise, result),
            Effect::Spawn { id, actor } => Self::spawned(before, after, id, reserved),
            Effect::Stop { target, promise } => Self::commanded(
                before,
                after,
                target,
                SystemMessage::Stop(promise),
                Self::registered_cell(before, target),
            ),
            Effect::Complete { task, value } => Self::completed(before, after, task, value),
        }
    }

    /// What doing a list of deeds does, oldest first: each is done in the
    /// state that the one before it left.
    pub open spec fn applied(
        before: Self,
        deeds: Seq<Deed<A>>,
        reserved: Option<u128>,
        after: Self,
    ) -> bool
        decreases deeds.len(),
    {
        if deeds.len() == 0 {
            after == before
        } else {
            exists|middle: Self|
                Self::applied(before, deeds.drop_last(), reserved, middle) && Self::performed(
                    middle,
                    deeds.last(),
                    reserved,
                    after,
                )
        }
    }

    /// What an ask under the identifier `id` gives: the target must be a
    /// registered cell, and no bridge may have `id`; then the result is the
    /// reference to the bridge under `id`.
    pub open spec fn ask_result(before: Self, target: ActorRef, id: u128) -> Result<
        ActorRef,
        ErrorKind,
    > {
        if !Self::registered_cell(before, target) {
            Err(ErrorKind::ActorDestroyed)
        } else if before.bridges().contains_key(id) {
            Err(ErrorKind::ActorAlreadyExists(id))
        } else {
            Ok(ActorRef::of_bridge_spec(id))
        }
    }

    /// Sends `message` to `target` on behalf of a new bridge, which gives the
    /// first answer it gets to `promise`: a reply that is sent to the bridge,
    /// or the response of the handler of `message`, where that gives a
    /// value. Where the message is dropped with its cell, the promise fails.
    /// The bridge stands under a random identifier; see `ask_under` for what
    /// is done with the identifier that was drawn.
    pub fn ask(&mut self, target: ActorRef, message: A::Message, promise: u64) -> (result: Result<
        ActorRef,
        ErrorKind,
    >)
        requires
            old(self).wf(),
        ensures
            final(self).guardian_mail() == old(self).guardian_mail(),
            final(self).guardian_scheduled() == old(self).guardian_scheduled(),
            final(self).guardian_running() == old(self).guardian_running(),
            final(self).wf(),
            old(self).grows(final(self)),
            Self::asked(*old(self), *final(self), target, message, promise, result),
            !Self::registered_cell(*old(self), target) ==> result == Err::<ActorRef, ErrorKind>(
                ErrorKind::ActorDestroyed,
            ),
    {
        let id = new_id();
        self.ask_under(target, message, promise, id)
    }

    /// An ask whose bridge stands under `id`. Where a cell is behind
    /// `target` and no bridge has `id`, the bridge is made and the message
    /// enqueued, and the result is the bridge's reference. Where no cell is
    /// behind `target`, the promise fails because the target is gone; where
    /// a bridge has `id`, it fails because the identifier exists.
    pub fn ask_under(
        &mut self,
        target: ActorRef,
        message: A::Message,
        promise: u64,
        id: u128,
    ) -> (result: Result<ActorRef, ErrorKind>)
        requires
            old(self).wf(),
        ensures
            final(self).guardian_mail() == old(self).guardian_mail(),
            final(self).guardian_scheduled() == old(self).guardian_scheduled(),
            final(self).guardian_running() == old(self).guardian_running(),
            final(self).wf(),
            old(self).grows(final(self)),
            final(self).cells().dom() == old(self).cells().dom(),
            Self::asked(*old(self), *final(self), target, message, promise, result),
            result == Self::ask_result(*old(self), target, id),
    {
        let alive = match target.handle() {
            Some(handle) => self.actors.contains(&handle.id()),
            None => false,
        };
        if !alive {
            self.refuse(Some(promise), ErrorKind::ActorDestroyed);
            proof {
                assert(old(self).settled().is_prefix_of(self.settled()));
            }
            return Err(ErrorKind::ActorDestroyed);
        }
        if self.asks.get(&id).is_some() {
            self.refuse(Some(promise), ErrorKind::ActorAlreadyExists(id));
            proof {
                assert(old(self).settled().is_prefix_of(self.settled()));
            }
            return Err(ErrorKind::ActorAlreadyExists(id));
        }
        let bridge = ActorRef::of_bridge(id);
        self.asks.insert(id, AskActor::new(promise));
        proof {
            assert(self.bridges().dom() =~= old(self).bridges().dom().insert(id));
        }
        let _ = self.enqueue_message(target, message, bridge, None);
        proof {
            assert(self.settled() =~= old(self).settled());
            assert(old(self).settled().is_prefix_of(self.settled()));
        }
        Ok(bridge)
    }

    /// Tells the host that an actor could not be created.
    fn reject(&mut self, error: ErrorKind)
        ensures
            final(self).tasks() == old(self).tasks(),
            final(self).guardian_mail() == old(self).guardian_mail(),
            final(self).guardian_scheduled() == old(self).guardian_scheduled(),
            final(self).guardian_running() == old(self).guardian_running(),
            Self::only_settled(*old(self), *final(self), seq![Completion::Rejected { error }]),
            final(self).wf() == old(self).wf(),
            old(self).wf() ==> old(self).grows(final(self)),
    {
        self.completions.push(Completion::Rejected { error });
        proof {
            assert(self.settled() =~= old(self).settled() + seq![
                Completion::<A>::Rejected { error },
            ]);
            assert(self.cells() == old(self).cells());
            assert(self.inboxes() == old(self).inboxes());
            assert(self.bridges() == old(self).bridges());
            assert(old(self).settled().is_prefix_of(self.settled()));
        }
    }

    /// Leaves `waiter` to wait for the deferred response `task`.
    fn wait_for(&mut self, task: u64, waiter: Waiter)
        requires
            old(self).wf(),
        ensures
            final(self).guardian_mail() == old(self).guardian_mail(),
            final(self).guardian_scheduled() == old(self).guardian_scheduled(),
            final(self).guardian_running() == old(self).guardian_running(),
            final(self).wf(),
            old(self).grows(final(self)),
            Self::waiting_for(*old(self), *final(self), task, waiter),
    {
        self.tasks.insert(task, waiter);
        proof {
            assert(self.cells() == old(self).cells());
            assert(self.inboxes() == old(self).inboxes());
            assert(self.bridges() == old(self).bridges());
            assert(self.settled() == old(self).settled());
        }
    }

    /// Hands a value to an actor: see `handed`.
    fn hand(&mut self, target: ActorRef, value: A::Response)
        requires
            old(self).wf(),
        ensures
            final(self).guardian_mail() == old(self).guardian_mail(),
            final(self).guardian_scheduled() == old(self).guardian_scheduled(),
            final(self).guardian_running() == old(self).guardian_running(),
            final(self).wf(),
            old(self).grows(final(self)),
            Self::handed(*old(self), *final(self), target, value),
            final(self).tasks() == old(self).tasks(),
            final(self).cells().dom() == old(self).cells().dom(),
            final(self).bridges().dom().subset_of(old(self).bridges().dom()),
    {
        match A::answer(value) {
            Some(message) => {
                let _ = self.enqueue_message(target, message, ActorRef::null(), None);
            },
            None => {
                proof {
                    assert(self.settled() =~= old(self).settled() + Seq::<Completion<A>>::empty());
                    assert(old(self).settled().is_prefix_of(self.settled()));
                }
            },
        }
    }

    /// Completes the deferred response `task` with `value`: see `completed`.
    /// A handler asks for this through its context; a host that keeps
    /// deferred work of its own asks for it here.
    pub fn complete(&mut self, task: u64, value: A::Response)
        requires
            old(self).wf(),
        ensures
            final(self).guardian_mail() == old(self).guardian_mail(),
            final(self).guardian_scheduled() == old(self).guardian_scheduled(),
            final(self).guardian_running() == old(self).guardian_running(),
            final(self).wf(),
            old(self).grows(final(self)),
            Self::completed(*old(self), *final(self), task, value),
            final(self).cells().dom() == old(self).cells().dom(),
            final(self).bridges().dom().subset_of(old(self).bridges().dom()),
    {
        match self.tasks.remove(&task) {
            Some(Waiter::Promise(promise)) => {
                self.completions.push(
                    Completion::Responded { promise, response: ActorResponse::Normal(Some(value)) },
                );
                proof {
                    assert(self.cells() == old(self).cells());
                    assert(self.inboxes() == old(self).inboxes());
                    assert(self.bridges() == old(self).bridges());
                    assert(self.settled() =~= old(self).settled() + seq![
                        Completion::<A>::Responded {
                            promise,
                            response: ActorResponse::Normal(Some(value)),
                        },
                    ]);
                    assert(old(self).settled().is_prefix_of(self.settled()));
                }
            },
            Some(Waiter::Actor(target)) => {
                proof {
                    assert(self.cells() == old(self).cells());
                    assert(self.inboxes() == old(self).inboxes());
                    assert(self.bridges() == old(self).bridges());
                    assert(self.settled() == old(self).settled());
                    assert(self.wf());
                }
                let ghost middle = *self;
                self.hand(target, value);
                proof {
                    assert(Self::handed(*old(self), *self, target, value));
                    old(self).lemma_grows_reflexive();
                    assert(old(self).grows(&middle));
                    old(self).lemma_grows_transitive(&middle, self);
                }
            },
            None => {
                proof {
                    assert(self.tasks() =~= old(self).tasks());
                    assert(self.cells() == old(self).cells());
                    assert(self.inboxes() == old(self).inboxes());
                    assert(self.bridges() == old(self).bridges());
                    assert(self.settled() =~= old(self).settled() + Seq::<Completion<A>>::empty());
                    assert(old(self).settled().is_prefix_of(self.settled()));
                }
            },
        }
    }

    /// Hands a handler's response to the sender of its message: see
    /// `answered`.
    fn answer_sender(&mut self, sender: ActorRef, response: ActorResponse<A::Response>)
        requires
            old(self).wf(),
        ensures
            final(self).guardian_mail() == old(self).guardian_mail(),
            final(self).guardian_scheduled() == old(self).guardian_scheduled(),
            final(self).guardian_running() == old(self).guardian_running(),
            final(self).wf(),
            old(self).grows(final(self)),
            Self::answered(*old(self), *final(self), sender, response),
            final(self).cells().dom() == old(self).cells().dom(),
            final(self).bridges().dom().subset_of(old(self).bridges().dom()),
    {
        let found = match sender.bridge_id() {
            Some(id) => self.asks.remove(&id),
            None => None,
        };
        match found {
            Some(mut bridge) => {
                let waits = match &response {
                    ActorResponse::Async(task) => Some(*task),
                    _ => None,
                };
                let completion = bridge.answer::<A>(response);
                match completion {
                    Some(Completion::Responded { promise, response }) => {
                        match waits {
                            Some(task) => {
                                self.tasks.insert(task, Waiter::Promise(promise));
                            },
                            None => {},
                        }
                        self.completions.push(Completion::Responded { promise, response });
                    },
                    _ => {},
                }
                proof {
                    assert(self.cells() =~= old(self).cells());
                    assert(old(self).settled().is_prefix_of(self.settled()));
                }
            },
            None => {
                proof {
                    assert(self.bridges() =~= old(self).bridges());
                    assert(self.cells() == old(self).cells());
                }
                let registered = match sender.handle() {
                    Some(handle) => self.actors.contains(&handle.id()),
                    None => false,
                };
                if registered {
                    match response {
                        ActorResponse::Normal(Some(value)) => {
                            self.hand(sender, value);
                        },
                        ActorResponse::Async(task) => {
                            self.wait_for(task, Waiter::Actor(sender));
                        },
                        ActorResponse::Normal(None) => {
                            proof {
                                assert(self.settled() =~= old(self).settled() + Seq::<
                                    Completion<A>,
                                >::empty());
                                assert(old(self).settled().is_prefix_of(self.settled()));
                            }
                        },
                    }
                } else {
                    proof {
                        assert(self.settled() =~= old(self).settled() + Seq::<
                            Completion<A>,
                        >::empty());
                        assert(old(self).settled().is_prefix_of(self.settled()));
                    }
                }
            },
        }
    }

    /// Tells the sender of a dropped message: see `bereft`.
    fn orphan_sender(&mut self, sender: ActorRef)
        requires
            old(self).wf(),
        ensures
            final(self).tasks() == old(self).tasks(),
            final(self).guardian_mail() == old(self).guardian_mail(),
            final(self).guardian_scheduled() == old(self).guardian_scheduled(),
            final(self).guardian_running() == old(self).guardian_running(),
            final(self).wf(),
            old(self).grows(final(self)),
            final(self).cells() == old(self).cells(),
            final(self).bridges().dom().subset_of(old(self).bridges().dom()),
            Self::bereft(*old(self), *final(self), sender),
    {
        let id = match sender.bridge_id() {
            Some(id) => id,
            None => {
                proof {
                    assert(self.settled() =~= old(self).settled() + Seq::<Completion<A>>::empty());
                    assert(old(self).settled().is_prefix_of(self.settled()));
                }
                return ;
            },
        };
        match self.asks.remove(&id) {
            Some(mut bridge) => {
                match bridge.orphan::<A>() {
                    Some(completion) => {
                        self.completions.push(completion);
                    },
                    None => {},
                }
                proof {
                    assert(self.cells() =~= old(self).cells());
                    assert(old(self).settled().is_prefix_of(self.settled()));
                }
            },
            None => {
                proof {
                    assert(self.cells() =~= old(self).cells());
                    assert(self.bridges() =~= old(self).bridges());
                    assert(self.settled() =~= old(self).settled() + Seq::<Completion<A>>::empty());
                    assert(old(self).settled().is_prefix_of(self.settled()));
                }
            },
        }
    }

    /// Acts on one recorded request of a handler. An identifier that is
    /// `reserved` counts as taken and as gone at once: no actor is created
    /// under it.
    fn act(&mut self, effect: Effect<A::Message, A, A::Response>, reserved: Option<u128>)
        requires
            old(self).wf(),
        ensures
            final(self).guardian_mail() == old(self).guardian_mail(),
            final(self).guardian_scheduled() == old(self).guardian_scheduled(),
            final(self).guardian_running() == old(self).guardian_running(),
            final(self).wf(),
            old(self).grows(final(self)),
            Self::acted(*old(self), effect, reserved, *final(self)),
            forall|id: u128|
                Some(id) == reserved && !Self::taken(*old(self), id) ==> !Self::taken(
                    *final(self),
                    id,
                ),
    {
        match effect {
            Effect::Send { target, message, sender, promise } => {
                let _ = self.enqueue_message(target, message, sender, promise);
            },
            Effect::Ask { target, message, promise } => {
                let id = new_id();
                let result = self.ask_under(target, message, promise, id);
                assert(Self::asked(
                    *old(self),
                    *self,
                    target,
                    message,
                    promise,
                    result,
                ));
            },
            Effect::Spawn { id, actor } => {
                if reserved == Some(id) {
                    self.reject(ErrorKind::ActorAlreadyExists(id));
                } else {
                    match create_actor(self, id, actor) {
                        Ok(_) => {},
                        Err(error) => {
                            let ghost mid = *self;
                            self.reject(error);
                            proof {
                                mid.lemma_grows_reflexive();
                                assert(self.cells() == old(self).cells());
                            }
                        },
                    }
                }
            },
            Effect::Stop { target, promise } => {
                let _ = self.enqueue_system_message(target, SystemMessage::Stop(promise));
            },
            Effect::Complete { task, value } => {
                self.complete(task, value);
            },
        }
    }

    /// Does one deed.
    fn perform(&mut self, deed: Deed<A>, reserved: Option<u128>)
        requires
            old(self).wf(),
        ensures
            final(self).guardian_mail() == old(self).guardian_mail(),
            final(self).guardian_scheduled() == old(self).guardian_scheduled(),
            final(self).guardian_running() == old(self).guardian_running(),
            final(self).wf(),
            old(self).grows(final(self)),
            Self::performed(*old(self), deed, reserved, *final(self)),
            forall|id: u128|
                Some(id) == reserved && !Self::taken(*old(self), id) ==> !Self::taken(
                    *final(self),
                    id,
                ),
    {
        match deed {
            Deed::Asked(effect) => self.act(effect, reserved),
            Deed::Answered { sender, response } => self.answer_sender(sender, response),
            Deed::Orphaned { sender } => self.orphan_sender(sender),
            Deed::Deferred { task, promise } => self.wait_for(task, Waiter::Promise(promise)),
        }
    }

    /// `grows` holds of a state and itself.
    pub proof fn lemma_grows_reflexive(&self)
        ensures
            self.grows(self),
    {
    }

    /// `grows` carries over two steps.
    pub proof fn lemma_grows_transitive(&self, middle: &Self, later: &Self)
        requires
            self.grows(middle),
            middle.grows(later),
        ensures
            self.grows(later),
    {
        assert forall|id: u128| #[trigger]
            self.cells().contains_key(id) implies later.cells().contains_key(id) && kept(
            self.cells()[id],
            later.cells()[id],
        ) by {
            assert(middle.cells().contains_key(id));
            assert(kept(self.cells()[id], middle.cells()[id]));
            assert(kept(middle.cells()[id], later.cells()[id]));
        }
    }

    /// Does a list of deeds, oldest first, with `reserved` counting as taken.
    fn apply_except(&mut self, deeds: VecDeque<Deed<A>>, reserved: Option<u128>)
        requires
            old(self).wf(),
        ensures
            final(self).guardian_mail() == old(self).guardian_mail(),
            final(self).guardian_scheduled() == old(self).guardian_scheduled(),
            final(self).guardian_running() == old(self).guardian_running(),
            final(self).wf(),
            old(self).grows(final(self)),
            Self::applied(*old(self), deeds@, reserved, *final(self)),
            forall|id: u128|
                Some(id) == reserved && !Self::taken(*old(self), id) ==> !Self::taken(
                    *final(self),
                    id,
                ),
    {
        let mut rest = deeds;
        let ghost mut done: int = 0;
        proof {
            assert(deeds@.take(0) =~= Seq::<Deed<A>>::empty());
        }
        loop
            invariant
                self.wf(),
                old(self).grows(self),
                self.guardian_mail() == old(self).guardian_mail(),
                self.guardian_scheduled() == old(self).guardian_scheduled(),
                self.guardian_running() == old(self).guardian_running(),
                0 <= done <= deeds@.len(),
                rest@ == deeds@.skip(done),
                Self::applied(*old(self), deeds@.take(done), reserved, *self),
                forall|id: u128|
                    Some(id) == reserved && !Self::taken(*old(self), id) ==> !Self::taken(
                        *self,
                        id,
                    ),
            ensures
                done == deeds@.len(),
            decreases deeds@.len() - done,
        {
            let deed = match rest.pop_front() {
                Some(deed) => deed,
                None => {
                    break ;
                },
            };
            let ghost mid = *self;
            self.perform(deed, reserved);
            proof {
                old(self).lemma_grows_transitive(&mid, self);
                let next = deeds@.take(done + 1);
                assert(next.drop_last() =~= deeds@.take(done));
                assert(next.last() == deed);
                assert(Self::applied(*old(self), next.drop_last(), reserved, mid));
                assert(deeds@.skip(done).skip(1) =~= deeds@.skip(done + 1));
                done = done + 1;
            }
        }
        proof {
            assert(deeds@.take(done) =~= deeds@);
        }
    }

    /// Does a list of deeds, oldest first.
    pub fn apply(&mut self, deeds: VecDeque<Deed<A>>)
        requires
            old(self).wf(),
        ensures
            final(self).guardian_mail() == old(self).guardian_mail(),
            final(self).guardian_scheduled() == old(self).guardian_scheduled(),
            final(self).guardian_running() == old(self).guardian_running(),
            final(self).wf(),
            old(self).grows(final(self)),
            Self::applied(*old(self), deeds@, None, *final(self)),
    {
        self.apply_except(deeds, None);
    }

    /// What checking a batch of cell `id` out to worker `worker` does. The
    /// work item has left the worker's inbox. The entries of one batch have
    /// left the cell's mailbox, and the actor has left the cell with them:
    /// the cell is still scheduled, but has a batch out, under the batch's
    /// lease. The batch holds the entries, the actor and its past, and has
    /// run nothing yet. Nothing else has changed.
    pub open spec fn leased(
        before: Self,
        after: Self,
        worker: usize,
        id: u128,
        batch: Batch<A>,
    ) -> bool {
        let cell = before.cells()[id];
        let count = batch_len(cell.pending(), BATCH as nat) as int;
        &&& before.cells().contains_key(id)
        &&& after.inboxes() == before.inboxes().update(
            worker as int,
            before.inboxes()[worker as int].skip(1),
        )
        &&& after.bridges() == before.bridges()
        &&& after.settled() == before.settled()
        &&& after.done_signal_spec() == before.done_signal_spec()
        &&& after.root_spec() == before.root_spec()
        &&& after.processed() == before.processed()
        &&& after.cells().dom() == before.cells().dom()
        &&& forall|other: u128|
            other != id && before.cells().contains_key(other)
                ==> #[trigger] after.cells()[other] == before.cells()[other]
        &&& after.cells()[id].id_spec() == id
        &&& after.cells()[id].running()
        &&& after.cells()[id].lease_spec() == batch.lease_spec()
        &&& after.cells()[id].status_spec() == ActorStatus::Scheduled
        &&& after.cells()[id].pending() == cell.pending().skip(count)
        &&& after.cells()[id].journal() == cell.journal()
        &&& batch.wf()
        &&& batch.id_spec() == id
        &&& Some(batch.actor_spec()) == cell.actor_spec()
        &&& batch.waiting() == cell.pending().take(count)
        &&& batch.journal() == cell.journal()
        &&& batch.handled_spec() == 0
        &&& !batch.stopped_spec()
        &&& batch.deeds() == Seq::<Deed<A>>::empty()
        &&& batch.settled() == Seq::<Completion<A>>::empty()
        &&& after.tasks() == before.tasks()
        &&& after.guardian_mail() == before.guardian_mail()
        &&& after.guardian_scheduled() == before.guardian_scheduled()
        &&& after.guardian_running() == before.guardian_running()
    }

    /// Whether a context is the guardian's, fresh, on the worker `worker`:
    /// its actor is the root reference, its sender the null reference, and
    /// nothing is recorded in it.
    pub open spec fn guards(
        before: Self,
        context: ActorContext<A::Message, A, A::Response>,
        worker: Option<usize>,
    ) -> bool {
        &&& Some(context.self_ref_spec()) == before.root_spec()
        &&& context.sender_spec() == ActorRef::null_spec()
        &&& context.thread_spec().worker == worker
        &&& context.effects().len() == 0
    }

    /// What taking the head off worker `worker`'s inbox does where the head
    /// asks for no cell: nothing else changes.
    pub open spec fn taken_off(before: Self, after: Self, worker: usize) -> bool {
        &&& after.inboxes() == before.inboxes().update(
            worker as int,
            before.inboxes()[worker as int].skip(1),
        )
        &&& after.cells() == before.cells()
        &&& after.bridges() == before.bridges()
        &&& after.settled() == before.settled()
        &&& after.done_signal_spec() == before.done_signal_spec()
        &&& after.root_spec() == before.root_spec()
        &&& after.processed() == before.processed()
    }

    /// What the first half of a worker's turn does. With an empty inbox,
    /// nothing. The stop item leaves the inbox and nothing else changes. The
    /// guardian's work item leaves the inbox, and the oldest message leaves
    /// the guardian's mailbox: it gets the worker the token of the setup
    /// code and the guardian's context to run it under. A work item
    /// for a cell gets the worker a batch of the cell: see `leased`.
    pub open spec fn begun(before: Self, after: Self, worker: usize, turn: Turn<A>) -> bool {
        if worker >= before.inboxes().len() || before.inboxes()[worker as int].len() == 0 {
            turn is Idle && after == before
        } else {
            match before.inboxes()[worker as int][0] {
                ThreadMessage::Stop => {
                    &&& turn is Stopped
                    &&& Self::taken_off(before, after, worker)
                    &&& after.tasks() == before.tasks()
                    &&& after.guardian_mail() == before.guardian_mail()
                    &&& after.guardian_scheduled() == before.guardian_scheduled()
                    &&& after.guardian_running() == before.guardian_running()
                },
                ThreadMessage::Guardian => {
                    &&& Self::taken_off(before, after, worker)
                    &&& after.tasks() == before.tasks()
                    &&& if before.guardian_mail().len() > 0 {
                        &&& turn matches Turn::Startup { token, context }
                        &&& token == before.guardian_mail()[0]
                        &&& Self::guards(before, context, Some(worker))
                        &&& after.guardian_mail() == before.guardian_mail().skip(1)
                        &&& after.guardian_scheduled()
                        &&& after.guardian_running()
                    } else {
                        &&& turn is Idle
                        &&& after.guardian_mail() == before.guardian_mail()
                        &&& !after.guardian_scheduled()
                        &&& !after.guardian_running()
                    }
                },
                ThreadMessage::ProcessActor(handle) => turn matches Turn::Batch(batch)
                    && Self::leased(before, after, worker, handle.id, batch),
            }
        }
    }

    /// Whether a batch is the one that its cell has out.
    pub open spec fn accepts(before: Self, batch: Batch<A>) -> bool {
        &&& before.cells().contains_key(batch.id_spec())
        &&& before.cells()[batch.id_spec()].running()
        &&& before.cells()[batch.id_spec()].lease_spec() == batch.lease_spec()
    }

    /// What taking a batch back does, before anything that its handlers
    /// asked for is acted on. The entries that the batch has run are
    /// counted, and what the batch owes stands behind what was owed. A batch
    /// that its cell does not have out changes nothing else, and its actor is
    /// dropped. Otherwise, where the batch has run the stop command, the cell
    /// is gone, and every promise still pending in its mailbox has failed;
    /// where it has not, the actor is back in the cell with what it has
    /// observed, and the cell is idle where nothing is pending, or else
    /// waits in some worker's inbox again. No other cell has changed.
    pub open spec fn returned(before: Self, batch: Batch<A>, middle: Self) -> bool {
        let id = batch.id_spec();
        let cell = before.cells()[id];
        &&& middle.bridges() == before.bridges()
        &&& middle.done_signal_spec() == before.done_signal_spec()
        &&& middle.root_spec() == before.root_spec()
        &&& middle.processed() == tallied(before.processed(), batch.handled_spec())
        &&& (before.settled() + batch.settled()).is_prefix_of(middle.settled())
        &&& if !Self::accepts(before, batch) {
            &&& middle.cells() == before.cells()
            &&& middle.inboxes() == before.inboxes()
            &&& middle.settled() == before.settled() + batch.settled()
        } else if batch.stopped_spec() {
            &&& middle.cells() == before.cells().remove(id)
            &&& middle.inboxes() == before.inboxes()
            &&& outcomes(middle.settled()) == outcomes(before.settled() + batch.settled())
                + cancelled(cell.pending())
        } else {
            &&& middle.cells().dom() == before.cells().dom()
            &&& forall|other: u128|
                other != id && before.cells().contains_key(other)
                    ==> #[trigger] middle.cells()[other] == before.cells()[other]
            &&& middle.cells()[id].id_spec() == id
            &&& middle.cells()[id].actor_spec() == Some(batch.actor_spec())
            &&& middle.cells()[id].journal() == batch.journal()
            &&& middle.cells()[id].pending() == cell.pending()
            &&& middle.cells()[id].status_spec() == (if cell.pending().len() == 0 {
                ActorStatus::Idle
            } else {
                ActorStatus::Scheduled
            })
            &&& placed(before.inboxes(), middle.inboxes(), cell.pending().len() > 0, id)
            &&& middle.settled() == before.settled() + batch.settled()
        }
    }

    /// The identifier that the handlers of a batch cannot have taken again:
    /// that of the batch's cell, where the batch has stopped it.
    pub open spec fn reserved_for(before: Self, batch: Batch<A>) -> Option<u128> {
        if Self::accepts(before, batch) && batch.stopped_spec() {
            Some(batch.id_spec())
        } else {
            None
        }
    }

    /// What a batch leaves to do when it is taken back: what it has left
    /// itself, and, where it has stopped its cell, the telling of every
    /// sender whose message was still pending.
    pub open spec fn left_by(before: Self, batch: Batch<A>) -> Seq<Deed<A>> {
        if Self::accepts(before, batch) && batch.stopped_spec() {
            batch.deeds() + orphaned::<A>(before.cells()[batch.id_spec()].pending())
        } else {
            batch.deeds()
        }
    }

    /// What the second half of a worker's turn does: the batch is taken
    /// back, see `returned`, and then what it leaves to do is done, oldest
    /// first, see `left_by` and `applied`. Whatever that is, no cell has
    /// lost its past or what was pending, and the identifier of a cell that
    /// the batch has stopped names nothing.
    pub open spec fn finished(before: Self, batch: Batch<A>, after: Self) -> bool {
        exists|middle: Self|
            {
                &&& Self::returned(before, batch, middle)
                &&& #[trigger] Self::applied(
                    middle,
                    Self::left_by(before, batch),
                    Self::reserved_for(before, batch),
                    after,
                )
                &&& middle.grows(&after)
                &&& Self::reserved_for(before, batch) is Some ==> !Self::taken(
                    after,
                    batch.id_spec(),
                )
            }
    }

    /// What running one batch of cell `id` does, before anything that its
    /// handlers asked for is acted on. The work item has left the worker's
    /// inbox. Where the batch holds the stop command, the cell is gone and
    /// what the batch owes, and then the failure of every promise still
    /// pending, stands behind what was owed. Otherwise the cell has observed
    /// the batch, holds the rest of its mailbox, and is idle where that is
    /// empty, or else scheduled and in some worker's inbox again; what the
    /// batch owes stands behind what was owed. No other cell has changed.
    pub open spec fn batched(before: Self, middle: Self, worker: usize, id: u128) -> bool {
        let cell = before.cells()[id];
        let count = batch_len(cell.pending(), BATCH as nat);
        let batch = cell.pending().take(count as int);
        let rest = cell.pending().skip(count as int);
        let taken = before.inboxes().update(worker as int, before.inboxes()[worker as int].skip(1));
        &&& middle.bridges() == before.bridges()
        &&& middle.done_signal_spec() == before.done_signal_spec()
        &&& middle.root_spec() == before.root_spec()
        &&& before.settled().is_prefix_of(middle.settled())
        &&& if stops(batch) {
            &&& middle.cells() == before.cells().remove(id)
            &&& middle.inboxes() == taken
            &&& outcomes(middle.settled()) == outcomes(before.settled()) + owed(batch) + cancelled(
                rest,
            )
        } else {
            &&& middle.cells().dom() == before.cells().dom()
            &&& forall|other: u128|
                other != id && before.cells().contains_key(other)
                    ==> #[trigger] middle.cells()[other] == before.cells()[other]
            &&& middle.cells()[id].id_spec() == id
            &&& middle.cells()[id].journal() == cell.journal() + observed(batch)
            &&& middle.cells()[id].pending() == rest
            &&& !middle.cells()[id].running()
            &&& middle.cells()[id].status_spec() == (if rest.len() == 0 {
                ActorStatus::Idle
            } else {
                ActorStatus::Scheduled
            })
            &&& placed(taken, middle.inboxes(), rest.len() > 0, id)
            &&& outcomes(middle.settled()) == outcomes(before.settled()) + owed(batch)
        }
    }

    /// What a worker's turn on a work item for cell `id` does: see `ran`.
    pub open spec fn ran_batch(
        before: Self,
        after: Self,
        worker: usize,
        id: u128,
        progress: Progress,
    ) -> bool {
        let cell = before.cells()[id];
        let count = batch_len(cell.pending(), BATCH as nat);
        let batch = cell.pending().take(count as int);
        let reserved = reserved_by(batch, id);
        &&& before.cells().contains_key(id)
        &&& progress == Progress::Processed(count as usize)
        &&& after.inboxes().len() == before.inboxes().len()
        &&& after.guardian_mail() == before.guardian_mail()
        &&& after.guardian_scheduled() == before.guardian_scheduled()
        &&& after.guardian_running() == before.guardian_running()
        &&& exists|middle: Self, left: A, asked: Seq<Deed<A>>, owing: Seq<Completion<A>>|
            #![trigger
                Self::batched(before, middle, worker, id),
                entries_ran(
                    id,
                    ThreadContext { worker: Some(worker) },
                    cell.actor_spec().unwrap(),
                    batch,
                    left,
                    asked,
                    owing,
                ),
            ]
            {
                &&& Self::batched(before, middle, worker, id)
                &&& entries_ran(
                    id,
                    ThreadContext { worker: Some(worker) },
                    cell.actor_spec().unwrap(),
                    batch,
                    left,
                    asked,
                    owing,
                )
                &&& !stops(batch) ==> middle.cells()[id].actor_spec() == Some(left)
                &&& Self::applied(
                    middle,
                    if stops(batch) {
                        asked + orphaned::<A>(cell.pending().skip(count as int))
                    } else {
                        asked
                    },
                    reserved,
                    after,
                )
            }
        &&& if stops(batch) {
            &&& !after.cells().contains_key(id)
            &&& (outcomes(before.settled()) + owed(batch) + cancelled(
                cell.pending().skip(count as int),
            )).is_prefix_of(outcomes(after.settled()))
        } else {
            &&& after.cells().contains_key(id)
            &&& after.cells()[id].journal() == cell.journal() + observed(batch)
            &&& cell.pending().skip(count as int).is_prefix_of(after.cells()[id].pending())
            &&& (outcomes(before.settled()) + owed(batch)).is_prefix_of(outcomes(after.settled()))
        }
        &&& forall|other: u128|
            other != id && before.cells().contains_key(other)
                ==> #[trigger] after.cells().contains_key(other) && kept(
                before.cells()[other],
                after.cells()[other],
            )
    }

    /// What one whole turn of a worker does. With an empty inbox, nothing.
    /// The stop item leaves the inbox and nothing else changes. The
    /// guardian's work item leaves the inbox, and the oldest message leaves
    /// the guardian's mailbox: its token is the result, for the caller to
    /// run the code under `guardian_context` and to hand the context to
    /// `finish_startup`. A work item for a cell has one batch of the cell
    /// run, see `batched` and `entries_ran`, and then what the batch's
    /// handlers asked for acted on, oldest first, see `applied`. Whatever
    /// they asked for: where the batch holds the stop command, the
    /// identifier names no cell afterwards; otherwise the cell has observed the batch in mailbox order and holds
    /// the rest of its mailbox in front of whatever was sent meanwhile;
    /// every other cell keeps its past and what was pending; and what the
    /// batch owes stands, in order, behind what was owed before.
    pub open spec fn ran(before: Self, after: Self, worker: usize, progress: Progress) -> bool {
        if worker >= before.inboxes().len() || before.inboxes()[worker as int].len() == 0 {
            progress == Progress::Idle && after == before
        } else {
            match before.inboxes()[worker as int][0] {
                ThreadMessage::Stop => {
                    &&& progress == Progress::Stopped
                    &&& Self::taken_off(before, after, worker)
                    &&& after.tasks() == before.tasks()
                    &&& after.guardian_mail() == before.guardian_mail()
                    &&& after.guardian_scheduled() == before.guardian_scheduled()
                    &&& after.guardian_running() == before.guardian_running()
                },
                ThreadMessage::Guardian => {
                    &&& Self::taken_off(before, after, worker)
                    &&& after.tasks() == before.tasks()
                    &&& if before.guardian_mail().len() > 0 {
                        &&& progress == Progress::Startup(before.guardian_mail()[0])
                        &&& after.guardian_mail() == before.guardian_mail().skip(1)
                        &&& after.guardian_scheduled()
                        &&& after.guardian_running()
                    } else {
                        &&& progress == Progress::Idle
                        &&& after.guardian_mail() == before.guardian_mail()
                        &&& !after.guardian_scheduled()
                        &&& !after.guardian_running()
                    }
                },
                ThreadMessage::ProcessActor(handle) => Self::ran_batch(
                    before,
                    after,
                    worker,
                    handle.id,
                    progress,
                ),
            }
        }
    }

    /// The first half of a turn of worker `worker`: it takes the next item
    /// from its inbox, and for a cell's work item checks a batch of the cell
    /// out. See `begun`. The worker runs the batch on its own, without the
    /// system, and then hands it to `finish`.
    pub fn begin(&mut self, worker: usize) -> (turn: Turn<A>)
        requires
            old(self).wf(),
        ensures
            final(self).tasks() == old(self).tasks(),
            final(self).wf(),
            Self::begun(*old(self), *final(self), worker, turn),
    {
        if self.dispatcher.queued(worker) == 0 {
            return Turn::Idle;
        }
        let message = self.dispatcher.receive(worker);
        let handle = match message {
            None => {
                return Turn::Idle;
            },
            Some(ThreadMessage::Stop) => {
                proof {
                    lemma_pop_item(old(self).inboxes(), worker as int);
                    lemma_guardian_after_pop(old(self).inboxes(), worker as int);
                    assert forall|id: u128|
                        #![trigger is_queued(self.inboxes(), id)]
                        #![trigger ready(self.cells(), id)]
                        is_queued(self.inboxes(), id) <==> ready(self.cells(), id) by {
                        assert(is_queued(old(self).inboxes(), id) <==> ready(
                            old(self).cells(),
                            id,
                        ));
                    }
                }
                return Turn::Stopped;
            },
            Some(ThreadMessage::Guardian) => {
                proof {
                    lemma_pop_item(old(self).inboxes(), worker as int);
                    lemma_guardian_after_pop(old(self).inboxes(), worker as int);
                    assert(crate::dispatcher::guards_at(old(self).inboxes(), worker as int, 0));
                    assert(guardian_queued(old(self).inboxes()));
                    assert forall|id: u128|
                        #![trigger is_queued(self.inboxes(), id)]
                        #![trigger ready(self.cells(), id)]
                        is_queued(self.inboxes(), id) <==> ready(self.cells(), id) by {
                        assert(is_queued(old(self).inboxes(), id) <==> ready(
                            old(self).cells(),
                            id,
                        ));
                    }
                }
                return match self.guardian.pop_front() {
                    Some(token) => {
                        self.guardian_running = true;
                        let context = self.guardian_context(Some(worker));
                        Turn::Startup { token, context }
                    },
                    None => {
                        self.guardian_scheduled = false;
                        Turn::Idle
                    },
                };
            },
            Some(ThreadMessage::ProcessActor(handle)) => handle,
        };
        let id = handle.id();
        proof {
            lemma_pop_item(old(self).inboxes(), worker as int);
            lemma_guardian_after_pop(old(self).inboxes(), worker as int);
            assert(crate::dispatcher::holds(old(self).inboxes(), worker as int, 0, id));
            assert(is_queued(old(self).inboxes(), id));
            assert(ready(old(self).cells(), id));
        }
        let lease = self.leases;
        self.leases = self.leases.wrapping_add(1);
        let taken = self.actors.remove(&id);
        proof {
            assert(self.inboxes() == old(self).inboxes().update(
                worker as int,
                old(self).inboxes()[worker as int].skip(1),
            ));
            assert forall|other: u128|
                #![trigger is_queued(self.inboxes(), other)]
                #![trigger ready(self.cells(), other)]
                is_queued(self.inboxes(), other) <==> ready(self.cells(), other) by {
                assert(is_queued(old(self).inboxes(), other) <==> ready(
                    old(self).cells(),
                    other,
                ));
            }
            assert forall|other: u128| #[trigger]
                self.cells().contains_key(other) implies cell_ok(self.cells()[other], other) by {
                assert(old(self).cells().contains_key(other));
            }
            assert(self.wf());
        }
        let mut cell = match taken {
            Some(cell) => cell,
            None => {
                return Turn::Idle;
            },
        };
        let batch = cell.checkout(BATCH, lease);
        self.reinsert(id, cell, false);
        proof {
            assert(self.cells().dom() =~= old(self).cells().dom());
        }
        match batch {
            Some(batch) => Turn::Batch(batch),
            None => Turn::Idle,
        }
    }

    /// The second half of a worker's turn: the batch that the worker has run
    /// is taken back, and what it leaves to do is done. See `finished`. The
    /// result is the count of the messages that the workers have run, where
    /// it is worth a report: see `milestone`.
    pub fn finish(&mut self, batch: Batch<A>) -> (report: Option<usize>)
        requires
            old(self).wf(),
            batch.stopped_spec() || lifecycle(batch.journal()),
        ensures
            final(self).guardian_mail() == old(self).guardian_mail(),
            final(self).guardian_scheduled() == old(self).guardian_scheduled(),
            final(self).guardian_running() == old(self).guardian_running(),
            final(self).wf(),
            Self::finished(*old(self), batch, *final(self)),
            final(self).processed() == tallied(old(self).processed(), batch.handled_spec()),
            report == milestone(old(self).processed(), final(self).processed()),
            final(self).done_signal_spec() == old(self).done_signal_spec(),
            final(self).root_spec() == old(self).root_spec(),
            final(self).inboxes().len() == old(self).inboxes().len(),
    {
        let id = batch.id();
        let report = self.dispatcher.count(batch.handled());
        proof {
            assert(self.inboxes() == old(self).inboxes());
            assert(self.cells() == old(self).cells());
            assert(self.wf());
        }
        let mut deeds: VecDeque<Deed<A>> = VecDeque::new();
        let mut reserved: Option<u128> = None;
        match self.detach(id) {
            None => {
                let (_, mut left, mut owing, _) = batch.into_parts();
                self.completions.append(&mut owing);
                deeds.append(&mut left);
                proof {
                    assert(self.cells() =~= old(self).cells());
                    assert(deeds@ =~= batch.deeds());
                }
            },
            Some(mut cell) => {
                let ghost lent = cell;
                let accepted = cell.checkin(batch, &mut deeds, &mut self.completions);
                proof {
                    assert(deeds@ =~= batch.deeds());
                }
                if !accepted {
                    self.reinsert(id, cell, false);
                    proof {
                        assert(self.cells() =~= old(self).cells());
                    }
                } else if cell.status() == ActorStatus::Terminated {
                    cell.cancel_pending(&mut deeds, &mut self.completions);
                    reserved = Some(id);
                    proof {
                        assert(is_queued(self.inboxes(), id) <==> waits(lent));
                        assert(self.wf());
                    }
                } else {
                    let resubmit = cell.set_idle_or_dispatch();
                    self.reinsert(id, cell, resubmit);
                    proof {
                        assert(self.cells().dom() =~= old(self).cells().dom());
                    }
                }
            },
        }
        let ghost middle = *self;
        let ghost left = deeds@;
        proof {
            assert(Self::returned(*old(self), batch, middle));
            assert(reserved == Self::reserved_for(*old(self), batch));
            assert(left == Self::left_by(*old(self), batch));
        }
        self.apply_except(deeds, reserved);
        proof {
            if reserved is Some {
                assert(!Self::taken(middle, id));
                assert(!Self::taken(*self, id));
            }
            assert(Self::returned(*old(self), batch, middle) && Self::applied(
                middle,
                Self::left_by(*old(self), batch),
                Self::reserved_for(*old(self), batch),
                *self,
            ) && middle.grows(self));
        }
        report
    }

    /// One whole turn of worker `worker`: it takes the next item from its
    /// inbox and does what the item asks; for a cell's work item it checks a
    /// batch out, runs it, and hands it back. See `ran`.
    pub fn run_once(&mut self, worker: usize) -> (progress: Progress)
        requires
            old(self).wf(),
        ensures
            final(self).wf(),
            Self::ran(*old(self), *final(self), worker, progress),
            final(self).done_signal_spec() == old(self).done_signal_spec(),
            final(self).root_spec() == old(self).root_spec(),
    {
        match self.begin(worker) {
            Turn::Idle => Progress::Idle,
            Turn::Stopped => Progress::Stopped,
            Turn::Startup { token, context } => Progress::Startup(token),
            Turn::Batch(mut batch) => {
                let ghost lent = *self;
                let ghost out = batch;
                let count = batch.run(ThreadContext::new(worker));
                proof {
                    if !batch.stopped_spec() {
                        out.lemma_well_cut();
                        lemma_messages_keep_lifecycle(out.journal(), out.waiting());
                    }
                    let (asked, owing) = choose|asked: Seq<Deed<A>>, owing: Seq<Completion<A>>|
                        {
                            &&& #[trigger] entries_ran(
                                out.id_spec(),
                                ThreadContext { worker: Some(worker) },
                                out.actor_spec(),
                                out.waiting(),
                                batch.actor_spec(),
                                asked,
                                owing,
                            )
                            &&& batch.deeds() == out.deeds() + asked
                            &&& batch.settled() == out.settled() + owing
                        };
                    assert(asked =~= batch.deeds());
                    assert(owing =~= batch.settled());
                }
                let _ = self.finish(batch);
                proof {
                    Self::lemma_turn(*old(self), lent, *self, worker, out, batch);
                }
                Progress::Processed(count)
            },
        }
    }

    /// A batch that is checked out, run and handed back in one go makes a
    /// whole turn.
    proof fn lemma_turn(
        before: Self,
        lent: Self,
        after: Self,
        worker: usize,
        out: Batch<A>,
        back: Batch<A>,
    )
        requires
            before.wf(),
            worker < before.inboxes().len(),
            before.inboxes()[worker as int].len() > 0,
            before.inboxes()[worker as int][0] matches ThreadMessage::ProcessActor(handle)
                && handle.id == out.id_spec(),
            Self::leased(before, lent, worker, out.id_spec(), out),
            back.id_spec() == out.id_spec(),
            back.lease_spec() == out.lease_spec(),
            back.journal() == out.journal() + observed(out.waiting()),
            back.stopped_spec() == stops(out.waiting()),
            outcomes(back.settled()) == owed(out.waiting()),
            entries_ran(
                out.id_spec(),
                ThreadContext { worker: Some(worker) },
                out.actor_spec(),
                out.waiting(),
                back.actor_spec(),
                back.deeds(),
                back.settled(),
            ),
            Self::finished(lent, back, after),
            after.inboxes().len() == lent.inboxes().len(),
            after.guardian_mail() == lent.guardian_mail(),
            after.guardian_scheduled() == lent.guardian_scheduled(),
            after.guardian_running() == lent.guardian_running(),
        ensures
            Self::ran_batch(
                before,
                after,
                worker,
                out.id_spec(),
                Progress::Processed(out.waiting().len() as usize),
            ),
    {
        let id = out.id_spec();
        let cell = before.cells()[id];
        let count = batch_len(cell.pending(), BATCH as nat);
        let batch = cell.pending().take(count as int);
        lemma_batch_len_bounds(cell.pending(), BATCH as nat);
        assert(out.waiting().len() == count);
        assert(Self::accepts(lent, back));
        let middle = choose|middle: Self|
            {
                &&& Self::returned(lent, back, middle)
                &&& #[trigger] Self::applied(
                    middle,
                    Self::left_by(lent, back),
                    Self::reserved_for(lent, back),
                    after,
                )
                &&& middle.grows(&after)
                &&& Self::reserved_for(lent, back) is Some ==> !Self::taken(after, back.id_spec())
            };
        lemma_outcomes_add(lent.settled(), back.settled());
        assert(reserved_by(batch, id) == Self::reserved_for(lent, back));
        if stops(batch) {
            assert(middle.cells() =~= before.cells().remove(id));
        } else {
            assert(middle.cells().dom() =~= before.cells().dom());
            assert(middle.cells().contains_key(id));
            assert(kept(middle.cells()[id], after.cells()[id]));
        }
        assert(Self::batched(before, middle, worker, id));
        Self::lemma_outcomes_prefix(middle.settled(), after.settled());
        assert forall|other: u128|
            other != id && before.cells().contains_key(other)
                implies #[trigger] after.cells().contains_key(other) && kept(
            before.cells()[other],
            after.cells()[other],
        ) by {
            assert(lent.cells()[other] == before.cells()[other]);
            assert(middle.cells().contains_key(other));
            assert(middle.cells()[other] == before.cells()[other]);
        }
        assert(Self::batched(before, middle, worker, id));
        assert(entries_ran(
            id,
            ThreadContext { worker: Some(worker) },
            cell.actor_spec().unwrap(),
            batch,
            back.actor_spec(),
            back.deeds(),
            back.settled(),
        ));
        assert(Self::applied(
            middle,
            if stops(batch) {
                back.deeds() + orphaned::<A>(cell.pending().skip(count as int))
            } else {
                back.deeds()
            },
            reserved_by(batch, id),
            after,
        ));
    }

    /// The outcomes of a prefix are a prefix of the outcomes.
    pub proof fn lemma_outcomes_prefix(earlier: Seq<Completion<A>>, later: Seq<Completion<A>>)
        requires
            earlier.is_prefix_of(later),
        ensures
            outcomes(earlier).is_prefix_of(outcomes(later)),
    {
        assert(outcomes(earlier) =~= outcomes(later).subrange(0, earlier.len() as int));
    }

    /// What taking the cell under `id` out of the registry does, before any
    /// sender is told: the cell is gone, the work item that asked for it is
    /// withdrawn, and every promise that was pending in its mailbox has
    /// failed. Where no cell is under `id`, nothing has changed.
    pub open spec fn dropped(before: Self, middle: Self, id: u128) -> bool {
        &&& middle.cells() == before.cells().remove(id)
        &&& withdrawn(before.inboxes(), middle.inboxes(), id)
        &&& middle.bridges() == before.bridges()
        &&& middle.done_signal_spec() == before.done_signal_spec()
        &&& middle.root_spec() == before.root_spec()
        &&& middle.processed() == before.processed()
        &&& before.settled().is_prefix_of(middle.settled())
        &&& if before.cells().contains_key(id) {
            outcomes(middle.settled()) == outcomes(before.settled()) + cancelled(
                before.cells()[id].pending(),
            )
        } else {
            middle.inboxes() == before.inboxes() && middle.settled() == before.settled()
        }
    }

    /// What there is to do when the cell under `id` is dropped: every sender
    /// whose message is pending there is to be told.
    pub open spec fn bereaved(before: Self, id: u128) -> Seq<Deed<A>> {
        if before.cells().contains_key(id) {
            orphaned::<A>(before.cells()[id].pending())
        } else {
            Seq::empty()
        }
    }

    /// Takes the actor under `id` out of the registry at once, whatever its
    /// mailbox holds: see `dropped`. Then every sender whose message was
    /// still pending is told: see `bereaved` and `applied`. A batch of the
    /// cell that is out will find no cell to go back to.
    pub fn deregister_actor(&mut self, id: &u128) -> (result: Result<(), ErrorKind>)
        requires
            old(self).wf(),
        ensures
            final(self).guardian_mail() == old(self).guardian_mail(),
            final(self).guardian_scheduled() == old(self).guardian_scheduled(),
            final(self).guardian_running() == old(self).guardian_running(),
            final(self).wf(),
            final(self).cells() == old(self).cells().remove(*id),
            final(self).inboxes().len() == old(self).inboxes().len(),
            final(self).done_signal_spec() == old(self).done_signal_spec(),
            final(self).root_spec() == old(self).root_spec(),
            final(self).processed() == old(self).processed(),
            result == if old(self).cells().contains_key(*id) {
                Ok::<(), ErrorKind>(())
            } else {
                Err::<(), ErrorKind>(ErrorKind::InvalidActor(*id))
            },
            exists|middle: Self|
                Self::dropped(*old(self), middle, *id) && #[trigger] Self::applied(
                    middle,
                    Self::bereaved(*old(self), *id),
                    None,
                    *final(self),
                ),
    {
        match self.detach(*id) {
            None => {
                proof {
                    assert(!ready(old(self).cells(), *id));
                    assert(!is_queued(old(self).inboxes(), *id));
                    assert(self.cells() =~= old(self).cells());
                    assert(Self::bereaved(*old(self), *id) =~= Seq::<Deed<A>>::empty());
                    assert(Self::dropped(*old(self), *self, *id) && Self::applied(
                        *self,
                        Self::bereaved(*old(self), *id),
                        None,
                        *self,
                    ));
                }
                Err(ErrorKind::InvalidActor(*id))
            },
            Some(mut cell) => {
                let ghost queued = self.inboxes();
                let _ = self.dispatcher.withdraw(*id);
                let mut deeds: VecDeque<Deed<A>> = VecDeque::new();
                cell.cancel_pending(&mut deeds, &mut self.completions);
                proof {
                    lemma_guardian_kept_by_withdrawal(queued, self.inboxes(), *id);
                    assert forall|other: u128|
                        #![trigger is_queued(self.inboxes(), other)]
                        #![trigger ready(self.cells(), other)]
                        is_queued(self.inboxes(), other) <==> ready(self.cells(), other) by {
                        if other != *id {
                            assert(is_queued(old(self).inboxes(), other) <==> ready(
                                old(self).cells(),
                                other,
                            ));
                        }
                    }
                    assert(deeds@ =~= orphaned::<A>(old(self).cells()[*id].pending()));
                }
                let ghost middle = *self;
                self.apply_except(deeds, None);
                proof {
                    assert(Self::dropped(*old(self), middle, *id) && Self::applied(
                        middle,
                        Self::bereaved(*old(self), *id),
                        None,
                        *self,
                    ));
                    lemma_orphaned_tell_only::<A>(old(self).cells()[*id].pending());
                    Self::lemma_telling_keeps_cells(
                        middle,
                        *self,
                        Self::bereaved(*old(self), *id),
                    );
                }
                Ok(())
            },
        }
    }

    /// Telling senders changes no cell and no inbox.
    pub proof fn lemma_telling_keeps_cells(before: Self, after: Self, deeds: Seq<Deed<A>>)
        requires
            Self::applied(before, deeds, None, after),
            forall|i: int| 0 <= i < deeds.len() ==> (#[trigger] deeds[i]) is Orphaned,
        ensures
            after.cells() == before.cells(),
            after.inboxes() == before.inboxes(),
            after.done_signal_spec() == before.done_signal_spec(),
            after.root_spec() == before.root_spec(),
        decreases deeds.len(),
    {
        if deeds.len() > 0 {
            let middle = choose|middle: Self|
                Self::applied(before, deeds.drop_last(), None, middle) && Self::performed(
                    middle,
                    deeds.last(),
                    None,
                    after,
                );
            assert forall|i: int| 0 <= i < deeds.drop_last().len() implies (
            #[trigger] deeds.drop_last()[i]) is Orphaned by {
                assert(deeds.drop_last()[i] == deeds[i]);
            }
            Self::lemma_telling_keeps_cells(before, middle, deeds.drop_last());
            assert(deeds.last() == deeds[deeds.len() - 1]);
        }
    }

    /// Starts the system for the host: `promise` waits for the shutdown. A
    /// promise that waited before fails.
    pub fn start(&mut self, promise: u64)
        requires
            old(self).wf(),
        ensures
            final(self).tasks() == old(self).tasks(),
            final(self).guardian_mail() == old(self).guardian_mail(),
            final(self).guardian_scheduled() == old(self).guardian_scheduled(),
            final(self).guardian_running() == old(self).guardian_running(),
            final(self).wf(),
            final(self).done_signal_spec() == Some(promise),
            final(self).cells() == old(self).cells(),
            final(self).inboxes() == old(self).inboxes(),
            final(self).bridges() == old(self).bridges(),
            final(self).root_spec() == old(self).root_spec(),
            final(self).processed() == old(self).processed(),
            final(self).settled() == old(self).settled() + refused::<A>(
                old(self).done_signal_spec(),
                ErrorKind::ActorDestroyed,
            ),
    {
        let displaced = self.done_signal;
        self.done_signal = Some(promise);
        proof {
            assert(self.cells() == old(self).cells());
            assert(self.inboxes() == old(self).inboxes());
            assert(self.bridges() == old(self).bridges());
        }
        self.refuse(displaced, ErrorKind::ActorDestroyed);
    }

    /// Shuts a started system down: every worker is told to leave its loop,
    /// behind whatever its inbox holds, unless it has been told before, and
    /// the promise that waits for the shutdown is told. A system that was
    /// not started, or has been stopped since, stays as it is.
    pub fn stop(&mut self) -> (stopping: bool)
        requires
            old(self).wf(),
        ensures
            final(self).tasks() == old(self).tasks(),
            final(self).guardian_mail() == old(self).guardian_mail(),
            final(self).guardian_scheduled() == old(self).guardian_scheduled(),
            final(self).guardian_running() == old(self).guardian_running(),
            final(self).wf(),
            stopping == old(self).done_signal_spec() is Some,
            final(self).done_signal_spec() is None,
            final(self).cells() == old(self).cells(),
            final(self).bridges() == old(self).bridges(),
            final(self).root_spec() == old(self).root_spec(),
            final(self).processed() == old(self).processed(),
            final(self).inboxes().len() == old(self).inboxes().len(),
            match old(self).done_signal_spec() {
                Some(promise) => {
                    &&& final(self).joined()
                    &&& final(self).settled() == old(self).settled().push(
                        Completion::Stopped { promise },
                    )
                    &&& old(self).joined() ==> final(self).inboxes() == old(self).inboxes()
                    &&& !old(self).joined() ==> forall|worker: int|
                        0 <= worker < old(self).inboxes().len()
                            ==> #[trigger] final(self).inboxes()[worker]
                            == old(self).inboxes()[worker].push(ThreadMessage::Stop)
                },
                None => {
                    &&& final(self).settled() == old(self).settled()
                    &&& final(self).inboxes() == old(self).inboxes()
                    &&& final(self).joined() == old(self).joined()
                },
            },
    {
        match self.done_signal.take() {
            Some(promise) => {
                self.dispatcher.join();
                self.completions.push(Completion::Stopped { promise });
                proof {
                    if !old(self).joined() {
                        lemma_guardian_kept_by_stops(old(self).inboxes(), self.inboxes());
                    }
                    assert(self.cells() == old(self).cells());
                    assert(self.bridges() == old(self).bridges());
                    assert forall|id: u128|
                        #![trigger is_queued(self.inboxes(), id)]
                        #![trigger ready(self.cells(), id)]
                        is_queued(self.inboxes(), id) <==> ready(self.cells(), id) by {
                        assert(is_queued(old(self).inboxes(), id) <==> ready(
                            old(self).cells(),
                            id,
                        ));
                    }
                }
                true
            },
            None => {
                proof {
                    assert(self.cells() == old(self).cells());
                    assert(self.bridges() == old(self).bridges());
                    assert(self.inboxes() == old(self).inboxes());
                }
                false
            },
        }
    }

    /// The guardian's context on the worker `worker`, fresh.
    pub fn guardian_context(&self, worker: Option<usize>) -> (context: ActorContext<
        A::Message,
        A,
        A::Response,
    >)
        ensures
            Self::guards(*self, context, worker) || (self.root_spec() is None
                && context.self_ref_spec() == ActorRef::null_spec() && context.sender_spec()
                == ActorRef::null_spec() && context.thread_spec().worker == worker
                && context.effects().len() == 0),
    {
        let root = match self.root_actor {
            Some(root) => root,
            None => ActorRef::null(),
        };
        ActorContext::new(root, ActorRef::null(), ThreadContext { worker })
    }

    /// What scheduling the guardian does where `due` says that it is to be
    /// handed to a worker: its work item stands at the end of the inbox of
    /// the worker `worker`. Nothing else has changed but the guardian's
    /// mailbox and whether it is scheduled, which the caller states.
    pub open spec fn guardian_placed(
        before: Self,
        after: Self,
        due: bool,
        worker: Option<usize>,
    ) -> bool {
        &&& after.cells() == before.cells()
        &&& after.bridges() == before.bridges()
        &&& after.settled() == before.settled()
        &&& after.tasks() == before.tasks()
        &&& after.done_signal_spec() == before.done_signal_spec()
        &&& after.root_spec() == before.root_spec()
        &&& after.processed() == before.processed()
        &&& if due {
            &&& worker matches Some(w)
            &&& w < before.inboxes().len()
            &&& after.inboxes() == before.inboxes().update(
                w as int,
                before.inboxes()[w as int].push(ThreadMessage::Guardian),
            )
        } else {
            &&& worker is None
            &&& after.inboxes() == before.inboxes()
        }
    }

    /// Hands the guardian to a worker chosen at random.
    fn schedule_guardian(&mut self) -> (worker: usize)
        requires
            old(self).wf(),
            old(self).guardian_scheduled(),
            !old(self).guardian_running(),
            !guardian_queued(old(self).inboxes()),
        ensures
            final(self).wf(),
            old(self).grows(final(self)),
            Self::guardian_placed(*old(self), *final(self), true, Some(worker)),
            final(self).guardian_mail() == old(self).guardian_mail(),
            final(self).guardian_scheduled() == old(self).guardian_scheduled(),
            final(self).guardian_running() == old(self).guardian_running(),
    {
        let worker = self.dispatcher.next_thread();
        proof {
            lemma_push_plain(self.inboxes(), worker as int, ThreadMessage::Guardian);
            lemma_guardian_pushed(self.inboxes(), worker as int);
        }
        self.dispatcher.send(worker, ThreadMessage::Guardian);
        proof {
            assert(self.cells() == old(self).cells());
            assert forall|id: u128|
                #![trigger is_queued(self.inboxes(), id)]
                #![trigger ready(self.cells(), id)]
                is_queued(self.inboxes(), id) <==> ready(self.cells(), id) by {
                assert(is_queued(old(self).inboxes(), id) <==> ready(old(self).cells(), id));
            }
        }
        worker
    }

    /// Sends setup code to the guardian as a message: the token of the code,
    /// which the host keeps, stands at the end of the guardian's mailbox. A
    /// guardian that was not scheduled is handed to a worker chosen at
    /// random, which the result tells; one that was scheduled is in an inbox
    /// already, or is running, and will come to the message. The worker that
    /// takes the message runs the code under the guardian's context and
    /// hands the context to `finish_startup`. Nothing runs here, and nothing
    /// is waited for.
    pub fn on_startup(&mut self, token: u64) -> (worker: Option<usize>)
        requires
            old(self).wf(),
        ensures
            final(self).wf(),
            old(self).grows(final(self)),
            final(self).guardian_mail() == old(self).guardian_mail().push(token),
            final(self).guardian_scheduled(),
            final(self).guardian_running() == old(self).guardian_running(),
            Self::guardian_placed(
                *old(self),
                *final(self),
                !old(self).guardian_scheduled(),
                worker,
            ),
    {
        self.guardian.push_back(token);
        if self.guardian_scheduled {
            proof {
                old(self).lemma_grows_reflexive();
                assert(self.cells() == old(self).cells());
                assert(self.inboxes() == old(self).inboxes());
                assert(self.bridges() == old(self).bridges());
                assert(self.settled() == old(self).settled());
            }
            None
        } else {
            self.guardian_scheduled = true;
            proof {
                assert(self.cells() == old(self).cells());
                assert(self.inboxes() == old(self).inboxes());
                assert(self.bridges() == old(self).bridges());
                assert(self.settled() == old(self).settled());
                assert(self.wf());
            }
            Some(self.schedule_guardian())
        }
    }

    /// Takes the guardian's context back from the worker that ran setup code
    /// under it. The guardian is handed to a worker again where its mailbox
    /// holds more, which the result tells, and is not scheduled where it
    /// holds nothing; then what the code asked for is done, oldest first. A
    /// context that comes while no worker runs setup code leaves the
    /// guardian as it is.
    pub fn finish_startup(&mut self, context: ActorContext<A::Message, A, A::Response>) -> (worker:
        Option<usize>)
        requires
            old(self).wf(),
        ensures
            final(self).wf(),
            old(self).grows(final(self)),
            !final(self).guardian_running(),
            final(self).guardian_mail() == old(self).guardian_mail(),
            final(self).guardian_scheduled() == if old(self).guardian_running() {
                old(self).guardian_mail().len() > 0
            } else {
                old(self).guardian_scheduled()
            },
            exists|middle: Self|
                {
                    &&& Self::guardian_placed(
                        *old(self),
                        middle,
                        old(self).guardian_running() && old(self).guardian_mail().len() > 0,
                        worker,
                    )
                    &&& #[trigger] Self::applied(
                        middle,
                        asked_all::<A>(context.effects()),
                        None,
                        *final(self),
                    )
                },
    {
        let worker = if !self.guardian_running {
            None
        } else if self.guardian.len() > 0 {
            self.guardian_running = false;
            proof {
                assert(self.cells() == old(self).cells());
                assert(self.inboxes() == old(self).inboxes());
                assert(self.bridges() == old(self).bridges());
                assert(self.settled() == old(self).settled());
                assert(self.wf());
            }
            Some(self.schedule_guardian())
        } else {
            self.guardian_running = false;
            self.guardian_scheduled = false;
            proof {
                assert(self.cells() == old(self).cells());
                assert(self.inboxes() == old(self).inboxes());
                assert(self.bridges() == old(self).bridges());
                assert(self.settled() == old(self).settled());
                assert(self.wf());
            }
            None
        };
        let ghost middle = *self;
        proof {
            assert(old(self).grows(&middle)) by {
                old(self).lemma_grows_reflexive();
            }
        }
        self.apply(deeds_of::<A>(context.into_effects()));
        proof {
            old(self).lemma_grows_transitive(&middle, self);
            assert(Self::applied(middle, asked_all::<A>(context.effects()), None, *self));
        }
        worker
    }

    /// What `turns` turns that each found something in an inbox do, one in
    /// the state that the one before it left.
    pub open spec fn turned(before: Self, after: Self, turns: nat) -> bool
        decreases turns,
    {
        if turns == 0 {
            after == before
        } else {
            exists|middle: Self, worker: usize, progress: Progress|
                Self::turned(before, middle, (turns - 1) as nat) && progress != Progress::Idle
                    && #[trigger] Self::ran(middle, after, worker, progress)
        }
    }

    /// Whether an inbox holds nothing that `run` can take: it is empty, or
    /// its head is the guardian's work item, whose setup code only the host can
    /// run.
    pub open spec fn held_up(inbox: Seq<ThreadMessage>) -> bool {
        inbox.len() == 0 || inbox[0] is Guardian
    }

    /// Lets the workers take whole turns, one after the other, until a whole
    /// round finds every inbox empty or held up by setup code, or
    /// `max_turns` turns have found something, and returns how many turns
    /// found something. Setup code is left where it is, for the host.
    pub fn run(&mut self, max_turns: usize) -> (turns: usize)
        requires
            old(self).wf(),
        ensures
            final(self).wf(),
            turns <= max_turns,
            Self::turned(*old(self), *final(self), turns as nat),
            turns < max_turns ==> forall|worker: int|
                0 <= worker < final(self).inboxes().len() ==> Self::held_up(
                    #[trigger] final(self).inboxes()[worker],
                ),
            final(self).done_signal_spec() == old(self).done_signal_spec(),
            final(self).root_spec() == old(self).root_spec(),
            final(self).guardian_mail() == old(self).guardian_mail(),
            final(self).guardian_scheduled() == old(self).guardian_scheduled(),
            final(self).guardian_running() == old(self).guardian_running(),
    {
        let workers = self.dispatcher.worker_count();
        let mut turns: usize = 0;
        while turns < max_turns
            invariant
                self.wf(),
                turns <= max_turns,
                Self::turned(*old(self), *self, turns as nat),
                workers == self.inboxes().len(),
                self.done_signal_spec() == old(self).done_signal_spec(),
                self.root_spec() == old(self).root_spec(),
                self.guardian_mail() == old(self).guardian_mail(),
                self.guardian_scheduled() == old(self).guardian_scheduled(),
                self.guardian_running() == old(self).guardian_running(),
            decreases max_turns - turns,
        {
            let mut worker: usize = 0;
            let mut quiet = true;
            let ghost earlier = turns;
            while worker < workers && turns < max_turns
                invariant
                    self.wf(),
                    turns <= max_turns,
                    Self::turned(*old(self), *self, turns as nat),
                    worker <= workers,
                    workers == self.inboxes().len(),
                    self.done_signal_spec() == old(self).done_signal_spec(),
                    self.root_spec() == old(self).root_spec(),
                    self.guardian_mail() == old(self).guardian_mail(),
                    self.guardian_scheduled() == old(self).guardian_scheduled(),
                    self.guardian_running() == old(self).guardian_running(),
                    quiet ==> forall|w: int|
                        0 <= w < worker ==> Self::held_up(#[trigger] self.inboxes()[w]),
                    turns >= earlier,
                    !quiet ==> turns > earlier,
                decreases workers - worker,
            {
                let ghost middle = *self;
                let setup = match self.dispatcher.front(worker) {
                    Some(ThreadMessage::Guardian) => true,
                    _ => false,
                };
                if !setup {
                    let progress = self.run_once(worker);
                    match progress {
                        Progress::Idle => {},
                        _ => {
                            quiet = false;
                            turns = turns + 1;
                            assert(Self::turned(*old(self), middle, (turns - 1) as nat)
                                && progress != Progress::Idle && Self::ran(
                                middle,
                                *self,
                                worker,
                                progress,
                            ));
                        },
                    }
                }
                worker = worker + 1;
            }
            if quiet {
                return turns;
            }
        }
        turns
    }

    /// The guardian runs on one worker at a time. Its work item is in at
    /// most one inbox, once; and while a worker runs setup code, no inbox
    /// holds the item, so no other worker can take a message of the
    /// guardian.
    pub proof fn lemma_guardian_single_worker(&self, w1: int, s1: int, w2: int, s2: int)
        requires
            self.wf(),
        ensures
            crate::dispatcher::guards_at(self.inboxes(), w1, s1) && crate::dispatcher::guards_at(
                self.inboxes(),
                w2,
                s2,
            ) ==> w1 == w2 && s1 == s2,
            self.guardian_running() ==> !crate::dispatcher::guards_at(self.inboxes(), w1, s1),
    {
        if crate::dispatcher::guards_at(self.inboxes(), w1, s1) {
            assert(guardian_queued(self.inboxes()));
        }
    }

    /// One worker at a time. Two work items that ask for the same cell are
    /// one and the same item, and a cell that is asked for has no batch out:
    /// so no two workers can hold a batch of one cell at once.
    pub proof fn lemma_single_worker(&self, id: u128, w1: int, s1: int, w2: int, s2: int)
        requires
            self.wf(),
            crate::dispatcher::holds(self.inboxes(), w1, s1, id),
            crate::dispatcher::holds(self.inboxes(), w2, s2, id),
        ensures
            w1 == w2,
            s1 == s2,
            self.cells().contains_key(id),
            self.cells()[id].status_spec() == ActorStatus::Scheduled,
            !self.cells()[id].running(),
    {
        assert(is_queued(self.inboxes(), id));
        assert(ready(self.cells(), id));
    }

    /// One batch at a time. Once a worker has got a batch of a cell, no inbox
    /// asks for the cell: no worker can get another batch of it before this
    /// one is handed back or the cell is taken out of the registry.
    pub proof fn lemma_one_batch_at_a_time(
        before: Self,
        after: Self,
        worker: usize,
        batch: Batch<A>,
        other: int,
        slot: int,
    )
        requires
            before.wf(),
            after.wf(),
            Self::begun(before, after, worker, Turn::Batch(batch)),
        ensures
            after.cells().contains_key(batch.id_spec()),
            after.cells()[batch.id_spec()].running(),
            !crate::dispatcher::holds(after.inboxes(), other, slot, batch.id_spec()),
    {
        after.lemma_unscheduled_not_queued(batch.id_spec(), other, slot);
    }

    /// No inbox asks for a cell that is idle or not registered, nor for one
    /// of which a batch is checked out: while a worker holds a batch, no
    /// other worker can get one of the same cell.
    pub proof fn lemma_unscheduled_not_queued(&self, id: u128, worker: int, slot: int)
        requires
            self.wf(),
            !self.cells().contains_key(id) || self.cells()[id].status_spec()
                != ActorStatus::Scheduled || self.cells()[id].running(),
        ensures
            !crate::dispatcher::holds(self.inboxes(), worker, slot, id),
    {
        if crate::dispatcher::holds(self.inboxes(), worker, slot, id) {
            assert(is_queued(self.inboxes(), id));
            assert(ready(self.cells(), id));
        }
    }

    /// Sent first, pending first. Two messages that are sent to a cell one
    /// after the other stand in its mailbox in that order, behind what was
    /// pending before, and so are observed in that order: see `lemma_fifo`.
    pub proof fn lemma_sends_queue_in_order(
        before: Self,
        between: Self,
        after: Self,
        target: ActorRef,
        first: A::Message,
        second: A::Message,
        sender: ActorRef,
    )
        requires
            Self::registered_cell(before, target),
            Self::sent(before, between, target, first, sender, None, true),
            Self::sent(between, after, target, second, sender, None, true),
        ensures
            after.cells().contains_key(target.target().unwrap()),
            ({
                let id = target.target().unwrap();
                &&& after.cells()[id].pending() == before.cells()[id].pending().push(
                    Envelope::User { message: first, sender, promise: None },
                ).push(Envelope::User { message: second, sender, promise: None })
                &&& after.cells()[id].journal() == before.cells()[id].journal()
            }),
    {
        let id = target.target().unwrap();
        assert(between.cells().contains_key(id));
    }

    /// Once stopped, gone. After the turn of a worker in which a cell's
    /// batch held the stop command, no cell stands under the cell's
    /// identifier: a reference to it is dead and a lookup finds nothing,
    /// whatever the batch's handlers asked for.
    pub proof fn lemma_stopped_is_gone(
        before: Self,
        after: Self,
        worker: usize,
        progress: Progress,
        reference: ActorRef,
    )
        requires
            before.wf(),
            Self::ran(before, after, worker, progress),
            worker < before.inboxes().len(),
            before.inboxes()[worker as int].len() > 0,
            before.inboxes()[worker as int][0].target() == reference.target(),
            reference.target() is Some,
            stops(
                before.cells()[reference.target().unwrap()].pending().take(
                    batch_len(
                        before.cells()[reference.target().unwrap()].pending(),
                        BATCH as nat,
                    ) as int,
                ),
            ),
        ensures
            !after.cells().contains_key(reference.target().unwrap()),
            !Self::reachable(after, reference),
            !Self::alive(after, reference),
    {
    }

    /// An ask is answered by a handler's response, where no reply came
    /// before it. After an ask has made its bridge, the response of a
    /// handler to a message that the bridge has sent goes to the ask's
    /// promise, and the bridge is gone: a reply that is sent to it later is
    /// not accepted and reaches no promise, and so does a later response.
    pub proof fn lemma_ask_answered_by_response(
        before: Self,
        asking: Self,
        responding: Self,
        answered: Self,
        later: Self,
        last: Self,
        target: ActorRef,
        message: A::Message,
        promise: u64,
        bridge: ActorRef,
        response: ActorResponse<A::Response>,
        reply: A::Message,
        sender: ActorRef,
    )
        requires
            before.wf(),
            Self::asked(before, asking, target, message, promise, Ok(bridge)),
            responding.bridges().contains_key(bridge.asker().unwrap()),
            responding.bridges()[bridge.asker().unwrap()]
                == asking.bridges()[bridge.asker().unwrap()],
            Self::answered(responding, answered, bridge, response),
            Self::sent(answered, later, bridge, reply, sender, None, Self::reachable(
                answered,
                bridge,
            )),
            Self::answered(later, last, bridge, response),
        ensures
            answered.settled() == responding.settled().push(
                Completion::Responded { promise, response },
            ),
            !Self::reachable(answered, bridge),
            later.settled() == answered.settled(),
            last.settled() == answered.settled(),
    {
        assert(refused::<A>(None, ErrorKind::ActorDestroyed) =~= Seq::<Completion<A>>::empty());
        assert(later.settled() =~= answered.settled());
        assert(last.settled() =~= later.settled() + Seq::<Completion<A>>::empty());
    }

    /// An ask is answered by the first reply, and by no other. After an ask
    /// has made its bridge, the first message that is sent to the bridge goes
    /// to the ask's promise as its reply, and the bridge is gone: a message
    /// sent to it later is not accepted and reaches no promise.
    pub proof fn lemma_ask_answered_once(
        before: Self,
        asking: Self,
        replying: Self,
        answered: Self,
        later: Self,
        target: ActorRef,
        message: A::Message,
        promise: u64,
        bridge: ActorRef,
        reply: A::Message,
        second: A::Message,
        sender: ActorRef,
    )
        requires
            before.wf(),
            Self::asked(before, asking, target, message, promise, Ok(bridge)),
            replying.bridges().contains_key(bridge.asker().unwrap()),
            replying.bridges()[bridge.asker().unwrap()]
                == asking.bridges()[bridge.asker().unwrap()],
            Self::sent(replying, answered, bridge, reply, sender, None, true),
            Self::sent(answered, later, bridge, second, sender, None, Self::reachable(
                answered,
                bridge,
            )),
        ensures
            answered.settled() == replying.settled().push(
                Completion::Replied { promise, reply },
            ),
            !Self::reachable(answered, bridge),
            later.settled() == answered.settled(),
    {
        assert(refused::<A>(None, ErrorKind::InvalidActor(bridge.asker().unwrap()))
            =~= Seq::<Completion<A>>::empty());
        assert(refused::<A>(None, ErrorKind::ActorDestroyed) =~= Seq::<Completion<A>>::empty());
        assert(answered.settled() =~= replying.settled().push(
            Completion::Replied { promise, reply },
        ));
        assert(later.settled() =~= answered.settled());
    }

    /// A deferred response reaches its sink once. After a handler has
    /// deferred its response to a response-sink, completing the task gives
    /// the promise the value, and nobody waits for the task any more:
    /// completing it again changes nothing.
    pub proof fn lemma_deferred_resolves_once(
        before: Self,
        waiting: Self,
        resolved: Self,
        later: Self,
        task: u64,
        promise: u64,
        reserved: Option<u128>,
        value: A::Response,
        second: A::Response,
    )
        requires
            Self::performed(before, Deed::Deferred { task, promise }, reserved, waiting),
            Self::completed(waiting, resolved, task, value),
            Self::completed(resolved, later, task, second),
        ensures
            resolved.settled() == waiting.settled().push(
                Completion::Responded { promise, response: ActorResponse::Normal(Some(value)) },
            ),
            !resolved.tasks().contains_key(task),
            later.settled() == resolved.settled(),
            later.cells() == resolved.cells(),
            later.inboxes() == resolved.inboxes(),
            later.tasks() == resolved.tasks(),
    {
        assert(waiting.tasks().contains_key(task));
        assert(waiting.tasks()[task] == Waiter::Promise(promise));
        assert(resolved.settled() =~= waiting.settled().push(
            Completion::Responded { promise, response: ActorResponse::Normal(Some(value)) },
        ));
        assert(later.settled() =~= resolved.settled());
    }

    /// Hands over what the system owes to the host's promises, oldest first.
    pub fn take_completions(&mut self) -> (owing: Vec<Completion<A>>)
        requires
            old(self).wf(),
        ensures
            final(self).tasks() == old(self).tasks(),
            final(self).guardian_mail() == old(self).guardian_mail(),
            final(self).guardian_scheduled() == old(self).guardian_scheduled(),
            final(self).guardian_running() == old(self).guardian_running(),
            final(self).wf(),
            owing@ == old(self).settled(),
            final(self).settled() == Seq::<Completion<A>>::empty(),
            final(self).cells() == old(self).cells(),
            final(self).inboxes() == old(self).inboxes(),
            final(self).bridges() == old(self).bridges(),
            final(self).done_signal_spec() == old(self).done_signal_spec(),
            final(self).root_spec() == old(self).root_spec(),
            final(self).processed() == old(self).processed(),
    {
        let mut owing: Vec<Completion<A>> = Vec::new();
        std::mem::swap(&mut self.completions, &mut owing);
        proof {
            assert(self.inboxes() == old(self).inboxes());
            assert(self.cells() == old(self).cells());
            assert(self.bridges() == old(self).bridges());
        }
        owing
    }
}

} // verus!
