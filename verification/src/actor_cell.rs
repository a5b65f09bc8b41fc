use vstd::prelude::*;
use std::collections::VecDeque;
use crate::actor::{Actor, Completion, Deed};
use crate::actor_ref::ActorRef;
use crate::actor_system::ActorSystem;
use crate::batch::{entries_ran, well_cut, Batch};
use crate::context::ThreadContext;
use crate::errors::ErrorKind;
use crate::mailbox::{Envelope, Mailbox, MailboxMessage, SystemMessage};

verus! {

/// Scheduling state of a cell.
#[derive(Clone, Copy, Debug, PartialEq, Eq, Structural)]
pub enum ActorStatus {
    /// Not in any worker's inbox; the mailbox is empty.
    Idle,
    /// Handed to the scheduler; exactly one work item refers to the cell.
    Scheduled,
    /// The stop command has been processed; nothing is accepted any more.
    Terminated,
}

impl ActorStatus {
    pub fn is_idle(&self) -> (idle: bool)
        ensures
            idle == (*self == ActorStatus::Idle),
    {
        *self == ActorStatus::Idle
    }
}

/// The weak handle to a cell: its identifier. The registry owns the cell; a
/// handle whose identifier is no longer registered is dead.
#[derive(Clone, Copy, Debug, PartialEq, Eq, Structural)]
pub struct ActorCellHandle {
    pub id: u128,
}

impl ActorCellHandle {
    pub open spec fn id_spec(self) -> u128 {
        self.id
    }

    pub fn new(id: u128) -> (handle: Self)
        ensures
            handle.id_spec() == id,
    {
        ActorCellHandle { id }
    }

    pub fn id(&self) -> (id: u128)
        ensures
            id == self.id_spec(),
    {
        self.id
    }

    /// Whether the cell that the handle names is still there.
    pub fn is_alive<A: Actor>(&self, system: &ActorSystem<A>) -> (alive: bool)
        ensures
            alive == system.cells().contains_key(self.id),
    {
        system.is_alive(&ActorRef::new(*self))
    }

    /// Enqueues a user message on the cell that the handle names. A message
    /// for a cell that is gone is dropped, and its response-sink fails.
    pub fn enqueue_message<A: Actor>(
        &self,
        system: &mut ActorSystem<A>,
        message: A::Message,
        sender: ActorRef,
        promise: Option<u64>,
    )
        requires
            old(system).wf(),
        ensures
            final(system).wf(),
            old(system).grows(final(system)),
            ActorSystem::sent(
                *old(system),
                *final(system),
                ActorRef::of_cell_spec(self.id),
                message,
                sender,
                promise,
                ActorSystem::reachable(*old(system), ActorRef::of_cell_spec(self.id)),
            ),
    {
        let target = ActorRef::new(*self);
        let _ = system.enqueue_message(target, message, sender, promise);
    }

    /// Enqueues a system command on the cell that the handle names. The
    /// promise of a command for a cell that is gone fails.
    pub fn enqueue_system_message<A: Actor>(
        &self,
        system: &mut ActorSystem<A>,
        message: SystemMessage,
    )
        requires
            old(system).wf(),
        ensures
            final(system).wf(),
            old(system).grows(final(system)),
            ActorSystem::commanded(
                *old(system),
                *final(system),
                ActorRef::of_cell_spec(self.id),
                message,
                ActorSystem::registered_cell(*old(system), ActorRef::of_cell_spec(self.id)),
            ),
    {
        let target = ActorRef::new(*self);
        let _ = system.enqueue_system_message(target, message);
    }
}

/// Something an actor has observed, in the order in which it observed it.
pub enum Event<M> {
    /// The start hook ran.
    Started,
    /// The handler was given this message, sent by this reference.
    Handled { message: M, sender: ActorRef },
    /// The stop hook ran.
    Stopped,
}

/// What a completion is, without what it carries.
pub enum Outcome {
    Responded(u64),
    Replied(u64),
    Stopped(u64),
    Failed(u64, ErrorKind),
    Rejected(ErrorKind),
}

/// The outcome that a completion stands for.
pub open spec fn outcome<A: Actor>(completion: Completion<A>) -> Outcome {
    match completion {
        Completion::Responded { promise, .. } => Outcome::Responded(promise),
        Completion::Replied { promise, .. } => Outcome::Replied(promise),
        Completion::Stopped { promise } => Outcome::Stopped(promise),
        Completion::Failed { promise, error } => Outcome::Failed(promise, error),
        Completion::Rejected { error } => Outcome::Rejected(error),
    }
}

/// The outcomes of a list of completions, in order.
pub open spec fn outcomes<A: Actor>(completions: Seq<Completion<A>>) -> Seq<Outcome> {
    completions.map_values(|completion: Completion<A>| outcome(completion))
}

/// How many entries of `pending` one batch of at most `max` runs: it ends
/// behind the first stop command, at the limit, or where the mailbox ends.
pub open spec fn batch_len<M>(pending: Seq<Envelope<M>>, max: nat) -> nat
    decreases max,
{
    if max == 0 || pending.len() == 0 {
        0
    } else if pending[0] is Stop {
        1
    } else {
        1 + batch_len(pending.skip(1), (max - 1) as nat)
    }
}

/// What the actor observes of one entry.
pub open spec fn observed_one<M>(entry: Envelope<M>) -> Event<M> {
    match entry {
        Envelope::User { message, sender, .. } => Event::Handled { message, sender },
        Envelope::Stop { .. } => Event::Stopped,
    }
}

/// What the actor observes of a batch, in order.
pub open spec fn observed<M>(batch: Seq<Envelope<M>>) -> Seq<Event<M>> {
    batch.map_values(|entry: Envelope<M>| observed_one(entry))
}

/// The outcomes that running a batch owes: one response for each response-sink
/// and the completion of the stop command, in the order of the entries.
pub open spec fn owed<M>(batch: Seq<Envelope<M>>) -> Seq<Outcome>
    decreases batch.len(),
{
    if batch.len() == 0 {
        Seq::empty()
    } else {
        let earlier = owed(batch.drop_last());
        match batch.last() {
            Envelope::User { promise: Some(p), .. } => earlier.push(Outcome::Responded(p)),
            Envelope::User { promise: None, .. } => earlier,
            Envelope::Stop { promise } => earlier.push(Outcome::Stopped(promise)),
        }
    }
}

/// The outcomes that dropping pending entries owes: every promise among them
/// fails, because the actor is gone.
pub open spec fn cancelled<M>(pending: Seq<Envelope<M>>) -> Seq<Outcome>
    decreases pending.len(),
{
    if pending.len() == 0 {
        Seq::empty()
    } else {
        let earlier = cancelled(pending.drop_last());
        match pending.last().promise() {
            Some(p) => earlier.push(Outcome::Failed(p, ErrorKind::ActorDestroyed)),
            None => earlier,
        }
    }
}

/// What dropping pending entries leaves to do: the sender of every user
/// message among them that has a sender is orphaned, in the order of the
/// entries.
pub open spec fn orphaned<A: Actor>(pending: Seq<Envelope<A::Message>>) -> Seq<Deed<A>>
    decreases pending.len(),
{
    if pending.len() == 0 {
        Seq::empty()
    } else {
        let earlier = orphaned::<A>(pending.drop_last());
        match pending.last() {
            Envelope::User { sender, .. } if !sender.is_null_spec() => earlier.push(
                Deed::Orphaned { sender },
            ),
            _ => earlier,
        }
    }
}

/// Dropping pending entries leaves nothing to do but to tell senders.
pub proof fn lemma_orphaned_tell_only<A: Actor>(pending: Seq<Envelope<A::Message>>)
    ensures
        forall|i: int|
            0 <= i < orphaned::<A>(pending).len() ==> (#[trigger] orphaned::<A>(pending)[i])
                is Orphaned,
    decreases pending.len(),
{
    if pending.len() > 0 {
        lemma_orphaned_tell_only::<A>(pending.drop_last());
    }
}

/// Whether a batch ends with the stop command.
pub open spec fn stops<M>(batch: Seq<Envelope<M>>) -> bool {
    batch.len() > 0 && batch.last() is Stop
}

/// A batch never runs more entries than the limit or than the mailbox holds,
/// and no entry before its last is the stop command.
pub proof fn lemma_batch_len_bounds<M>(pending: Seq<Envelope<M>>, max: nat)
    ensures
        batch_len(pending, max) <= max,
        batch_len(pending, max) <= pending.len(),
        forall|i: int| 0 <= i < batch_len(pending, max) - 1 ==> !(#[trigger] pending[i] is Stop),
        batch_len(pending, max) < max && batch_len(pending, max) < pending.len() ==> stops(
            pending.take(batch_len(pending, max) as int),
        ),
    decreases max,
{
    if max == 0 || pending.len() == 0 {
    } else if pending[0] is Stop {
        assert(pending.take(1).last() == pending[0]);
    } else {
        let rest = pending.skip(1);
        lemma_batch_len_bounds(rest, (max - 1) as nat);
        let n = batch_len(rest, (max - 1) as nat);
        assert forall|i: int| 0 <= i < batch_len(pending, max) - 1 implies !(
        #[trigger] pending[i] is Stop) by {
            if i > 0 {
                assert(rest[i - 1] == pending[i]);
            }
        }
        if n < max - 1 && n < rest.len() {
            assert(rest.take(n as int).last() == pending.take(n as int + 1).last());
        }
    }
}

/// The order of an actor's life, as long as it is registered: the start hook
/// first, then messages only.
pub open spec fn lifecycle<M>(journal: Seq<Event<M>>) -> bool {
    &&& journal.len() >= 1
    &&& journal[0] is Started
    &&& forall|i: int| 1 <= i < journal.len() ==> (#[trigger] journal[i]) is Handled
}

/// The order of a whole life: the start hook first, the stop hook last, and
/// messages only in between.
pub open spec fn ended<M>(journal: Seq<Event<M>>) -> bool {
    &&& journal.len() >= 2
    &&& journal[0] is Started
    &&& journal.last() is Stopped
    &&& forall|i: int| 1 <= i < journal.len() - 1 ==> (#[trigger] journal[i]) is Handled
}

/// An actor that has seen its start hook and then messages only sees, in any
/// batch, messages only; and where the batch holds the stop command, the stop
/// hook after them and nothing after it.
pub proof fn lemma_lifecycle_order<M>(journal: Seq<Event<M>>, pending: Seq<Envelope<M>>, max: nat)
    requires
        lifecycle(journal),
    ensures
        ({
            let batch = pending.take(batch_len(pending, max) as int);
            if stops(batch) {
                ended(journal + observed(batch))
            } else {
                lifecycle(journal + observed(batch))
            }
        }),
{
    lemma_batch_len_bounds(pending, max);
    let n = batch_len(pending, max) as int;
    let batch = pending.take(n);
    let after = journal + observed(batch);
    assert(after[0] == journal[0]);
    assert forall|i: int| 1 <= i < after.len() - 1 implies (#[trigger] after[i]) is Handled by {
        if i >= journal.len() {
            let k = i - journal.len();
            assert(batch[k] == pending[k]);
            assert(!(pending[k] is Stop));
            assert(after[i] == observed_one(batch[k]));
        } else {
            assert(after[i] == journal[i]);
        }
    }
    if n > 0 {
        assert(after.last() == observed_one(batch.last()));
    } else {
        assert(after =~= journal);
    }
}

/// First in, first out. Of two entries of a mailbox, whenever the later one
/// has been observed, the earlier one has been observed before it: the place
/// of each in the actor's journal is its place in the mailbox, behind
/// whatever the actor had observed before.
pub proof fn lemma_fifo<M>(
    journal: Seq<Event<M>>,
    pending: Seq<Envelope<M>>,
    earlier: int,
    later: int,
    run: int,
)
    requires
        0 <= earlier < later < pending.len(),
        later < run <= pending.len(),
    ensures
        (journal + observed(pending.take(run)))[journal.len() + earlier] == observed_one(
            pending[earlier],
        ),
        (journal + observed(pending.take(run)))[journal.len() + later] == observed_one(
            pending[later],
        ),
        journal.len() + earlier < journal.len() + later,
{
}

/// Two batches that follow one another observe, together, one stretch of the
/// mailbox, in its order.
pub proof fn lemma_batches_in_order<M>(pending: Seq<Envelope<M>>, first: nat, second: nat)
    ensures
        ({
            let n1 = batch_len(pending, first) as int;
            let n2 = batch_len(pending.skip(n1), second) as int;
            &&& n1 + n2 <= pending.len()
            &&& observed(pending.take(n1)) + observed(pending.skip(n1).take(n2)) == observed(
                pending.take(n1 + n2),
            )
        }),
{
    lemma_batch_len_bounds(pending, first);
    let n1 = batch_len(pending, first) as int;
    lemma_batch_len_bounds(pending.skip(n1), second);
    let n2 = batch_len(pending.skip(n1), second) as int;
    assert(pending.take(n1) + pending.skip(n1).take(n2) =~= pending.take(n1 + n2));
    assert(observed(pending.take(n1)) + observed(pending.skip(n1).take(n2)) =~= observed(
        pending.take(n1 + n2),
    ));
}

/// The outcomes of two lists of completions, one behind the other, are the
/// outcomes of the one behind those of the other.
pub proof fn lemma_outcomes_add<A: Actor>(first: Seq<Completion<A>>, second: Seq<Completion<A>>)
    ensures
        outcomes(first + second) == outcomes(first) + outcomes(second),
{
    assert(outcomes(first + second) =~= outcomes(first) + outcomes(second));
}

/// The runtime envelope around one actor: its identifier, its mailbox, its
/// scheduling state, and the actor itself, unless a worker has checked the
/// actor out with a batch.
pub struct ActorCell<A: Actor> {
    id: u128,
    mailbox: Mailbox<A>,
    status: ActorStatus,
    actor: Option<A>,
    lease: u64,
    journal: Ghost<Seq<Event<A::Message>>>,
}

impl<A: Actor> ActorCell<A> {
    pub closed spec fn id_spec(&self) -> u128 {
        self.id
    }

    pub closed spec fn status_spec(&self) -> ActorStatus {
        self.status
    }

    /// The pending entries, oldest first.
    pub closed spec fn pending(&self) -> Seq<Envelope<A::Message>> {
        self.mailbox@
    }

    /// Everything the actor had observed when it was last in the cell.
    pub closed spec fn journal(&self) -> Seq<Event<A::Message>> {
        self.journal@
    }

    /// The actor; `None` while a batch has it.
    pub closed spec fn actor_spec(&self) -> Option<A> {
        self.actor
    }

    /// Whether a batch of the cell is checked out: a worker runs, or is
    /// about to run, the actor's handlers.
    pub open spec fn running(&self) -> bool {
        self.actor_spec() is None
    }

    /// The number under which the actor was last lent out.
    pub closed spec fn lease_spec(&self) -> u64 {
        self.lease
    }

    pub closed spec fn wf(&self) -> bool {
        self.mailbox.wf()
    }

    /// Whether two cells differ in nothing but their status.
    pub open spec fn same_but_status(&self, other: &Self) -> bool {
        &&& other.id_spec() == self.id_spec()
        &&& other.pending() == self.pending()
        &&& other.journal() == self.journal()
        &&& other.actor_spec() == self.actor_spec()
        &&& other.lease_spec() == self.lease_spec()
        &&& other.wf() == self.wf()
    }

    /// A new, idle cell with an empty mailbox, whose actor has observed nothing.
    pub fn new(id: u128, actor: A) -> (cell: Self)
        ensures
            cell.wf(),
            cell.id_spec() == id,
            cell.status_spec() == ActorStatus::Idle,
            cell.pending() == Seq::<Envelope<A::Message>>::empty(),
            cell.journal() == Seq::<Event<A::Message>>::empty(),
            cell.actor_spec() == Some(actor),
            cell.lease_spec() == 0,
    {
        ActorCell {
            id,
            mailbox: Mailbox::new(),
            status: ActorStatus::Idle,
            actor: Some(actor),
            lease: 0,
            journal: Ghost(Seq::empty()),
        }
    }

    pub fn id(&self) -> (id: u128)
        ensures
            id == self.id_spec(),
    {
        self.id
    }

    pub fn status(&self) -> (status: ActorStatus)
        ensures
            status == self.status_spec(),
    {
        self.status
    }

    /// The actor, to look at; `None` while a batch has it.
    pub fn actor(&self) -> (actor: Option<&A>)
        ensures
            actor is Some == self.actor_spec() is Some,
            actor is Some ==> *actor.unwrap() == self.actor_spec().unwrap(),
    {
        self.actor.as_ref()
    }

    /// Whether a batch of the cell is checked out.
    pub fn is_running(&self) -> (running: bool)
        ensures
            running == self.running(),
    {
        self.actor.is_none()
    }

    pub fn lease(&self) -> (lease: u64)
        ensures
            lease == self.lease_spec(),
    {
        self.lease
    }

    /// Whether nothing is pending.
    pub fn is_empty(&self) -> (empty: bool)
        ensures
            empty == (self.pending().len() == 0),
    {
        self.mailbox.is_empty()
    }

    /// Runs the start hook, unless a batch has the actor.
    pub fn on_start(&mut self)
        requires
            old(self).wf(),
        ensures
            final(self).wf(),
            match old(self).actor_spec() {
                Some(before) => final(self).actor_spec() matches Some(after) && A::starts(
                    before,
                    after,
                ),
                None => final(self).actor_spec() is None,
            },
            final(self).id_spec() == old(self).id_spec(),
            final(self).status_spec() == old(self).status_spec(),
            final(self).pending() == old(self).pending(),
            final(self).lease_spec() == old(self).lease_spec(),
            final(self).running() == old(self).running(),
            final(self).journal() == if old(self).running() {
                old(self).journal()
            } else {
                old(self).journal().push(Event::Started)
            },
    {
        match self.actor.take() {
            Some(mut actor) => {
                actor.on_start();
                self.actor = Some(actor);
                proof {
                    self.journal@ = self.journal@.push(Event::Started);
                }
            },
            None => {},
        }
    }

    pub fn set_status(&mut self, status: ActorStatus)
        ensures
            final(self).status_spec() == status,
            old(self).same_but_status(final(self)),
    {
        self.status = status;
    }

    /// The transition that an enqueue makes: an idle cell becomes scheduled
    /// and must be handed to the scheduler, which the result says.
    fn dispatch(&mut self) -> (submit: bool)
        ensures
            submit == (old(self).status_spec() == ActorStatus::Idle),
            final(self).status_spec() == (if submit {
                ActorStatus::Scheduled
            } else {
                old(self).status_spec()
            }),
            old(self).same_but_status(final(self)),
    {
        if !self.status.is_idle() {
            return false;
        }
        self.set_status(ActorStatus::Scheduled);
        true
    }

    /// Appends a user message. A terminated cell refuses it and stays as it
    /// is; otherwise the result says whether the cell was idle, has become
    /// scheduled and must now be handed to the scheduler.
    pub fn enqueue_message(
        &mut self,
        message: A::Message,
        sender: ActorRef,
        promise: Option<u64>,
    ) -> (submit: Result<bool, ErrorKind>)
        requires
            old(self).wf(),
        ensures
            final(self).wf(),
            final(self).id_spec() == old(self).id_spec(),
            final(self).journal() == old(self).journal(),
            final(self).actor_spec() == old(self).actor_spec(),
            final(self).lease_spec() == old(self).lease_spec(),
            old(self).status_spec() == ActorStatus::Terminated ==> submit == Err::<bool, ErrorKind>(
                ErrorKind::ActorDestroyed,
            ) && final(self).pending() == old(self).pending() && final(self).status_spec()
                == ActorStatus::Terminated,
            old(self).status_spec() != ActorStatus::Terminated ==> submit == Ok::<bool, ErrorKind>(
                old(self).status_spec() == ActorStatus::Idle,
            ) && final(self).pending() == old(self).pending().push(
                Envelope::User { message, sender, promise },
            ) && final(self).status_spec() == ActorStatus::Scheduled,
    {
        if self.status == ActorStatus::Terminated {
            return Err(ErrorKind::ActorDestroyed);
        }
        self.mailbox.push(message, sender, promise);
        Ok(self.dispatch())
    }

    /// Appends a system command behind whatever is pending, with the same
    /// transitions as a user message.
    pub fn enqueue_system_message(&mut self, message: SystemMessage) -> (submit: Result<
        bool,
        ErrorKind,
    >)
        requires
            old(self).wf(),
        ensures
            final(self).wf(),
            final(self).id_spec() == old(self).id_spec(),
            final(self).journal() == old(self).journal(),
            final(self).actor_spec() == old(self).actor_spec(),
            final(self).lease_spec() == old(self).lease_spec(),
            old(self).status_spec() == ActorStatus::Terminated ==> submit == Err::<bool, ErrorKind>(
                ErrorKind::ActorDestroyed,
            ) && final(self).pending() == old(self).pending() && final(self).status_spec()
                == ActorStatus::Terminated,
            old(self).status_spec() != ActorStatus::Terminated ==> submit == Ok::<bool, ErrorKind>(
                old(self).status_spec() == ActorStatus::Idle,
            ) && final(self).pending() == old(self).pending().push(
                MailboxMessage::<A>::System(message)@,
            ) && final(self).status_spec() == ActorStatus::Scheduled,
    {
        if self.status == ActorStatus::Terminated {
            return Err(ErrorKind::ActorDestroyed);
        }
        self.mailbox.push_system_message(message);
        Ok(self.dispatch())
    }

    /// Takes up to `count` entries off the head of the mailbox, oldest first.
    pub fn next_batch_to_process(&mut self, count: usize) -> (batch: VecDeque<MailboxMessage<A>>)
        requires
            old(self).wf(),
        ensures
            final(self).wf(),
            final(self).id_spec() == old(self).id_spec(),
            final(self).status_spec() == old(self).status_spec(),
            final(self).journal() == old(self).journal(),
            final(self).actor_spec() == old(self).actor_spec(),
            final(self).lease_spec() == old(self).lease_spec(),
            batch@.len() == if count <= old(self).pending().len() {
                count as int
            } else {
                old(self).pending().len() as int
            },
            batch@.map_values(|entry: MailboxMessage<A>| entry@) == old(self).pending().take(
                batch@.len() as int,
            ),
            forall|i: int| 0 <= i < batch@.len() ==> (#[trigger] batch@[i]).wf(),
            final(self).pending() == old(self).pending().skip(batch@.len() as int),
    {
        let mut v: VecDeque<MailboxMessage<A>> = VecDeque::new();
        let ghost pending = self.mailbox@;
        let mut taken: usize = 0;
        while taken < count
            invariant
                self.mailbox.wf(),
                self.id == old(self).id,
                self.status == old(self).status,
                self.journal@ == old(self).journal@,
                self.actor == old(self).actor,
                self.lease == old(self).lease,
                pending == old(self).mailbox@,
                taken <= count,
                taken <= pending.len(),
                v@.len() == taken,
                v@.map_values(|entry: MailboxMessage<A>| entry@) =~= pending.take(taken as int),
                forall|i: int| 0 <= i < v@.len() ==> (#[trigger] v@[i]).wf(),
                self.mailbox@ =~= pending.skip(taken as int),
            decreases count - taken,
        {
            match self.mailbox.pop() {
                Some(message) => {
                    v.push_back(message);
                    taken = taken + 1;
                },
                None => {
                    return v;
                },
            }
        }
        v
    }

    /// Checks a batch out under `lease`: the entries that one batch of at
    /// most `max_count` runs leave the mailbox, and the actor leaves the
    /// cell with them. A cell that is terminated, or whose actor is out,
    /// gives no batch and stays as it is.
    pub fn checkout(&mut self, max_count: usize, lease: u64) -> (batch: Option<Batch<A>>)
        requires
            old(self).wf(),
        ensures
            final(self).wf(),
            final(self).id_spec() == old(self).id_spec(),
            final(self).status_spec() == old(self).status_spec(),
            final(self).journal() == old(self).journal(),
            batch is None == (old(self).status_spec() == ActorStatus::Terminated
                || old(self).running()),
            batch is None ==> {
                &&& final(self).pending() == old(self).pending()
                &&& final(self).actor_spec() == old(self).actor_spec()
                &&& final(self).lease_spec() == old(self).lease_spec()
            },
            batch matches Some(out) ==> {
                let count = batch_len(old(self).pending(), max_count as nat) as int;
                &&& final(self).running()
                &&& final(self).lease_spec() == lease
                &&& final(self).pending() == old(self).pending().skip(count)
                &&& out.wf()
                &&& out.id_spec() == old(self).id_spec()
                &&& out.lease_spec() == lease
                &&& Some(out.actor_spec()) == old(self).actor_spec()
                &&& out.waiting() == old(self).pending().take(count)
                &&& out.journal() == old(self).journal()
                &&& out.handled_spec() == 0
                &&& !out.stopped_spec()
                &&& out.deeds() == Seq::<Deed<A>>::empty()
                &&& out.settled() == Seq::<Completion<A>>::empty()
            },
    {
        if self.status == ActorStatus::Terminated {
            return None;
        }
        let actor = match self.actor.take() {
            Some(actor) => actor,
            None => {
                return None;
            },
        };
        let ghost pending = self.mailbox@;
        let mut entries: VecDeque<MailboxMessage<A>> = VecDeque::new();
        let mut count: usize = 0;
        let mut halted = false;
        proof {
            assert(pending.skip(0) =~= pending);
        }
        loop
            invariant
                self.mailbox.wf(),
                self.id == old(self).id,
                self.status == old(self).status,
                self.journal@ == old(self).journal@,
                self.lease == old(self).lease,
                self.actor is None,
                pending == old(self).mailbox@,
                count <= max_count,
                count <= pending.len(),
                self.mailbox@ == pending.skip(count as int),
                entries@.len() == count,
                entries@.map_values(|entry: MailboxMessage<A>| entry@) =~= pending.take(
                    count as int,
                ),
                forall|i: int| 0 <= i < entries@.len() ==> (#[trigger] entries@[i]).wf(),
                halted == stops(pending.take(count as int)),
                forall|i: int| 0 <= i < count - 1 ==> !(#[trigger] pending[i] is Stop),
                batch_len(pending, max_count as nat) == (if halted {
                    count as int
                } else {
                    count + batch_len(pending.skip(count as int), (max_count - count) as nat)
                }),
            ensures
                batch_len(pending, max_count as nat) == count,
            decreases max_count - count,
        {
            if count >= max_count || halted {
                break ;
            }
            match self.mailbox.pop() {
                Some(message) => {
                    proof {
                        assert(message@ == pending[count as int]);
                        assert(pending.skip(count as int)[0] == pending[count as int]);
                        assert(pending.skip(count as int).skip(1) =~= pending.skip(count + 1));
                        assert(pending.take(count + 1).last() == pending[count as int]);
                        if count > 0 {
                            assert(pending.take(count as int).last() == pending[count - 1]);
                        }
                    }
                    halted = match &message {
                        MailboxMessage::System(_) => true,
                        MailboxMessage::User(_) => false,
                    };
                    entries.push_back(message);
                    count = count + 1;
                },
                None => {
                    break ;
                },
            }
        }
        proof {
            let cut = entries@.map_values(|entry: MailboxMessage<A>| entry@);
            assert(well_cut(cut)) by {
                assert forall|i: int| 0 <= i < cut.len() - 1 implies !(
                #[trigger] cut[i] is Stop) by {
                    assert(cut[i] == pending[i]);
                }
            }
        }
        self.lease = lease;
        Some(Batch::new(self.id, lease, actor, entries, Ghost(self.journal@)))
    }

    /// Takes a batch back that has run. Where the batch is the one that the
    /// cell has out, under the same lease, the actor is back in the cell
    /// with what it has observed, and a batch that ran the stop command
    /// leaves the cell terminated; any other batch leaves the cell as it is,
    /// and its actor is dropped. Either way what the batch has left to do
    /// goes to `deeds`, and what the batch owes to `completions`.
    pub fn checkin(
        &mut self,
        batch: Batch<A>,
        deeds: &mut VecDeque<Deed<A>>,
        completions: &mut Vec<Completion<A>>,
    ) -> (accepted: bool)
        ensures
            final(self).wf() == old(self).wf(),
            final(self).id_spec() == old(self).id_spec(),
            final(self).pending() == old(self).pending(),
            final(self).lease_spec() == old(self).lease_spec(),
            final(deeds)@ == old(deeds)@ + batch.deeds(),
            final(completions)@ == old(completions)@ + batch.settled(),
            accepted == (old(self).running() && old(self).lease_spec() == batch.lease_spec()
                && old(self).id_spec() == batch.id_spec()),
            accepted ==> {
                &&& final(self).actor_spec() == Some(batch.actor_spec())
                &&& final(self).journal() == batch.journal()
                &&& final(self).status_spec() == (if batch.stopped_spec() {
                    ActorStatus::Terminated
                } else {
                    old(self).status_spec()
                })
            },
            !accepted ==> *final(self) == *old(self),
    {
        let accepted = self.actor.is_none() && self.lease == batch.lease() && self.id == batch.id();
        let stopped = batch.stopped();
        let (actor, mut asked, mut owing, journal) = batch.into_parts();
        deeds.append(&mut asked);
        completions.append(&mut owing);
        if accepted {
            self.actor = Some(actor);
            proof {
                self.journal@ = journal@;
            }
            if stopped {
                self.status = ActorStatus::Terminated;
            }
        }
        accepted
    }

    /// Runs one batch of at most `max_count` entries, oldest first, on the
    /// worker of `thread`, and returns how many it ran. The batch ends behind
    /// the stop command, which terminates the cell; whatever is pending
    /// behind the command is then dropped, as `cancel_pending` drops it:
    /// its promises fail and its senders are left to be told. A cell that is
    /// terminated, or whose actor is out, runs nothing. Each response to a
    /// response-sink goes to `completions`, and what is left to do to
    /// `deeds`.
    pub fn process_messages(
        &mut self,
        max_count: usize,
        thread: ThreadContext,
        deeds: &mut VecDeque<Deed<A>>,
        completions: &mut Vec<Completion<A>>,
    ) -> (count: usize)
        requires
            old(self).wf(),
        ensures
            final(self).wf(),
            final(self).id_spec() == old(self).id_spec(),
            final(self).running() == old(self).running(),
            old(deeds)@.is_prefix_of(final(deeds)@),
            old(completions)@.is_prefix_of(final(completions)@),
            old(self).status_spec() == ActorStatus::Terminated || old(self).running() ==> {
                &&& count == 0
                &&& final(self).pending() == old(self).pending()
                &&& final(self).journal() == old(self).journal()
                &&& final(self).actor_spec() == old(self).actor_spec()
                &&& final(self).status_spec() == old(self).status_spec()
                &&& final(completions)@ == old(completions)@
                &&& final(deeds)@ == old(deeds)@
            },
            old(self).status_spec() != ActorStatus::Terminated && !old(self).running() ==> {
                let batch = old(self).pending().take(count as int);
                let rest = old(self).pending().skip(count as int);
                &&& count == batch_len(old(self).pending(), max_count as nat)
                &&& final(self).pending() == (if stops(batch) {
                    Seq::<Envelope<A::Message>>::empty()
                } else {
                    rest
                })
                &&& final(self).journal() == old(self).journal() + observed(batch)
                &&& final(self).status_spec() == (if stops(batch) {
                    ActorStatus::Terminated
                } else {
                    old(self).status_spec()
                })
                &&& outcomes(final(completions)@) == outcomes(old(completions)@) + owed(batch)
                    + (if stops(batch) {
                    cancelled(rest)
                } else {
                    Seq::<Outcome>::empty()
                })
                &&& exists|ran: Seq<Deed<A>>, owing: Seq<Completion<A>>|
                    {
                        &&& #[trigger] entries_ran(
                            old(self).id_spec(),
                            thread,
                            old(self).actor_spec().unwrap(),
                            batch,
                            final(self).actor_spec().unwrap(),
                            ran,
                            owing,
                        )
                        &&& final(deeds)@ == old(deeds)@ + ran + (if stops(batch) {
                            orphaned::<A>(rest)
                        } else {
                            Seq::<Deed<A>>::empty()
                        })
                        &&& (old(completions)@ + owing).is_prefix_of(final(completions)@)
                        &&& !stops(batch) ==> final(completions)@ == old(completions)@ + owing
                    }
            },
    {
        let lease = self.lease;
        match self.checkout(max_count, lease) {
            None => 0,
            Some(mut batch) => {
                let ghost out = batch;
                let count = batch.run(thread);
                let ghost ran = batch;
                let stopped = batch.stopped();
                let _ = self.checkin(batch, deeds, completions);
                let ghost middle = completions@;
                let ghost asked = deeds@;
                if stopped {
                    self.cancel_pending(deeds, completions);
                }
                proof {
                    let taken = old(self).pending().take(count as int);
                    let rest = old(self).pending().skip(count as int);
                    lemma_outcomes_add(old(completions)@, ran.settled());
                    assert(outcomes(out.settled()) =~= Seq::<Outcome>::empty());
                    assert(outcomes(ran.settled()) =~= owed(out.waiting()));
                    assert(count == batch_len(old(self).pending(), max_count as nat)) by {
                        lemma_batch_len_bounds(old(self).pending(), max_count as nat);
                    }
                    assert(out.waiting() == taken);
                    assert(ran.deeds() =~= Seq::<Deed<A>>::empty() + ran.deeds());
                    assert(ran.settled() =~= Seq::<Completion<A>>::empty() + ran.settled());
                    let (done, owing) = choose|done: Seq<Deed<A>>, owing: Seq<Completion<A>>|
                        {
                            &&& #[trigger] entries_ran(
                                out.id_spec(),
                                thread,
                                out.actor_spec(),
                                out.waiting(),
                                ran.actor_spec(),
                                done,
                                owing,
                            )
                            &&& ran.deeds() == out.deeds() + done
                            &&& ran.settled() == out.settled() + owing
                        };
                    assert(done =~= ran.deeds());
                    assert(owing =~= ran.settled());
                    assert(middle == old(completions)@ + owing);
                    assert(asked == old(deeds)@ + done);
                    if !stopped {
                        assert(deeds@ =~= old(deeds)@ + done + Seq::<Deed<A>>::empty());
                        assert(outcomes(completions@) =~= outcomes(old(completions)@) + owed(taken)
                            + Seq::<Outcome>::empty());
                    }
                    assert(entries_ran(
                        old(self).id_spec(),
                        thread,
                        old(self).actor_spec().unwrap(),
                        taken,
                        self.actor_spec().unwrap(),
                        done,
                        owing,
                    ));
                }
                count
            },
        }
    }

    /// Ends a batch: an empty mailbox makes the cell idle; otherwise it stays
    /// scheduled and the result asks for it to be handed to the scheduler
    /// again. A terminated cell stays terminated.
    pub fn set_idle_or_dispatch(&mut self) -> (resubmit: bool)
        ensures
            old(self).same_but_status(final(self)),
            resubmit == (old(self).status_spec() != ActorStatus::Terminated
                && old(self).pending().len() > 0),
            final(self).status_spec() == (if old(self).status_spec() == ActorStatus::Terminated {
                ActorStatus::Terminated
            } else if resubmit {
                ActorStatus::Scheduled
            } else {
                ActorStatus::Idle
            }),
    {
        if self.status == ActorStatus::Terminated {
            return false;
        }
        if self.mailbox.is_empty() {
            self.set_status(ActorStatus::Idle);
            false
        } else {
            self.set_status(ActorStatus::Scheduled);
            true
        }
    }

    /// Drops whatever is pending: every promise among the entries fails,
    /// because the actor is gone, and every sender is left to be told.
    pub fn cancel_pending(
        &mut self,
        deeds: &mut VecDeque<Deed<A>>,
        completions: &mut Vec<Completion<A>>,
    )
        requires
            old(self).wf(),
        ensures
            final(deeds)@ == old(deeds)@ + orphaned::<A>(old(self).pending()),
            final(self).wf(),
            final(self).id_spec() == old(self).id_spec(),
            final(self).status_spec() == old(self).status_spec(),
            final(self).journal() == old(self).journal(),
            final(self).actor_spec() == old(self).actor_spec(),
            final(self).lease_spec() == old(self).lease_spec(),
            final(self).pending() == Seq::<Envelope<A::Message>>::empty(),
            outcomes(final(completions)@) == outcomes(old(completions)@) + cancelled(
                old(self).pending(),
            ),
            old(completions)@.is_prefix_of(final(completions)@),
    {
        let ghost pending = self.mailbox@;
        let ghost mut done: int = 0;
        proof {
            assert(pending.take(0) =~= Seq::<Envelope<A::Message>>::empty());
            assert(outcomes(completions@) =~= outcomes(old(completions)@) + cancelled(
                pending.take(0),
            ));
            assert(deeds@ =~= old(deeds)@ + orphaned::<A>(pending.take(0)));
        }
        loop
            invariant
                self.mailbox.wf(),
                deeds@ == old(deeds)@ + orphaned::<A>(pending.take(done)),
                self.id == old(self).id,
                self.status == old(self).status,
                self.journal@ == old(self).journal@,
                self.actor == old(self).actor,
                self.lease == old(self).lease,
                pending == old(self).mailbox@,
                0 <= done <= pending.len(),
                self.mailbox@ == pending.skip(done),
                outcomes(completions@) == outcomes(old(completions)@) + cancelled(
                    pending.take(done),
                ),
                old(completions)@.is_prefix_of(completions@),
            ensures
                done == pending.len(),
                self.mailbox@.len() == 0,
            decreases pending.len() - done,
        {
            match self.mailbox.pop() {
                Some(message) => {
                    proof {
                        assert(pending.take(done + 1).drop_last() =~= pending.take(done));
                        assert(pending.take(done + 1).last() == message@);
                        assert(pending.skip(done).skip(1) =~= pending.skip(done + 1));
                    }
                    let ghost entry = message@;
                    let ghost left = deeds@;
                    let promise = match message {
                        MailboxMessage::User(wrapper) => {
                            let sender = wrapper.sender();
                            if !sender.is_null() {
                                deeds.push_back(Deed::Orphaned { sender });
                            }
                            wrapper.into_promise()
                        },
                        MailboxMessage::System(SystemMessage::Stop(promise)) => Some(promise),
                    };
                    assert(promise == entry.promise());
                    assert(entry == pending[done]);
                    assert(deeds@ =~= old(deeds)@ + orphaned::<A>(pending.take(done + 1)));
                    match promise {
                        Some(p) => {
                            let ghost settled = completions@;
                            completions.push(
                                Completion::Failed { promise: p, error: ErrorKind::ActorDestroyed },
                            );
                            assert(outcomes(completions@) =~= outcomes(settled).push(
                                Outcome::Failed(p, ErrorKind::ActorDestroyed),
                            ));
                            assert(cancelled(pending.take(done + 1)) =~= cancelled(
                                pending.take(done),
                            ).push(Outcome::Failed(p, ErrorKind::ActorDestroyed)));
                        },
                        None => {
                            assert(outcomes(completions@) =~= outcomes(old(completions)@)
                                + cancelled(pending.take(done + 1)));
                        },
                    }
                    proof {
                        done = done + 1;
                    }
                },
                None => {
                    break ;
                },
            }
        }
        proof {
            assert(pending.take(pending.len() as int) =~= pending);
            assert(self.mailbox@ =~= Seq::<Envelope<A::Message>>::empty());
        }
    }
}

} // verus!
