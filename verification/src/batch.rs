use vstd::prelude::*;
use std::collections::VecDeque;
use crate::actor::{asked_all, deeds_of, Actor, ActorResponse, Completion, Deed};
use crate::actor_cell::{
    lifecycle,
    observed,
    observed_one,
    outcome,
    outcomes,
    owed,
    stops,
    ActorCellHandle,
    Event,
    Outcome,
};
use crate::actor_ref::ActorRef;
use crate::context::{ActorContext, ThreadContext};
use crate::mailbox::{settled_as, Envelope, Handled, MailboxMessage, SystemMessage};

verus! {

/// Whether no entry but the last is the stop command.
pub open spec fn well_cut<M>(entries: Seq<Envelope<M>>) -> bool {
    forall|i: int| 0 <= i < entries.len() - 1 ==> !(#[trigger] entries[i] is Stop)
}

/// Entries without the stop command leave an actor that has seen its start
/// hook and then messages only as such an actor.
pub proof fn lemma_messages_keep_lifecycle<M>(journal: Seq<Event<M>>, entries: Seq<Envelope<M>>)
    requires
        lifecycle(journal),
        well_cut(entries),
        !stops(entries),
    ensures
        lifecycle(journal + observed(entries)),
{
    let after = journal + observed(entries);
    assert(after[0] == journal[0]);
    assert forall|i: int| 1 <= i < after.len() implies (#[trigger] after[i]) is Handled by {
        if i >= journal.len() {
            let k = i - journal.len();
            assert(after[i] == observed_one(entries[k]));
            if k == entries.len() - 1 {
                assert(entries.last() == entries[k]);
            }
        } else {
            assert(after[i] == journal[i]);
        }
    }
}

/// What becomes of a response that no sink claims: where the message had a
/// sender and the response gives a value, it is left for the system to hand
/// to the sender; otherwise it is dropped.
pub fn unclaimed<A: Actor>(sender: ActorRef, response: ActorResponse<A::Response>) -> (deed:
    Option<Deed<A>>)
    ensures
        deed == if !sender.is_null_spec() && response.gives_spec() {
            Some(Deed::<A>::Answered { sender, response })
        } else {
            None
        },
{
    if !sender.is_null() && response.gives() {
        Some(Deed::Answered { sender, response })
    } else {
        None
    }
}

/// What becomes of a completion whose response is deferred: the promise is
/// left to wait for the task.
pub fn deferral<A: Actor>(completion: &Completion<A>) -> (deed: Option<Deed<A>>)
    ensures
        deed == match *completion {
            Completion::Responded { promise, response: ActorResponse::Async(task) } => Some(
                Deed::<A>::Deferred { task, promise },
            ),
            _ => None,
        },
{
    match completion {
        Completion::Responded { promise, response: ActorResponse::Async(task) } => Some(
            Deed::Deferred { task: *task, promise: *promise },
        ),
        _ => None,
    }
}

/// What a handler's response leaves for the system to do, besides what the
/// handler asked for. A deferred response to a response-sink leaves the
/// promise to wait for the task. A response to a message without a sink, but
/// with a sender, is left for the sender where it gives a value.
pub open spec fn left_for<A: Actor>(
    sender: ActorRef,
    promise: Option<u64>,
    response: ActorResponse<A::Response>,
) -> Seq<Deed<A>> {
    match promise {
        Some(p) => match response {
            ActorResponse::Async(task) => seq![Deed::Deferred { task, promise: p }],
            _ => Seq::empty(),
        },
        None => if !sender.is_null_spec() && response.gives_spec() {
            seq![Deed::Answered { sender, response }]
        } else {
            Seq::empty()
        },
    }
}

/// What a handler's response owes: the response to the sink, where the
/// message came with one.
pub open spec fn owed_for<A: Actor>(
    promise: Option<u64>,
    response: ActorResponse<A::Response>,
) -> Seq<Completion<A>> {
    match promise {
        Some(p) => seq![Completion::Responded { promise: p, response }],
        None => Seq::empty(),
    }
}

/// What running one entry of cell `id` on the worker of `thread` does. A
/// user message goes to the handler, under a fresh context for the cell, the
/// message's sender and the thread: the actor is as the handler left it, and
/// `deeds` are what the handler asked for and what its response leaves to do,
/// `owing` what its response owes. The stop command runs the stop hook, and
/// owes its promise the word that the actor has stopped.
pub open spec fn entry_ran<A: Actor>(
    id: u128,
    thread: ThreadContext,
    actor: A,
    entry: Envelope<A::Message>,
    after: A,
    deeds: Seq<Deed<A>>,
    owing: Seq<Completion<A>>,
) -> bool {
    match entry {
        Envelope::User { message, sender, promise } => exists|
            given: ActorContext<A::Message, A, A::Response>,
            left: ActorContext<A::Message, A, A::Response>,
            response: ActorResponse<A::Response>,
        |
            {
                &&& given.self_ref_spec() == ActorRef::of_cell_spec(id)
                &&& given.sender_spec() == sender
                &&& given.thread_spec() == thread
                &&& given.effects().len() == 0
                &&& #[trigger] A::handles(actor, given, message, after, left, response)
                &&& deeds == asked_all::<A>(left.effects()) + left_for::<A>(
                    sender,
                    promise,
                    response,
                )
                &&& owing == owed_for::<A>(promise, response)
            },
        Envelope::Stop { promise } => {
            &&& A::ends(actor, after)
            &&& deeds == Seq::<Deed<A>>::empty()
            &&& owing == seq![Completion::<A>::Stopped { promise }]
        },
    }
}

/// Whether `deeds` and `owing` are what came earlier followed by what came
/// last.
pub open spec fn ends_with<A: Actor>(
    deeds: Seq<Deed<A>>,
    owing: Seq<Completion<A>>,
    earlier: Seq<Deed<A>>,
    owed: Seq<Completion<A>>,
    last: Seq<Deed<A>>,
    due: Seq<Completion<A>>,
) -> bool {
    deeds == earlier + last && owing == owed + due
}

/// What running entries one after the other does, each on the actor as the
/// one before it left it.
pub open spec fn entries_ran<A: Actor>(
    id: u128,
    thread: ThreadContext,
    actor: A,
    entries: Seq<Envelope<A::Message>>,
    after: A,
    deeds: Seq<Deed<A>>,
    owing: Seq<Completion<A>>,
) -> bool
    decreases entries.len(),
{
    if entries.len() == 0 {
        after == actor && deeds == Seq::<Deed<A>>::empty() && owing == Seq::<
            Completion<A>,
        >::empty()
    } else {
        exists|
            middle: A,
            earlier: Seq<Deed<A>>,
            owed: Seq<Completion<A>>,
            last: Seq<Deed<A>>,
            due: Seq<Completion<A>>,
        |
            #![trigger
                entry_ran(id, thread, middle, entries.last(), after, last, due),
                ends_with(deeds, owing, earlier, owed, last, due),
            ]
            {
                &&& entries_ran(id, thread, actor, entries.drop_last(), middle, earlier, owed)
                &&& entry_ran(id, thread, middle, entries.last(), after, last, due)
                &&& ends_with(deeds, owing, earlier, owed, last, due)
            }
    }
}

/// Entries that ran, and one more that ran on the actor as they left it,
/// are entries that ran.
pub proof fn lemma_entries_ran_one_more<A: Actor>(
    id: u128,
    thread: ThreadContext,
    actor: A,
    entries: Seq<Envelope<A::Message>>,
    middle: A,
    earlier: Seq<Deed<A>>,
    owed: Seq<Completion<A>>,
    after: A,
    last: Seq<Deed<A>>,
    due: Seq<Completion<A>>,
)
    requires
        entries.len() > 0,
        entries_ran(id, thread, actor, entries.drop_last(), middle, earlier, owed),
        entry_ran(id, thread, middle, entries.last(), after, last, due),
    ensures
        entries_ran(id, thread, actor, entries, after, earlier + last, owed + due),
{
    assert(ends_with(earlier + last, owed + due, earlier, owed, last, due));
}

/// One batch of one cell, checked out to the worker that runs it: the actor,
/// the entries to run, and, once they have run, what there is for the system
/// to do and what is owed for them. While a batch is out, its cell has no
/// actor, and no inbox asks for the cell: the worker that holds the batch is
/// the only one that can run the actor's handlers.
pub struct Batch<A: Actor> {
    id: u128,
    lease: u64,
    actor: A,
    entries: VecDeque<MailboxMessage<A>>,
    handled: usize,
    stopped: bool,
    deeds: VecDeque<Deed<A>>,
    completions: Vec<Completion<A>>,
    journal: Ghost<Seq<Event<A::Message>>>,
}

impl<A: Actor> Batch<A> {
    /// The cell that the batch was checked out from.
    pub closed spec fn id_spec(&self) -> u128 {
        self.id
    }

    /// The number under which the cell has lent its actor out.
    pub closed spec fn lease_spec(&self) -> u64 {
        self.lease
    }

    pub closed spec fn actor_spec(&self) -> A {
        self.actor
    }

    /// The entries that are still to run, oldest first.
    pub closed spec fn waiting(&self) -> Seq<Envelope<A::Message>> {
        self.entries@.map_values(|entry: MailboxMessage<A>| entry@)
    }

    /// How many entries have run.
    pub closed spec fn handled_spec(&self) -> usize {
        self.handled
    }

    /// Whether the stop command has run.
    pub closed spec fn stopped_spec(&self) -> bool {
        self.stopped
    }

    /// What there is for the system to do for the entries that have run,
    /// oldest first: what the handlers asked for, and their responses to
    /// messages that came without a response-sink.
    pub closed spec fn deeds(&self) -> Seq<Deed<A>> {
        self.deeds@
    }

    /// What is owed for the entries that have run, oldest first.
    pub closed spec fn settled(&self) -> Seq<Completion<A>> {
        self.completions@
    }

    /// Everything the actor has observed, the entries that have run included.
    pub closed spec fn journal(&self) -> Seq<Event<A::Message>> {
        self.journal@
    }

    pub closed spec fn wf(&self) -> bool {
        &&& forall|i: int| 0 <= i < self.entries@.len() ==> (#[trigger] self.entries@[i]).wf()
        &&& well_cut(self.waiting())
        &&& self.handled + self.entries@.len() <= usize::MAX
        &&& self.stopped ==> self.entries@.len() == 0
    }

    /// In a batch, no entry but the last is the stop command.
    pub proof fn lemma_well_cut(&self)
        requires
            self.wf(),
        ensures
            well_cut(self.waiting()),
    {
    }

    /// A batch that is yet to run.
    pub(crate) fn new(
        id: u128,
        lease: u64,
        actor: A,
        entries: VecDeque<MailboxMessage<A>>,
        journal: Ghost<Seq<Event<A::Message>>>,
    ) -> (batch: Self)
        requires
            forall|i: int| 0 <= i < entries@.len() ==> (#[trigger] entries@[i]).wf(),
            well_cut(entries@.map_values(|entry: MailboxMessage<A>| entry@)),
        ensures
            batch.wf(),
            batch.id_spec() == id,
            batch.lease_spec() == lease,
            batch.actor_spec() == actor,
            batch.waiting() == entries@.map_values(|entry: MailboxMessage<A>| entry@),
            batch.handled_spec() == 0,
            !batch.stopped_spec(),
            batch.deeds() == Seq::<Deed<A>>::empty(),
            batch.settled() == Seq::<Completion<A>>::empty(),
            batch.journal() == journal@,
    {
        let _ = entries.len();
        Batch {
            id,
            lease,
            actor,
            entries,
            handled: 0,
            stopped: false,
            deeds: VecDeque::new(),
            completions: Vec::new(),
            journal,
        }
    }

    pub fn id(&self) -> (id: u128)
        ensures
            id == self.id_spec(),
    {
        self.id
    }

    pub fn lease(&self) -> (lease: u64)
        ensures
            lease == self.lease_spec(),
    {
        self.lease
    }

    pub fn handled(&self) -> (handled: usize)
        ensures
            handled == self.handled_spec(),
    {
        self.handled
    }

    pub fn stopped(&self) -> (stopped: bool)
        ensures
            stopped == self.stopped_spec(),
    {
        self.stopped
    }

    /// How many entries are still to run.
    pub fn len(&self) -> (len: usize)
        ensures
            len == self.waiting().len(),
    {
        self.entries.len()
    }

    /// Runs the entries, oldest first, on the worker of `thread`, and returns
    /// how many it ran: all of them. What running them does to the actor,
    /// and what it leaves to do and owes, is `entries_ran`.
    pub fn run(&mut self, thread: ThreadContext) -> (count: usize)
        requires
            old(self).wf(),
        ensures
            final(self).wf(),
            final(self).id_spec() == old(self).id_spec(),
            final(self).lease_spec() == old(self).lease_spec(),
            count == old(self).waiting().len(),
            final(self).waiting().len() == 0,
            final(self).handled_spec() == old(self).handled_spec() + count,
            final(self).journal() == old(self).journal() + observed(old(self).waiting()),
            final(self).stopped_spec() == (old(self).stopped_spec() || stops(
                old(self).waiting(),
            )),
            outcomes(final(self).settled()) == outcomes(old(self).settled()) + owed(
                old(self).waiting(),
            ),
            old(self).settled().is_prefix_of(final(self).settled()),
            old(self).deeds().is_prefix_of(final(self).deeds()),
            exists|deeds: Seq<Deed<A>>, owing: Seq<Completion<A>>|
                {
                    &&& #[trigger] entries_ran(
                        old(self).id_spec(),
                        thread,
                        old(self).actor_spec(),
                        old(self).waiting(),
                        final(self).actor_spec(),
                        deeds,
                        owing,
                    )
                    &&& final(self).deeds() == old(self).deeds() + deeds
                    &&& final(self).settled() == old(self).settled() + owing
                },
    {
        let ghost waiting = self.waiting();
        let ghost mut done_deeds: Seq<Deed<A>> = Seq::empty();
        let ghost mut done_owing: Seq<Completion<A>> = Seq::empty();
        let mut count: usize = 0;
        proof {
            assert(self.deeds@ =~= old(self).deeds@ + done_deeds);
            assert(self.completions@ =~= old(self).completions@ + done_owing);
            assert(waiting.take(0) =~= Seq::<Envelope<A::Message>>::empty());
            assert(observed(waiting.take(0)) =~= Seq::<Event<A::Message>>::empty());
            assert(self.journal@ =~= old(self).journal@ + observed(waiting.take(0)));
            assert(outcomes(self.completions@) =~= outcomes(old(self).completions@) + owed(
                waiting.take(0),
            ));
            assert(waiting.skip(0) =~= waiting);
        }
        loop
            invariant
                waiting == old(self).waiting(),
                well_cut(waiting),
                self.id == old(self).id,
                self.lease == old(self).lease,
                count <= waiting.len(),
                self.waiting() == waiting.skip(count as int),
                forall|i: int| 0 <= i < self.entries@.len() ==> (#[trigger] self.entries@[i]).wf(),
                self.handled == old(self).handled + count,
                self.handled + self.entries@.len() <= usize::MAX,
                self.journal@ == old(self).journal@ + observed(waiting.take(count as int)),
                self.stopped == (old(self).stopped || stops(waiting.take(count as int))),
                self.stopped ==> self.entries@.len() == 0,
                outcomes(self.completions@) == outcomes(old(self).completions@) + owed(
                    waiting.take(count as int),
                ),
                old(self).completions@.is_prefix_of(self.completions@),
                old(self).deeds@.is_prefix_of(self.deeds@),
                entries_ran(
                    self.id,
                    thread,
                    old(self).actor,
                    waiting.take(count as int),
                    self.actor,
                    done_deeds,
                    done_owing,
                ),
                self.deeds@ == old(self).deeds@ + done_deeds,
                self.completions@ == old(self).completions@ + done_owing,
            ensures
                count == waiting.len(),
                self.entries@.len() == 0,
            decreases waiting.len() - count,
        {
            let ghost prior = self.entries@;
            let message = match self.entries.pop_front() {
                Some(message) => message,
                None => {
                    proof {
                        assert(self.waiting().len() == self.entries@.len());
                    }
                    break ;
                },
            };
            let ghost entry = message@;
            let ghost before = waiting.take(count as int);
            let ghost after = waiting.take(count + 1);
            let ghost settled = self.completions@;
            proof {
                assert(prior.map_values(|entry: MailboxMessage<A>| entry@).len() == prior.len());
                assert(entry == prior.map_values(|entry: MailboxMessage<A>| entry@)[0]);
                assert(entry == waiting.skip(count as int)[0]);
                assert(entry == waiting[count as int]);
                assert(self.waiting() =~= waiting.skip(count as int).skip(1));
                assert(waiting.skip(count as int).skip(1) =~= waiting.skip(count + 1));
                assert(after.drop_last() =~= before);
                assert(after.last() == entry);
                assert(observed(after) =~= observed(before).push(observed_one(entry)));
            }
            let ghost actor0 = self.actor;
            let ghost mut last: Seq<Deed<A>> = Seq::empty();
            let ghost mut due: Seq<Completion<A>> = Seq::empty();
            match message {
                MailboxMessage::User(mut inner) => {
                    let sender = inner.sender();
                    let ghost promise = inner.promise_spec();
                    let ghost message = inner.message_spec().unwrap();
                    let self_ref = ActorRef::new(ActorCellHandle::new(self.id));
                    let mut context = ActorContext::new(self_ref, sender, thread);
                    let ghost given = context;
                    let handled = inner.handle(&mut self.actor, &mut context);
                    let ghost left = context;
                    let ghost response = choose|response: ActorResponse<A::Response>|
                        #[trigger] A::handles(actor0, given, message, self.actor, left, response)
                            && handled == settled_as::<A>(promise, response);
                    let mut asked = deeds_of::<A>(context.into_effects());
                    self.deeds.append(&mut asked);
                    match handled {
                        Handled::Settled(c) => {
                            match deferral::<A>(&c) {
                                Some(deed) => {
                                    self.deeds.push_back(deed);
                                },
                                None => {},
                            }
                            self.completions.push(c);
                            assert(outcomes(self.completions@) =~= outcomes(settled).push(
                                outcome(c),
                            ));
                        },
                        Handled::Unclaimed(response) => {
                            match unclaimed::<A>(sender, response) {
                                Some(deed) => {
                                    self.deeds.push_back(deed);
                                },
                                None => {},
                            }
                        },
                        Handled::Spent => {},
                    }
                    proof {
                        last = asked_all::<A>(left.effects()) + left_for::<A>(
                            sender,
                            promise,
                            response,
                        );
                        due = owed_for::<A>(promise, response);
                        assert(self.deeds@ =~= old(self).deeds@ + done_deeds + last);
                        assert(self.completions@ =~= old(self).completions@ + done_owing + due);
                        assert(entry == (Envelope::User { message, sender, promise }));
                        assert(entry_ran(self.id, thread, actor0, entry, self.actor, last, due));
                    }
                },
                MailboxMessage::System(SystemMessage::Stop(promise)) => {
                    self.actor.on_stop();
                    self.completions.push(Completion::Stopped { promise });
                    self.stopped = true;
                    proof {
                        assert(outcomes(self.completions@) =~= outcomes(settled).push(
                            Outcome::Stopped(promise),
                        ));
                        assert(count + 1 == waiting.len());
                        due = seq![Completion::<A>::Stopped { promise }];
                        assert(self.deeds@ =~= old(self).deeds@ + done_deeds + last);
                        assert(self.completions@ =~= old(self).completions@ + done_owing + due);
                        assert(entry_ran(self.id, thread, actor0, entry, self.actor, last, due));
                    }
                },
            }
            proof {
                assert(entries_ran(
                    self.id,
                    thread,
                    old(self).actor,
                    after.drop_last(),
                    actor0,
                    done_deeds,
                    done_owing,
                ));
                assert(after.len() == count + 1);
                lemma_entries_ran_one_more::<A>(
                    self.id,
                    thread,
                    old(self).actor,
                    after,
                    actor0,
                    done_deeds,
                    done_owing,
                    self.actor,
                    last,
                    due,
                );
                done_deeds = done_deeds + last;
                done_owing = done_owing + due;
                assert(self.deeds@ =~= old(self).deeds@ + done_deeds);
                assert(self.completions@ =~= old(self).completions@ + done_owing);
            }
            proof {
                self.journal@ = self.journal@.push(observed_one(entry));
                assert(stops(after) == (entry is Stop));
                assert(!stops(before)) by {
                    if count > 0 {
                        assert(before.last() == waiting[count - 1]);
                    }
                }
            }
            self.handled = self.handled + 1;
            count = count + 1;
        }
        proof {
            assert(waiting.take(count as int) =~= waiting);
            assert(entries_ran(
                old(self).id_spec(),
                thread,
                old(self).actor_spec(),
                old(self).waiting(),
                self.actor_spec(),
                done_deeds,
                done_owing,
            ));
            assert(self.deeds() == old(self).deeds() + done_deeds);
            assert(self.settled() == old(self).settled() + done_owing);
        }
        count
    }

    /// Takes the batch apart: the actor, what there is to do, what is owed,
    /// and the actor's journal.
    pub(crate) fn into_parts(self) -> (parts: (
        A,
        VecDeque<Deed<A>>,
        Vec<Completion<A>>,
        Ghost<Seq<Event<A::Message>>>,
    ))
        ensures
            parts.0 == self.actor_spec(),
            parts.1@ == self.deeds(),
            parts.2@ == self.settled(),
            parts.3@ == self.journal(),
    {
        (self.actor, self.deeds, self.completions, self.journal)
    }
}

} // verus!
