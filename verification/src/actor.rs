use vstd::prelude::*;
use std::collections::VecDeque;
use crate::actor_ref::ActorRef;
use crate::context::{ActorContext, Effect};
use crate::errors::ErrorKind;

verus! {

/// What a handler gives back: a value at once, or the task that stands for
/// a deferred response, which is completed later with its value.
pub enum ActorResponse<T> {
    /// An immediate value; `None` once it has been taken.
    Normal(Option<T>),
    /// A deferred response, named by its task. Whoever the response is for
    /// waits until the task is completed: by a handler, through its
    /// context, or by the host, which tells the system.
    Async(u64),
}

impl<T> ActorResponse<T> {
    /// Whether the response holds or promises a value: it is not the
    /// immediate response without one.
    pub open spec fn gives_spec(self) -> bool {
        self != ActorResponse::<T>::Normal(None)
    }

    pub fn gives(&self) -> (gives: bool)
        ensures
            gives == self.gives_spec(),
    {
        match self {
            ActorResponse::Normal(None) => false,
            _ => true,
        }
    }

    /// Takes the immediate value out, if there is one left.
    pub fn poll(&mut self) -> (value: Option<T>)
        ensures
            match *old(self) {
                ActorResponse::Normal(inner) => value == inner && *final(self)
                    == ActorResponse::<T>::Normal(None),
                ActorResponse::Async(_) => value is None && *final(self) == *old(self),
            },
    {
        match self {
            ActorResponse::Normal(inner) => inner.take(),
            ActorResponse::Async(_) => None,
        }
    }
}

/// Something that is owed to a promise that came in with a request, an ask or
/// a stop command. A promise is the host's token for a one-shot sink.
pub enum Completion<A: Actor> {
    /// The handler's response, to a request or to an ask that no reply had
    /// answered before.
    Responded { promise: u64, response: ActorResponse<A::Response> },
    /// The reply that the bridge of an ask has captured, where no response
    /// had answered the ask before.
    Replied { promise: u64, reply: A::Message },
    /// The stop command has been processed: the actor is gone.
    Stopped { promise: u64 },
    /// The promise will never be fulfilled, and why.
    Failed { promise: u64, error: ErrorKind },
    /// An actor could not be created, and why.
    Rejected { error: ErrorKind },
}

impl<A: Actor> Completion<A> {
    /// The promise that the completion settles, if it settles one.
    pub open spec fn promise_spec(self) -> Option<u64> {
        match self {
            Completion::Responded { promise, .. } => Some(promise),
            Completion::Replied { promise, .. } => Some(promise),
            Completion::Stopped { promise } => Some(promise),
            Completion::Failed { promise, .. } => Some(promise),
            Completion::Rejected { .. } => None,
        }
    }

    pub fn promise(&self) -> (promise: Option<u64>)
        ensures
            promise == self.promise_spec(),
    {
        match self {
            Completion::Responded { promise, .. } => Some(*promise),
            Completion::Replied { promise, .. } => Some(*promise),
            Completion::Stopped { promise } => Some(*promise),
            Completion::Failed { promise, .. } => Some(*promise),
            Completion::Rejected { .. } => None,
        }
    }
}

/// Who waits for a deferred response to be completed.
#[derive(Clone, Copy, Debug, PartialEq, Eq, Structural)]
pub enum Waiter {
    /// A promise of the host: it is told the value.
    Promise(u64),
    /// An actor that sent a message without a response-sink: it gets the
    /// value as the message that its type makes of it.
    Actor(ActorRef),
}

/// Something for the system to do when a batch is handed back.
pub enum Deed<A: Actor> {
    /// What a handler asked for.
    Asked(Effect<A::Message, A, A::Response>),
    /// A handler's response to a message that came without a response-sink.
    /// Where the message's sender is a bridge, the response answers the
    /// bridge's ask. Where it is an actor, the actor gets the value as the
    /// message that its type makes of it, at once or, where the response is
    /// deferred, when the task is completed.
    Answered { sender: ActorRef, response: ActorResponse<A::Response> },
    /// A message was dropped with its cell. Where its sender is a bridge,
    /// the bridge's ask fails; any other sender is not told.
    Orphaned { sender: ActorRef },
    /// A handler has deferred its response to a response-sink: the promise
    /// waits for the task to be completed.
    Deferred { task: u64, promise: u64 },
}

/// What a handler's recorded requests are as deeds, in their order.
pub open spec fn asked_all<A: Actor>(effects: Seq<Effect<A::Message, A, A::Response>>) -> Seq<
    Deed<A>,
> {
    effects.map_values(|effect: Effect<A::Message, A, A::Response>| Deed::Asked(effect))
}

/// A handler's recorded requests as deeds, in their order.
pub fn deeds_of<A: Actor>(effects: VecDeque<Effect<A::Message, A, A::Response>>) -> (deeds:
    VecDeque<Deed<A>>)
    ensures
        deeds@ == asked_all::<A>(effects@),
{
    let mut rest = effects;
    let mut deeds: VecDeque<Deed<A>> = VecDeque::new();
    let ghost mut done: int = 0;
    proof {
        assert(deeds@ =~= asked_all::<A>(effects@.take(0)));
    }
    loop
        invariant
            0 <= done <= effects@.len(),
            rest@ == effects@.skip(done),
            deeds@ == asked_all::<A>(effects@.take(done)),
        ensures
            done == effects@.len(),
        decreases effects@.len() - done,
    {
        match rest.pop_front() {
            Some(effect) => {
                deeds.push_back(Deed::Asked(effect));
                proof {
                    assert(effects@.skip(done).skip(1) =~= effects@.skip(done + 1));
                    assert(deeds@ =~= asked_all::<A>(effects@.take(done + 1)));
                    done = done + 1;
                }
            },
            None => {
                break ;
            },
        }
    }
    proof {
        assert(effects@.take(done) =~= effects@);
    }
    deeds
}

/// A user-defined value whose handler is invoked with one message at a time.
///
/// `handle` is the dispatch function over the actor's message type; the two
/// lifecycle hooks run before the first message and after the stop command.
/// What the three do is the actor's to say, in `handles`, `starts` and
/// `ends`; the runtime's contracts pass it on.
/// Whatever a handler wants from the runtime it asks of the context, which
/// records it; the runtime acts on the record when the handler's batch has
/// been handed back.
pub trait Actor: Sized {
    type Message;

    type Response;

    /// What the handler does with a message: how it may leave the actor and
    /// the context, and what it may respond. An actor that says nothing of
    /// its handler allows everything.
    open spec fn handles(
        before: Self,
        given: ActorContext<Self::Message, Self, Self::Response>,
        message: Self::Message,
        after: Self,
        left: ActorContext<Self::Message, Self, Self::Response>,
        response: ActorResponse<Self::Response>,
    ) -> bool {
        true
    }

    /// What the start hook does to the actor. An actor that says nothing of
    /// it allows everything.
    open spec fn starts(before: Self, after: Self) -> bool {
        true
    }

    /// What the stop hook does to the actor. An actor that says nothing of
    /// it allows everything.
    open spec fn ends(before: Self, after: Self) -> bool {
        true
    }

    /// The message that an actor of this type gets where a response comes
    /// back to it: the answer to a message that it sent without a
    /// response-sink. `None` where the type has no use for answers.
    open spec fn answers(value: Self::Response) -> Option<Self::Message> {
        None
    }

    /// Makes the message of `answers`.
    fn answer(value: Self::Response) -> (message: Option<Self::Message>)
        ensures
            message == Self::answers(value),
    ;

    fn handle(
        &mut self,
        context: &mut ActorContext<Self::Message, Self, Self::Response>,
        message: Self::Message,
    ) -> (response: ActorResponse<Self::Response>)
        ensures
            Self::handles(*old(self), *old(context), message, *final(self), *final(context), response),
    ;

    fn on_start(&mut self)
        ensures
            Self::starts(*old(self), *final(self)),
    ;

    fn on_stop(&mut self)
        ensures
            Self::ends(*old(self), *final(self)),
    ;

    /// The response of a handler that has no value to give.
    fn done(&self) -> (response: ActorResponse<()>)
        ensures
            response == ActorResponse::Normal(Some(())),
    {
        ActorResponse::Normal(Some(()))
    }

    /// An immediate response.
    fn respond<T>(&self, v: T) -> (response: ActorResponse<T>)
        ensures
            response == ActorResponse::Normal(Some(v)),
    {
        ActorResponse::Normal(Some(v))
    }

    /// A deferred response: `task` is completed later, with the value.
    fn respond_fut<T>(&self, task: u64) -> (response: ActorResponse<T>)
        ensures
            response == ActorResponse::<T>::Async(task),
    {
        ActorResponse::Async(task)
    }
}

} // verus!
