use vstd::prelude::*;
use crate::actor::{Actor, ActorResponse, Completion};
use crate::errors::ErrorKind;

verus! {

/// The response capturer behind an ask: it holds the promise of the one who
/// asked, gives it the first answer that it is handed, be it a reply or a
/// handler's response, and is then spent.
pub struct AskActor {
    promise: Option<u64>,
}

impl AskActor {
    /// The promise, until a reply has been captured.
    pub closed spec fn promise_spec(&self) -> Option<u64> {
        self.promise
    }

    pub fn new(promise: u64) -> (bridge: Self)
        ensures
            bridge.promise_spec() == Some(promise),
    {
        AskActor { promise: Some(promise) }
    }

    /// Captures `message` for the promise. A bridge that has already captured
    /// one drops it.
    pub fn handle<A: Actor>(&mut self, message: A::Message) -> (completion: Option<Completion<A>>)
        ensures
            final(self).promise_spec() is None,
            completion == match old(self).promise_spec() {
                Some(promise) => Some(Completion::<A>::Replied { promise, reply: message }),
                None => None,
            },
    {
        match self.promise.take() {
            Some(promise) => Some(Completion::Replied { promise, reply: message }),
            None => None,
        }
    }
    /// Takes a handler's response for the answer. A bridge that has already
    /// captured an answer drops it.
    pub fn answer<A: Actor>(&mut self, response: ActorResponse<A::Response>) -> (completion:
        Option<Completion<A>>)
        ensures
            final(self).promise_spec() is None,
            completion == match old(self).promise_spec() {
                Some(promise) => Some(Completion::<A>::Responded { promise, response }),
                None => None,
            },
    {
        match self.promise.take() {
            Some(promise) => Some(Completion::Responded { promise, response }),
            None => None,
        }
    }

    /// Gives the ask up, because the actor that was asked is gone. A bridge
    /// that has already captured an answer has nothing to give up.
    pub fn orphan<A: Actor>(&mut self) -> (completion: Option<Completion<A>>)
        ensures
            final(self).promise_spec() is None,
            completion == match old(self).promise_spec() {
                Some(promise) => Some(
                    Completion::<A>::Failed { promise, error: ErrorKind::ActorDestroyed },
                ),
                None => None,
            },
    {
        match self.promise.take() {
            Some(promise) => Some(Completion::Failed { promise, error: ErrorKind::ActorDestroyed }),
            None => None,
        }
    }
}

} // verus!
