use vstd::prelude::*;
use std::collections::VecDeque;
use crate::actor::{Actor, ActorResponse, Completion};
use crate::actor_ref::ActorRef;
use crate::context::ActorContext;

verus! {

/// A command of the runtime itself, queued among the user messages.
#[derive(Clone, Copy, Debug, PartialEq, Eq, Structural)]
pub enum SystemMessage {
    /// Terminate the cell; the promise is told when that is done.
    Stop(u64),
}

/// One user message on its way to the handler, with its sender and the
/// response-sink that it may carry. The message can be handled once.
pub struct UserMessageWrapper<A: Actor> {
    message: Option<A::Message>,
    sender: ActorRef,
    promise: Option<u64>,
}

/// What one call of `handle` gives.
pub enum Handled<A: Actor> {
    /// Nothing: the message had been handled before.
    Spent,
    /// The response, as the completion of the sink that came with the message.
    Settled(Completion<A>),
    /// The response to a message that came without a sink.
    Unclaimed(ActorResponse<A::Response>),
}

/// What the handler's response becomes: the completion of the promise that
/// came with the message, or a response that no sink claims.
pub open spec fn settled_as<A: Actor>(
    promise: Option<u64>,
    response: ActorResponse<A::Response>,
) -> Handled<A> {
    match promise {
        Some(p) => Handled::Settled(Completion::Responded { promise: p, response }),
        None => Handled::Unclaimed(response),
    }
}

/// What the handler's response becomes: see `settled_as`.
pub fn settle<A: Actor>(promise: Option<u64>, response: ActorResponse<A::Response>) -> (outcome:
    Handled<A>)
    ensures
        outcome == settled_as::<A>(promise, response),
{
    match promise {
        Some(p) => Handled::Settled(Completion::Responded { promise: p, response }),
        None => Handled::Unclaimed(response),
    }
}

impl<A: Actor> UserMessageWrapper<A> {
    /// The message, until it has been handled.
    pub closed spec fn message_spec(self) -> Option<A::Message> {
        self.message
    }

    pub closed spec fn sender_spec(self) -> ActorRef {
        self.sender
    }

    /// The response-sink, until it has been used.
    pub closed spec fn promise_spec(self) -> Option<u64> {
        self.promise
    }

    /// A wrapper that has been handled holds neither message nor sink.
    pub open spec fn wf(self) -> bool {
        self.message_spec() is None ==> self.promise_spec() is None
    }

    /// How one call of `handle` relates the wrapper before and after it to
    /// what it gives.
    pub open spec fn handled(pre: Self, post: Self, outcome: Handled<A>) -> bool {
        match pre.message_spec() {
            Some(_) => {
                &&& post.message_spec() is None
                &&& post.promise_spec() is None
                &&& post.sender_spec() == pre.sender_spec()
                &&& match pre.promise_spec() {
                    Some(p) => outcome matches Handled::Settled(
                        Completion::Responded { promise, .. },
                    ) && promise == p,
                    None => outcome is Unclaimed,
                }
            },
            None => post == pre && outcome is Spent,
        }
    }

    pub fn make(message: A::Message, sender: ActorRef, promise: Option<u64>) -> (wrapper: Self)
        ensures
            wrapper.message_spec() == Some(message),
            wrapper.sender_spec() == sender,
            wrapper.promise_spec() == promise,
            wrapper.wf(),
    {
        UserMessageWrapper { message: Some(message), sender, promise }
    }

    pub fn sender(&self) -> (sender: ActorRef)
        ensures
            sender == self.sender_spec(),
    {
        self.sender
    }

    pub fn promise(&self) -> (promise: Option<u64>)
        ensures
            promise == self.promise_spec(),
    {
        self.promise
    }

    /// Hands the message to the actor's handler, unless that has happened
    /// before: the actor and the context are as the handler left them, and
    /// the handler's response has become the completion of the sink, where
    /// the message came with one, or else a response that no sink claims.
    pub fn handle(
        &mut self,
        actor: &mut A,
        context: &mut ActorContext<A::Message, A, A::Response>,
    ) -> (outcome: Handled<A>)
        requires
            old(self).wf(),
        ensures
            final(self).wf(),
            Self::handled(*old(self), *final(self), outcome),
            old(self).message_spec() is None ==> *final(actor) == *old(actor) && *final(context)
                == *old(context),
            old(self).message_spec() matches Some(message) ==> exists|
                response: ActorResponse<A::Response>,
            |
                #[trigger] A::handles(
                    *old(actor),
                    *old(context),
                    message,
                    *final(actor),
                    *final(context),
                    response,
                ) && outcome == settled_as::<A>(old(self).promise_spec(), response),
    {
        match self.message.take() {
            Some(message) => {
                let response = actor.handle(context, message);
                let promise = self.promise.take();
                settle(promise, response)
            },
            None => Handled::Spent,
        }
    }

    /// The response-sink of a message that will never be handled.
    pub fn into_promise(self) -> (promise: Option<u64>)
        ensures
            promise == self.promise_spec(),
    {
        self.promise
    }
}

/// A response-sink is used at most once: whatever the first call of `handle`
/// did, a second call on the same wrapper changes nothing and gives nothing.
pub proof fn lemma_responds_at_most_once<A: Actor>(
    first: UserMessageWrapper<A>,
    second: UserMessageWrapper<A>,
    third: UserMessageWrapper<A>,
    earlier: Handled<A>,
    later: Handled<A>,
)
    requires
        UserMessageWrapper::handled(first, second, earlier),
        UserMessageWrapper::handled(second, third, later),
        first.wf(),
    ensures
        later is Spent,
        third == second,
        earlier matches Handled::Settled(completion) ==> completion.promise_spec()
            == first.promise_spec(),
{
}

/// What a mailbox entry stands for: a user message with its sender and its
/// optional response-sink, or the stop command with its completion promise.
#[allow(inconsistent_fields)]
pub enum Envelope<M> {
    User { message: M, sender: ActorRef, promise: Option<u64> },
    Stop { promise: u64 },
}

impl<M> Envelope<M> {
    /// The response-sink or completion promise that the entry carries.
    pub open spec fn promise(self) -> Option<u64> {
        match self {
            Envelope::User { promise, .. } => promise,
            Envelope::Stop { promise } => Some(promise),
        }
    }
}

/// An entry of a mailbox.
pub enum MailboxMessage<A: Actor> {
    User(UserMessageWrapper<A>),
    System(SystemMessage),
}

impl<A: Actor> View for MailboxMessage<A> {
    type V = Envelope<A::Message>;

    open spec fn view(&self) -> Envelope<A::Message> {
        match *self {
            MailboxMessage::User(wrapper) => Envelope::User {
                message: wrapper.message_spec().unwrap(),
                sender: wrapper.sender_spec(),
                promise: wrapper.promise_spec(),
            },
            MailboxMessage::System(SystemMessage::Stop(promise)) => Envelope::Stop { promise },
        }
    }
}

impl<A: Actor> MailboxMessage<A> {
    /// A queued user message is still to be handled.
    pub open spec fn wf(self) -> bool {
        match self {
            MailboxMessage::User(wrapper) => wrapper.message_spec() is Some,
            MailboxMessage::System(_) => true,
        }
    }
}

/// The ordered queue of pending user and system messages of one cell.
pub struct Mailbox<A: Actor> {
    messages: VecDeque<MailboxMessage<A>>,
}

impl<A: Actor> View for Mailbox<A> {
    type V = Seq<Envelope<A::Message>>;

    closed spec fn view(&self) -> Seq<Envelope<A::Message>> {
        self.messages@.map_values(|entry: MailboxMessage<A>| entry@)
    }
}

impl<A: Actor> Mailbox<A> {
    /// Every queued user message is still to be handled.
    pub closed spec fn wf(&self) -> bool {
        forall|i: int| 0 <= i < self.messages@.len() ==> (#[trigger] self.messages@[i]).wf()
    }

    pub fn new() -> (mailbox: Self)
        ensures
            mailbox@ == Seq::<Envelope<A::Message>>::empty(),
            mailbox.wf(),
    {
        let mailbox = Mailbox { messages: VecDeque::new() };
        assert(mailbox@ =~= Seq::<Envelope<A::Message>>::empty());
        mailbox
    }

    pub fn is_empty(&self) -> (empty: bool)
        ensures
            empty == (self@.len() == 0),
    {
        self.messages.len() == 0
    }

    pub fn len(&self) -> (len: usize)
        ensures
            len == self@.len(),
    {
        self.messages.len()
    }

    /// Appends one user message.
    pub fn push(&mut self, message: A::Message, sender: ActorRef, promise: Option<u64>)
        requires
            old(self).wf(),
        ensures
            final(self).wf(),
            final(self)@ == old(self)@.push(Envelope::User { message, sender, promise }),
    {
        let wrapper = UserMessageWrapper::make(message, sender, promise);
        self.messages.push_back(MailboxMessage::User(wrapper));
        assert(self@ =~= old(self)@.push(Envelope::User { message, sender, promise }));
    }

    /// Appends one system command behind whatever is queued.
    pub fn push_system_message(&mut self, system_message: SystemMessage)
        requires
            old(self).wf(),
        ensures
            final(self).wf(),
            final(self)@ == old(self)@.push(MailboxMessage::<A>::System(system_message)@),
    {
        self.messages.push_back(MailboxMessage::System(system_message));
        assert(self@ =~= old(self)@.push(MailboxMessage::<A>::System(system_message)@));
    }

    /// Removes and returns the head, or `None` where the mailbox is empty.
    pub fn pop(&mut self) -> (head: Option<MailboxMessage<A>>)
        requires
            old(self).wf(),
        ensures
            final(self).wf(),
            match head {
                Some(message) => old(self)@.len() > 0 && message@ == old(self)@[0] && final(self)@
                    == old(self)@.skip(1) && message.wf(),
                None => old(self)@.len() == 0 && final(self)@ == old(self)@,
            },
    {
        let head = self.messages.pop_front();
        proof {
            if head is Some {
                assert(self@ =~= old(self)@.skip(1));
            }
        }
        head
    }
}

} // verus!
