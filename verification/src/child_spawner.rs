use vstd::prelude::*;
use crate::actor::{Actor, ActorResponse};
use crate::actor_ref::ActorRef;
use crate::context::{ActorContext, Effect};

verus! {

/// The messages of `TelephoneActor`.
pub enum TelephoneMessage {
    /// Grow the chain by this many actors.
    SpawnNext(u64),
    /// Something to pass down the chain.
    Message(String),
}

/// A link of a chain of actors: it knows the children that it has spawned,
/// passes every message on to them, and counts what it has heard.
pub struct TelephoneActor {
    children: Vec<ActorRef>,
    heard: u64,
}

/// The context of a handler of `TelephoneActor`.
pub type TelephoneContext = ActorContext<TelephoneMessage, TelephoneActor, ()>;

/// How a message is passed on to a child in the name of `sender`, as a
/// handler records it.
pub open spec fn passed_on(msg: String, sender: ActorRef) -> spec_fn(ActorRef) -> Effect<TelephoneMessage, TelephoneActor, ()> {
    |child: ActorRef|
        Effect::Send {
            target: child,
            message: TelephoneMessage::Message(msg),
            sender,
            promise: None,
        }
}

/// Whether a handler has left everything about its context as it was but
/// what it has recorded.
pub open spec fn same_identity(given: TelephoneContext, left: TelephoneContext) -> bool {
    &&& left.self_ref_spec() == given.self_ref_spec()
    &&& left.sender_spec() == given.sender_spec()
    &&& left.thread_spec() == given.thread_spec()
}

impl TelephoneActor {
    /// The children, in the order in which they were spawned.
    pub closed spec fn children_spec(&self) -> Seq<ActorRef> {
        self.children@
    }

    /// How many messages the actor has heard.
    pub closed spec fn heard_spec(&self) -> u64 {
        self.heard
    }

    /// What growing the chain by `n` does: with `n` at zero nothing;
    /// otherwise a child is spawned, remembered as the last of the children,
    /// and told to grow the chain by one fewer.
    pub open spec fn grown(
        before: Self,
        after: Self,
        given: TelephoneContext,
        left: TelephoneContext,
        n: u64,
        response: ActorResponse<()>,
    ) -> bool {
        &&& response == ActorResponse::Normal(Some(()))
        &&& after.heard_spec() == before.heard_spec()
        &&& same_identity(given, left)
        &&& if n == 0 {
            after.children_spec() == before.children_spec() && left.effects() == given.effects()
        } else {
            let from = given.effects().len() as int;
            let effects = left.effects();
            &&& effects.len() == from + 2
            &&& given.effects().is_prefix_of(effects)
            &&& after.children_spec().len() == before.children_spec().len() + 1
            &&& after.children_spec().drop_last() == before.children_spec()
            &&& after.children_spec().last().target() is Some
            &&& effects[from] matches Effect::Spawn { id, actor }
            &&& Some(id) == after.children_spec().last().target()
            &&& actor.children_spec().len() == 0
            &&& actor.heard_spec() == 0
            &&& effects[from + 1] matches Effect::Send { target, message, sender, promise }
            &&& target == after.children_spec().last()
            &&& message == TelephoneMessage::SpawnNext((n - 1) as u64)
            &&& sender == given.self_ref_spec()
            &&& promise is None
        }
    }

    /// What hearing a message does: it is counted, and a copy goes to every
    /// child, in the order of the children.
    pub open spec fn told(
        before: Self,
        after: Self,
        given: TelephoneContext,
        left: TelephoneContext,
        msg: String,
        response: ActorResponse<()>,
    ) -> bool {
        &&& response == ActorResponse::Normal(Some(()))
        &&& after.children_spec() == before.children_spec()
        &&& after.heard_spec() == (if before.heard_spec() == u64::MAX {
            u64::MAX
        } else {
            (before.heard_spec() + 1) as u64
        })
        &&& same_identity(given, left)
        &&& left.effects() == given.effects() + before.children_spec().map_values(
            passed_on(msg, given.self_ref_spec()),
        )
    }

    pub fn new() -> (actor: Self)
        ensures
            actor.children_spec() == Seq::<ActorRef>::empty(),
            actor.heard_spec() == 0,
    {
        TelephoneActor { children: Vec::new(), heard: 0 }
    }

    pub fn children(&self) -> (children: &Vec<ActorRef>)
        ensures
            children@ == self.children_spec(),
    {
        &self.children
    }

    pub fn heard(&self) -> (heard: u64)
        ensures
            heard == self.heard_spec(),
    {
        self.heard
    }

    /// Grows the chain by `n` actors: see `grown`.
    pub fn spawn_next(&mut self, context: &mut TelephoneContext, n: u64) -> (response:
        ActorResponse<()>)
        ensures
            Self::grown(*old(self), *final(self), *old(context), *final(context), n, response),
    {
        if n == 0 {
            return ActorResponse::Normal(Some(()));
        }
        let next_ref = context.start(TelephoneActor::new());
        context.send(next_ref, TelephoneMessage::SpawnNext(n - 1));
        self.children.push(next_ref);
        assert(self.children@.drop_last() =~= old(self).children@);
        ActorResponse::Normal(Some(()))
    }

    /// Hears a message: see `told`.
    pub fn message(&mut self, context: &mut TelephoneContext, msg: String) -> (response:
        ActorResponse<()>)
        ensures
            Self::told(*old(self), *final(self), *old(context), *final(context), msg, response),
    {
        if self.heard < u64::MAX {
            self.heard = self.heard + 1;
        }
        let ghost passed = passed_on(msg, old(context).self_ref_spec());
        let mut i: usize = 0;
        assert(context.effects() =~= old(context).effects() + self.children@.take(0).map_values(
            passed,
        ));
        while i < self.children.len()
            invariant
                i <= self.children.len(),
                self.children@ == old(self).children@,
                self.heard == (if old(self).heard == u64::MAX {
                    u64::MAX
                } else {
                    (old(self).heard + 1) as u64
                }),
                same_identity(*old(context), *context),
                passed == passed_on(msg, old(context).self_ref_spec()),
                context.effects() == old(context).effects() + self.children@.take(
                    i as int,
                ).map_values(passed),
            decreases self.children.len() - i,
        {
            let child = self.children[i];
            context.send(child, TelephoneMessage::Message(msg.clone()));
            assert(context.effects() =~= old(context).effects() + self.children@.take(
                i + 1,
            ).map_values(passed));
            i = i + 1;
        }
        assert(self.children@.take(i as int) =~= self.children@);
        ActorResponse::Normal(Some(()))
    }
}

impl Actor for TelephoneActor {
    type Message = TelephoneMessage;

    type Response = ();

    open spec fn handles(
        before: Self,
        given: TelephoneContext,
        message: TelephoneMessage,
        after: Self,
        left: TelephoneContext,
        response: ActorResponse<()>,
    ) -> bool {
        match message {
            TelephoneMessage::SpawnNext(n) => TelephoneActor::grown(
                before,
                after,
                given,
                left,
                n,
                response,
            ),
            TelephoneMessage::Message(msg) => TelephoneActor::told(
                before,
                after,
                given,
                left,
                msg,
                response,
            ),
        }
    }

    open spec fn answers(value: Self::Response) -> Option<Self::Message> {
        None
    }

    fn answer(value: Self::Response) -> (message: Option<Self::Message>) {
        None
    }

    open spec fn starts(before: Self, after: Self) -> bool {
        after == before
    }

    open spec fn ends(before: Self, after: Self) -> bool {
        after == before
    }

    fn on_start(&mut self) {
    }

    fn on_stop(&mut self) {
    }

    fn handle(&mut self, context: &mut TelephoneContext, message: TelephoneMessage) -> (response:
        ActorResponse<()>)
    {
        match message {
            TelephoneMessage::SpawnNext(n) => self.spawn_next(context, n),
            TelephoneMessage::Message(msg) => self.message(context, msg),
        }
    }
}

} // verus!
