use vstd::prelude::*;
use crate::actor::{Actor, ActorResponse};
use crate::actor_ref::ActorRef;
use crate::context::{ActorContext, Effect};

verus! {

/// How many pings `spawn_ping_loop` sends to start the exchange.
pub const OPENING_PINGS: usize = 20;

/// The messages of the two actors.
pub enum PingPongMessage {
    /// Tells the ping actor who its partner is.
    Initialize(ActorRef),
    /// For the pong actor.
    Ping,
    /// For the ping actor.
    Pong,
}

/// Answers every ping with a pong to its partner, and counts the pings.
pub struct PongActor {
    ping: ActorRef,
    pings: u64,
}

/// Answers every pong with a ping to its partner, until it has seen as many
/// pongs as it was made for, and counts the pongs.
pub struct PingActor {
    pong: Option<ActorRef>,
    pongs: u64,
    rounds: u64,
}

/// A cell's actor: one of the two.
pub enum PingPongActor {
    Ping(PingActor),
    Pong(PongActor),
}

/// The context of a handler of the two actors.
pub type PingPongContext = ActorContext<PingPongMessage, PingPongActor, ()>;

/// The count after one more, which stops at the largest number.
pub open spec fn counted(count: u64) -> u64 {
    if count == u64::MAX {
        count
    } else {
        (count + 1) as u64
    }
}

/// A message of the exchange for `target` in the name of `sender`, as a
/// handler records it.
pub open spec fn passed(target: ActorRef, message: PingPongMessage, sender: ActorRef) -> Effect<
    PingPongMessage,
    PingPongActor,
    (),
> {
    Effect::Send { target, message, sender, promise: None }
}

/// Whether a handler has left everything about its context as it was but
/// what it has recorded.
pub open spec fn same_identity(given: PingPongContext, left: PingPongContext) -> bool {
    &&& left.self_ref_spec() == given.self_ref_spec()
    &&& left.sender_spec() == given.sender_spec()
    &&& left.thread_spec() == given.thread_spec()
}

impl PongActor {
    pub closed spec fn partner(&self) -> ActorRef {
        self.ping
    }

    /// How many pings the actor has handled.
    pub closed spec fn pings_spec(&self) -> u64 {
        self.pings
    }

    /// What a ping does: one more is counted, and a pong goes to the partner.
    pub open spec fn pinged(
        before: Self,
        after: Self,
        given: PingPongContext,
        left: PingPongContext,
        response: ActorResponse<()>,
    ) -> bool {
        &&& response == ActorResponse::Normal(Some(()))
        &&& after.partner() == before.partner()
        &&& after.pings_spec() == counted(before.pings_spec())
        &&& same_identity(given, left)
        &&& left.effects() == given.effects().push(
            passed(before.partner(), PingPongMessage::Pong, given.self_ref_spec()),
        )
    }

    pub fn new(ping: ActorRef) -> (actor: Self)
        ensures
            actor.partner() == ping,
            actor.pings_spec() == 0,
    {
        PongActor { ping, pings: 0 }
    }

    pub fn pings(&self) -> (pings: u64)
        ensures
            pings == self.pings_spec(),
    {
        self.pings
    }

    /// Handles a ping: see `pinged`.
    pub fn ping(&mut self, context: &mut PingPongContext) -> (response: ActorResponse<()>)
        ensures
            Self::pinged(*old(self), *final(self), *old(context), *final(context), response),
    {
        if self.pings < u64::MAX {
            self.pings = self.pings + 1;
        }
        context.send(self.ping, PingPongMessage::Pong);
        ActorResponse::Normal(Some(()))
    }
}

impl PingActor {
    pub closed spec fn partner(&self) -> Option<ActorRef> {
        self.pong
    }

    /// How many pongs the actor has handled.
    pub closed spec fn pongs_spec(&self) -> u64 {
        self.pongs
    }

    /// How many pongs the actor answers.
    pub closed spec fn rounds(&self) -> u64 {
        self.rounds
    }

    /// What an introduction does: `pong` is the partner now.
    pub open spec fn initialized(
        before: Self,
        after: Self,
        pong: ActorRef,
        response: ActorResponse<()>,
    ) -> bool {
        &&& response == ActorResponse::Normal(Some(()))
        &&& after.partner() == Some(pong)
        &&& after.pongs_spec() == before.pongs_spec()
        &&& after.rounds() == before.rounds()
    }

    /// What a pong does: one more is counted, and unless that was the last
    /// round, or there is no partner, a ping goes to the partner.
    pub open spec fn ponged(
        before: Self,
        after: Self,
        given: PingPongContext,
        left: PingPongContext,
        response: ActorResponse<()>,
    ) -> bool {
        &&& response == ActorResponse::Normal(Some(()))
        &&& after.partner() == before.partner()
        &&& after.rounds() == before.rounds()
        &&& after.pongs_spec() == counted(before.pongs_spec())
        &&& same_identity(given, left)
        &&& left.effects() == match before.partner() {
            Some(partner) if counted(before.pongs_spec()) < before.rounds() => given.effects().push(
                passed(partner, PingPongMessage::Ping, given.self_ref_spec()),
            ),
            _ => given.effects(),
        }
    }

    /// A ping actor that never tires.
    pub fn new() -> (actor: Self)
        ensures
            actor.partner() is None,
            actor.pongs_spec() == 0,
            actor.rounds() == u64::MAX,
    {
        PingActor { pong: None, pongs: 0, rounds: u64::MAX }
    }

    /// A ping actor that answers every pong before its `rounds`-th.
    pub fn with_rounds(rounds: u64) -> (actor: Self)
        ensures
            actor.partner() is None,
            actor.pongs_spec() == 0,
            actor.rounds() == rounds,
    {
        PingActor { pong: None, pongs: 0, rounds }
    }

    pub fn pongs(&self) -> (pongs: u64)
        ensures
            pongs == self.pongs_spec(),
    {
        self.pongs
    }

    /// Takes `pong` for the partner: see `initialized`.
    pub fn initialize(&mut self, pong: ActorRef) -> (response: ActorResponse<()>)
        ensures
            Self::initialized(*old(self), *final(self), pong, response),
    {
        self.pong = Some(pong);
        ActorResponse::Normal(Some(()))
    }

    /// Handles a pong: see `ponged`.
    pub fn pong(&mut self, context: &mut PingPongContext) -> (response: ActorResponse<()>)
        ensures
            Self::ponged(*old(self), *final(self), *old(context), *final(context), response),
    {
        if self.pongs < u64::MAX {
            self.pongs = self.pongs + 1;
        }
        if self.pongs < self.rounds {
            match self.pong {
                Some(partner) => {
                    context.send(partner, PingPongMessage::Ping);
                },
                None => {},
            }
        }
        ActorResponse::Normal(Some(()))
    }
}

impl PingPongActor {
    /// How many messages of its own kind the actor has handled.
    pub fn count(&self) -> (count: u64)
        ensures
            count == match *self {
                PingPongActor::Ping(actor) => actor.pongs_spec(),
                PingPongActor::Pong(actor) => actor.pings_spec(),
            },
    {
        match self {
            PingPongActor::Ping(actor) => actor.pongs(),
            PingPongActor::Pong(actor) => actor.pings(),
        }
    }
}

impl Actor for PingPongActor {
    type Message = PingPongMessage;

    type Response = ();

    /// Each actor handles the messages of its kind; any other it drops, and
    /// stays as it is.
    open spec fn handles(
        before: Self,
        given: PingPongContext,
        message: PingPongMessage,
        after: Self,
        left: PingPongContext,
        response: ActorResponse<()>,
    ) -> bool {
        match (before, message) {
            (PingPongActor::Ping(ping), PingPongMessage::Initialize(pong)) => after
                matches PingPongActor::Ping(then) && PingActor::initialized(
                ping,
                then,
                pong,
                response,
            ) && left == given,
            (PingPongActor::Ping(ping), PingPongMessage::Pong) => after
                matches PingPongActor::Ping(then) && PingActor::ponged(
                ping,
                then,
                given,
                left,
                response,
            ),
            (PingPongActor::Pong(pong), PingPongMessage::Ping) => after
                matches PingPongActor::Pong(then) && PongActor::pinged(
                pong,
                then,
                given,
                left,
                response,
            ),
            _ => after == before && left == given && response == ActorResponse::Normal(Some(())),
        }
    }

    open spec fn answers(value: Self::Response) -> Option<Self::Message> {
        None
    }

    fn answer(value: Self::Response) -> (message: Option<Self::Message>) {
        None
    }

    open spec fn starts(before: Self, after: Self) -> bool {
        after == before
    }

    open spec fn ends(before: Self, after: Self) -> bool {
        after == before
    }

    fn on_start(&mut self) {
    }

    fn on_stop(&mut self) {
    }

    fn handle(&mut self, context: &mut PingPongContext, message: PingPongMessage) -> (response:
        ActorResponse<()>)
    {
        match self {
            PingPongActor::Ping(actor) => match message {
                PingPongMessage::Initialize(pong) => actor.initialize(pong),
                PingPongMessage::Pong => actor.pong(context),
                PingPongMessage::Ping => ActorResponse::Normal(Some(())),
            },
            PingPongActor::Pong(actor) => match message {
                PingPongMessage::Ping => actor.ping(context),
                _ => ActorResponse::Normal(Some(())),
            },
        }
    }
}

/// Spawns a ping actor of `rounds` rounds and its pong actor, introduces them,
/// and sends the pong actor its opening pings. Returns the two references,
/// the ping actor's first.
pub fn spawn_ping_loop(context: &mut PingPongContext, rounds: u64) -> (pair: (ActorRef, ActorRef))
    ensures
        same_identity(*old(context), *final(context)),
        old(context).effects().is_prefix_of(final(context).effects()),
        final(context).effects().len() == old(context).effects().len() + 3 + OPENING_PINGS,
        pair.0.target() is Some,
        pair.1.target() is Some,
        ({
            let from = old(context).effects().len() as int;
            let effects = final(context).effects();
            &&& effects[from] matches Effect::Spawn { id, actor: PingPongActor::Ping(ping) }
            &&& Some(id) == pair.0.target()
            &&& ping.rounds() == rounds
            &&& ping.pongs_spec() == 0
            &&& effects[from + 1] matches Effect::Spawn { id, actor: PingPongActor::Pong(pong) }
            &&& Some(id) == pair.1.target()
            &&& pong.partner() == pair.0
            &&& pong.pings_spec() == 0
            &&& effects[from + 2] == passed(
                pair.0,
                PingPongMessage::Initialize(pair.1),
                old(context).self_ref_spec(),
            )
            &&& forall|i: int|
                from + 3 <= i < effects.len() ==> #[trigger] effects[i] == passed(
                    pair.1,
                    PingPongMessage::Ping,
                    old(context).self_ref_spec(),
                )
        }),
{
    let ping = context.start(PingPongActor::Ping(PingActor::with_rounds(rounds)));
    let pong = context.start(PingPongActor::Pong(PongActor::new(ping)));
    context.send(ping, PingPongMessage::Initialize(pong));
    let ghost from = old(context).effects().len() as int;
    let ghost opened = context.effects();
    let mut sent: usize = 0;
    while sent < OPENING_PINGS
        invariant
            sent <= OPENING_PINGS,
            from == old(context).effects().len(),
            same_identity(*old(context), *context),
            opened.len() == from + 3,
            opened.is_prefix_of(context.effects()),
            context.effects().len() == from + 3 + sent,
            forall|i: int|
                from + 3 <= i < context.effects().len() ==> #[trigger] context.effects()[i]
                    == passed(pong, PingPongMessage::Ping, old(context).self_ref_spec()),
        decreases OPENING_PINGS - sent,
    {
        context.send(pong, PingPongMessage::Ping);
        sent = sent + 1;
    }
    proof {
        assert(context.effects()[from] == opened[from]);
        assert(context.effects()[from + 1] == opened[from + 1]);
        assert(context.effects()[from + 2] == opened[from + 2]);
    }
    (ping, pong)
}

/// How many requests a handler has recorded in its context.
pub open spec fn recorded(given: PingPongContext, left: PingPongContext) -> int {
    left.effects().len() - given.effects().len()
}

/// One step of the exchange between a ping actor and its pong actor, with
/// `pings` pings and `pongs` pongs on their way before it. Either the pong
/// actor handles a ping that was on its way, or the ping actor handles a
/// pong that was; whichever does, the message is gone, and what its handler
/// has passed on is on its way.
pub open spec fn exchange_step(
    ping: PingActor,
    pong: PongActor,
    pings: int,
    pongs: int,
    ping_after: PingActor,
    pong_after: PongActor,
    pings_after: int,
    pongs_after: int,
) -> bool {
    ||| {
        &&& pings > 0
        &&& ping_after == ping
        &&& pings_after == pings - 1
        &&& exists|given: PingPongContext, left: PingPongContext, response: ActorResponse<()>|
            #[trigger] PongActor::pinged(pong, pong_after, given, left, response) && pongs_after
                == pongs + recorded(given, left)
    }
    ||| {
        &&& pongs > 0
        &&& pong_after == pong
        &&& pongs_after == pongs - 1
        &&& exists|given: PingPongContext, left: PingPongContext, response: ActorResponse<()>|
            #[trigger] PingActor::ponged(ping, ping_after, given, left, response) && pings_after
                == pings + recorded(given, left)
    }
}

/// The exchange after `steps` steps, one from where the one before it ended.
pub open spec fn exchanged(
    ping: PingActor,
    pong: PongActor,
    pings: int,
    pongs: int,
    ping_after: PingActor,
    pong_after: PongActor,
    pings_after: int,
    pongs_after: int,
    steps: nat,
) -> bool
    decreases steps,
{
    if steps == 0 {
        ping_after == ping && pong_after == pong && pings_after == pings && pongs_after == pongs
    } else {
        exists|ping_then: PingActor, pong_then: PongActor, pings_then: int, pongs_then: int|
            exchanged(
                ping,
                pong,
                pings,
                pongs,
                ping_then,
                pong_then,
                pings_then,
                pongs_then,
                (steps - 1) as nat,
            ) && #[trigger] exchange_step(
                ping_then,
                pong_then,
                pings_then,
                pongs_then,
                ping_after,
                pong_after,
                pings_after,
                pongs_after,
            )
    }
}

/// What holds of an exchange that one ping has opened, after `steps` steps:
/// every step has counted one message, every ping that was sent is counted
/// or on its way, and so is every pong. The pings that were sent are the
/// opening one and one for each pong that the ping actor has counted, short
/// of its last round.
pub open spec fn exchange_balanced(
    rounds: u64,
    ping: PingActor,
    pong: PongActor,
    pings: int,
    pongs: int,
    steps: nat,
) -> bool {
    &&& ping.rounds() == rounds
    &&& ping.partner() is Some
    &&& pings >= 0
    &&& pongs >= 0
    &&& pong.pings_spec() + ping.pongs_spec() == steps
    &&& ping.pongs_spec() + pongs == pong.pings_spec()
    &&& pong.pings_spec() + pings == 1 + if ping.pongs_spec() < rounds - 1 {
        ping.pongs_spec() as int
    } else {
        rounds - 1
    }
}

/// A step keeps the exchange balanced.
proof fn lemma_exchange_step(
    rounds: u64,
    ping: PingActor,
    pong: PongActor,
    pings: int,
    pongs: int,
    steps: nat,
    ping_after: PingActor,
    pong_after: PongActor,
    pings_after: int,
    pongs_after: int,
)
    requires
        rounds >= 1,
        exchange_balanced(rounds, ping, pong, pings, pongs, steps),
        exchange_step(ping, pong, pings, pongs, ping_after, pong_after, pings_after, pongs_after),
    ensures
        exchange_balanced(rounds, ping_after, pong_after, pings_after, pongs_after, steps + 1),
{
    if pings > 0 && ping_after == ping && pings_after == pings - 1 && exists|
        given: PingPongContext,
        left: PingPongContext,
        response: ActorResponse<()>,
    |
        #[trigger] PongActor::pinged(pong, pong_after, given, left, response) && pongs_after
            == pongs + recorded(given, left) {
        let (given, left, response) = choose|
            given: PingPongContext,
            left: PingPongContext,
            response: ActorResponse<()>,
        |
            #[trigger] PongActor::pinged(pong, pong_after, given, left, response) && pongs_after
                == pongs + recorded(given, left);
        assert(recorded(given, left) == 1);
        assert(pong.pings_spec() < rounds);
    } else {
        let (given, left, response) = choose|
            given: PingPongContext,
            left: PingPongContext,
            response: ActorResponse<()>,
        |
            #[trigger] PingActor::ponged(ping, ping_after, given, left, response) && pings_after
                == pings + recorded(given, left);
        assert(ping.pongs_spec() < rounds);
        if counted(ping.pongs_spec()) < rounds {
            assert(recorded(given, left) == 1);
        } else {
            assert(recorded(given, left) == 0);
        }
    }
}

/// Every state of an exchange that one ping has opened is balanced.
proof fn lemma_exchange_balanced(
    ping: PingActor,
    pong: PongActor,
    ping_after: PingActor,
    pong_after: PongActor,
    pings_after: int,
    pongs_after: int,
    steps: nat,
)
    requires
        ping.rounds() >= 1,
        ping.partner() is Some,
        ping.pongs_spec() == 0,
        pong.pings_spec() == 0,
        exchanged(ping, pong, 1, 0, ping_after, pong_after, pings_after, pongs_after, steps),
    ensures
        exchange_balanced(ping.rounds(), ping_after, pong_after, pings_after, pongs_after, steps),
    decreases steps,
{
    if steps > 0 {
        let (ping_then, pong_then, pings_then, pongs_then) = choose|
            ping_then: PingActor,
            pong_then: PongActor,
            pings_then: int,
            pongs_then: int,
        |
            exchanged(
                ping,
                pong,
                1,
                0,
                ping_then,
                pong_then,
                pings_then,
                pongs_then,
                (steps - 1) as nat,
            ) && #[trigger] exchange_step(
                ping_then,
                pong_then,
                pings_then,
                pongs_then,
                ping_after,
                pong_after,
                pings_after,
                pongs_after,
            );
        lemma_exchange_balanced(
            ping,
            pong,
            ping_then,
            pong_then,
            pings_then,
            pongs_then,
            (steps - 1) as nat,
        );
        lemma_exchange_step(
            ping.rounds(),
            ping_then,
            pong_then,
            pings_then,
            pongs_then,
            (steps - 1) as nat,
            ping_after,
            pong_after,
            pings_after,
            pongs_after,
        );
    }
}

/// A bounded exchange counts every message once. Let a ping actor of at
/// least one round, which knows its partner and has counted nothing, and a
/// pong actor that has counted nothing, exchange messages from one opening
/// ping on, in any number of steps. Once nothing is on its way, each of
/// the two has counted as many messages as the ping actor has rounds, and
/// the steps were twice as many: no message was lost, and none was handled
/// twice.
pub proof fn lemma_exchange_counts(
    ping: PingActor,
    pong: PongActor,
    ping_after: PingActor,
    pong_after: PongActor,
    steps: nat,
)
    requires
        ping.rounds() >= 1,
        ping.partner() is Some,
        ping.pongs_spec() == 0,
        pong.pings_spec() == 0,
        exchanged(ping, pong, 1, 0, ping_after, pong_after, 0, 0, steps),
    ensures
        ping_after.pongs_spec() == ping.rounds(),
        pong_after.pings_spec() == ping.rounds(),
        steps == 2 * ping.rounds(),
{
    lemma_exchange_balanced(ping, pong, ping_after, pong_after, 0, 0, steps);
}

} // verus!
