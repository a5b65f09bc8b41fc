use vstd::prelude::*;
use crate::actor::{Actor, ActorResponse};
use crate::actor_ref::ActorRef;
use crate::context::{ActorContext, Effect};

verus! {

/// The number from which on a poked actor answers at once.
pub const LEAF: u64 = 100000;

/// How many children a poked actor below the limit spawns.
pub const FAN_OUT: u64 = 10;

/// The largest number whose children's numbers fit.
pub const POKE_MAX: u64 = 1844674407370955160;

/// The messages of `SkynetActor`.
pub enum SkynetMessage {
    /// Asks for the sum of the tree below this number.
    Poke(u64),
    /// A child's answer to a poke.
    Sum(u64),
}

/// A node of a tree of actors that sums the numbers of its nodes. Poked with
/// a number at or above its limit it answers with the number. Below, it
/// spawns ten children, pokes them with the next ten numbers, and defers its
/// response: the task that stands for it carries the node's number, and is
/// completed with the node's number plus the children's answers when the
/// tenth answer has come.
pub struct SkynetActor {
    limit: u64,
    waiting: u64,
    total: u64,
    task: u64,
}

/// The context of a handler of `SkynetActor`.
pub type SkynetContext = ActorContext<SkynetMessage, SkynetActor, u64>;

/// The sum of two numbers, or the largest number where the sum does not fit.
pub open spec fn capped(a: u64, b: u64) -> u64 {
    if a + b > u64::MAX {
        u64::MAX
    } else {
        (a + b) as u64
    }
}

impl SkynetActor {
    pub closed spec fn limit(&self) -> u64 {
        self.limit
    }

    /// How many answers are still to come.
    pub closed spec fn waiting(&self) -> u64 {
        self.waiting
    }

    /// The sum so far.
    pub closed spec fn total(&self) -> u64 {
        self.total
    }

    /// The task that stands for the response that this node has deferred.
    pub closed spec fn task(&self) -> u64 {
        self.task
    }

    pub fn new() -> (actor: Self)
        ensures
            actor.limit() == LEAF,
            actor.waiting() == 0,
            actor.total() == 0,
            actor.task() == 0,
    {
        SkynetActor { limit: LEAF, waiting: 0, total: 0, task: 0 }
    }

    /// A node that answers at once from `limit` on.
    pub fn with_limit(limit: u32) -> (actor: Self)
        ensures
            actor.limit() == limit,
            actor.waiting() == 0,
            actor.total() == 0,
            actor.task() == 0,
    {
        SkynetActor { limit: limit as u64, waiting: 0, total: 0, task: 0 }
    }

    /// What a poke below the limit has recorded for child `k`: the child
    /// is spawned with the same limit, and poked with its number.
    pub open spec fn fanned(
        effects: Seq<Effect<SkynetMessage, SkynetActor, u64>>,
        from: int,
        k: int,
        n: u64,
        limit: u64,
        self_ref: ActorRef,
    ) -> bool {
        &&& effects[from + 2 * k] matches Effect::Spawn { id, actor }
        &&& actor.limit() == limit
        &&& actor.waiting() == 0
        &&& effects[from + 2 * k + 1] matches Effect::Send { target, message, sender, promise }
        &&& target.target() == Some(id)
        &&& message matches SkynetMessage::Poke(number)
        &&& number == n * FAN_OUT + k + 1
        &&& sender == self_ref
        &&& promise is None
    }

    /// What a poke does. At or above the limit, and wherever the children's
    /// numbers would not fit, the response is `n` at once, and the actor asks
    /// for nothing. Below, ten children are spawned and poked, the actor
    /// waits for their answers, and the response is deferred, under the task
    /// `n`.
    pub open spec fn poked(
        before: Self,
        after: Self,
        given: SkynetContext,
        left: SkynetContext,
        n: u64,
        response: ActorResponse<u64>,
    ) -> bool {
        &&& left.self_ref_spec() == given.self_ref_spec()
        &&& left.sender_spec() == given.sender_spec()
        &&& left.thread_spec() == given.thread_spec()
        &&& after.limit() == before.limit()
        &&& if n >= before.limit() || n > POKE_MAX {
            &&& response == ActorResponse::Normal(Some(n))
            &&& after.waiting() == before.waiting()
            &&& after.total() == before.total()
            &&& after.task() == before.task()
            &&& left.effects() == given.effects()
        } else {
            &&& response == ActorResponse::<u64>::Async(n)
            &&& after.waiting() == FAN_OUT
            &&& after.total() == n
            &&& after.task() == n
            &&& given.effects().is_prefix_of(left.effects())
            &&& left.effects().len() == given.effects().len() + 2 * FAN_OUT
            &&& forall|k: int|
                0 <= k < FAN_OUT ==> #[trigger] Self::fanned(
                    left.effects(),
                    given.effects().len() as int,
                    k,
                    n,
                    before.limit(),
                    given.self_ref_spec(),
                )
        }
    }

    /// Handles a poke: see `poked`.
    pub fn poke(&mut self, context: &mut SkynetContext, n: u64) -> (response: ActorResponse<u64>)
        ensures
            Self::poked(*old(self), *final(self), *old(context), *final(context), n, response),
    {
        if n >= self.limit || n > POKE_MAX {
            return ActorResponse::Normal(Some(n));
        }
        self.waiting = FAN_OUT;
        self.total = n;
        self.task = n;
        let ghost from = context.effects().len() as int;
        let ghost me = context.self_ref_spec();
        let mut k: u64 = 0;
        while k < FAN_OUT
            invariant
                k <= FAN_OUT,
                n <= POKE_MAX,
                from == old(context).effects().len(),
                me == old(context).self_ref_spec(),
                context.self_ref_spec() == me,
                context.sender_spec() == old(context).sender_spec(),
                context.thread_spec() == old(context).thread_spec(),
                self.limit == old(self).limit,
                self.waiting == FAN_OUT,
                self.total == n,
                self.task == n,
                old(context).effects().is_prefix_of(context.effects()),
                context.effects().len() == from + 2 * k,
                forall|j: int|
                    0 <= j < k ==> #[trigger] Self::fanned(
                        context.effects(),
                        from,
                        j,
                        n,
                        old(self).limit,
                        me,
                    ),
            decreases FAN_OUT - k,
        {
            let ghost before = context.effects();
            let child = context.start(
                SkynetActor { limit: self.limit, waiting: 0, total: 0, task: 0 },
            );
            context.send(child, SkynetMessage::Poke(n * FAN_OUT + k + 1));
            proof {
                assert forall|j: int| 0 <= j < k + 1 implies #[trigger] Self::fanned(
                    context.effects(),
                    from,
                    j,
                    n,
                    old(self).limit,
                    me,
                ) by {
                    if j < k {
                        assert(Self::fanned(before, from, j, n, old(self).limit, me));
                        assert(context.effects()[from + 2 * j] == before[from + 2 * j]);
                        assert(context.effects()[from + 2 * j + 1] == before[from + 2 * j + 1]);
                    }
                }
            }
            k = k + 1;
        }
        ActorResponse::Async(n)
    }

    /// What a child's answer does: it is added to the sum, and with the last
    /// answer the deferred response is completed with the sum. An answer
    /// that nobody waits for changes nothing. The answer itself gets no
    /// response.
    pub open spec fn summed(
        before: Self,
        after: Self,
        given: SkynetContext,
        left: SkynetContext,
        value: u64,
        response: ActorResponse<u64>,
    ) -> bool {
        &&& left.self_ref_spec() == given.self_ref_spec()
        &&& left.sender_spec() == given.sender_spec()
        &&& left.thread_spec() == given.thread_spec()
        &&& after.limit() == before.limit()
        &&& after.task() == before.task()
        &&& response == ActorResponse::<u64>::Normal(None)
        &&& if before.waiting() == 0 {
            &&& after.waiting() == 0
            &&& after.total() == before.total()
            &&& left.effects() == given.effects()
        } else if before.waiting() == 1 {
            &&& after.waiting() == 0
            &&& after.total() == capped(before.total(), value)
            &&& left.effects() == given.effects().push(
                Effect::Complete { task: before.task(), value: capped(before.total(), value) },
            )
        } else {
            &&& after.waiting() == before.waiting() - 1
            &&& after.total() == capped(before.total(), value)
            &&& left.effects() == given.effects()
        }
    }

    /// Handles a child's answer: see `summed`.
    pub fn sum(&mut self, context: &mut SkynetContext, value: u64) -> (response: ActorResponse<u64>)
        ensures
            Self::summed(*old(self), *final(self), *old(context), *final(context), value, response),
    {
        if self.waiting == 0 {
            return ActorResponse::Normal(None);
        }
        self.total = if value > u64::MAX - self.total {
            u64::MAX
        } else {
            self.total + value
        };
        self.waiting = self.waiting - 1;
        if self.waiting == 0 {
            context.complete(self.task, self.total);
        }
        ActorResponse::Normal(None)
    }
}

impl Actor for SkynetActor {
    type Message = SkynetMessage;

    type Response = u64;

    open spec fn handles(
        before: Self,
        given: SkynetContext,
        message: SkynetMessage,
        after: Self,
        left: SkynetContext,
        response: ActorResponse<u64>,
    ) -> bool {
        match message {
            SkynetMessage::Poke(n) => SkynetActor::poked(before, after, given, left, n, response),
            SkynetMessage::Sum(value) => SkynetActor::summed(
                before,
                after,
                given,
                left,
                value,
                response,
            ),
        }
    }

    /// A child's answer comes back as the message `Sum`.
    open spec fn answers(value: u64) -> Option<SkynetMessage> {
        Some(SkynetMessage::Sum(value))
    }

    fn answer(value: u64) -> (message: Option<SkynetMessage>) {
        Some(SkynetMessage::Sum(value))
    }

    open spec fn starts(before: Self, after: Self) -> bool {
        after == before
    }

    open spec fn ends(before: Self, after: Self) -> bool {
        after == before
    }

    fn on_start(&mut self) {
    }

    fn on_stop(&mut self) {
    }

    fn handle(&mut self, context: &mut SkynetContext, message: SkynetMessage) -> (response:
        ActorResponse<u64>)
    {
        match message {
            SkynetMessage::Poke(n) => self.poke(context, n),
            SkynetMessage::Sum(value) => self.sum(context, value),
        }
    }
}

} // verus!
