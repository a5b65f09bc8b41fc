use vstd::prelude::*;
use std::collections::VecDeque;
use crate::actor_cell::ActorCellHandle;
use crate::actor_factory::new_id;
use crate::actor_ref::ActorRef;

verus! {

/// Something a handler asked of the runtime.
#[allow(inconsistent_fields)]
pub enum Effect<M, S, R> {
    /// Enqueue `message` on `target`, with an optional response-sink.
    Send { target: ActorRef, message: M, sender: ActorRef, promise: Option<u64> },
    /// Enqueue `message` on `target` with a fresh bridge as its sender; the
    /// first answer to the bridge, a reply or the handler's response,
    /// fulfils `promise`.
    Ask { target: ActorRef, message: M, promise: u64 },
    /// Create a cell for `actor` under `id` and register it.
    Spawn { id: u128, actor: S },
    /// Enqueue the stop command on `target`; `promise` is told when it is done.
    Stop { target: ActorRef, promise: u64 },
    /// Complete the deferred response that is named `task` with `value`:
    /// whoever waits for the task gets the value.
    Complete { task: u64, value: R },
}

/// The ambient state of a worker thread: which worker it is. Code that runs
/// outside any worker has no worker.
#[derive(Clone, Copy, Debug, PartialEq, Eq, Structural)]
pub struct ThreadContext {
    pub worker: Option<usize>,
}

impl ThreadContext {
    /// The context of worker `worker`.
    pub fn new(worker: usize) -> (context: Self)
        ensures
            context == (ThreadContext { worker: Some(worker) }),
    {
        ThreadContext { worker: Some(worker) }
    }

    /// The context of code that no worker runs.
    pub fn outside() -> (context: Self)
        ensures
            context == (ThreadContext { worker: None }),
    {
        ThreadContext { worker: None }
    }

    /// The worker's place in the scheduler, by which the host finds its
    /// event loop; `None` outside any worker.
    pub fn handle(&self) -> (worker: Option<usize>)
        ensures
            worker == self.worker,
    {
        self.worker
    }
}

/// The ambient state of one handler invocation: who runs, on which worker,
/// who sent the message, and what the handler has asked for so far.
pub struct ActorContext<M, S, R> {
    self_ref: ActorRef,
    sender: ActorRef,
    thread: ThreadContext,
    effects: VecDeque<Effect<M, S, R>>,
}

impl<M, S, R> ActorContext<M, S, R> {
    pub closed spec fn self_ref_spec(&self) -> ActorRef {
        self.self_ref
    }

    pub closed spec fn sender_spec(&self) -> ActorRef {
        self.sender
    }

    pub closed spec fn thread_spec(&self) -> ThreadContext {
        self.thread
    }

    /// The requests recorded so far, oldest first.
    pub closed spec fn effects(&self) -> Seq<Effect<M, S, R>> {
        self.effects@
    }

    pub fn new(self_ref: ActorRef, sender: ActorRef, thread: ThreadContext) -> (context: Self)
        ensures
            context.self_ref_spec() == self_ref,
            context.sender_spec() == sender,
            context.thread_spec() == thread,
            context.effects() == Seq::<Effect<M, S, R>>::empty(),
    {
        ActorContext { self_ref, sender, thread, effects: VecDeque::new() }
    }

    /// The worker thread's context.
    pub fn thread(&self) -> (thread: ThreadContext)
        ensures
            thread == self.thread_spec(),
    {
        self.thread
    }

    /// The identifier of the running actor.
    pub fn id(&self) -> (id: u128)
        ensures
            id == self.self_ref_spec().id_spec(),
    {
        self.self_ref.id()
    }

    pub fn self_ref(&self) -> (reference: ActorRef)
        ensures
            reference == self.self_ref_spec(),
    {
        self.self_ref
    }

    /// Who sent the message being handled; the null reference outside a handler.
    pub fn sender(&self) -> (reference: ActorRef)
        ensures
            reference == self.sender_spec(),
    {
        self.sender
    }

    /// Fire-and-forget, with the running actor as the sender.
    pub fn send(&mut self, target: ActorRef, message: M)
        ensures
            final(self).self_ref_spec() == old(self).self_ref_spec(),
            final(self).sender_spec() == old(self).sender_spec(),
            final(self).thread_spec() == old(self).thread_spec(),
            final(self).effects() == old(self).effects().push(
                Effect::Send { target, message, sender: old(self).self_ref_spec(), promise: None },
            ),
    {
        let sender = self.self_ref;
        self.effects.push_back(Effect::Send { target, message, sender, promise: None });
    }

    /// Fire-and-forget on behalf of `sender`.
    pub fn send_from(&mut self, target: ActorRef, message: M, sender: ActorRef)
        ensures
            final(self).self_ref_spec() == old(self).self_ref_spec(),
            final(self).sender_spec() == old(self).sender_spec(),
            final(self).thread_spec() == old(self).thread_spec(),
            final(self).effects() == old(self).effects().push(
                Effect::Send { target, message, sender, promise: None },
            ),
    {
        self.effects.push_back(Effect::Send { target, message, sender, promise: None });
    }

    /// A message whose handler's response goes to `promise`.
    pub fn request(&mut self, target: ActorRef, message: M, promise: u64)
        ensures
            final(self).self_ref_spec() == old(self).self_ref_spec(),
            final(self).sender_spec() == old(self).sender_spec(),
            final(self).thread_spec() == old(self).thread_spec(),
            final(self).effects() == old(self).effects().push(
                Effect::Send {
                    target,
                    message,
                    sender: old(self).self_ref_spec(),
                    promise: Some(promise),
                },
            ),
    {
        let sender = self.self_ref;
        self.effects.push_back(Effect::Send { target, message, sender, promise: Some(promise) });
    }

    /// A message to the sender of the one being handled.
    pub fn reply(&mut self, message: M)
        ensures
            final(self).self_ref_spec() == old(self).self_ref_spec(),
            final(self).sender_spec() == old(self).sender_spec(),
            final(self).thread_spec() == old(self).thread_spec(),
            final(self).effects() == old(self).effects().push(
                Effect::Send {
                    target: old(self).sender_spec(),
                    message,
                    sender: old(self).self_ref_spec(),
                    promise: None,
                },
            ),
    {
        let target = self.sender;
        let sender = self.self_ref;
        self.effects.push_back(Effect::Send { target, message, sender, promise: None });
    }

    /// A message whose first answer, captured by a bridge, goes to `promise`.
    pub fn ask(&mut self, target: ActorRef, message: M, promise: u64)
        ensures
            final(self).self_ref_spec() == old(self).self_ref_spec(),
            final(self).sender_spec() == old(self).sender_spec(),
            final(self).thread_spec() == old(self).thread_spec(),
            final(self).effects() == old(self).effects().push(
                Effect::Ask { target, message, promise },
            ),
    {
        self.effects.push_back(Effect::Ask { target, message, promise });
    }

    /// A new actor under `id`. The reference is valid at once; the cell is
    /// registered when the handler's batch has been handed back, before any
    /// later request of this handler is acted on.
    pub fn spawn(&mut self, id: u128, actor: S) -> (reference: ActorRef)
        ensures
            reference.target() == Some(id),
            final(self).self_ref_spec() == old(self).self_ref_spec(),
            final(self).sender_spec() == old(self).sender_spec(),
            final(self).thread_spec() == old(self).thread_spec(),
            final(self).effects() == old(self).effects().push(Effect::Spawn { id, actor }),
    {
        self.effects.push_back(Effect::Spawn { id, actor });
        ActorRef::new(ActorCellHandle::new(id))
    }

    /// A new actor under a random identifier, which the reference tells.
    pub fn start(&mut self, actor: S) -> (reference: ActorRef)
        ensures
            reference.target() is Some,
            final(self).self_ref_spec() == old(self).self_ref_spec(),
            final(self).sender_spec() == old(self).sender_spec(),
            final(self).thread_spec() == old(self).thread_spec(),
            final(self).effects() == old(self).effects().push(
                Effect::Spawn { id: reference.target().unwrap(), actor },
            ),
    {
        let id = new_id();
        self.spawn(id, actor)
    }

    /// The stop command for `target`, behind whatever its mailbox holds.
    pub fn stop(&mut self, target: ActorRef, promise: u64)
        ensures
            final(self).self_ref_spec() == old(self).self_ref_spec(),
            final(self).sender_spec() == old(self).sender_spec(),
            final(self).thread_spec() == old(self).thread_spec(),
            final(self).effects() == old(self).effects().push(Effect::Stop { target, promise }),
    {
        self.effects.push_back(Effect::Stop { target, promise });
    }

    /// Completes the deferred response that is named `task` with `value`.
    pub fn complete(&mut self, task: u64, value: R)
        ensures
            final(self).self_ref_spec() == old(self).self_ref_spec(),
            final(self).sender_spec() == old(self).sender_spec(),
            final(self).thread_spec() == old(self).thread_spec(),
            final(self).effects() == old(self).effects().push(Effect::Complete { task, value }),
    {
        self.effects.push_back(Effect::Complete { task, value });
    }

    /// Hands the recorded requests over, oldest first.
    pub fn into_effects(self) -> (effects: VecDeque<Effect<M, S, R>>)
        ensures
            effects@ == self.effects(),
    {
        self.effects
    }
}

} // verus!
