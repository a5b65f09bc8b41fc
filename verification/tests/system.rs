use akio::actor::{Actor, ActorResponse, Completion, Deed};
use akio::actor_cell::{ActorCell, ActorCellHandle, ActorStatus};
use akio::actor_factory::create_actor;
use akio::actor_ref::ActorRef;
use akio::actor_system::{ActorSystem, Progress, Turn, BATCH};
use akio::ask_actor::AskActor;
use akio::context::{ActorContext, Effect, ThreadContext};
use akio::errors::ErrorKind;
use akio::greet::{ExampleActor, ExampleMessage, ExampleResponse};
use akio::mailbox::SystemMessage;
use akio::skynet::{SkynetActor, SkynetMessage};
use std::collections::VecDeque;

/// Hands setup code to the guardian, and lets the worker that got it run it.
fn startup<A: Actor>(
    system: &mut ActorSystem<A>,
    token: u64,
    setup: impl FnOnce(&mut ActorContext<A::Message, A, A::Response>),
) -> usize {
    let worker = match system.on_startup(token) {
        Some(worker) => worker,
        None => panic!("the guardian was idle"),
    };
    loop {
        match system.begin(worker) {
            Turn::Startup { token: found, mut context } => {
                assert_eq!(found, token);
                setup(&mut context);
                assert_eq!(system.finish_startup(context), None);
                return worker;
            }
            Turn::Batch(mut batch) => {
                batch.run(ThreadContext::new(worker));
                system.finish(batch);
            }
            Turn::Idle | Turn::Stopped => panic!("the setup code is in this inbox"),
        }
    }
}

/// Adds what it is sent, and tells the sender the sum.
struct Adder {
    sum: u64,
}

enum AdderMessage {
    Add(u64),
    Sum(u64),
    Spawn(u128),
    Forward(ActorRef, u64),
    AskOf(ActorRef, u64),
    StopOf(ActorRef, u64),
}

impl Actor for Adder {
    type Message = AdderMessage;
    type Response = u64;
    fn on_start(&mut self) {}

    fn on_stop(&mut self) {}

    fn answer(_value: u64) -> Option<AdderMessage> {
        None
    }


    fn handle(
        &mut self,
        context: &mut ActorContext<AdderMessage, Adder, u64>,
        message: AdderMessage,
    ) -> ActorResponse<u64> {
        match message {
            AdderMessage::Add(n) => {
                self.sum += n;
                context.reply(AdderMessage::Sum(self.sum));
                self.respond(self.sum)
            }
            AdderMessage::Sum(n) => {
                self.sum = n;
                ActorResponse::Normal(None)
            }
            AdderMessage::Spawn(id) => {
                let child = context.spawn(id, Adder { sum: 1000 });
                context.send(child, AdderMessage::Add(1));
                self.respond(0)
            }
            AdderMessage::Forward(target, n) => {
                context.request(target, AdderMessage::Add(n), n);
                self.respond_fut(n)
            }
            AdderMessage::AskOf(target, promise) => {
                context.ask(target, AdderMessage::Add(1), promise);
                self.respond(0)
            }
            AdderMessage::StopOf(target, promise) => {
                context.stop(target, promise);
                self.respond(0)
            }
        }
    }
}

fn run_to_quiescence<A: Actor>(system: &mut ActorSystem<A>) {
    loop {
        if system.run(1_000_000) < 1_000_000 {
            break;
        }
    }
}

fn queued_everywhere<A: Actor>(system: &ActorSystem<A>) -> usize {
    (0..system.worker_count()).map(|worker| system.queued(worker)).sum()
}

#[test]
fn new_system_has_workers_a_root_and_no_actors() {
    let system: ActorSystem<Adder> = ActorSystem::new();
    assert!(system.worker_count() >= 1);
    assert_eq!(system.actor_count(), 0);
    assert_eq!(queued_everywhere(&system), 0);
    let root = system.root_actor().unwrap();
    assert!(!root.is_null());
    assert_ne!(root.id(), 0);
    // The guardian belongs to the runtime, not to the registry of actors.
    assert!(system.get_actor(&root.id()).is_none());
    assert_eq!(BATCH, 10);
    assert_eq!(system.affinity(system.worker_count()), None);
}

#[test]
fn a_cell_is_in_one_inbox_exactly_while_it_is_scheduled() {
    let mut system: ActorSystem<Adder> = ActorSystem::new();
    let first = system.spawn(1, Adder { sum: 0 }).unwrap();
    let second = system.spawn(2, Adder { sum: 0 }).unwrap();
    assert_eq!(system.status(&1), Some(ActorStatus::Idle));
    assert_eq!(queued_everywhere(&system), 0);
    for n in 0..25 {
        first.send(&mut system, AdderMessage::Add(n));
        assert_eq!(queued_everywhere(&system), 1);
        assert_eq!(system.status(&1), Some(ActorStatus::Scheduled));
    }
    second.send(&mut system, AdderMessage::Add(1));
    assert_eq!(queued_everywhere(&system), 2);
    // Every turn that runs a batch leaves each scheduled cell in one inbox.
    let mut batches = 0;
    loop {
        let mut progressed = false;
        for worker in 0..system.worker_count() {
            if system.run_once(worker) != Progress::Idle {
                progressed = true;
                batches += 1;
            }
            let scheduled = [1u128, 2]
                .iter()
                .filter(|id| system.status(id) == Some(ActorStatus::Scheduled))
                .count();
            assert_eq!(queued_everywhere(&system), scheduled);
        }
        if !progressed {
            break;
        }
    }
    assert_eq!(batches, 4);
    assert_eq!(system.status(&1), Some(ActorStatus::Idle));
    assert_eq!(system.status(&2), Some(ActorStatus::Idle));
    assert_eq!(system.actor(&1).unwrap().sum, (0..25).sum::<u64>());
    assert_eq!(system.status(&3), None);
}

#[test]
fn run_once_on_an_empty_inbox_is_idle() {
    let mut system: ActorSystem<Adder> = ActorSystem::new();
    assert_eq!(system.run_once(0), Progress::Idle);
    assert_eq!(system.run_once(system.worker_count()), Progress::Idle);
    assert_eq!(system.run(10), 0);
    assert_eq!(system.run(0), 0);
}

#[test]
fn run_stops_at_its_limit() {
    let mut system: ActorSystem<Adder> = ActorSystem::new();
    let actor = system.spawn(1, Adder { sum: 0 }).unwrap();
    for n in 0..50 {
        actor.send(&mut system, AdderMessage::Add(n));
    }
    assert_eq!(system.run(2), 2);
    assert_eq!(system.actor(&1).unwrap().sum, (0..20).sum::<u64>());
    assert_eq!(system.run(100), 3);
    assert_eq!(system.actor(&1).unwrap().sum, (0..50).sum::<u64>());
}

#[test]
fn send_from_names_the_sender_for_the_reply() {
    let mut system: ActorSystem<Adder> = ActorSystem::new();
    let first = system.spawn(1, Adder { sum: 0 }).unwrap();
    let second = system.spawn(2, Adder { sum: 0 }).unwrap();
    first.send_from(&mut system, AdderMessage::Add(5), &second);
    run_to_quiescence(&mut system);
    assert_eq!(system.actor(&1).unwrap().sum, 5);
    assert_eq!(system.actor(&2).unwrap().sum, 5);
    // Without a sender the reply goes to the null reference and is dropped.
    first.send(&mut system, AdderMessage::Add(2));
    run_to_quiescence(&mut system);
    assert_eq!(system.actor(&1).unwrap().sum, 7);
    assert_eq!(system.actor(&2).unwrap().sum, 5);
    assert!(system.take_completions().is_empty());
}

#[test]
fn request_is_answered_with_the_handlers_response() {
    let mut system: ActorSystem<Adder> = ActorSystem::new();
    let actor = system.spawn(1, Adder { sum: 40 }).unwrap();
    assert_eq!(actor.request(&mut system, AdderMessage::Add(2), 11), Ok(()));
    assert!(system.take_completions().is_empty());
    run_to_quiescence(&mut system);
    let owing = system.take_completions();
    assert_eq!(owing.len(), 1);
    assert!(matches!(
        owing[0],
        Completion::Responded { promise: 11, response: ActorResponse::Normal(Some(42)) }
    ));
    assert!(system.take_completions().is_empty());
}

#[test]
fn deferred_response_goes_to_the_sink_as_it_is() {
    let mut system: ActorSystem<Adder> = ActorSystem::new();
    let first = system.spawn(1, Adder { sum: 0 }).unwrap();
    let second = system.spawn(2, Adder { sum: 0 }).unwrap();
    assert!(first.request(&mut system, AdderMessage::Forward(second, 9), 1).is_ok());
    run_to_quiescence(&mut system);
    let owing = system.take_completions();
    assert_eq!(owing.len(), 2);
    assert!(matches!(
        owing[0],
        Completion::Responded { promise: 1, response: ActorResponse::Async(9) }
    ));
    assert!(matches!(
        owing[1],
        Completion::Responded { promise: 9, response: ActorResponse::Normal(Some(9)) }
    ));
}

#[test]
fn ask_is_answered_by_the_first_reply_only() {
    let mut system: ActorSystem<Adder> = ActorSystem::new();
    let actor = system.spawn(1, Adder { sum: 1 }).unwrap();
    let bridge = actor.ask(&mut system, AdderMessage::Add(4), 21).unwrap();
    assert!(bridge.is_alive(&system));
    assert!(system.get_actor(&bridge.id()).is_none());
    assert!(system.take_completions().is_empty());
    run_to_quiescence(&mut system);
    let owing = system.take_completions();
    assert_eq!(owing.len(), 1);
    assert!(matches!(
        owing[0],
        Completion::Replied { promise: 21, reply: AdderMessage::Sum(5) }
    ));
    assert!(!bridge.is_alive(&system));
    // A later message to the bridge reaches nobody.
    bridge.send(&mut system, AdderMessage::Sum(6));
    assert_eq!(
        bridge.request(&mut system, AdderMessage::Sum(6), 22),
        Err(ErrorKind::ActorDestroyed)
    );
    let owing = system.take_completions();
    assert_eq!(owing.len(), 1);
    assert!(matches!(
        owing[0],
        Completion::Failed { promise: 22, error: ErrorKind::ActorDestroyed }
    ));
}

#[test]
fn ask_of_a_dead_reference_fails() {
    let mut system: ActorSystem<Adder> = ActorSystem::new();
    let nobody = ActorRef::new(ActorCellHandle::new(5));
    assert_eq!(
        nobody.ask(&mut system, AdderMessage::Add(1), 8),
        Err(ErrorKind::ActorDestroyed)
    );
    assert_eq!(
        ActorRef::null().ask(&mut system, AdderMessage::Add(1), 9),
        Err(ErrorKind::ActorDestroyed)
    );
    let owing = system.take_completions();
    assert_eq!(owing.len(), 2);
    assert!(matches!(
        owing[0],
        Completion::Failed { promise: 8, error: ErrorKind::ActorDestroyed }
    ));
    assert!(matches!(
        owing[1],
        Completion::Failed { promise: 9, error: ErrorKind::ActorDestroyed }
    ));
}

#[test]
fn a_bridge_answers_no_request() {
    let mut system: ActorSystem<Adder> = ActorSystem::new();
    let actor = system.spawn(1, Adder { sum: 1 }).unwrap();
    let bridge = actor.ask(&mut system, AdderMessage::Add(4), 21).unwrap();
    assert_eq!(bridge.request(&mut system, AdderMessage::Sum(3), 30), Ok(()));
    let owing = system.take_completions();
    assert_eq!(owing.len(), 2);
    assert!(matches!(
        owing[0],
        Completion::Replied { promise: 21, reply: AdderMessage::Sum(3) }
    ));
    match &owing[1] {
        Completion::Failed { promise: 30, error } => {
            assert_eq!(*error, ErrorKind::InvalidActor(bridge.id()))
        }
        _ => panic!("the request to the bridge was not refused"),
    }
}

#[test]
fn handlers_requests_are_acted_on_in_their_order() {
    let mut system: ActorSystem<Adder> = ActorSystem::new();
    let actor = system.spawn(1, Adder { sum: 0 }).unwrap();
    actor.send(&mut system, AdderMessage::Spawn(2));
    run_to_quiescence(&mut system);
    // The child was spawned with 1000, got one more, and told its parent.
    assert_eq!(system.actor(&2).unwrap().sum, 1001);
    assert_eq!(system.actor(&1).unwrap().sum, 1001);
    // The identifier is taken now: the host is told, and the message that
    // followed the spawn goes to the actor that is there.
    actor.send(&mut system, AdderMessage::Spawn(2));
    run_to_quiescence(&mut system);
    assert_eq!(system.actor(&2).unwrap().sum, 1002);
    let owing = system.take_completions();
    assert_eq!(owing.len(), 1);
    assert!(matches!(
        owing[0],
        Completion::Rejected { error: ErrorKind::ActorAlreadyExists(2) }
    ));
}

#[test]
fn handlers_can_ask_and_stop() {
    let mut system: ActorSystem<Adder> = ActorSystem::new();
    let first = system.spawn(1, Adder { sum: 0 }).unwrap();
    let second = system.spawn(2, Adder { sum: 6 }).unwrap();
    first.send(&mut system, AdderMessage::AskOf(second, 70));
    first.send(&mut system, AdderMessage::StopOf(second, 71));
    first.send(&mut system, AdderMessage::StopOf(second, 72));
    run_to_quiescence(&mut system);
    let owing = system.take_completions();
    // The second actor's batch ends with the first stop command; the second
    // one was still pending. What the batch's handlers asked for, the reply
    // to the bridge, is acted on when the batch has ended.
    assert_eq!(owing.len(), 3);
    assert!(matches!(owing[0], Completion::Stopped { promise: 71 }));
    assert!(matches!(
        owing[1],
        Completion::Failed { promise: 72, error: ErrorKind::ActorDestroyed }
    ));
    assert!(matches!(
        owing[2],
        Completion::Replied { promise: 70, reply: AdderMessage::Sum(7) }
    ));
    assert!(!second.is_alive(&system));
    assert!(first.is_alive(&system));
}

#[test]
fn an_actor_that_stops_cannot_take_its_identifier_again_in_that_batch() {
    let mut system: ActorSystem<Adder> = ActorSystem::new();
    let actor = system.spawn(1, Adder { sum: 0 }).unwrap();
    actor.send(&mut system, AdderMessage::Spawn(1));
    assert!(actor.stop(&mut system, 5).is_ok());
    run_to_quiescence(&mut system);
    assert!(system.get_actor(&1).is_none());
    assert!(!actor.is_alive(&system));
    let owing = system.take_completions();
    assert_eq!(owing.len(), 2);
    assert!(matches!(owing[0], Completion::Stopped { promise: 5 }));
    assert!(matches!(
        owing[1],
        Completion::Rejected { error: ErrorKind::ActorAlreadyExists(1) }
    ));
    // Later the identifier is free again.
    assert!(system.spawn(1, Adder { sum: 0 }).is_some());
}

#[test]
fn deregister_removes_at_once_and_fails_what_was_pending() {
    let mut system: ActorSystem<Adder> = ActorSystem::new();
    let actor = system.spawn(1, Adder { sum: 0 }).unwrap();
    assert!(actor.request(&mut system, AdderMessage::Add(1), 3).is_ok());
    assert!(actor.stop(&mut system, 4).is_ok());
    assert_eq!(queued_everywhere(&system), 1);
    assert_eq!(system.deregister_actor(&1), Ok(()));
    assert_eq!(queued_everywhere(&system), 0);
    assert!(system.get_actor(&1).is_none());
    assert_eq!(system.actor_count(), 0);
    let owing = system.take_completions();
    assert_eq!(owing.len(), 2);
    assert!(matches!(
        owing[0],
        Completion::Failed { promise: 3, error: ErrorKind::ActorDestroyed }
    ));
    assert!(matches!(
        owing[1],
        Completion::Failed { promise: 4, error: ErrorKind::ActorDestroyed }
    ));
    assert_eq!(system.deregister_actor(&1), Err(ErrorKind::InvalidActor(1)));
    assert_eq!(system.run(10), 0);
}

#[test]
fn register_refuses_what_the_factory_did_not_make() {
    let mut system: ActorSystem<Adder> = ActorSystem::new();
    let mut good = ActorCell::new(1, Adder { sum: 0 });
    good.on_start();
    assert_eq!(system.register_actor(1, good), Ok(()));
    let mut again = ActorCell::new(1, Adder { sum: 0 });
    again.on_start();
    assert_eq!(system.register_actor(1, again), Err(ErrorKind::ActorAlreadyExists(1)));
    let mut misnamed = ActorCell::new(2, Adder { sum: 0 });
    misnamed.on_start();
    assert_eq!(system.register_actor(3, misnamed), Err(ErrorKind::InvalidActor(3)));
    let mut busy = ActorCell::new(4, Adder { sum: 0 });
    busy.on_start();
    assert!(busy.enqueue_message(AdderMessage::Add(1), ActorRef::null(), None).is_ok());
    assert_eq!(system.register_actor(4, busy), Err(ErrorKind::InvalidActor(4)));
    assert_eq!(system.actor_count(), 1);
}

#[test]
fn create_actor_refuses_a_taken_identifier() {
    let mut system: ActorSystem<Adder> = ActorSystem::new();
    let created = create_actor(&mut system, 8, Adder { sum: 1 });
    assert_eq!(created.map(|reference| reference.id()), Ok(8));
    let again = create_actor(&mut system, 8, Adder { sum: 2 });
    assert_eq!(again, Err(ErrorKind::ActorAlreadyExists(8)));
    assert_eq!(system.actor(&8).unwrap().sum, 1);
    // A bridge's identifier is free for an actor.
    let bridge = ActorRef::new(ActorCellHandle::new(8))
        .ask(&mut system, AdderMessage::Add(0), 1)
        .unwrap();
    let beside = create_actor(&mut system, bridge.id(), Adder { sum: 3 });
    assert_eq!(beside, Ok(ActorRef::new(ActorCellHandle::new(bridge.id()))));
    assert_eq!(system.actor(&bridge.id()).unwrap().sum, 3);
    assert!(bridge.is_alive(&system));
    assert!(ActorRef::new(ActorCellHandle::new(8))
        .spawn(&mut system, 9, Adder { sum: 0 })
        .is_some());
    assert!(ActorRef::new(ActorCellHandle::new(8))
        .spawn(&mut system, 9, Adder { sum: 0 })
        .is_none());
}

#[test]
fn start_and_stop_tell_the_shutdown_promise_and_the_workers() {
    let mut system: ActorSystem<Adder> = ActorSystem::new();
    assert!(!system.stop());
    assert!(system.take_completions().is_empty());
    system.start(60);
    system.start(61);
    assert!(system.stop());
    assert!(!system.stop());
    let owing = system.take_completions();
    assert_eq!(owing.len(), 2);
    assert!(matches!(
        owing[0],
        Completion::Failed { promise: 60, error: ErrorKind::ActorDestroyed }
    ));
    assert!(matches!(owing[1], Completion::Stopped { promise: 61 }));
    for worker in 0..system.worker_count() {
        assert_eq!(system.queued(worker), 1);
        assert_eq!(system.run_once(worker), Progress::Stopped);
        assert_eq!(system.run_once(worker), Progress::Idle);
    }
}

#[test]
fn startup_runs_under_the_roots_context() {
    let mut system: ActorSystem<Adder> = ActorSystem::new();
    let root = system.root_actor().unwrap();
    let mut seen = None;
    startup(&mut system, 1, |context| {
        seen = Some((context.self_ref(), context.sender(), context.id()));
        let child = context.spawn(5, Adder { sum: 0 });
        context.send(child, AdderMessage::Add(3));
    });
    assert_eq!(seen, Some((root, ActorRef::null(), root.id())));
    assert_eq!(system.status(&5), Some(ActorStatus::Scheduled));
    run_to_quiescence(&mut system);
    assert_eq!(system.actor(&5).unwrap().sum, 3);
}

#[test]
fn apply_acts_on_recorded_requests() {
    let mut system: ActorSystem<Adder> = ActorSystem::new();
    let one = ActorRef::new(ActorCellHandle::new(1));
    let seven = ActorRef::new(ActorCellHandle::new(7));
    let mut deeds = VecDeque::new();
    deeds.push_back(Deed::Asked(Effect::Spawn { id: 1, actor: Adder { sum: 10 } }));
    deeds.push_back(Deed::Asked(Effect::Send {
        target: one,
        message: AdderMessage::Add(1),
        sender: ActorRef::null(),
        promise: Some(2),
    }));
    deeds.push_back(Deed::Asked(Effect::Stop { target: one, promise: 3 }));
    deeds.push_back(Deed::Asked(Effect::Stop { target: seven, promise: 4 }));
    deeds.push_back(Deed::Answered { sender: seven, response: ActorResponse::Normal(Some(1)) });
    deeds.push_back(Deed::Orphaned { sender: seven });
    system.apply(deeds);
    let owing = system.take_completions();
    assert_eq!(owing.len(), 1);
    assert!(matches!(
        owing[0],
        Completion::Failed { promise: 4, error: ErrorKind::ActorDestroyed }
    ));
    run_to_quiescence(&mut system);
    let owing = system.take_completions();
    assert_eq!(owing.len(), 2);
    assert!(matches!(
        owing[0],
        Completion::Responded { promise: 2, response: ActorResponse::Normal(Some(11)) }
    ));
    assert!(matches!(owing[1], Completion::Stopped { promise: 3 }));
}

#[test]
fn handle_enqueues_like_its_reference() {
    let mut system: ActorSystem<Adder> = ActorSystem::new();
    assert!(system.spawn(1, Adder { sum: 0 }).is_some());
    let handle = ActorCellHandle::new(1);
    assert!(handle.is_alive(&system));
    assert!(!ActorCellHandle::new(2).is_alive(&system));
    handle.enqueue_message(&mut system, AdderMessage::Add(2), ActorRef::null(), Some(1));
    handle.enqueue_system_message(&mut system, SystemMessage::Stop(2));
    ActorCellHandle::new(2).enqueue_system_message(&mut system, SystemMessage::Stop(3));
    run_to_quiescence(&mut system);
    let owing = system.take_completions();
    assert_eq!(owing.len(), 3);
    assert!(matches!(
        owing[0],
        Completion::Failed { promise: 3, error: ErrorKind::ActorDestroyed }
    ));
    assert!(matches!(
        owing[1],
        Completion::Responded { promise: 1, response: ActorResponse::Normal(Some(2)) }
    ));
    assert!(matches!(owing[2], Completion::Stopped { promise: 2 }));
    assert!(!handle.is_alive(&system));
}

#[test]
fn bridge_captures_once() {
    let mut bridge = AskActor::new(4);
    let first: Option<Completion<Adder>> = bridge.handle(AdderMessage::Sum(1));
    let second: Option<Completion<Adder>> = bridge.handle(AdderMessage::Sum(2));
    assert!(matches!(
        first,
        Some(Completion::Replied { promise: 4, reply: AdderMessage::Sum(1) })
    ));
    assert!(second.is_none());
}

#[test]
fn context_records_in_the_order_of_the_calls() {
    let me = ActorRef::new(ActorCellHandle::new(1));
    let you = ActorRef::new(ActorCellHandle::new(2));
    let other = ActorRef::new(ActorCellHandle::new(3));
    let mut context: ActorContext<u8, (), u8> = ActorContext::new(me, you, ThreadContext::outside());
    assert_eq!(context.id(), 1);
    context.send(other, 10);
    context.send_from(other, 11, you);
    context.request(other, 12, 50);
    context.reply(13);
    context.ask(other, 14, 51);
    let child = context.spawn(9, ());
    let started = context.start(());
    context.stop(other, 52);
    assert_eq!(child.id(), 9);
    assert_ne!(started.id(), 0);
    let effects: Vec<Effect<u8, (), u8>> = context.into_effects().into_iter().collect();
    assert_eq!(effects.len(), 8);
    assert!(matches!(
        effects[0],
        Effect::Send { target, message: 10, sender, promise: None }
            if target == other && sender == me
    ));
    assert!(matches!(
        effects[1],
        Effect::Send { target, message: 11, sender, promise: None }
            if target == other && sender == you
    ));
    assert!(matches!(
        effects[2],
        Effect::Send { target, message: 12, sender, promise: Some(50) }
            if target == other && sender == me
    ));
    assert!(matches!(
        effects[3],
        Effect::Send { target, message: 13, sender, promise: None } if target == you && sender == me
    ));
    assert!(matches!(
        effects[4],
        Effect::Ask { target, message: 14, promise: 51 } if target == other
    ));
    assert!(matches!(effects[5], Effect::Spawn { id: 9, actor: () }));
    assert!(matches!(effects[6], Effect::Spawn { id, actor: () } if id == started.id()));
    assert!(matches!(effects[7], Effect::Stop { target, promise: 52 } if target == other));
}

#[test]
fn greeting_is_told_and_changed() {
    let mut system: ActorSystem<ExampleActor> = ActorSystem::new();
    let actor = system.spawn(1, ExampleActor::new()).unwrap();
    assert!(actor.request(&mut system, ExampleMessage::Greet, 1).is_ok());
    actor.send(&mut system, ExampleMessage::SetGreeting("Good bye!".to_string()));
    assert!(actor.request(&mut system, ExampleMessage::Greet, 2).is_ok());
    assert!(actor
        .request(&mut system, ExampleMessage::SetGreeting("Again".to_string()), 3)
        .is_ok());
    run_to_quiescence(&mut system);
    let owing = system.take_completions();
    assert_eq!(owing.len(), 3);
    match &owing[0] {
        Completion::Responded {
            promise: 1,
            response: ActorResponse::Normal(Some(ExampleResponse::Greet(text))),
        } => assert_eq!(text, "Hello World"),
        _ => panic!("the first greeting is missing"),
    }
    match &owing[1] {
        Completion::Responded {
            promise: 2,
            response: ActorResponse::Normal(Some(ExampleResponse::Greet(text))),
        } => assert_eq!(text, "Good bye!"),
        _ => panic!("the second greeting is missing"),
    }
    assert!(matches!(
        owing[2],
        Completion::Responded {
            promise: 3,
            response: ActorResponse::Normal(Some(ExampleResponse::SetGreeting)),
        }
    ));
}

#[test]
fn example_actor_greets_directly() {
    let mut actor = ExampleActor::new();
    assert!(matches!(actor.greet(), ActorResponse::Normal(Some(text)) if text == "Hello World"));
    assert!(matches!(
        actor.set_greeting("Good bye!".to_string()),
        ActorResponse::Normal(Some(()))
    ));
    assert!(matches!(actor.greet(), ActorResponse::Normal(Some(text)) if text == "Good bye!"));
}

#[test]
fn skynet_sums_the_whole_tree() {
    let mut system: ActorSystem<SkynetActor> = ActorSystem::new();
    let root = system.spawn(1, SkynetActor::new()).unwrap();
    assert!(root.ask(&mut system, SkynetMessage::Poke(0), 1).is_ok());
    run_to_quiescence(&mut system);
    assert_eq!(system.actor_count(), 1_000_001);
    let owing = system.take_completions();
    // The bridge takes the root's deferred response for its answer, and the
    // promise then waits for the task, which the tenth answer completes.
    assert_eq!(owing.len(), 2);
    assert!(matches!(
        owing[0],
        Completion::Responded { promise: 1, response: ActorResponse::Async(0) }
    ));
    let total = match owing[1] {
        Completion::Responded { promise: 1, response: ActorResponse::Normal(Some(total)) } => {
            total
        }
        _ => panic!("the deferred response was not completed"),
    };
    // Every node adds its number: the nodes are 0..=1 000 000.
    assert_eq!(total, 500_000_500_000);
    // Of that, the nodes that spawn children, 0..=99 999, add 4 999 950 000.
    let leaves: u64 = (100_000..=1_000_000u64).sum();
    assert_eq!(total - leaves, 4_999_950_000);
}

#[test]
fn trait_helpers_build_responses() {
    let actor = Adder { sum: 0 };
    assert!(matches!(actor.done(), ActorResponse::Normal(Some(()))));
    assert!(matches!(actor.respond(3u8), ActorResponse::Normal(Some(3))));
    let deferred: ActorResponse<u8> = actor.respond_fut(4);
    assert!(matches!(deferred, ActorResponse::Async(4)));
}

struct Witness {
    workers: Vec<Option<usize>>,
}

impl Actor for Witness {
    type Message = ();
    type Response = ();
    fn on_start(&mut self) {}

    fn on_stop(&mut self) {}

    fn answer(_value: ()) -> Option<()> {
        None
    }


    fn handle(
        &mut self,
        context: &mut ActorContext<(), Witness, ()>,
        _message: (),
    ) -> ActorResponse<()> {
        self.workers.push(context.thread().handle());
        self.done()
    }
}

#[test]
fn handler_knows_the_worker_that_runs_it() {
    let mut system: ActorSystem<Witness> = ActorSystem::new();
    let actor = system.spawn(1, Witness { workers: Vec::new() }).unwrap();
    actor.send(&mut system, ());
    let mut ran_on = None;
    for worker in 0..system.worker_count() {
        if system.run_once(worker) == Progress::Processed(1) {
            ran_on = Some(worker);
        }
    }
    assert!(ran_on.is_some());
    assert_eq!(system.actor(&1).unwrap().workers, vec![ran_on]);
    let mut setup_on = None;
    let worker = startup(&mut system, 1, |context| {
        setup_on = context.thread().handle();
    });
    assert_eq!(setup_on, Some(worker));
    assert_eq!(system.guardian_context(None).thread().handle(), None);
    assert_eq!(ThreadContext::new(3).handle(), Some(3));
    assert_eq!(ThreadContext::outside().handle(), None);
}

#[test]
fn a_cell_whose_batch_is_out_is_in_no_inbox() {
    let mut system: ActorSystem<Adder> = ActorSystem::new();
    let actor = system.spawn(1, Adder { sum: 0 }).unwrap();
    let other = system.spawn(2, Adder { sum: 0 }).unwrap();
    for n in 1..=3 {
        actor.send(&mut system, AdderMessage::Add(n));
    }
    // Some worker has the cell's work item: it gets the batch.
    let mut held = None;
    for worker in 0..system.worker_count() {
        match system.begin(worker) {
            Turn::Batch(batch) => held = Some((worker, batch)),
            Turn::Idle => {}
            Turn::Stopped => panic!("nobody stopped the workers"),
            Turn::Startup { .. } => panic!("nobody left setup code"),
        }
    }
    let (worker, mut batch) = held.unwrap();
    assert_eq!((batch.id(), batch.len()), (1, 3));
    assert_eq!(queued_everywhere(&system), 0);
    assert_eq!(system.status(&1), Some(ActorStatus::Scheduled));
    assert!(system.actor(&1).is_none());
    assert!(actor.is_alive(&system));
    // While the batch is out, messages are taken, but no worker gets the cell.
    actor.send(&mut system, AdderMessage::Add(10));
    other.send(&mut system, AdderMessage::Add(5));
    assert_eq!(queued_everywhere(&system), 1);
    let mut turns = Vec::new();
    for w in 0..system.worker_count() {
        turns.push(system.run_once(w));
    }
    assert_eq!(turns.iter().filter(|turn| **turn == Progress::Processed(1)).count(), 1);
    assert_eq!(turns.iter().filter(|turn| **turn == Progress::Idle).count(), turns.len() - 1);
    assert_eq!(system.actor(&2).unwrap().sum, 5);
    assert_eq!(queued_everywhere(&system), 0);
    // The worker runs the batch on its own and hands it back: the cell waits
    // for a worker again, with what came meanwhile.
    assert_eq!(batch.run(ThreadContext::new(worker)), 3);
    assert_eq!(system.finish(batch), None);
    assert_eq!(system.actor(&1).unwrap().sum, 6);
    assert_eq!(system.status(&1), Some(ActorStatus::Scheduled));
    assert_eq!(queued_everywhere(&system), 1);
    assert_eq!(system.run(10), 1);
    assert_eq!(system.actor(&1).unwrap().sum, 16);
    assert_eq!(system.status(&1), Some(ActorStatus::Idle));
}

#[test]
fn a_batch_of_a_deregistered_cell_is_dropped_with_its_actor() {
    let mut system: ActorSystem<Adder> = ActorSystem::new();
    let actor = system.spawn(1, Adder { sum: 0 }).unwrap();
    assert!(actor.request(&mut system, AdderMessage::Add(1), 1).is_ok());
    assert!(actor.request(&mut system, AdderMessage::Spawn(2), 2).is_ok());
    let mut held = None;
    for worker in 0..system.worker_count() {
        if let Turn::Batch(batch) = system.begin(worker) {
            held = Some(batch);
        }
    }
    let mut batch = held.unwrap();
    assert!(actor.request(&mut system, AdderMessage::Add(1), 3).is_ok());
    assert_eq!(system.deregister_actor(&1), Ok(()));
    assert!(system.spawn(1, Adder { sum: 100 }).is_some());
    assert_eq!(batch.run(ThreadContext::new(0)), 2);
    let _ = system.finish(batch);
    // The new actor under the identifier is not the batch's.
    assert_eq!(system.actor(&1).unwrap().sum, 100);
    assert_eq!(system.status(&1), Some(ActorStatus::Idle));
    // What the batch ran is owed, and what its handlers asked for is done.
    let owing = system.take_completions();
    assert_eq!(owing.len(), 3);
    assert!(matches!(
        owing[0],
        Completion::Failed { promise: 3, error: ErrorKind::ActorDestroyed }
    ));
    assert!(matches!(owing[1], Completion::Responded { promise: 1, .. }));
    assert!(matches!(owing[2], Completion::Responded { promise: 2, .. }));
    assert_eq!(system.status(&2), Some(ActorStatus::Scheduled));
}

/// Returns what it is sent, and never replies.
struct Quiet;

impl Actor for Quiet {
    type Message = u64;
    type Response = u64;
    fn on_start(&mut self) {}

    fn on_stop(&mut self) {}

    fn answer(_value: u64) -> Option<u64> {
        None
    }


    fn handle(
        &mut self,
        _context: &mut ActorContext<u64, Quiet, u64>,
        message: u64,
    ) -> ActorResponse<u64> {
        if message == 0 {
            ActorResponse::Normal(None)
        } else {
            self.respond(message)
        }
    }
}

#[test]
fn ask_is_answered_by_the_handlers_response_too() {
    let mut system: ActorSystem<Quiet> = ActorSystem::new();
    let actor = system.spawn(1, Quiet).unwrap();
    let bridge = actor.ask(&mut system, 8, 30).unwrap();
    run_to_quiescence(&mut system);
    let owing = system.take_completions();
    assert_eq!(owing.len(), 1);
    assert!(matches!(
        owing[0],
        Completion::Responded { promise: 30, response: ActorResponse::Normal(Some(8)) }
    ));
    assert!(!bridge.is_alive(&system));
}

#[test]
fn ask_waits_while_the_handler_gives_nothing() {
    let mut system: ActorSystem<Quiet> = ActorSystem::new();
    let actor = system.spawn(1, Quiet).unwrap();
    let bridge = actor.ask(&mut system, 0, 30).unwrap();
    run_to_quiescence(&mut system);
    assert!(system.take_completions().is_empty());
    assert!(bridge.is_alive(&system));
    // A reply still answers it.
    bridge.send(&mut system, 5);
    let owing = system.take_completions();
    assert_eq!(owing.len(), 1);
    assert!(matches!(owing[0], Completion::Replied { promise: 30, reply: 5 }));
}

#[test]
fn ask_fails_when_its_message_is_dropped() {
    let mut system: ActorSystem<Quiet> = ActorSystem::new();
    let actor = system.spawn(1, Quiet).unwrap();
    assert!(actor.stop(&mut system, 1).is_ok());
    let stopped = actor.ask(&mut system, 8, 30).unwrap();
    run_to_quiescence(&mut system);
    let owing = system.take_completions();
    assert_eq!(owing.len(), 2);
    assert!(matches!(owing[0], Completion::Stopped { promise: 1 }));
    assert!(matches!(
        owing[1],
        Completion::Failed { promise: 30, error: ErrorKind::ActorDestroyed }
    ));
    assert!(!stopped.is_alive(&system));
    // The same where the actor is taken out of the registry at once.
    let actor = system.spawn(2, Quiet).unwrap();
    let dropped = actor.ask(&mut system, 8, 31).unwrap();
    assert_eq!(system.deregister_actor(&2), Ok(()));
    let owing = system.take_completions();
    assert_eq!(owing.len(), 1);
    assert!(matches!(
        owing[0],
        Completion::Failed { promise: 31, error: ErrorKind::ActorDestroyed }
    ));
    assert!(!dropped.is_alive(&system));
}

#[test]
fn ask_under_makes_the_bridge_under_the_given_identifier() {
    let mut system: ActorSystem<Quiet> = ActorSystem::new();
    let actor = system.spawn(1, Quiet).unwrap();
    let bridge = system.ask_under(actor, 8, 30, 77);
    assert_eq!(bridge, Ok(ActorRef::of_bridge(77)));
    assert!(bridge.unwrap().is_alive(&system));
    assert!(system.get_actor(&77).is_none());
    run_to_quiescence(&mut system);
    let owing = system.take_completions();
    assert_eq!(owing.len(), 1);
    assert!(matches!(
        owing[0],
        Completion::Responded { promise: 30, response: ActorResponse::Normal(Some(8)) }
    ));
}

#[test]
fn ask_under_fails_without_a_target_or_under_a_taken_identifier() {
    let mut system: ActorSystem<Quiet> = ActorSystem::new();
    let actor = system.spawn(1, Quiet).unwrap();
    let nobody = ActorRef::new(ActorCellHandle::new(5));
    assert_eq!(system.ask_under(nobody, 8, 30, 77), Err(ErrorKind::ActorDestroyed));
    assert_eq!(system.ask_under(ActorRef::null(), 8, 31, 77), Err(ErrorKind::ActorDestroyed));
    // A cell's identifier is free for a bridge; a waiting bridge's is taken.
    assert_eq!(system.ask_under(actor, 0, 32, 1), Ok(ActorRef::of_bridge(1)));
    assert!(system.ask_under(actor, 0, 33, 77).is_ok());
    assert_eq!(system.ask_under(actor, 0, 34, 77), Err(ErrorKind::ActorAlreadyExists(77)));
    // No target counts before a taken identifier.
    assert_eq!(system.ask_under(nobody, 0, 35, 77), Err(ErrorKind::ActorDestroyed));
    let owing = system.take_completions();
    assert_eq!(owing.len(), 4);
    assert!(matches!(
        owing[0],
        Completion::Failed { promise: 30, error: ErrorKind::ActorDestroyed }
    ));
    assert!(matches!(
        owing[1],
        Completion::Failed { promise: 31, error: ErrorKind::ActorDestroyed }
    ));
    assert!(matches!(
        owing[2],
        Completion::Failed { promise: 34, error: ErrorKind::ActorAlreadyExists(77) }
    ));
    assert!(matches!(
        owing[3],
        Completion::Failed { promise: 35, error: ErrorKind::ActorDestroyed }
    ));
}

#[test]
fn an_actor_is_created_under_the_identifier_of_a_bridge() {
    let mut system: ActorSystem<Quiet> = ActorSystem::new();
    let actor = system.spawn(1, Quiet).unwrap();
    let bridge = system.ask_under(actor, 0, 30, 9).unwrap();
    // Cells and bridges are registered apart: the identifier is free.
    let other = system.spawn(9, Quiet).unwrap();
    assert_ne!(other, bridge);
    assert!(other.is_alive(&system));
    assert!(bridge.is_alive(&system));
    assert_eq!(system.status(&9), Some(ActorStatus::Idle));
    // A message to the cell reaches the cell, and one to the bridge the bridge.
    assert!(other.request(&mut system, 4, 31).is_ok());
    bridge.send(&mut system, 5);
    run_to_quiescence(&mut system);
    assert!(!bridge.is_alive(&system));
    assert!(other.is_alive(&system));
    let owing = system.take_completions();
    assert_eq!(owing.len(), 2);
    assert!(matches!(owing[0], Completion::Replied { promise: 30, reply: 5 }));
    assert!(matches!(
        owing[1],
        Completion::Responded { promise: 31, response: ActorResponse::Normal(Some(4)) }
    ));
}

/// Defers every response, under the task that the message names.
struct Deferrer;

impl Actor for Deferrer {
    type Message = u64;
    type Response = u64;

    fn on_start(&mut self) {}

    fn on_stop(&mut self) {}

    fn answer(_value: u64) -> Option<u64> {
        None
    }

    fn handle(
        &mut self,
        _context: &mut ActorContext<u64, Deferrer, u64>,
        message: u64,
    ) -> ActorResponse<u64> {
        ActorResponse::Async(message)
    }
}

#[test]
fn a_deferred_response_is_completed_once() {
    let mut system: ActorSystem<Deferrer> = ActorSystem::new();
    let actor = system.spawn(1, Deferrer).unwrap();
    assert!(actor.request(&mut system, 7, 40).is_ok());
    run_to_quiescence(&mut system);
    let owing = system.take_completions();
    assert_eq!(owing.len(), 1);
    assert!(matches!(
        owing[0],
        Completion::Responded { promise: 40, response: ActorResponse::Async(7) }
    ));
    // Nobody waits for another task.
    system.complete(8, 1);
    assert!(system.take_completions().is_empty());
    system.complete(7, 99);
    let owing = system.take_completions();
    assert_eq!(owing.len(), 1);
    assert!(matches!(
        owing[0],
        Completion::Responded { promise: 40, response: ActorResponse::Normal(Some(99)) }
    ));
    // The task is done: a second value reaches nobody.
    system.complete(7, 100);
    assert!(system.take_completions().is_empty());
}

#[test]
fn a_batch_leaves_a_deferred_response_to_wait() {
    let mut system: ActorSystem<Deferrer> = ActorSystem::new();
    let actor = system.spawn(1, Deferrer).unwrap();
    assert!(actor.request(&mut system, 7, 40).is_ok());
    let mut held = None;
    for worker in 0..system.worker_count() {
        if let Turn::Batch(batch) = system.begin(worker) {
            held = Some((worker, batch));
        }
    }
    let (worker, mut batch) = held.unwrap();
    assert_eq!(batch.run(ThreadContext::new(worker)), 1);
    let mut cell = ActorCell::new(1, Deferrer);
    let mut deeds = VecDeque::new();
    let mut completions = Vec::new();
    assert!(!cell.checkin(batch, &mut deeds, &mut completions));
    assert_eq!(deeds.len(), 1);
    assert!(matches!(deeds[0], Deed::Deferred { task: 7, promise: 40 }));
    assert_eq!(completions.len(), 1);
}

#[test]
fn setup_code_waits_in_the_guardians_mailbox_for_a_worker() {
    let mut system: ActorSystem<Adder> = ActorSystem::new();
    // The first message schedules the guardian; the second finds it so.
    let worker = system.on_startup(9).unwrap();
    assert!(worker < system.worker_count());
    assert_eq!(system.on_startup(10), None);
    // Nothing has run: the guardian is a work item of that worker.
    for other in 0..system.worker_count() {
        assert_eq!(system.queued(other), if other == worker { 1 } else { 0 });
    }
    assert_eq!(system.actor_count(), 0);
    // Running handlers leaves the guardian where it is.
    assert_eq!(system.run(100), 0);
    assert_eq!(system.queued(worker), 1);
    let again = match system.begin(worker) {
        Turn::Startup { token, mut context } => {
            assert_eq!(token, 9);
            assert_eq!(context.self_ref(), system.root_actor().unwrap());
            assert_eq!(context.thread().handle(), Some(worker));
            let child = context.spawn(5, Adder { sum: 0 });
            context.send(child, AdderMessage::Add(3));
            // While the code runs, no inbox holds the guardian.
            assert_eq!(system.queued(worker), 0);
            assert_eq!(system.on_startup(11), None);
            assert_eq!(system.queued(worker), 0);
            // What the code asks for is done when the context comes back.
            assert_eq!(system.actor_count(), 0);
            system.finish_startup(context).unwrap()
        }
        _ => panic!("the guardian is in this inbox"),
    };
    assert_eq!(system.status(&5), Some(ActorStatus::Scheduled));
    // The guardian's mailbox held more: it is in an inbox again, once.
    let queued: usize = (0..system.worker_count()).map(|w| system.queued(w)).sum();
    assert_eq!(queued, 2);
    let mut tokens = Vec::new();
    let mut at = again;
    loop {
        match system.begin(at) {
            Turn::Startup { token, context } => {
                tokens.push(token);
                match system.finish_startup(context) {
                    Some(next) => at = next,
                    None => break,
                }
            }
            Turn::Batch(mut batch) => {
                batch.run(ThreadContext::new(at));
                system.finish(batch);
            }
            _ => panic!("the guardian is in this inbox"),
        }
    }
    // Setup code runs in the order in which it was sent.
    assert_eq!(tokens, vec![10, 11]);
    run_to_quiescence(&mut system);
    assert_eq!(system.actor(&5).unwrap().sum, 3);
    for worker in 0..system.worker_count() {
        assert_eq!(system.queued(worker), 0);
    }
}

#[test]
fn run_once_hands_setup_code_to_its_caller() {
    let mut system: ActorSystem<Adder> = ActorSystem::new();
    let worker = system.on_startup(3).unwrap();
    assert_eq!(system.run_once(worker), Progress::Startup(3));
    assert_eq!(system.run_once(worker), Progress::Idle);
    let context = system.guardian_context(Some(worker));
    assert_eq!(context.self_ref(), system.root_actor().unwrap());
    assert!(context.sender().is_null());
    assert_eq!(system.finish_startup(context), None);
    assert_eq!(system.actor_count(), 0);
    // The guardian is idle again: the next message schedules it.
    assert!(system.on_startup(4).is_some());
}

#[test]
fn a_context_that_no_turn_gave_leaves_the_guardian_as_it_is() {
    let mut system: ActorSystem<Adder> = ActorSystem::new();
    let worker = system.on_startup(3).unwrap();
    // No worker has taken the message: the guardian stays in its inbox.
    let mut context = system.guardian_context(None);
    context.spawn(5, Adder { sum: 1 });
    assert_eq!(system.finish_startup(context), None);
    assert_eq!(system.actor(&5).unwrap().sum, 1);
    assert_eq!(system.queued(worker), 1);
    assert_eq!(system.on_startup(4), None);
    assert_eq!(system.run_once(worker), Progress::Startup(3));
    let context = system.guardian_context(Some(worker));
    let next = system.finish_startup(context).unwrap();
    assert_eq!(system.run_once(next), Progress::Startup(4));
}

#[test]
fn the_guardian_is_registered_from_the_start() {
    let mut system: ActorSystem<Adder> = ActorSystem::new();
    let root = system.root_actor().unwrap();
    assert!(!root.is_null());
    assert!(root.is_alive(&system));
    assert!(system.is_alive(&root));
    assert_eq!(root, ActorRef::of_guardian(root.id()));
    // It is no cell of the system's actor type, and takes no message of it.
    assert_eq!(system.actor_count(), 0);
    assert!(system.get_actor(&root.id()).is_none());
    assert_eq!(
        root.request(&mut system, AdderMessage::Add(1), 4),
        Err(ErrorKind::ActorDestroyed)
    );
    // An actor under the guardian's identifier is another thing.
    let beside = system.spawn(root.id(), Adder { sum: 0 }).unwrap();
    assert_ne!(beside, root);
    assert!(!ActorRef::of_guardian(root.id().wrapping_add(1)).is_alive(&system));
    assert!(!ActorRef::null().is_alive(&system));
    // The guardian outlives every actor.
    assert!(beside.stop(&mut system, 5).is_ok());
    run_to_quiescence(&mut system);
    assert!(!beside.is_alive(&system));
    assert!(root.is_alive(&system));
}
