use akio::actor::{Actor, ActorResponse, Completion};
use akio::actor_cell::ActorCellHandle;
use akio::actor_ref::ActorRef;
use akio::actor_system::{ActorSystem, Progress, Turn};
use akio::child_spawner::{TelephoneActor, TelephoneMessage};
use akio::context::{ActorContext, Effect, ThreadContext};
use akio::errors::ErrorKind;
use akio::ping_pong::{spawn_ping_loop, PingActor, PingPongActor, PingPongMessage, PongActor};
use akio::skynet::{SkynetActor, SkynetMessage};
use std::cell::RefCell;
use std::rc::Rc;

fn run_to_quiescence<A: Actor>(system: &mut ActorSystem<A>) {
    loop {
        let turns = system.run(1_000_000);
        if turns < 1_000_000 {
            break;
        }
    }
}

/// Hands setup code to the guardian, and lets the worker that got it run it.
fn startup<A: Actor>(
    system: &mut ActorSystem<A>,
    token: u64,
    setup: impl FnOnce(&mut ActorContext<A::Message, A, A::Response>),
) -> usize {
    let worker = match system.on_startup(token) {
        Some(worker) => worker,
        None => panic!("the guardian was idle"),
    };
    loop {
        match system.begin(worker) {
            Turn::Startup { token: found, mut context } => {
                assert_eq!(found, token);
                setup(&mut context);
                assert_eq!(system.finish_startup(context), None);
                return worker;
            }
            Turn::Batch(mut batch) => {
                batch.run(ThreadContext::new(worker));
                system.finish(batch);
            }
            Turn::Idle | Turn::Stopped => panic!("the setup code is in this inbox"),
        }
    }
}

#[test]
fn ping_pong_exchanges_two_thousand_messages() {
    let mut system: ActorSystem<PingPongActor> = ActorSystem::new();
    let ping = system
        .spawn(1, PingPongActor::Ping(PingActor::with_rounds(1000)))
        .unwrap();
    let pong = system
        .spawn(2, PingPongActor::Pong(PongActor::new(ping)))
        .unwrap();
    ping.send(&mut system, PingPongMessage::Initialize(pong));
    pong.send_from(&mut system, PingPongMessage::Ping, &ping);
    run_to_quiescence(&mut system);
    let pongs = system.actor(&1).unwrap().count();
    let pings = system.actor(&2).unwrap().count();
    assert_eq!(pongs, 1000);
    assert_eq!(pings, 1000);
    assert_eq!(pings + pongs, 2000);
}

#[test]
fn ping_loop_opens_with_twenty_pings() {
    let mut system: ActorSystem<PingPongActor> = ActorSystem::new();
    let mut pair = None;
    startup(&mut system, 1, |context| {
        pair = Some(spawn_ping_loop(context, 5));
    });
    let (ping, pong) = pair.unwrap();
    run_to_quiescence(&mut system);
    // Twenty opening pings, and a ping for each of the first four pongs.
    assert_eq!(system.actor(&pong.id()).unwrap().count(), 24);
    assert_eq!(system.actor(&ping.id()).unwrap().count(), 24);
}

struct EchoActor;

struct Echo(String);

impl Actor for EchoActor {
    type Message = Echo;
    type Response = String;
    fn on_start(&mut self) {}

    fn on_stop(&mut self) {}

    fn answer(_value: String) -> Option<Echo> {
        None
    }


    fn handle(
        &mut self,
        _context: &mut ActorContext<Echo, EchoActor, String>,
        message: Echo,
    ) -> ActorResponse<String> {
        self.respond(message.0)
    }
}

#[test]
fn echo_request_resolves_to_its_argument() {
    let mut system: ActorSystem<EchoActor> = ActorSystem::new();
    let echo = system.spawn(9, EchoActor).unwrap();
    assert!(echo.request(&mut system, Echo("hi".to_string()), 41).is_ok());
    run_to_quiescence(&mut system);
    let owing = system.take_completions();
    assert_eq!(owing.len(), 1);
    match &owing[0] {
        Completion::Responded { promise, response: ActorResponse::Normal(Some(text)) } => {
            assert_eq!(*promise, 41);
            assert_eq!(text, "hi");
        }
        _ => panic!("the request was not answered"),
    }
}

fn skynet_sum(limit: u32) -> u64 {
    let mut system: ActorSystem<SkynetActor> = ActorSystem::new();
    let root = system.spawn(1, SkynetActor::with_limit(limit)).unwrap();
    assert!(root.request(&mut system, SkynetMessage::Poke(0), 77).is_ok());
    run_to_quiescence(&mut system);
    let owing = system.take_completions();
    // The root defers its response, and completes it with the tenth answer.
    assert_eq!(owing.len(), 2);
    assert!(matches!(
        owing[0],
        Completion::Responded { promise: 77, response: ActorResponse::Async(0) }
    ));
    match &owing[1] {
        Completion::Responded { promise: 77, response: ActorResponse::Normal(Some(total)) } => {
            *total
        }
        _ => panic!("the deferred response was not completed"),
    }
}

#[test]
fn skynet_sums_small_trees() {
    // Below the limit a node adds its own number to its ten children's sums:
    // the nodes are numbered 0, 1, 2, ... and the leaves end at ten times the
    // limit, so the sum is that of 0..=10 * limit.
    assert_eq!(skynet_sum(1), 55);
    assert_eq!(skynet_sum(10), 5050);
    assert_eq!(skynet_sum(100), 500_500);
    assert_eq!(skynet_sum(1000), 50_005_000);
}

#[test]
fn skynet_leaf_answers_with_its_number() {
    let mut system: ActorSystem<SkynetActor> = ActorSystem::new();
    let leaf = system.spawn(1, SkynetActor::new()).unwrap();
    assert!(leaf.request(&mut system, SkynetMessage::Poke(100_000), 5).is_ok());
    run_to_quiescence(&mut system);
    let owing = system.take_completions();
    assert_eq!(owing.len(), 1);
    assert!(matches!(
        owing[0],
        Completion::Responded { promise: 5, response: ActorResponse::Normal(Some(100_000)) }
    ));
    // The leaf has sent nothing and spawned nobody.
    assert_eq!(system.actor_count(), 1);
    for worker in 0..system.worker_count() {
        assert_eq!(system.queued(worker), 0);
    }
}

#[test]
fn skynet_leaf_asks_for_nothing() {
    let me = ActorRef::new(ActorCellHandle::new(1));
    let you = ActorRef::new(ActorCellHandle::new(2));
    let mut leaf = SkynetActor::new();
    let mut context = ActorContext::new(me, you, ThreadContext::new(0));
    let response = leaf.handle(&mut context, SkynetMessage::Poke(100_000));
    assert!(matches!(response, ActorResponse::Normal(Some(100_000))));
    assert_eq!(context.into_effects().len(), 0);
}

#[test]
fn skynet_node_defers_and_completes_with_the_tenth_answer() {
    let me = ActorRef::new(ActorCellHandle::new(1));
    let mut node = SkynetActor::new();
    let mut context = ActorContext::new(me, ActorRef::null(), ThreadContext::new(0));
    let response = node.handle(&mut context, SkynetMessage::Poke(99_999));
    assert!(matches!(response, ActorResponse::Async(99_999)));
    let effects = context.into_effects();
    assert_eq!(effects.len(), 20);
    let mut poked = Vec::new();
    for pair in effects.iter().collect::<Vec<_>>().chunks(2) {
        let child = match pair[0] {
            Effect::Spawn { id, .. } => *id,
            _ => panic!("a child is spawned before it is poked"),
        };
        match pair[1] {
            Effect::Send { target, message: SkynetMessage::Poke(n), sender, promise: None } => {
                assert_eq!(target.id(), child);
                assert_eq!(*sender, me);
                poked.push(*n);
            }
            _ => panic!("every child is poked"),
        }
    }
    assert_eq!(poked, (999_991..=1_000_000u64).collect::<Vec<_>>());
    // Nine answers are added up in silence; the tenth completes the task.
    for n in 999_991..=999_999u64 {
        let mut context = ActorContext::new(me, ActorRef::null(), ThreadContext::new(0));
        let response = node.handle(&mut context, SkynetMessage::Sum(n));
        assert!(matches!(response, ActorResponse::Normal(None)));
        assert_eq!(context.into_effects().len(), 0);
    }
    let mut context = ActorContext::new(me, ActorRef::null(), ThreadContext::new(0));
    let response = node.handle(&mut context, SkynetMessage::Sum(1_000_000));
    assert!(matches!(response, ActorResponse::Normal(None)));
    let effects = context.into_effects();
    assert_eq!(effects.len(), 1);
    assert!(matches!(effects[0], Effect::Complete { task: 99_999, value: 10_099_954 }));
}

#[test]
fn skynet_request_resolves_to_the_sum_below_the_node() {
    let mut system: ActorSystem<SkynetActor> = ActorSystem::new();
    let node = system.spawn(1, SkynetActor::new()).unwrap();
    assert!(node.request(&mut system, SkynetMessage::Poke(99_999), 8).is_ok());
    run_to_quiescence(&mut system);
    let owing = system.take_completions();
    assert_eq!(owing.len(), 2);
    assert!(matches!(
        owing[0],
        Completion::Responded { promise: 8, response: ActorResponse::Async(99_999) }
    ));
    assert!(matches!(
        owing[1],
        Completion::Responded { promise: 8, response: ActorResponse::Normal(Some(10_099_954)) }
    ));
    assert_eq!(system.actor_count(), 11);
}

#[test]
fn telephone_chain_reaches_every_descendant_once() {
    let mut system: ActorSystem<TelephoneActor> = ActorSystem::new();
    let root = system.spawn(1, TelephoneActor::new()).unwrap();
    root.send(&mut system, TelephoneMessage::SpawnNext(25));
    run_to_quiescence(&mut system);
    assert_eq!(system.actor_count(), 26);
    root.send(&mut system, TelephoneMessage::Message("yo".to_string()));
    run_to_quiescence(&mut system);
    let mut visited = 0;
    let mut current = root;
    loop {
        let actor = system.actor(&current.id()).unwrap();
        assert_eq!(actor.heard(), 1);
        visited += 1;
        match actor.children().first() {
            Some(next) => {
                assert_eq!(actor.children().len(), 1);
                current = *next;
            }
            None => break,
        }
    }
    assert_eq!(visited, 26);
}

struct Recorder {
    log: Rc<RefCell<Vec<String>>>,
}

impl Actor for Recorder {
    type Message = u32;
    type Response = u32;
    fn answer(_value: u32) -> Option<u32> {
        None
    }


    fn handle(
        &mut self,
        _context: &mut ActorContext<u32, Recorder, u32>,
        message: u32,
    ) -> ActorResponse<u32> {
        self.log.borrow_mut().push(format!("message {}", message));
        self.respond(message)
    }

    fn on_start(&mut self) {
        self.log.borrow_mut().push("start".to_string());
    }

    fn on_stop(&mut self) {
        self.log.borrow_mut().push("stop".to_string());
    }
}

#[test]
fn stop_with_pending_runs_exactly_the_messages_before_it() {
    let log = Rc::new(RefCell::new(Vec::new()));
    let mut system: ActorSystem<Recorder> = ActorSystem::new();
    let actor = system.spawn(3, Recorder { log: log.clone() }).unwrap();
    for n in 1..=5 {
        actor.send(&mut system, n);
    }
    assert!(actor.stop(&mut system, 99).is_ok());
    actor.send(&mut system, 6);
    assert!(actor.request(&mut system, 7, 100).is_ok());
    run_to_quiescence(&mut system);
    assert_eq!(
        *log.borrow(),
        vec!["start", "message 1", "message 2", "message 3", "message 4", "message 5", "stop"]
    );
    let owing = system.take_completions();
    assert_eq!(owing.len(), 2);
    assert!(matches!(owing[0], Completion::Stopped { promise: 99 }));
    assert!(matches!(
        owing[1],
        Completion::Failed { promise: 100, error: ErrorKind::ActorDestroyed }
    ));
    assert!(!actor.is_alive(&system));
    assert!(system.get_actor(&3).is_none());
}

#[test]
fn stop_behind_more_than_one_batch_is_honoured_in_turn() {
    let log = Rc::new(RefCell::new(Vec::new()));
    let mut system: ActorSystem<Recorder> = ActorSystem::new();
    let actor = system.spawn(3, Recorder { log: log.clone() }).unwrap();
    for n in 0..25 {
        actor.send(&mut system, n);
    }
    assert!(actor.stop(&mut system, 1).is_ok());
    let mut turns = Vec::new();
    loop {
        let mut progressed = false;
        for worker in 0..system.worker_count() {
            match system.run_once(worker) {
                Progress::Idle => {}
                progress => {
                    turns.push(progress);
                    progressed = true;
                }
            }
        }
        if !progressed {
            break;
        }
    }
    assert_eq!(
        turns,
        vec![Progress::Processed(10), Progress::Processed(10), Progress::Processed(6)]
    );
    assert_eq!(log.borrow().len(), 27);
    assert_eq!(log.borrow()[0], "start");
    assert_eq!(log.borrow()[26], "stop");
    assert!(system.get_actor(&3).is_none());
}

#[test]
fn dead_reference_request_fails_with_target_gone() {
    let log = Rc::new(RefCell::new(Vec::new()));
    let mut system: ActorSystem<Recorder> = ActorSystem::new();
    let actor = system.spawn(3, Recorder { log: log.clone() }).unwrap();
    assert!(actor.stop(&mut system, 1).is_ok());
    run_to_quiescence(&mut system);
    let _ = system.take_completions();
    assert_eq!(actor.request(&mut system, 8, 2), Err(ErrorKind::ActorDestroyed));
    actor.send(&mut system, 9);
    assert_eq!(actor.stop(&mut system, 3), Err(ErrorKind::ActorDestroyed));
    let owing = system.take_completions();
    assert_eq!(owing.len(), 2);
    assert!(matches!(
        owing[0],
        Completion::Failed { promise: 2, error: ErrorKind::ActorDestroyed }
    ));
    assert!(matches!(
        owing[1],
        Completion::Failed { promise: 3, error: ErrorKind::ActorDestroyed }
    ));
    assert_eq!(*log.borrow(), vec!["start", "stop"]);
}
