use akio::actor::{Actor, ActorResponse, Completion};
use akio::actor_system::{ActorSystem, Turn};
use akio::context::{ActorContext, ThreadContext};

pub struct TestActor {
    test_method_calls: u64,
}

pub enum TestMessage {
    TestMethod,
    GetTestMethodCalls,
}

impl TestActor {
    pub fn new() -> Self {
        Self { test_method_calls: 0 }
    }

    pub fn test_method(&mut self) -> ActorResponse<u64> {
        self.test_method_calls += 1;
        ActorResponse::Normal(None)
    }

    pub fn get_test_method_calls(&mut self) -> ActorResponse<u64> {
        self.respond(self.test_method_calls)
    }
}

impl Actor for TestActor {
    type Message = TestMessage;
    type Response = u64;
    fn on_start(&mut self) {}

    fn on_stop(&mut self) {}

    fn answer(_value: u64) -> Option<TestMessage> {
        None
    }


    fn handle(
        &mut self,
        _context: &mut ActorContext<TestMessage, TestActor, u64>,
        message: TestMessage,
    ) -> ActorResponse<u64> {
        match message {
            TestMessage::TestMethod => self.test_method(),
            TestMessage::GetTestMethodCalls => self.get_test_method_calls(),
        }
    }
}

/// Hands setup code to the guardian, and lets the worker that got it run it.
fn startup<A: Actor>(
    system: &mut ActorSystem<A>,
    token: u64,
    setup: impl FnOnce(&mut ActorContext<A::Message, A, A::Response>),
) -> usize {
    let worker = match system.on_startup(token) {
        Some(worker) => worker,
        None => panic!("the guardian was idle"),
    };
    loop {
        match system.begin(worker) {
            Turn::Startup { token: found, mut context } => {
                assert_eq!(found, token);
                setup(&mut context);
                assert_eq!(system.finish_startup(context), None);
                return worker;
            }
            Turn::Batch(mut batch) => {
                batch.run(ThreadContext::new(worker));
                system.finish(batch);
            }
            Turn::Idle | Turn::Stopped => panic!("the setup code is in this inbox"),
        }
    }
}

#[test]
fn test_create_get_actor() {
    let mut system: ActorSystem<TestActor> = ActorSystem::new();
    let mut started = None;
    startup(&mut system, 1, |context| {
        started = Some(context.start(TestActor::new()));
    });
    let actor_ref = started.unwrap();
    let system_actor_ref = system.get_actor(&actor_ref.id());
    assert!(system_actor_ref.is_some());
    assert_eq!(system_actor_ref.unwrap().id(), actor_ref.id());
}

#[test]
fn test_create_stop_get_actor() {
    let mut system: ActorSystem<TestActor> = ActorSystem::new();
    let mut started = None;
    startup(&mut system, 1, |context| {
        started = Some(context.start(TestActor::new()));
    });
    let actor_ref = started.unwrap();
    let id = actor_ref.id();
    if actor_ref.stop(&mut system, 7).is_err() {
        println!("Failed to stop");
    }
    system.run(100);
    let owing = system.take_completions();
    assert!(owing.iter().any(|c| matches!(c, Completion::Stopped { promise: 7 })));
    assert!(system.get_actor(&id).is_none());
    assert!(!actor_ref.is_alive(&system));
}
