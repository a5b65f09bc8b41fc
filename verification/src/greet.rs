use vstd::prelude::*;
use crate::actor::{Actor, ActorResponse};
use crate::context::ActorContext;

verus! {

/// An actor that holds a greeting, tells it, and lets it be changed.
pub struct ExampleActor {
    message: String,
}

/// The messages of `ExampleActor`.
pub enum ExampleMessage {
    Greet,
    SetGreeting(String),
}

/// The responses of `ExampleActor`, one for each message.
pub enum ExampleResponse {
    Greet(String),
    SetGreeting,
}

impl ExampleActor {
    /// The greeting that the actor holds.
    pub closed spec fn greeting(&self) -> Seq<char> {
        self.message@
    }

    pub fn new() -> (actor: Self)
        ensures
            actor.greeting() == "Hello World"@,
    {
        ExampleActor { message: "Hello World".to_owned() }
    }

    /// Tells the greeting.
    pub fn greet(&mut self) -> (response: ActorResponse<String>)
        ensures
            final(self).greeting() == old(self).greeting(),
            response matches ActorResponse::Normal(Some(text)) && text@ == old(self).greeting(),
    {
        let text = self.message.clone();
        ActorResponse::Normal(Some(text))
    }

    /// Replaces the greeting.
    pub fn set_greeting(&mut self, new_message: String) -> (response: ActorResponse<()>)
        ensures
            final(self).greeting() == new_message@,
            response == ActorResponse::Normal(Some(())),
    {
        self.message = new_message;
        ActorResponse::Normal(Some(()))
    }
}

impl Actor for ExampleActor {
    type Message = ExampleMessage;

    type Response = ExampleResponse;

    open spec fn handles(
        before: Self,
        given: ActorContext<ExampleMessage, ExampleActor, ExampleResponse>,
        message: ExampleMessage,
        after: Self,
        left: ActorContext<ExampleMessage, ExampleActor, ExampleResponse>,
        response: ActorResponse<ExampleResponse>,
    ) -> bool {
        &&& left == given
        &&& match message {
            ExampleMessage::Greet => {
                &&& after.greeting() == before.greeting()
                &&& response matches ActorResponse::Normal(Some(ExampleResponse::Greet(text)))
                &&& text@ == before.greeting()
            },
            ExampleMessage::SetGreeting(text) => after.greeting() == text@ && response
                == ActorResponse::Normal(Some(ExampleResponse::SetGreeting)),
        }
    }

    open spec fn answers(value: Self::Response) -> Option<Self::Message> {
        None
    }

    fn answer(value: Self::Response) -> (message: Option<Self::Message>) {
        None
    }

    open spec fn starts(before: Self, after: Self) -> bool {
        after == before
    }

    open spec fn ends(before: Self, after: Self) -> bool {
        after == before
    }

    fn on_start(&mut self) {
    }

    fn on_stop(&mut self) {
    }

    fn handle(
        &mut self,
        context: &mut ActorContext<ExampleMessage, ExampleActor, ExampleResponse>,
        message: ExampleMessage,
    ) -> (response: ActorResponse<ExampleResponse>)
    {
        match message {
            ExampleMessage::Greet => {
                match self.greet() {
                    ActorResponse::Normal(Some(text)) => ActorResponse::Normal(
                        Some(ExampleResponse::Greet(text)),
                    ),
                    ActorResponse::Normal(None) => ActorResponse::Normal(None),
                    ActorResponse::Async(task) => ActorResponse::Async(task),
                }
            },
            ExampleMessage::SetGreeting(text) => {
                match self.set_greeting(text) {
                    ActorResponse::Normal(Some(())) => ActorResponse::Normal(
                        Some(ExampleResponse::SetGreeting),
                    ),
                    ActorResponse::Normal(None) => ActorResponse::Normal(None),
                    ActorResponse::Async(task) => ActorResponse::Async(task),
                }
            },
        }
    }
}

} // verus!
