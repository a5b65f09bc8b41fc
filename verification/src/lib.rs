//! The verified core of an actor runtime: mailboxes, cells, references, a
//! registry, and a scheduler that places ready cells on workers at random
//! and runs them in bounded batches.
//!
//! The library holds the runtime's state and every decision it takes. Threads,
//! event loops and futures belong to the host. A worker of the host takes a
//! batch of a cell from the `ActorSystem`, runs the batch on its own, and
//! hands it back; the system sees to it that no two workers ever hold a batch
//! of the same cell, and hands out what it owes to the host's promises.

pub mod actor;
pub mod actor_cell;
pub mod actor_container;
pub mod actor_factory;
pub mod actor_ref;
pub mod actor_system;
pub mod ask_actor;
pub mod batch;
pub mod child_spawner;
pub mod context;
pub mod dispatcher;
pub mod errors;
pub mod greet;
pub mod mailbox;
pub mod ping_pong;
pub mod skynet;
