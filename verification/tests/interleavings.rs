use akio::actor::{Actor, ActorResponse};
use akio::actor_cell::ActorStatus;
use akio::actor_ref::ActorRef;
use akio::actor_system::{ActorSystem, Turn};
use akio::batch::Batch;
use akio::context::{ActorContext, ThreadContext};
use rand::rngs::StdRng;
use rand::{Rng, SeedableRng};
use std::cell::RefCell;
use std::collections::HashSet;
use std::rc::Rc;

/// Records every message that it handles, and whether two of its handlers
/// ever overlap.
struct Watched {
    id: u128,
    log: Rc<RefCell<Vec<(u128, u64)>>>,
}

impl Actor for Watched {
    type Message = u64;
    type Response = ();
    fn on_start(&mut self) {}

    fn on_stop(&mut self) {}

    fn answer(_value: ()) -> Option<u64> {
        None
    }


    fn handle(
        &mut self,
        _context: &mut ActorContext<u64, Watched, ()>,
        message: u64,
    ) -> ActorResponse<()> {
        self.log.borrow_mut().push((self.id, message));
        self.done()
    }
}

fn queued_everywhere(system: &ActorSystem<Watched>) -> usize {
    (0..system.worker_count()).map(|worker| system.queued(worker)).sum()
}

fn check(system: &ActorSystem<Watched>, actors: &[ActorRef], held: &[Batch<Watched>]) {
    // No two batches of one cell are out at the same time.
    let out: HashSet<u128> = held.iter().map(|batch| batch.id()).collect();
    assert_eq!(out.len(), held.len());
    // A cell is in an inbox exactly while it is scheduled and has no batch out.
    let waiting = actors
        .iter()
        .filter(|actor| {
            system.status(&actor.id()) == Some(ActorStatus::Scheduled)
                && !out.contains(&actor.id())
        })
        .count();
    assert_eq!(queued_everywhere(system), waiting);
    for actor in actors {
        // The actor is out of its cell exactly while a batch of it is out.
        assert_eq!(system.actor(&actor.id()).is_none(), out.contains(&actor.id()));
    }
}

fn interleave(seed: u64) {
    let mut random = StdRng::seed_from_u64(seed);
    let log = Rc::new(RefCell::new(Vec::new()));
    let mut system: ActorSystem<Watched> = ActorSystem::new();
    let actors: Vec<ActorRef> = (1..=5u128)
        .map(|id| system.spawn(id, Watched { id, log: log.clone() }).unwrap())
        .collect();
    let mut held: Vec<Batch<Watched>> = Vec::new();
    let mut sent = vec![0u64; actors.len()];
    for _ in 0..2000 {
        match random.gen_range(0..4) {
            0 => {
                let which = random.gen_range(0..actors.len());
                sent[which] += 1;
                actors[which].send(&mut system, sent[which]);
            }
            1 => {
                let worker = random.gen_range(0..system.worker_count());
                if let Turn::Batch(batch) = system.begin(worker) {
                    // The batch is of a cell that has none out yet.
                    assert!(held.iter().all(|other| other.id() != batch.id()));
                    held.push(batch);
                }
            }
            2 => {
                if !held.is_empty() {
                    let which = random.gen_range(0..held.len());
                    let worker = random.gen_range(0..system.worker_count());
                    held[which].run(ThreadContext::new(worker));
                }
            }
            _ => {
                if !held.is_empty() {
                    let which = random.gen_range(0..held.len());
                    let mut batch = held.swap_remove(which);
                    batch.run(ThreadContext::outside());
                    let _ = system.finish(batch);
                }
            }
        }
        check(&system, &actors, &held);
    }
    for mut batch in held.drain(..) {
        batch.run(ThreadContext::outside());
        let _ = system.finish(batch);
    }
    while system.run(1_000_000) == 1_000_000 {}
    check(&system, &actors, &held);
    // Every message was handled once, and each actor saw its own in the order
    // in which they were sent.
    let log = log.borrow();
    assert_eq!(log.len() as u64, sent.iter().sum::<u64>());
    for (which, actor) in actors.iter().enumerate() {
        let seen: Vec<u64> = log
            .iter()
            .filter(|(id, _)| *id == actor.id())
            .map(|(_, message)| *message)
            .collect();
        assert_eq!(seen, (1..=sent[which]).collect::<Vec<u64>>());
        assert_eq!(system.status(&actor.id()), Some(ActorStatus::Idle));
    }
}

#[test]
fn random_interleavings_keep_one_worker_per_cell_and_the_order_of_messages() {
    for seed in 0..20 {
        interleave(seed);
    }
}
