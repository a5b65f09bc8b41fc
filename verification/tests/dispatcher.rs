use akio::actor_cell::ActorCellHandle;
use akio::dispatcher::{Dispatcher, ThreadHandle, ThreadMessage, REPORT_EVERY};

fn pool() -> Dispatcher {
    let mut dispatcher = Dispatcher::new();
    dispatcher.start();
    dispatcher
}

#[test]
fn new_dispatcher_has_no_workers() {
    let dispatcher = Dispatcher::new();
    assert_eq!(dispatcher.worker_count(), 0);
    assert_eq!(dispatcher.affinity(0), None);
    assert_eq!(dispatcher.queued(0), 0);
}

#[test]
fn started_dispatcher_has_workers_with_empty_inboxes() {
    let dispatcher = pool();
    assert!(dispatcher.worker_count() >= 1);
    for worker in 0..dispatcher.worker_count() {
        assert_eq!(dispatcher.queued(worker), 0);
    }
    assert_eq!(dispatcher.affinity(dispatcher.worker_count()), None);
}

#[test]
fn plan_pins_one_worker_to_each_reported_core() {
    let handles = Dispatcher::plan_threads(Some(vec![2, 5, 11]), 64);
    let pins: Vec<Option<usize>> = handles.iter().map(|handle| handle.pinned()).collect();
    assert_eq!(pins, vec![Some(2), Some(5), Some(11)]);
    assert!(handles.iter().all(|handle| handle.len() == 0));
}

#[test]
fn plan_falls_back_to_the_processor_count() {
    let handles = Dispatcher::plan_threads(None, 3);
    let pins: Vec<Option<usize>> = handles.iter().map(|handle| handle.pinned()).collect();
    assert_eq!(pins, vec![None, None, None]);
    let handles = Dispatcher::plan_threads(Some(Vec::new()), 2);
    assert_eq!(handles.len(), 2);
    assert!(handles.iter().all(|handle| handle.pinned().is_none()));
}

#[test]
fn plan_has_one_worker_at_least() {
    assert_eq!(Dispatcher::plan_threads(None, 0).len(), 1);
    assert_eq!(Dispatcher::plan_threads(Some(Vec::new()), 0).len(), 1);
    assert_eq!(Dispatcher::plan_threads(None, 1).len(), 1);
}

#[test]
fn dispatch_places_every_cell_on_some_worker() {
    let mut dispatcher = pool();
    let workers = dispatcher.worker_count();
    let mut placed = vec![0usize; workers];
    for id in 0..200u128 {
        let worker = dispatcher.dispatch(ActorCellHandle::new(id));
        assert!(worker < workers);
        placed[worker] += 1;
        assert_eq!(dispatcher.queued(worker), placed[worker]);
    }
    assert_eq!(placed.iter().sum::<usize>(), 200);
    for _ in 0..200 {
        assert!(dispatcher.next_thread() < workers);
    }
}

#[test]
fn worker_receives_in_the_order_of_the_sends() {
    let mut dispatcher = pool();
    let last = dispatcher.worker_count() - 1;
    dispatcher.send(last, ThreadMessage::ProcessActor(ActorCellHandle::new(1)));
    dispatcher.send(last, ThreadMessage::Stop);
    dispatcher.send(last, ThreadMessage::ProcessActor(ActorCellHandle::new(2)));
    assert_eq!(dispatcher.queued(last), 3);
    assert_eq!(
        dispatcher.receive(last),
        Some(ThreadMessage::ProcessActor(ActorCellHandle::new(1)))
    );
    assert_eq!(dispatcher.receive(last), Some(ThreadMessage::Stop));
    assert_eq!(
        dispatcher.receive(last),
        Some(ThreadMessage::ProcessActor(ActorCellHandle::new(2)))
    );
    assert_eq!(dispatcher.receive(last), None);
    assert_eq!(dispatcher.receive(last + 1), None);
}

#[test]
fn join_tells_every_worker_to_stop_behind_its_work() {
    let mut dispatcher = pool();
    dispatcher.send(0, ThreadMessage::ProcessActor(ActorCellHandle::new(1)));
    dispatcher.join();
    assert_eq!(
        dispatcher.receive(0),
        Some(ThreadMessage::ProcessActor(ActorCellHandle::new(1)))
    );
    for worker in 0..dispatcher.worker_count() {
        assert_eq!(dispatcher.receive(worker), Some(ThreadMessage::Stop));
        assert_eq!(dispatcher.receive(worker), None);
    }
}

#[test]
fn withdraw_takes_the_item_of_one_cell() {
    let mut dispatcher = pool();
    let last = dispatcher.worker_count() - 1;
    dispatcher.send(0, ThreadMessage::ProcessActor(ActorCellHandle::new(1)));
    dispatcher.send(last, ThreadMessage::ProcessActor(ActorCellHandle::new(2)));
    dispatcher.send(last, ThreadMessage::ProcessActor(ActorCellHandle::new(3)));
    assert!(dispatcher.withdraw(2));
    assert!(!dispatcher.withdraw(2));
    assert!(!dispatcher.withdraw(9));
    assert_eq!(
        dispatcher.receive(0),
        Some(ThreadMessage::ProcessActor(ActorCellHandle::new(1)))
    );
    assert_eq!(
        dispatcher.receive(last),
        Some(ThreadMessage::ProcessActor(ActorCellHandle::new(3)))
    );
    assert_eq!(dispatcher.receive(last), None);
}

#[test]
fn thread_handle_is_a_queue() {
    let mut handle = ThreadHandle::new(Some(3));
    assert_eq!(handle.pinned(), Some(3));
    assert_eq!(handle.receive(), None);
    handle.send(ThreadMessage::ProcessActor(ActorCellHandle::new(4)));
    handle.send(ThreadMessage::ProcessActor(ActorCellHandle::new(5)));
    handle.join();
    assert_eq!(handle.len(), 3);
    assert_eq!(handle.withdraw(5), Some(1));
    assert_eq!(handle.withdraw(5), None);
    assert_eq!(handle.receive(), Some(ThreadMessage::ProcessActor(ActorCellHandle::new(4))));
    assert_eq!(handle.receive(), Some(ThreadMessage::Stop));
    assert_eq!(handle.receive(), None);
}

#[test]
fn count_reports_each_milestone_passed() {
    assert_eq!(REPORT_EVERY, 10_000_000);
    let mut dispatcher = Dispatcher::new();
    assert_eq!(dispatcher.count(0), None);
    assert_eq!(dispatcher.count(9_999_999), None);
    assert_eq!(dispatcher.count(1), Some(10_000_000));
    assert_eq!(dispatcher.count(10), None);
    assert_eq!(dispatcher.count(9_999_989), None);
    assert_eq!(dispatcher.count(5), Some(20_000_004));
    assert_eq!(dispatcher.count(10_000_000), Some(30_000_004));
    assert_eq!(dispatcher.count(25_000_000), Some(55_000_004));
    assert_eq!(dispatcher.count(usize::MAX), Some(usize::MAX));
    assert_eq!(dispatcher.count(1), None);
}

#[test]
fn a_second_join_tells_nobody_again() {
    let mut dispatcher = pool();
    dispatcher.join();
    dispatcher.join();
    for worker in 0..dispatcher.worker_count() {
        assert_eq!(dispatcher.queued(worker), 1);
        assert_eq!(dispatcher.receive(worker), Some(ThreadMessage::Stop));
        assert_eq!(dispatcher.receive(worker), None);
    }
    // A pool that is started again can be joined again.
    dispatcher.start();
    dispatcher.join();
    dispatcher.join();
    for worker in 0..dispatcher.worker_count() {
        assert_eq!(dispatcher.queued(worker), 1);
    }
}

#[test]
fn the_guardian_travels_as_a_work_item() {
    let mut dispatcher = pool();
    dispatcher.send(0, ThreadMessage::Guardian);
    dispatcher.send(0, ThreadMessage::ProcessActor(ActorCellHandle::new(1)));
    assert_eq!(dispatcher.front(0), Some(ThreadMessage::Guardian));
    assert_eq!(dispatcher.queued(0), 2);
    assert_eq!(dispatcher.receive(0), Some(ThreadMessage::Guardian));
    assert_eq!(
        dispatcher.front(0),
        Some(ThreadMessage::ProcessActor(ActorCellHandle::new(1)))
    );
    assert_eq!(dispatcher.front(dispatcher.worker_count()), None);
}
