use vstd::prelude::*;
use std::collections::VecDeque;
use rand::Rng;
use crate::actor_cell::ActorCellHandle;

verus! {

/// A work item in a worker's inbox.
#[derive(Clone, Copy, Debug, PartialEq, Eq, Structural)]
pub enum ThreadMessage {
    /// Run one batch of this cell.
    ProcessActor(ActorCellHandle),
    /// Run the guardian: the oldest message of its mailbox.
    Guardian,
    /// Leave the event loop.
    Stop,
}

impl ThreadMessage {
    /// The cell that the item asks to run, if it asks for one.
    pub open spec fn target(self) -> Option<u128> {
        match self {
            ThreadMessage::ProcessActor(actor) => Some(actor.id_spec()),
            ThreadMessage::Guardian => None,
            ThreadMessage::Stop => None,
        }
    }
}

/// Whether slot `slot` of worker `worker`'s inbox asks to run cell `id`.
pub open spec fn holds(inboxes: Seq<Seq<ThreadMessage>>, worker: int, slot: int, id: u128) -> bool {
    &&& 0 <= worker < inboxes.len()
    &&& 0 <= slot < inboxes[worker].len()
    &&& inboxes[worker][slot].target() == Some(id)
}

/// Whether some inbox asks to run cell `id`.
pub open spec fn is_queued(inboxes: Seq<Seq<ThreadMessage>>, id: u128) -> bool {
    exists|worker: int, slot: int| holds(inboxes, worker, slot, id)
}

/// No cell is asked for twice, in one inbox or in two.
pub open spec fn queued_once(inboxes: Seq<Seq<ThreadMessage>>) -> bool {
    forall|w1: int, s1: int, w2: int, s2: int, id: u128|
        #[trigger] holds(inboxes, w1, s1, id) && #[trigger] holds(inboxes, w2, s2, id) ==> w1 == w2
            && s1 == s2
}

/// Appending a work item for a cell that no inbox asks for keeps every cell
/// asked for at most once, and adds that cell to those asked for.
pub proof fn lemma_push_item(
    inboxes: Seq<Seq<ThreadMessage>>,
    worker: int,
    item: ThreadMessage,
    id: u128,
)
    requires
        0 <= worker < inboxes.len(),
        item.target() == Some(id),
        queued_once(inboxes),
        !is_queued(inboxes, id),
    ensures
        queued_once(inboxes.update(worker, inboxes[worker].push(item))),
        forall|other: u128|
            is_queued(inboxes.update(worker, inboxes[worker].push(item)), other) <==> (other == id
                || is_queued(inboxes, other)),
{
    let after = inboxes.update(worker, inboxes[worker].push(item));
    let last = inboxes[worker].len() as int;
    assert forall|w: int, s: int, other: u128| #[trigger] holds(after, w, s, other) implies (w
        == worker && s == last && other == id) || holds(inboxes, w, s, other) by {}
    assert forall|w1: int, s1: int, w2: int, s2: int, other: u128|
        #[trigger] holds(after, w1, s1, other) && #[trigger] holds(
            after,
            w2,
            s2,
            other,
        ) implies w1 == w2 && s1 == s2 by {
        if holds(inboxes, w1, s1, other) && holds(inboxes, w2, s2, other) {
        } else if holds(inboxes, w1, s1, other) {
            assert(other == id);
        } else if holds(inboxes, w2, s2, other) {
            assert(other == id);
        }
    }
    assert forall|other: u128| is_queued(after, other) <==> (other == id || is_queued(
        inboxes,
        other,
    )) by {
        if is_queued(after, other) {
            let (w, s) = choose|w: int, s: int| holds(after, w, s, other);
            if !(w == worker && s == last && other == id) {
                assert(holds(inboxes, w, s, other));
            }
        }
        if other == id {
            assert(holds(after, worker, last, other));
        }
        if is_queued(inboxes, other) {
            let (w, s) = choose|w: int, s: int| holds(inboxes, w, s, other);
            assert(holds(after, w, s, other));
        }
    }
}

/// Appending an item that asks for no cell changes nothing about which cells
/// are asked for.
pub proof fn lemma_push_plain(inboxes: Seq<Seq<ThreadMessage>>, worker: int, item: ThreadMessage)
    requires
        0 <= worker < inboxes.len(),
        item.target() is None,
    ensures
        queued_once(inboxes) ==> queued_once(inboxes.update(worker, inboxes[worker].push(item))),
        forall|other: u128|
            is_queued(inboxes.update(worker, inboxes[worker].push(item)), other) <==> is_queued(
                inboxes,
                other,
            ),
{
    let after = inboxes.update(worker, inboxes[worker].push(item));
    assert forall|w: int, s: int, other: u128| #[trigger]
        holds(after, w, s, other) <==> holds(inboxes, w, s, other) by {}
    if queued_once(inboxes) {
        assert forall|w1: int, s1: int, w2: int, s2: int, other: u128|
            #[trigger] holds(after, w1, s1, other) && #[trigger] holds(
                after,
                w2,
                s2,
                other,
            ) implies w1 == w2 && s1 == s2 by {
            assert(holds(inboxes, w1, s1, other));
            assert(holds(inboxes, w2, s2, other));
        }
    }
    assert forall|other: u128| is_queued(after, other) <==> is_queued(inboxes, other) by {
        if is_queued(after, other) {
            let (w, s) = choose|w: int, s: int| holds(after, w, s, other);
            assert(holds(inboxes, w, s, other));
        }
        if is_queued(inboxes, other) {
            let (w, s) = choose|w: int, s: int| holds(inboxes, w, s, other);
            assert(holds(after, w, s, other));
        }
    }
}

/// Taking the head off an inbox keeps every cell asked for at most once, and
/// takes the head's cell, and no other, from those asked for.
pub proof fn lemma_pop_item(inboxes: Seq<Seq<ThreadMessage>>, worker: int)
    requires
        0 <= worker < inboxes.len(),
        inboxes[worker].len() > 0,
        queued_once(inboxes),
    ensures
        queued_once(inboxes.update(worker, inboxes[worker].skip(1))),
        forall|other: u128|
            is_queued(inboxes.update(worker, inboxes[worker].skip(1)), other) <==> (is_queued(
                inboxes,
                other,
            ) && inboxes[worker][0].target() != Some(other)),
{
    let after = inboxes.update(worker, inboxes[worker].skip(1));
    assert forall|w: int, s: int, other: u128| #[trigger]
        holds(after, w, s, other) implies holds(
        inboxes,
        w,
        if w == worker {
            s + 1
        } else {
            s
        },
        other,
    ) by {}
    assert forall|w1: int, s1: int, w2: int, s2: int, other: u128|
        #[trigger] holds(after, w1, s1, other) && #[trigger] holds(
            after,
            w2,
            s2,
            other,
        ) implies w1 == w2 && s1 == s2 by {
        let t1 = if w1 == worker {
            s1 + 1
        } else {
            s1
        };
        let t2 = if w2 == worker {
            s2 + 1
        } else {
            s2
        };
        assert(holds(inboxes, w1, t1, other));
        assert(holds(inboxes, w2, t2, other));
    }
    assert forall|other: u128|
        is_queued(after, other) <==> (is_queued(inboxes, other) && inboxes[worker][0].target()
            != Some(other)) by {
        if is_queued(after, other) {
            let (w, s) = choose|w: int, s: int| holds(after, w, s, other);
            let t = if w == worker {
                s + 1
            } else {
                s
            };
            assert(holds(inboxes, w, t, other));
            if inboxes[worker][0].target() == Some(other) {
                assert(holds(inboxes, worker, 0, other));
            }
        }
        if is_queued(inboxes, other) && inboxes[worker][0].target() != Some(other) {
            let (w, s) = choose|w: int, s: int| holds(inboxes, w, s, other);
            if w == worker {
                assert(s != 0);
                assert(after[w][s - 1] == inboxes[w][s]);
                assert(holds(after, w, s - 1, other));
            } else {
                assert(holds(after, w, s, other));
            }
        }
    }
}

/// The inboxes after the work item for cell `id` was taken out of them: the
/// one slot that asked for the cell is gone, and where none did, nothing has
/// changed.
pub open spec fn withdrawn(
    before: Seq<Seq<ThreadMessage>>,
    after: Seq<Seq<ThreadMessage>>,
    id: u128,
) -> bool {
    if is_queued(before, id) {
        exists|worker: int, slot: int| #[trigger]
            holds(before, worker, slot, id) && after == before.update(
                worker,
                before[worker].remove(slot),
            )
    } else {
        after == before
    }
}

/// Taking a work item out of an inbox keeps every cell asked for at most
/// once, and takes the item's cell, and no other, from those asked for.
pub proof fn lemma_remove_item(inboxes: Seq<Seq<ThreadMessage>>, worker: int, slot: int, id: u128)
    requires
        holds(inboxes, worker, slot, id),
        queued_once(inboxes),
    ensures
        queued_once(inboxes.update(worker, inboxes[worker].remove(slot))),
        forall|other: u128|
            is_queued(inboxes.update(worker, inboxes[worker].remove(slot)), other) <==> (is_queued(
                inboxes,
                other,
            ) && other != id),
{
    let after = inboxes.update(worker, inboxes[worker].remove(slot));
    assert forall|w: int, s: int, other: u128| #[trigger]
        holds(after, w, s, other) implies holds(
        inboxes,
        w,
        if w == worker && s >= slot {
            s + 1
        } else {
            s
        },
        other,
    ) by {}
    assert forall|w1: int, s1: int, w2: int, s2: int, other: u128|
        #[trigger] holds(after, w1, s1, other) && #[trigger] holds(
            after,
            w2,
            s2,
            other,
        ) implies w1 == w2 && s1 == s2 by {
        let t1 = if w1 == worker && s1 >= slot {
            s1 + 1
        } else {
            s1
        };
        let t2 = if w2 == worker && s2 >= slot {
            s2 + 1
        } else {
            s2
        };
        assert(holds(inboxes, w1, t1, other));
        assert(holds(inboxes, w2, t2, other));
    }
    assert forall|other: u128|
        is_queued(after, other) <==> (is_queued(inboxes, other) && other != id) by {
        if is_queued(after, other) {
            let (w, s) = choose|w: int, s: int| holds(after, w, s, other);
            let t = if w == worker && s >= slot {
                s + 1
            } else {
                s
            };
            assert(holds(inboxes, w, t, other));
            if other == id {
                assert(holds(inboxes, worker, slot, other));
            }
        }
        if is_queued(inboxes, other) && other != id {
            let (w, s) = choose|w: int, s: int| holds(inboxes, w, s, other);
            if w == worker {
                assert(s != slot);
                if s > slot {
                    assert(after[w][s - 1] == inboxes[w][s]);
                    assert(holds(after, w, s - 1, other));
                } else {
                    assert(after[w][s] == inboxes[w][s]);
                    assert(holds(after, w, s, other));
                }
            } else {
                assert(holds(after, w, s, other));
            }
        }
    }
}

/// Whether slot `slot` of worker `worker`'s inbox is the guardian's work
/// item.
pub open spec fn guards_at(inboxes: Seq<Seq<ThreadMessage>>, worker: int, slot: int) -> bool {
    &&& 0 <= worker < inboxes.len()
    &&& 0 <= slot < inboxes[worker].len()
    &&& inboxes[worker][slot] == ThreadMessage::Guardian
}

/// Whether some inbox holds the guardian's work item.
pub open spec fn guardian_queued(inboxes: Seq<Seq<ThreadMessage>>) -> bool {
    exists|worker: int, slot: int| guards_at(inboxes, worker, slot)
}

/// The guardian is asked for at most once, in one inbox or in two.
pub open spec fn guardian_once(inboxes: Seq<Seq<ThreadMessage>>) -> bool {
    forall|w1: int, s1: int, w2: int, s2: int|
        #[trigger] guards_at(inboxes, w1, s1) && #[trigger] guards_at(inboxes, w2, s2) ==> w1 == w2
            && s1 == s2
}

/// Appending an item that is not the guardian's changes nothing about where
/// the guardian is asked for.
pub proof fn lemma_guardian_kept_by_push(
    inboxes: Seq<Seq<ThreadMessage>>,
    worker: int,
    item: ThreadMessage,
)
    requires
        0 <= worker < inboxes.len(),
        item != ThreadMessage::Guardian,
    ensures
        guardian_once(inboxes) ==> guardian_once(
            inboxes.update(worker, inboxes[worker].push(item)),
        ),
        guardian_queued(inboxes.update(worker, inboxes[worker].push(item))) <==> guardian_queued(
            inboxes,
        ),
{
    let after = inboxes.update(worker, inboxes[worker].push(item));
    assert forall|w: int, s: int| #[trigger] guards_at(after, w, s) <==> guards_at(inboxes, w, s) by {}
    if guardian_once(inboxes) {
        assert forall|w1: int, s1: int, w2: int, s2: int|
            #[trigger] guards_at(after, w1, s1) && #[trigger] guards_at(
                after,
                w2,
                s2,
            ) implies w1 == w2 && s1 == s2 by {
            assert(guards_at(inboxes, w1, s1));
            assert(guards_at(inboxes, w2, s2));
        }
    }
    if guardian_queued(after) {
        let (w, s) = choose|w: int, s: int| guards_at(after, w, s);
        assert(guards_at(inboxes, w, s));
    }
    if guardian_queued(inboxes) {
        let (w, s) = choose|w: int, s: int| guards_at(inboxes, w, s);
        assert(guards_at(after, w, s));
    }
}

/// Appending the guardian's work item where no inbox holds it leaves the
/// guardian asked for, once.
pub proof fn lemma_guardian_pushed(inboxes: Seq<Seq<ThreadMessage>>, worker: int)
    requires
        0 <= worker < inboxes.len(),
        !guardian_queued(inboxes),
    ensures
        guardian_once(inboxes.update(worker, inboxes[worker].push(ThreadMessage::Guardian))),
        guardian_queued(inboxes.update(worker, inboxes[worker].push(ThreadMessage::Guardian))),
{
    let after = inboxes.update(worker, inboxes[worker].push(ThreadMessage::Guardian));
    let last = inboxes[worker].len() as int;
    assert forall|w: int, s: int| #[trigger] guards_at(after, w, s) implies w == worker && s
        == last by {
        if !(w == worker && s == last) {
            assert(guards_at(inboxes, w, s));
        }
    }
    assert(guards_at(after, worker, last));
}

/// Taking the head off an inbox keeps the guardian asked for at most once.
/// Where the head was the guardian's work item, no inbox holds it any more;
/// where it was not, the guardian is asked for as before.
pub proof fn lemma_guardian_after_pop(inboxes: Seq<Seq<ThreadMessage>>, worker: int)
    requires
        0 <= worker < inboxes.len(),
        inboxes[worker].len() > 0,
        guardian_once(inboxes),
    ensures
        guardian_once(inboxes.update(worker, inboxes[worker].skip(1))),
        guardian_queued(inboxes.update(worker, inboxes[worker].skip(1))) <==> (guardian_queued(
            inboxes,
        ) && inboxes[worker][0] != ThreadMessage::Guardian),
{
    let after = inboxes.update(worker, inboxes[worker].skip(1));
    assert forall|w: int, s: int| #[trigger] guards_at(after, w, s) implies guards_at(
        inboxes,
        w,
        if w == worker {
            s + 1
        } else {
            s
        },
    ) by {}
    assert forall|w1: int, s1: int, w2: int, s2: int|
        #[trigger] guards_at(after, w1, s1) && #[trigger] guards_at(
            after,
            w2,
            s2,
        ) implies w1 == w2 && s1 == s2 by {
        let t1 = if w1 == worker {
            s1 + 1
        } else {
            s1
        };
        let t2 = if w2 == worker {
            s2 + 1
        } else {
            s2
        };
        assert(guards_at(inboxes, w1, t1));
        assert(guards_at(inboxes, w2, t2));
    }
    if guardian_queued(after) {
        let (w, s) = choose|w: int, s: int| guards_at(after, w, s);
        let t = if w == worker {
            s + 1
        } else {
            s
        };
        assert(guards_at(inboxes, w, t));
        if inboxes[worker][0] == ThreadMessage::Guardian {
            assert(guards_at(inboxes, worker, 0));
        }
    }
    if guardian_queued(inboxes) && inboxes[worker][0] != ThreadMessage::Guardian {
        let (w, s) = choose|w: int, s: int| guards_at(inboxes, w, s);
        if w == worker {
            assert(s != 0);
            assert(after[w][s - 1] == inboxes[w][s]);
            assert(guards_at(after, w, s - 1));
        } else {
            assert(guards_at(after, w, s));
        }
    }
}

/// Taking a cell's work item out of an inbox changes nothing about whether
/// the guardian is asked for, and keeps it asked for at most once.
pub proof fn lemma_guardian_kept_by_remove(
    inboxes: Seq<Seq<ThreadMessage>>,
    worker: int,
    slot: int,
)
    requires
        0 <= worker < inboxes.len(),
        0 <= slot < inboxes[worker].len(),
        inboxes[worker][slot] != ThreadMessage::Guardian,
    ensures
        guardian_once(inboxes) ==> guardian_once(
            inboxes.update(worker, inboxes[worker].remove(slot)),
        ),
        guardian_queued(inboxes.update(worker, inboxes[worker].remove(slot))) <==> guardian_queued(
            inboxes,
        ),
{
    let after = inboxes.update(worker, inboxes[worker].remove(slot));
    assert forall|w: int, s: int| #[trigger] guards_at(after, w, s) implies guards_at(
        inboxes,
        w,
        if w == worker && s >= slot {
            s + 1
        } else {
            s
        },
    ) by {}
    if guardian_once(inboxes) {
        assert forall|w1: int, s1: int, w2: int, s2: int|
            #[trigger] guards_at(after, w1, s1) && #[trigger] guards_at(
                after,
                w2,
                s2,
            ) implies w1 == w2 && s1 == s2 by {
            let t1 = if w1 == worker && s1 >= slot {
                s1 + 1
            } else {
                s1
            };
            let t2 = if w2 == worker && s2 >= slot {
                s2 + 1
            } else {
                s2
            };
            assert(guards_at(inboxes, w1, t1));
            assert(guards_at(inboxes, w2, t2));
        }
    }
    if guardian_queued(after) {
        let (w, s) = choose|w: int, s: int| guards_at(after, w, s);
        let t = if w == worker && s >= slot {
            s + 1
        } else {
            s
        };
        assert(guards_at(inboxes, w, t));
    }
    if guardian_queued(inboxes) {
        let (w, s) = choose|w: int, s: int| guards_at(inboxes, w, s);
        if w == worker {
            assert(s != slot);
            if s > slot {
                assert(after[w][s - 1] == inboxes[w][s]);
                assert(guards_at(after, w, s - 1));
            } else {
                assert(after[w][s] == inboxes[w][s]);
                assert(guards_at(after, w, s));
            }
        } else {
            assert(guards_at(after, w, s));
        }
    }
}

/// Taking a cell's work item out of the inboxes changes nothing about
/// whether the guardian is asked for, and keeps it asked for at most once.
pub proof fn lemma_guardian_kept_by_withdrawal(
    before: Seq<Seq<ThreadMessage>>,
    after: Seq<Seq<ThreadMessage>>,
    id: u128,
)
    requires
        withdrawn(before, after, id),
    ensures
        guardian_once(before) ==> guardian_once(after),
        guardian_queued(after) <==> guardian_queued(before),
{
    if is_queued(before, id) {
        let (worker, slot) = choose|worker: int, slot: int| #[trigger]
            holds(before, worker, slot, id) && after == before.update(
                worker,
                before[worker].remove(slot),
            );
        lemma_guardian_kept_by_remove(before, worker, slot);
    }
}

/// A stop item behind everything in every inbox changes nothing about where
/// the guardian is asked for.
pub proof fn lemma_guardian_kept_by_stops(
    before: Seq<Seq<ThreadMessage>>,
    after: Seq<Seq<ThreadMessage>>,
)
    requires
        after.len() == before.len(),
        forall|worker: int|
            0 <= worker < before.len() ==> #[trigger] after[worker] == before[worker].push(
                ThreadMessage::Stop,
            ),
    ensures
        guardian_once(before) ==> guardian_once(after),
        guardian_queued(after) <==> guardian_queued(before),
{
    assert forall|w: int, s: int| #[trigger] guards_at(after, w, s) <==> guards_at(before, w, s) by {
        if 0 <= w < before.len() {
            assert(after[w] == before[w].push(ThreadMessage::Stop));
        }
    }
    if guardian_once(before) {
        assert forall|w1: int, s1: int, w2: int, s2: int|
            #[trigger] guards_at(after, w1, s1) && #[trigger] guards_at(
                after,
                w2,
                s2,
            ) implies w1 == w2 && s1 == s2 by {
            assert(guards_at(before, w1, s1));
            assert(guards_at(before, w2, s2));
        }
    }
    if guardian_queued(after) {
        let (w, s) = choose|w: int, s: int| guards_at(after, w, s);
        assert(guards_at(before, w, s));
    }
    if guardian_queued(before) {
        let (w, s) = choose|w: int, s: int| guards_at(before, w, s);
        assert(guards_at(after, w, s));
    }
}

/// `rand::Rng::gen_range` on `rand::thread_rng()` with the range `0..bound`:
/// some index below `bound`, a different one from call to call.
#[verifier::external_body]
fn random_index(bound: usize) -> (index: usize)
    requires
        bound > 0,
    ensures
        index < bound,
{
    rand::thread_rng().gen_range(0..bound)
}

/// `core_affinity::get_core_ids`: the cores on which this thread may run, by
/// their numbers, or `None` where the system does not tell. Nothing is
/// promised of the answer.
#[verifier::external_body]
fn core_ids() -> (cores: Option<Vec<usize>>) {
    core_affinity::get_core_ids().map(|ids| ids.into_iter().map(|found| found.id).collect())
}

/// `num_cpus::get`: the number of logical processors that the system reports.
/// Nothing is promised of the answer.
#[verifier::external_body]
fn cpu_count() -> (count: usize) {
    num_cpus::get()
}

/// One worker as the scheduler sees it: the inbox that the worker's event loop
/// drains, and the core that the worker is to be pinned to.
pub struct ThreadHandle {
    sender: VecDeque<ThreadMessage>,
    pin: Option<usize>,
}

impl View for ThreadHandle {
    type V = Seq<ThreadMessage>;

    closed spec fn view(&self) -> Seq<ThreadMessage> {
        self.sender@
    }
}

impl ThreadHandle {
    pub closed spec fn core_spec(&self) -> Option<usize> {
        self.pin
    }

    /// A worker with an empty inbox.
    pub fn new(pin: Option<usize>) -> (handle: Self)
        ensures
            handle@ == Seq::<ThreadMessage>::empty(),
            handle.core_spec() == pin,
    {
        ThreadHandle { sender: VecDeque::new(), pin }
    }

    /// The core to pin the worker to, if any.
    pub fn pinned(&self) -> (pin: Option<usize>)
        ensures
            pin == self.core_spec(),
    {
        self.pin
    }

    /// How many work items wait in the inbox.
    pub fn len(&self) -> (len: usize)
        ensures
            len == self@.len(),
    {
        self.sender.len()
    }

    /// Puts a work item at the end of the inbox.
    pub fn send(&mut self, message: ThreadMessage)
        ensures
            final(self)@ == old(self)@.push(message),
            final(self).core_spec() == old(self).core_spec(),
    {
        self.sender.push_back(message);
    }

    /// Tells the worker to leave its loop, behind whatever its inbox holds.
    pub fn join(&mut self)
        ensures
            final(self)@ == old(self)@.push(ThreadMessage::Stop),
            final(self).core_spec() == old(self).core_spec(),
    {
        self.send(ThreadMessage::Stop);
    }

    /// The next work item, left where it is.
    pub fn front(&self) -> (message: Option<ThreadMessage>)
        ensures
            message == if self@.len() > 0 {
                Some(self@[0])
            } else {
                None
            },
    {
        if self.sender.len() > 0 {
            Some(self.sender[0])
        } else {
            None
        }
    }

    /// Takes the next work item, oldest first.
    pub fn receive(&mut self) -> (message: Option<ThreadMessage>)
        ensures
            final(self).core_spec() == old(self).core_spec(),
            match message {
                Some(item) => {
                    &&& old(self)@.len() > 0
                    &&& item == old(self)@[0]
                    &&& final(self)@ == old(self)@.skip(1)
                },
                None => old(self)@.len() == 0 && final(self)@ == old(self)@,
            },
    {
        let message = self.sender.pop_front();
        proof {
            if message is Some {
                assert(self@ =~= old(self)@.skip(1));
            }
        }
        message
    }

    /// Takes the first work item for cell `id` out of the inbox, if there is
    /// one, and says from which slot.
    pub fn withdraw(&mut self, id: u128) -> (found: Option<usize>)
        ensures
            final(self).core_spec() == old(self).core_spec(),
            match found {
                Some(slot) => {
                    &&& slot < old(self)@.len()
                    &&& old(self)@[slot as int].target() == Some(id)
                    &&& final(self)@ == old(self)@.remove(slot as int)
                },
                None => {
                    &&& final(self)@ == old(self)@
                    &&& forall|slot: int|
                        0 <= slot < old(self)@.len() ==> (#[trigger] old(self)@[slot]).target()
                            != Some(id)
                },
            },
    {
        let mut slot: usize = 0;
        while slot < self.sender.len()
            invariant
                slot <= self.sender@.len(),
                self.sender@ == old(self).sender@,
                self.pin == old(self).pin,
                forall|k: int| 0 <= k < slot ==> (#[trigger] self.sender@[k]).target() != Some(id),
            decreases self.sender@.len() - slot,
        {
            let item = self.sender[slot];
            let matches = match item {
                ThreadMessage::ProcessActor(actor) => actor.id() == id,
                _ => false,
            };
            if matches {
                let _ = self.sender.remove(slot);
                return Some(slot);
            }
            slot = slot + 1;
        }
        None
    }
}

/// The workers to create for what the machine reports: one pinned worker for
/// each core in `cores`; where no core is reported, `cpus` unpinned workers,
/// and one where `cpus` is zero.
pub open spec fn planned(cores: Option<Seq<usize>>, cpus: usize) -> Seq<Option<usize>> {
    match cores {
        Some(ids) if ids.len() > 0 => ids.map_values(|cpu: usize| Some(cpu)),
        _ => Seq::new(
            if cpus == 0 {
                1
            } else {
                cpus as nat
            },
            |i: int| None::<usize>,
        ),
    }
}

/// The cores that the machine reported, as a sequence.
pub open spec fn reported(cores: &Option<Vec<usize>>) -> Option<Seq<usize>> {
    match cores {
        Some(ids) => Some(ids@),
        None => None,
    }
}

/// The milestone that the scheduler reports its throughput at.
pub const REPORT_EVERY: usize = 10000000;

/// The count of processed messages after `n` more: it stops at the largest
/// number there is.
pub open spec fn tallied(processed: usize, n: usize) -> usize {
    if processed + n > usize::MAX {
        usize::MAX
    } else {
        (processed + n) as usize
    }
}

/// The count to report where the count has gone from `before` to `after`:
/// `after`, where it has reached or passed a multiple of `REPORT_EVERY` that
/// `before` had not reached.
pub open spec fn milestone(before: usize, after: usize) -> Option<usize> {
    if after / REPORT_EVERY > before / REPORT_EVERY {
        Some(after)
    } else {
        None
    }
}

/// The fixed pool of workers, and the placement of ready cells on them.
pub struct Dispatcher {
    handles: Vec<ThreadHandle>,
    processed: usize,
    joined: bool,
}

impl Dispatcher {
    /// The workers' inboxes, by worker.
    pub closed spec fn inboxes(&self) -> Seq<Seq<ThreadMessage>> {
        self.handles@.map_values(|handle: ThreadHandle| handle@)
    }

    /// The core that each worker is pinned to, by worker.
    pub closed spec fn cores(&self) -> Seq<Option<usize>> {
        self.handles@.map_values(|handle: ThreadHandle| handle.core_spec())
    }

    /// How many messages the workers have processed, as far as counted.
    pub closed spec fn processed(&self) -> usize {
        self.processed
    }

    /// Whether the workers have been told to leave their loops.
    pub closed spec fn joined(&self) -> bool {
        self.joined
    }

    /// A scheduler without workers.
    pub fn new() -> (dispatcher: Self)
        ensures
            dispatcher.inboxes() == Seq::<Seq<ThreadMessage>>::empty(),
            dispatcher.cores() == Seq::<Option<usize>>::empty(),
            dispatcher.processed() == 0,
            !dispatcher.joined(),
    {
        let dispatcher = Dispatcher { handles: Vec::new(), processed: 0, joined: false };
        assert(dispatcher.inboxes() =~= Seq::<Seq<ThreadMessage>>::empty());
        assert(dispatcher.cores() =~= Seq::<Option<usize>>::empty());
        dispatcher
    }

    /// Creates the pool for this machine: at least one worker, each with an
    /// empty inbox. Workers that were there before are dropped.
    pub fn start(&mut self)
        ensures
            final(self).inboxes().len() >= 1,
            final(self).inboxes().len() == final(self).cores().len(),
            forall|worker: int|
                0 <= worker < final(self).inboxes().len()
                    ==> (#[trigger] final(self).inboxes()[worker]).len() == 0,
            final(self).processed() == old(self).processed(),
            !final(self).joined(),
    {
        self.handles = Self::create_threads();
        self.joined = false;
    }

    /// Asks the machine for its cores and makes the workers for the answer.
    fn create_threads() -> (handles: Vec<ThreadHandle>)
        ensures
            handles@.len() >= 1,
            forall|worker: int|
                0 <= worker < handles@.len() ==> (#[trigger] handles@[worker])@.len() == 0,
    {
        let cores = core_ids();
        let cpus = cpu_count();
        Self::plan_threads(cores, cpus)
    }

    /// Makes the workers for what the machine reported: see `planned`.
    pub fn plan_threads(cores: Option<Vec<usize>>, cpus: usize) -> (handles: Vec<ThreadHandle>)
        ensures
            handles@.len() >= 1,
            handles@.len() == planned(reported(&cores), cpus).len(),
            forall|worker: int|
                0 <= worker < handles@.len() ==> (#[trigger] handles@[worker]).core_spec()
                    == planned(reported(&cores), cpus)[worker],
            forall|worker: int|
                0 <= worker < handles@.len() ==> (#[trigger] handles@[worker])@.len() == 0,
    {
        let mut handles: Vec<ThreadHandle> = Vec::new();
        let ghost plan = planned(reported(&cores), cpus);
        match cores {
            Some(ids) if ids.len() > 0 => {
                let mut i: usize = 0;
                while i < ids.len()
                    invariant
                        i <= ids.len(),
                        handles@.len() == i,
                        plan == ids@.map_values(|cpu: usize| Some(cpu)),
                        forall|worker: int|
                            0 <= worker < handles@.len() ==> (
                            #[trigger] handles@[worker]).core_spec() == plan[worker],
                        forall|worker: int|
                            0 <= worker < handles@.len() ==> (#[trigger] handles@[worker])@.len()
                                == 0,
                    decreases ids.len() - i,
                {
                    handles.push(Self::create_thread(Some(ids[i])));
                    i = i + 1;
                }
            },
            _ => {
                let count = if cpus == 0 {
                    1
                } else {
                    cpus
                };
                let mut i: usize = 0;
                while i < count
                    invariant
                        i <= count,
                        handles@.len() == i,
                        plan == Seq::new(count as nat, |i: int| None::<usize>),
                        forall|worker: int|
                            0 <= worker < handles@.len() ==> (
                            #[trigger] handles@[worker]).core_spec() == plan[worker],
                        forall|worker: int|
                            0 <= worker < handles@.len() ==> (#[trigger] handles@[worker])@.len()
                                == 0,
                    decreases count - i,
                {
                    handles.push(Self::create_thread(None));
                    i = i + 1;
                }
            },
        }
        handles
    }

    /// One worker with an empty inbox.
    fn create_thread(pin: Option<usize>) -> (handle: ThreadHandle)
        ensures
            handle@ == Seq::<ThreadMessage>::empty(),
            handle.core_spec() == pin,
    {
        ThreadHandle::new(pin)
    }

    pub fn worker_count(&self) -> (count: usize)
        ensures
            count == self.inboxes().len(),
            count == self.cores().len(),
    {
        self.handles.len()
    }

    /// The core that worker `worker` is to be pinned to; `None` for a worker
    /// that is not pinned or does not exist.
    pub fn affinity(&self, worker: usize) -> (pin: Option<usize>)
        ensures
            pin == if worker < self.cores().len() {
                self.cores()[worker as int]
            } else {
                None
            },
    {
        if worker < self.handles.len() {
            self.handles[worker].pinned()
        } else {
            None
        }
    }

    /// How many work items wait in worker `worker`'s inbox; none for a
    /// worker that does not exist.
    pub fn queued(&self, worker: usize) -> (len: usize)
        ensures
            len == if worker < self.inboxes().len() {
                self.inboxes()[worker as int].len()
            } else {
                0
            },
    {
        if worker < self.handles.len() {
            self.handles[worker].len()
        } else {
            0
        }
    }

    /// Picks a worker at random.
    pub fn next_thread(&self) -> (worker: usize)
        requires
            self.inboxes().len() > 0,
        ensures
            worker < self.inboxes().len(),
    {
        random_index(self.handles.len())
    }

    /// Puts `message` at the end of worker `worker`'s inbox.
    pub fn send(&mut self, worker: usize, message: ThreadMessage)
        requires
            worker < old(self).inboxes().len(),
        ensures
            final(self).inboxes() == old(self).inboxes().update(
                worker as int,
                old(self).inboxes()[worker as int].push(message),
            ),
            final(self).cores() == old(self).cores(),
            final(self).processed() == old(self).processed(),
            final(self).joined() == old(self).joined(),
    {
        self.handles[worker].send(message);
        assert(self.inboxes() =~= old(self).inboxes().update(
            worker as int,
            old(self).inboxes()[worker as int].push(message),
        ));
        assert(self.cores() =~= old(self).cores());
    }

    /// Hands a ready cell to a worker chosen at random, and says which.
    pub fn dispatch(&mut self, actor: ActorCellHandle) -> (worker: usize)
        requires
            old(self).inboxes().len() > 0,
        ensures
            worker < old(self).inboxes().len(),
            final(self).inboxes() == old(self).inboxes().update(
                worker as int,
                old(self).inboxes()[worker as int].push(ThreadMessage::ProcessActor(actor)),
            ),
            final(self).cores() == old(self).cores(),
            final(self).processed() == old(self).processed(),
            final(self).joined() == old(self).joined(),
    {
        let worker = self.next_thread();
        self.send(worker, ThreadMessage::ProcessActor(actor));
        worker
    }

    /// Tells every worker to leave its loop, behind whatever its inbox holds.
    /// Workers that have been told are not told again: a second call
    /// changes nothing.
    pub fn join(&mut self)
        ensures
            final(self).joined(),
            final(self).inboxes().len() == old(self).inboxes().len(),
            old(self).joined() ==> final(self).inboxes() == old(self).inboxes(),
            !old(self).joined() ==> forall|worker: int|
                0 <= worker < old(self).inboxes().len()
                    ==> #[trigger] final(self).inboxes()[worker]
                    == old(self).inboxes()[worker].push(ThreadMessage::Stop),
            final(self).cores() == old(self).cores(),
            final(self).processed() == old(self).processed(),
            queued_once(old(self).inboxes()) ==> queued_once(final(self).inboxes()),
            forall|id: u128|
                is_queued(final(self).inboxes(), id) <==> is_queued(old(self).inboxes(), id),
    {
        if self.joined {
            return ;
        }
        let mut worker: usize = 0;
        while worker < self.handles.len()
            invariant
                worker <= self.handles.len(),
                self.joined == old(self).joined,
                self.inboxes().len() == old(self).inboxes().len(),
                self.handles.len() == old(self).inboxes().len(),
                forall|w: int|
                    0 <= w < worker ==> #[trigger] self.inboxes()[w] == old(self).inboxes()[w].push(
                        ThreadMessage::Stop,
                    ),
                forall|w: int|
                    worker <= w < self.inboxes().len()
                        ==> #[trigger] self.inboxes()[w] == old(self).inboxes()[w],
                self.cores() == old(self).cores(),
                self.processed() == old(self).processed(),
                queued_once(old(self).inboxes()) ==> queued_once(self.inboxes()),
                forall|id: u128|
                    is_queued(self.inboxes(), id) <==> is_queued(old(self).inboxes(), id),
            decreases self.handles.len() - worker,
        {
            proof {
                lemma_push_plain(self.inboxes(), worker as int, ThreadMessage::Stop);
            }
            self.send(worker, ThreadMessage::Stop);
            assert(self.handles@.len() == self.inboxes().len());
            worker = worker + 1;
        }
        self.joined = true;
    }

    /// The next work item of worker `worker`, left where it is.
    pub fn front(&self, worker: usize) -> (message: Option<ThreadMessage>)
        ensures
            message == if worker < self.inboxes().len() && self.inboxes()[worker as int].len()
                > 0 {
                Some(self.inboxes()[worker as int][0])
            } else {
                None
            },
    {
        if worker < self.handles.len() {
            self.handles[worker].front()
        } else {
            None
        }
    }

    /// Takes the next work item of worker `worker`, oldest first. A worker
    /// that does not exist has none.
    pub fn receive(&mut self, worker: usize) -> (message: Option<ThreadMessage>)
        ensures
            final(self).cores() == old(self).cores(),
            final(self).processed() == old(self).processed(),
            final(self).joined() == old(self).joined(),
            match message {
                Some(item) => {
                    &&& worker < old(self).inboxes().len()
                    &&& old(self).inboxes()[worker as int].len() > 0
                    &&& item == old(self).inboxes()[worker as int][0]
                    &&& final(self).inboxes() == old(self).inboxes().update(
                        worker as int,
                        old(self).inboxes()[worker as int].skip(1),
                    )
                },
                None => {
                    &&& final(self).inboxes() == old(self).inboxes()
                    &&& worker < old(self).inboxes().len()
                        ==> old(self).inboxes()[worker as int].len() == 0
                },
            },
    {
        if worker >= self.handles.len() {
            return None;
        }
        let message = self.handles[worker].receive();
        proof {
            assert(self.cores() =~= old(self).cores());
            if message is Some {
                assert(self.inboxes() =~= old(self).inboxes().update(
                    worker as int,
                    old(self).inboxes()[worker as int].skip(1),
                ));
            } else {
                assert(self.inboxes() =~= old(self).inboxes());
            }
        }
        message
    }

    /// Takes the work item for cell `id` out of the inboxes, if there is
    /// one, and says whether there was.
    pub fn withdraw(&mut self, id: u128) -> (found: bool)
        requires
            queued_once(old(self).inboxes()),
        ensures
            found == is_queued(old(self).inboxes(), id),
            withdrawn(old(self).inboxes(), final(self).inboxes(), id),
            final(self).inboxes().len() == old(self).inboxes().len(),
            queued_once(final(self).inboxes()),
            forall|other: u128|
                is_queued(final(self).inboxes(), other) <==> (is_queued(
                    old(self).inboxes(),
                    other,
                ) && other != id),
            final(self).cores() == old(self).cores(),
            final(self).processed() == old(self).processed(),
            final(self).joined() == old(self).joined(),
    {
        let mut worker: usize = 0;
        while worker < self.handles.len()
            invariant
                worker <= self.handles.len(),
                queued_once(old(self).inboxes()),
                self.inboxes() == old(self).inboxes(),
                self.cores() == old(self).cores(),
                self.handles@.len() == self.inboxes().len(),
                self.processed == old(self).processed,
                self.joined == old(self).joined,
                forall|w: int, s: int|
                    0 <= w < worker ==> !#[trigger] holds(self.inboxes(), w, s, id),
            decreases self.handles.len() - worker,
        {
            let ghost before = self.inboxes();
            let found = self.handles[worker].withdraw(id);
            match found {
                Some(slot) => {
                    proof {
                        assert(self.inboxes() =~= before.update(
                            worker as int,
                            before[worker as int].remove(slot as int),
                        ));
                        assert(self.cores() =~= old(self).cores());
                        assert(holds(before, worker as int, slot as int, id));
                        lemma_remove_item(before, worker as int, slot as int, id);
                        assert(is_queued(before, id));
                    }
                    return true;
                },
                None => {
                    proof {
                        assert(self.inboxes() =~= before);
                        assert(self.cores() =~= old(self).cores());
                        assert forall|w: int, s: int| 0 <= w < worker + 1 implies !#[trigger] holds(
                            self.inboxes(),
                            w,
                            s,
                            id,
                        ) by {
                            if w == worker && holds(self.inboxes(), w, s, id) {
                                assert(before[w] == self.handles@[w]@);
                                assert(before[w][s].target() != Some(id));
                            }
                        }
                    }
                },
            }
            worker = worker + 1;
        }
        proof {
            if is_queued(old(self).inboxes(), id) {
                let (w, s) = choose|w: int, s: int| holds(old(self).inboxes(), w, s, id);
                assert(!holds(self.inboxes(), w, s, id));
            }
        }
        false
    }

    /// Adds `n` processed messages to the count, and returns the new count
    /// where it is worth a report: see `tallied` and `milestone`.
    pub fn count(&mut self, n: usize) -> (report: Option<usize>)
        ensures
            final(self).inboxes() == old(self).inboxes(),
            final(self).cores() == old(self).cores(),
            final(self).processed() == tallied(old(self).processed(), n),
            final(self).joined() == old(self).joined(),
            report == milestone(old(self).processed(), final(self).processed()),
    {
        let before = self.processed;
        let after = if n > usize::MAX - before {
            usize::MAX
        } else {
            before + n
        };
        self.processed = after;
        if after / REPORT_EVERY > before / REPORT_EVERY {
            Some(after)
        } else {
            None
        }
    }
}

} // verus!
