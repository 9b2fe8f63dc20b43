//! The frontier queue: a deduplicated FIFO of novels awaiting evaluation.
//!
//! An id that has ever been pushed stays marked as seen for the lifetime
//! of the queue, whether or not the novel is still queued, so nothing is
//! ever processed twice.

use vstd::prelude::*;
use crate::models::Novel;

verus! {

/// A queue of novels awaiting evaluation, with permanent deduplication
/// by novel id.
pub struct NovelQueue {
    /// The novels waiting to be processed, head first.
    queue: Vec<Novel>,
    /// Every id that has ever been pushed, in order of first push.
    seen: Vec<u64>,
}

impl NovelQueue {
    /// The novels currently queued, head first.
    pub closed spec fn queued(self) -> Seq<Novel> {
        self.queue@
    }

    /// The ids ever admitted, in order of first push.
    pub closed spec fn seen_ids(self) -> Seq<u64> {
        self.seen@
    }

    /// An id has been seen.
    pub open spec fn spec_seen(self, id: u64) -> bool {
        self.seen_ids().contains(id)
    }

    /// Structural invariant: every queued id is marked seen, and no id
    /// is queued twice.
    pub open spec fn inv(self) -> bool {
        &&& forall|i: int|
            0 <= i < self.queued().len() ==> self.seen_ids().contains(
                #[trigger] self.queued()[i].id,
            )
        &&& forall|i: int, j: int|
            0 <= i < j < self.queued().len() ==> self.queued()[i].id != self.queued()[j].id
    }

    /// Create a new empty queue.
    pub fn new() -> (r: NovelQueue)
        ensures
            r.queued() == Seq::<Novel>::empty(),
            r.seen_ids() == Seq::<u64>::empty(),
            r.inv(),
    {
        let r = NovelQueue { queue: Vec::new(), seen: Vec::new() };
        proof {
            assert(r.queued() =~= Seq::<Novel>::empty());
            assert(r.seen_ids() =~= Seq::<u64>::empty());
        }
        r
    }

    /// What `push` does: a novel whose id was already seen is refused
    /// and nothing changes; a new id is appended to the queue and
    /// permanently marked seen.
    pub open spec fn push_rel(old_q: NovelQueue, novel: Novel, new_q: NovelQueue, admitted: bool) -> bool {
        if old_q.spec_seen(novel.id) {
            &&& admitted == false
            &&& new_q.queued() == old_q.queued()
            &&& new_q.seen_ids() == old_q.seen_ids()
        } else {
            &&& admitted == true
            &&& new_q.queued() == old_q.queued().push(novel)
            &&& new_q.seen_ids() == old_q.seen_ids().push(novel.id)
        }
    }

    /// Add a novel unless its id has been seen before; the result says
    /// whether it was newly admitted.
    pub fn push(&mut self, novel: Novel) -> (admitted: bool)
        ensures
            NovelQueue::push_rel(*old(self), novel, *final(self), admitted),
            old(self).inv() ==> final(self).inv(),
            final(self).spec_seen(novel.id),
    {
        let mut i: usize = 0;
        while i < self.seen.len()
            invariant
                0 <= i <= self.seen@.len(),
                forall|k: int| 0 <= k < i ==> self.seen@[k] != novel.id,
                *self == *old(self),
            decreases self.seen@.len() - i,
        {
            if self.seen[i] == novel.id {
                proof {
                    assert(self.seen@.contains(novel.id));
                }
                return false;
            }
            i += 1;
        }
        proof {
            assert(!self.seen@.contains(novel.id));
        }
        self.seen.push(novel.id);
        self.queue.push(novel);
        proof {
            assert(self.seen@[self.seen@.len() - 1] == novel.id);
            assert(self.spec_seen(novel.id));
            if old(self).inv() {
                assert forall|k: int|
                    0 <= k < self.queued().len() implies self.seen@.contains(
                    #[trigger] self.queued()[k].id,
                ) by {
                    if k < old(self).queued().len() {
                        let id = old(self).queued()[k].id;
                        let w = choose|w: int|
                            0 <= w < old(self).seen@.len() && old(self).seen@[w] == id;
                        assert(self.seen@[w] == id);
                    } else {
                        assert(self.seen@[self.seen@.len() - 1] == novel.id);
                    }
                }
                assert forall|a: int, b: int|
                    0 <= a < b < self.queued().len() implies self.queued()[a].id
                    != self.queued()[b].id by {
                    if b == self.queued().len() - 1 {
                        assert(!old(self).seen@.contains(novel.id));
                        assert(old(self).seen@.contains(old(self).queued()[a].id));
                    }
                }
            }
        }
        true
    }

    /// What `pop` does: the head leaves in FIFO order; the seen set
    /// never shrinks.
    pub open spec fn pop_rel(old_q: NovelQueue, new_q: NovelQueue, r: Option<Novel>) -> bool {
        if old_q.queued().len() == 0 {
            &&& r is None
            &&& new_q.queued() == old_q.queued()
            &&& new_q.seen_ids() == old_q.seen_ids()
        } else {
            &&& r == Some(old_q.queued()[0])
            &&& new_q.queued() == old_q.queued().drop_first()
            &&& new_q.seen_ids() == old_q.seen_ids()
        }
    }

    /// Remove and return the next novel in FIFO order.
    pub fn pop(&mut self) -> (r: Option<Novel>)
        ensures
            NovelQueue::pop_rel(*old(self), *final(self), r),
            old(self).inv() ==> final(self).inv(),
    {
        if self.queue.len() == 0 {
            return None;
        }
        let n = self.queue.remove(0);
        proof {
            assert(self.queued() =~= old(self).queued().drop_first());
        }
        Some(n)
    }

    /// Whether the queue is currently empty.
    pub fn is_empty(&self) -> (r: bool)
        ensures
            r == (self.queued().len() == 0),
    {
        self.queue.len() == 0
    }

    /// The number of novels currently queued.
    pub fn len(&self) -> (r: usize)
        ensures
            r == self.queued().len(),
    {
        self.queue.len()
    }

    /// Whether a novel id has ever been admitted.
    pub fn has_seen(&self, novel_id: u64) -> (r: bool)
        ensures
            r == self.spec_seen(novel_id),
    {
        let mut i: usize = 0;
        while i < self.seen.len()
            invariant
                0 <= i <= self.seen@.len(),
                forall|k: int| 0 <= k < i ==> self.seen@[k] != novel_id,
            decreases self.seen@.len() - i,
        {
            if self.seen[i] == novel_id {
                proof {
                    assert(self.seen@.contains(novel_id));
                }
                return true;
            }
            i += 1;
        }
        proof {
            assert(!self.seen@.contains(novel_id));
        }
        false
    }
}

/// Frontier deduplication is idempotent: pushing the same id twice
/// admits it exactly once, and the second push changes nothing.
pub proof fn lemma_push_idempotent(
    q0: NovelQueue,
    q1: NovelQueue,
    q2: NovelQueue,
    n1: Novel,
    n2: Novel,
    r1: bool,
    r2: bool,
)
    requires
        !q0.spec_seen(n1.id),
        NovelQueue::push_rel(q0, n1, q1, r1),
        n2.id == n1.id,
        NovelQueue::push_rel(q1, n2, q2, r2),
    ensures
        r1 == true,
        r2 == false,
        q2.queued() == q1.queued(),
        q2.seen_ids() == q1.seen_ids(),
{
    assert(q1.seen_ids().last() == n1.id);
    assert(q1.spec_seen(n2.id));
}

/// Once an id is seen it stays seen: a push marks its id seen for good,
/// and neither popping nor any later push ever unmarks an id.
pub proof fn lemma_seen_permanent(
    q0: NovelQueue,
    q1: NovelQueue,
    n: Novel,
    r: bool,
    q2: NovelQueue,
    popped: Option<Novel>,
    id: u64,
)
    requires
        NovelQueue::push_rel(q0, n, q1, r),
        NovelQueue::pop_rel(q1, q2, popped),
        q0.spec_seen(id) || id == n.id,
    ensures
        q1.spec_seen(id),
        q2.spec_seen(id),
{
    if q0.spec_seen(id) {
        if !q0.spec_seen(n.id) {
            let w = choose|w: int| 0 <= w < q0.seen_ids().len() && q0.seen_ids()[w] == id;
            assert(q1.seen_ids()[w] == id);
        }
    } else {
        if !q0.spec_seen(n.id) {
            assert(q1.seen_ids().last() == n.id);
        }
    }
}

} // verus!
