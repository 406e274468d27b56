//! The work queue: a first-in-first-out backlog with waiting dequeuers.
//! This is the queue's decision core: the async shell around it performs
//! the actual waiting and waking, and reports the waiting count here, so
//! every transition of backlog and waiters is checked.

use vstd::prelude::*;

verus! {

/// What an enqueue reports: `Free` when a waiting dequeuer took the item at
/// once; `Blocked` hands the very item back so the caller may scale the
/// pool and retry.
pub enum QueueState<T> {
    /// A waiter was woken and the item was accepted.
    Free,
    /// No dequeuer was waiting; the item comes back to the caller.
    Blocked(T),
}

/// One step of a blocking dequeue.
pub enum DequeOutcome<T> {
    /// The next item, in arrival order.
    Item(T),
    /// The cancel flag was set; the dequeuer gives up.
    Cancelled,
    /// The backlog is empty: the caller is now registered as a waiter and
    /// must block until an enqueue wakes it, then ask again.
    Wait,
}

/// The queue: the backlog in arrival order, and how many dequeuers wait.
pub struct Queue<T> {
    /// Items not yet taken, oldest first.
    pub work: Vec<T>,
    /// Dequeuers blocked on the empty backlog.
    pub waiters: usize,
}

impl<T> Queue<T> {
    /// An empty queue with no waiters.
    pub fn new() -> (r: Self)
        ensures
            r.work@ == Seq::<T>::empty(),
            r.waiters == 0,
    {
        Queue { work: Vec::new(), waiters: 0 }
    }

    /// Accepts `value` when a dequeuer waits, waking exactly one; otherwise
    /// hands `value` back unchanged so the caller may retry.
    pub fn queue(&mut self, value: T) -> (r: QueueState<T>)
        ensures
            old(self).waiters > 0 ==> (r is Free) && final(self).work@ == old(
                self,
            ).work@.push(value) && final(self).waiters == old(self).waiters - 1,
            old(self).waiters == 0 ==> r == QueueState::Blocked(value) && *final(self) == *old(
                self,
            ),
    {
        if self.waiters > 0 {
            self.work.push(value);
            self.waiters = self.waiters - 1;
            QueueState::Free
        } else {
            QueueState::Blocked(value)
        }
    }

    /// Takes the oldest backlog item, if there is one.
    fn try_deque(&mut self) -> (r: Option<T>)
        ensures
            old(self).work@.len() == 0 ==> (r is None) && *final(self) == *old(self),
            old(self).work@.len() > 0 ==> r == Some(old(self).work@[0]) && final(self).work@
                == old(self).work@.drop_first() && final(self).waiters == old(self).waiters,
    {
        if self.work.len() == 0 {
            None
        } else {
            let v = self.work.remove(0);
            proof {
                assert(self.work@ =~= old(self).work@.drop_first());
            }
            Some(v)
        }
    }

    /// One step of the blocking dequeue: consult the cancel flag first, then
    /// the backlog; an empty backlog registers the caller as a waiter. The
    /// caller re-checks after every wake, so a spurious wake is harmless.
    pub fn deque(&mut self, cancelled: bool) -> (r: DequeOutcome<T>)
        requires
            old(self).waiters < usize::MAX,
        ensures
            cancelled ==> (r is Cancelled) && *final(self) == *old(self),
            !cancelled && old(self).work@.len() > 0 ==> r == DequeOutcome::Item(
                old(self).work@[0],
            ) && final(self).work@ == old(self).work@.drop_first() && final(self).waiters == old(
                self,
            ).waiters,
            !cancelled && old(self).work@.len() == 0 ==> (r is Wait) && final(self).work@ == old(
                self,
            ).work@ && final(self).waiters == old(self).waiters + 1,
    {
        if cancelled {
            return DequeOutcome::Cancelled;
        }
        match self.try_deque() {
            Some(v) => DequeOutcome::Item(v),
            None => {
                self.waiters = self.waiters + 1;
                DequeOutcome::Wait
            },
        }
    }
}


/// Work is delivered exactly once, at the model level: an accepted enqueue
/// adds exactly one copy of the item to the backlog, and a dequeue removes
/// exactly one copy of the front item, so across any run of the queue an
/// item is taken no more often than it was accepted.
pub proof fn lemma_exactly_once<T>(backlog: Seq<T>, v: T)
    ensures
        backlog.push(v).to_multiset() == backlog.to_multiset().insert(v),
        backlog.len() > 0 ==> backlog.to_multiset() == backlog.drop_first().to_multiset().insert(
            backlog[0],
        ),
{
    broadcast use vstd::seq_lib::group_to_multiset_ensures;

    if backlog.len() > 0 {
        assert(backlog.drop_first().push(backlog[0]).to_multiset()
            == backlog.drop_first().to_multiset().insert(backlog[0]));
        vstd::seq_lib::lemma_multiset_commutative(backlog.drop_first(), seq![backlog[0]]);
        vstd::seq_lib::lemma_multiset_commutative(seq![backlog[0]], backlog.drop_first());
        assert(backlog.drop_first() + seq![backlog[0]] =~= backlog.drop_first().push(backlog[0]));
        assert(seq![backlog[0]] + backlog.drop_first() =~= backlog);
    }
}

} // verus!
