//! The worker pool: a set of workers sharing one work queue. Backpressure
//! on enqueue is answered by multiplying the pool size, so the accept loop
//! never drops a connection.

use vstd::prelude::*;

use crate::queue::{Queue, QueueState};
use crate::worker::Worker;

verus! {

/// A pool of workers and the queue they drain. A started worker that found
/// the backlog empty is counted among the queue's waiters.
pub struct WorkManager<T> {
    /// The workers, in creation order.
    pub workers: Vec<Worker>,
    /// The queue of work the workers pull from.
    pub work: Queue<T>,
}

impl<T> WorkManager<T> {
    /// Every worker has been started.
    pub open spec fn all_started(&self) -> bool {
        forall|k: int|
            0 <= k < self.workers@.len() ==> (#[trigger] self.workers@[k]).started
    }

    /// A pool of `init_size` workers, each started and waiting on the still
    /// empty queue.
    pub fn new(init_size: usize) -> (r: Self)
        ensures
            r.workers@.len() == init_size,
            r.all_started(),
            forall|k: int| 0 <= k < init_size ==> !(#[trigger] r.workers@[k]).closed,
            r.work.work@ == Seq::<T>::empty(),
            r.work.waiters == init_size,
    {
        let mut workers: Vec<Worker> = Vec::new();
        let mut i: usize = 0;
        while i < init_size
            invariant
                i <= init_size,
                workers@.len() == i,
                forall|k: int|
                    0 <= k < i ==> (#[trigger] workers@[k]).started && !workers@[k].closed,
            decreases init_size - i,
        {
            let mut w = Worker::new();
            let started = w.start_worker();
            workers.push(w);
            i = i + 1;
        }
        let mut work: Queue<T> = Queue::new();
        work.waiters = init_size;
        WorkManager { workers, work }
    }

    /// How many workers the pool holds.
    pub fn size(&self) -> (r: usize)
        ensures
            r == self.workers@.len(),
    {
        self.workers.len()
    }

    /// How many workers the pool holds.
    pub fn worker_count(&self) -> (r: usize)
        ensures
            r == self.workers@.len(),
    {
        self.workers.len()
    }

    /// The queue the workers drain.
    pub fn get_queue(&self) -> (r: &Queue<T>)
        ensures
            r == &self.work,
    {
        &self.work
    }

    /// Hands `work` to the queue: `Free` when a waiting worker picked it up,
    /// `Blocked` returning the very value when none was waiting, so the
    /// caller may scale and retry.
    pub fn queue_work(&mut self, work: T) -> (r: QueueState<T>)
        ensures
            final(self).workers == old(self).workers,
            old(self).work.waiters > 0 ==> (r is Free) && final(self).work.work@ == old(
                self,
            ).work.work@.push(work) && final(self).work.waiters == old(self).work.waiters - 1,
            old(self).work.waiters == 0 ==> r == QueueState::Blocked(work) && *final(self)
                == *old(self),
    {
        self.work.queue(work)
    }

    /// Grows the pool to `scale_factor` times its size, starting each new
    /// worker; the newcomers find the backlog empty or not, but each begins
    /// by waiting on the queue.
    pub fn scale_workers(&mut self, scale_factor: usize)
        requires
            scale_factor >= 1,
            old(self).workers@.len() * scale_factor <= usize::MAX,
            old(self).work.waiters + old(self).workers@.len() * scale_factor <= usize::MAX,
        ensures
            final(self).workers@.len() == old(self).workers@.len() * scale_factor,
            forall|k: int|
                0 <= k < old(self).workers@.len() ==> final(self).workers@[k] == old(
                    self,
                ).workers@[k],
            forall|k: int|
                old(self).workers@.len() <= k < final(self).workers@.len() ==> (
                #[trigger] final(self).workers@[k]).started && !final(self).workers@[k].closed,
            final(self).work.work@ == old(self).work.work@,
            final(self).work.waiters == old(self).work.waiters + (final(self).workers@.len()
                - old(self).workers@.len()),
    {
        let current_size = self.workers.len();
        proof {
            assert(current_size <= current_size * scale_factor) by (nonlinear_arith)
                requires
                    scale_factor >= 1,
                    current_size >= 0,
            ;
        }
        let new_size = current_size * scale_factor;
        let mut added: usize = 0;
        while added < new_size - current_size
            invariant
                current_size == old(self).workers@.len(),
                new_size == current_size * scale_factor,
                current_size <= new_size,
                added <= new_size - current_size,
                self.workers@.len() == current_size + added,
                self.work.work@ == old(self).work.work@,
                self.work.waiters == old(self).work.waiters + added,
                old(self).work.waiters + new_size <= usize::MAX,
                forall|k: int|
                    0 <= k < current_size ==> self.workers@[k] == old(self).workers@[k],
                forall|k: int|
                    current_size <= k < self.workers@.len() ==> (
                    #[trigger] self.workers@[k]).started && !self.workers@[k].closed,
            decreases new_size - current_size - added,
        {
            let mut w = Worker::new();
            let started = w.start_worker();
            self.workers.push(w);
            self.work.waiters = self.work.waiters + 1;
            added = added + 1;
        }
        proof {
            assert(self.workers@.len() == new_size);
        }
    }

    /// Closes every worker and awaits its driver; errors of individual
    /// workers are not propagated. Waiting workers observe their close flag
    /// and stop, so no waiter remains.
    pub fn close_and_finish_work(&mut self)
        ensures
            final(self).workers@.len() == old(self).workers@.len(),
            forall|k: int|
                0 <= k < old(self).workers@.len() ==> (#[trigger] final(self).workers@[k]).started
                    == old(self).workers@[k].started && final(self).workers@[k].closed == (old(
                    self,
                ).workers@[k].closed || old(self).workers@[k].started),
            final(self).work.work@ == old(self).work.work@,
            final(self).work.waiters == 0,
    {
        let mut i: usize = 0;
        while i < self.workers.len()
            invariant
                i <= self.workers@.len(),
                self.workers@.len() == old(self).workers@.len(),
                self.work == old(self).work,
                forall|k: int|
                    i <= k < self.workers@.len() ==> self.workers@[k] == old(self).workers@[k],
                forall|k: int|
                    0 <= k < i ==> (#[trigger] self.workers@[k]).started == old(
                        self,
                    ).workers@[k].started && self.workers@[k].closed == (old(
                        self,
                    ).workers@[k].closed || old(self).workers@[k].started),
            decreases self.workers@.len() - i,
        {
            let closed = self.workers[i].close(true);
            i = i + 1;
        }
        self.work.waiters = 0;
    }

    /// The backpressure protocol of the accept loop: submit the work; when
    /// no worker was waiting, multiply the pool by `scale_factor` and submit
    /// the very same value again, which a fresh worker now awaits. The work
    /// is accepted exactly once either way.
    pub fn queue_work_scaling(&mut self, work: T, scale_factor: usize) -> (grew: bool)
        requires
            scale_factor >= 2,
            old(self).workers@.len() >= 1,
            old(self).workers@.len() * scale_factor <= usize::MAX,
            old(self).work.waiters + old(self).workers@.len() * scale_factor <= usize::MAX,
        ensures
            final(self).work.work@ == old(self).work.work@.push(work),
            old(self).work.waiters > 0 ==> !grew && final(self).workers == old(self).workers,
            old(self).work.waiters == 0 ==> grew && final(self).workers@.len() == old(
                self,
            ).workers@.len() * scale_factor,
    {
        match self.queue_work(work) {
            QueueState::Free => false,
            QueueState::Blocked(work) => {
                self.scale_workers(scale_factor);
                proof {
                    let n = old(self).workers@.len();
                    assert(n * scale_factor >= n * 2) by (nonlinear_arith)
                        requires
                            scale_factor >= 2,
                            n >= 0,
                    ;
                    assert(n * 2 == n + n);
                }
                match self.queue_work(work) {
                    QueueState::Free => true,
                    QueueState::Blocked(_) => {
                        proof {
                            assert(false);
                        }
                        true
                    },
                }
            },
        }
    }
}

} // verus!
