//! One worker's lifecycle. The driver task that dequeues futures, awaits
//! them and sends their results lives in the async shell; this core decides
//! every start and close transition and the error each one owes.

use vstd::prelude::*;

use crate::errors::{WorkerError, WorkerErrorType};

verus! {

/// A worker's lifecycle state: whether its driver task was ever started,
/// and whether it was closed.
pub struct Worker {
    /// The driver task has been spawned.
    pub started: bool,
    /// The close flag has been set; the driver exits at its next dequeue.
    pub closed: bool,
}

impl Worker {
    /// An idle worker: no task yet, not closed.
    pub fn new() -> (r: Self)
        ensures
            !r.started,
            !r.closed,
    {
        Worker { started: false, closed: false }
    }

    /// Starts the driver task once; a second start fails with
    /// `AlreadyRunning` and changes nothing.
    pub fn start_worker(&mut self) -> (r: Result<(), WorkerError>)
        ensures
            old(self).started ==> (r matches Err(e) && e.err_type
                == WorkerErrorType::AlreadyRunning) && *final(self) == *old(self),
            !old(self).started ==> (r is Ok) && final(self).started && final(self).closed == old(
                self,
            ).closed,
    {
        if self.started {
            return Err(WorkerError::new(WorkerErrorType::AlreadyRunning));
        }
        self.started = true;
        Ok(())
    }

    /// Closes the worker: before any start it fails with `NoTaskRunning`, a
    /// second close fails with `AlreadyClosed`; otherwise the close flag is
    /// set and the driver is joined, `join_ok` reporting whether the join
    /// succeeded, a failure surfacing as `TaskJoinFailure`.
    pub fn close(&mut self, join_ok: bool) -> (r: Result<(), WorkerError>)
        ensures
            !old(self).started ==> (r matches Err(e) && e.err_type
                == WorkerErrorType::NoTaskRunning) && *final(self) == *old(self),
            old(self).started && old(self).closed ==> (r matches Err(e) && e.err_type
                == WorkerErrorType::AlreadyClosed) && *final(self) == *old(self),
            old(self).started && !old(self).closed ==> final(self).closed && final(self).started
                && (join_ok ==> r is Ok) && (!join_ok ==> (r matches Err(e) && e.err_type
                == WorkerErrorType::TaskJoinFailure)),
    {
        if !self.started {
            return Err(WorkerError::new(WorkerErrorType::NoTaskRunning));
        }
        if self.closed {
            return Err(WorkerError::new(WorkerErrorType::AlreadyClosed));
        }
        self.closed = true;
        if join_ok {
            Ok(())
        } else {
            Err(WorkerError::new(WorkerErrorType::TaskJoinFailure))
        }
    }
}

} // verus!
