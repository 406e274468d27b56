//! The error taxonomy: routing errors returned from registration and lookup,
//! worker lifecycle errors, application state used as an error value, and
//! resolution failures.

use vstd::prelude::*;

verus! {

/// What went wrong inside the routing tree.
#[derive(Debug)]
pub enum RoutingErrorType {
    /// A strict add found the `(path, method)` pair already present.
    Exist,
    /// A looked-up path does not exist.
    Missing,
    /// An add on the root carried no endpoint.
    MethodMissing,
    /// A structurally invalid path, with the reason.
    InvalidRoute(String),
    /// No route matched and no missing-route handler is registered.
    NoRouteExist,
}

/// An error from the routing tree.
#[derive(Debug)]
pub struct RoutingError {
    pub error_type: RoutingErrorType,
}

impl RoutingError {
    /// Wraps an error type.
    pub fn new(e_type: RoutingErrorType) -> (r: Self)
        ensures
            r.error_type == e_type,
    {
        RoutingError { error_type: e_type }
    }

    /// A human-readable description of the error.
    pub fn get_error_str(&self) -> (r: String)
        ensures
            self.error_type matches RoutingErrorType::Exist ==> r@
                == "the route already exist"@,
            self.error_type matches RoutingErrorType::Missing ==> r@
                == "the route does not exist"@,
            self.error_type matches RoutingErrorType::MethodMissing ==> r@
                == "the route exist, however the requested method for the route does not."@,
            self.error_type matches RoutingErrorType::InvalidRoute(reason) ==> r@
                == "the route provided was invalid because "@ + reason@,
            self.error_type matches RoutingErrorType::NoRouteExist ==> r@
                == "no route exist for the request and no missing route is set"@,
    {
        match &self.error_type {
            RoutingErrorType::Exist => "the route already exist".to_owned(),
            RoutingErrorType::Missing => "the route does not exist".to_owned(),
            RoutingErrorType::MethodMissing => {
                "the route exist, however the requested method for the route does not.".to_owned()
            },
            RoutingErrorType::InvalidRoute(reason) => {
                let head = "the route provided was invalid because ".to_owned();
                vstd::string::StringExecFns::concat(head, reason.as_str())
            },
            RoutingErrorType::NoRouteExist => {
                "no route exist for the request and no missing route is set".to_owned()
            },
        }
    }
}

/// What went wrong while starting or stopping a worker.
#[derive(Debug, PartialEq, Eq, Structural, Clone, Copy)]
pub enum WorkerErrorType {
    /// `start` was called on a worker whose task already runs.
    AlreadyRunning,
    /// `close` was called on a worker that was closed before.
    AlreadyClosed,
    /// `close` was called before any task was started.
    NoTaskRunning,
    /// The worker's driver task could not be joined.
    TaskJoinFailure,
}

/// An error from a worker.
#[derive(Debug)]
pub struct WorkerError {
    pub err_type: WorkerErrorType,
}

impl WorkerError {
    /// Wraps an error type.
    pub fn new(err_type: WorkerErrorType) -> (r: Self)
        ensures
            r.err_type == err_type,
    {
        WorkerError { err_type }
    }

    /// A human-readable description of the error.
    pub fn get_error_str(&self) -> (r: String)
        ensures
            self.err_type == WorkerErrorType::AlreadyRunning ==> r@
                == "the worker was already running"@,
            self.err_type == WorkerErrorType::AlreadyClosed ==> r@
                == "the worker was already closed"@,
            self.err_type == WorkerErrorType::NoTaskRunning ==> r@
                == "the worker has no running task"@,
            self.err_type == WorkerErrorType::TaskJoinFailure ==> r@
                == "the worker task could not be joined"@,
    {
        match self.err_type {
            WorkerErrorType::AlreadyRunning => "the worker was already running".to_owned(),
            WorkerErrorType::AlreadyClosed => "the worker was already closed".to_owned(),
            WorkerErrorType::NoTaskRunning => "the worker has no running task".to_owned(),
            WorkerErrorType::TaskJoinFailure => "the worker task could not be joined".to_owned(),
        }
    }
}

/// The application's lifecycle state; also returned as an error value when a
/// call finds the application in the wrong state.
#[derive(Debug, PartialEq, Eq, Structural, Clone, Copy)]
pub enum AppState {
    /// The accept loop is running.
    Running,
    /// The application is closed, or not yet started.
    Closed,
}

/// A failure while producing or emitting a resolution.
#[derive(Debug)]
pub enum ResolutionError {
    /// The resolution could not be produced, with the reason.
    CouldNotResolve(String),
    /// Any other failure, with the reason.
    Other(String),
}

impl ResolutionError {
    /// A human-readable description of the error.
    pub fn get_error_str(&self) -> (r: String)
        ensures
            self matches ResolutionError::CouldNotResolve(reason) ==> r@ == reason@,
            self matches ResolutionError::Other(reason) ==> r@ == reason@,
    {
        match self {
            ResolutionError::CouldNotResolve(reason) => reason.clone(),
            ResolutionError::Other(reason) => reason.clone(),
        }
    }
}

} // verus!
