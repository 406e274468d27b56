//! The application core: the router, the global middleware list, the worker
//! scale factor, and the lifecycle from constructed to running to closed.
//! The socket, the accept loop and the spawned tasks live outside this
//! crate; they consult this state and call these registration functions.

use vstd::prelude::*;

use crate::endpoint::EndPoint;
use crate::errors::{AppState, RoutingError, RoutingErrorType};
use crate::method::Method;
use crate::route_tree::{add_route_post, spec_endpoint_of, wild_id, RouteTree};
use crate::segments::spec_segments;

verus! {

/// The default multiplicative growth applied to the worker pool when the
/// work queue signals backpressure.
pub const DEFAULT_WORKER_SCALE_FACTOR: usize = 10;

/// A strict add at `route` under `method` succeeds on this tree: the path is
/// well-formed and the `(path, method)` pair is not taken.
pub open spec fn strict_add_ok<E>(t: RouteTree<E>, route: Seq<u8>, method: Method) -> bool {
    let segs = spec_segments(route);
    &&& route.len() > 0
    &&& !(exists|j: int| 0 <= j < segs.len() - 1 && segs[j] == wild_id())
    &&& match t.spec_lookup(segs) {
        Some(n) => spec_endpoint_of(t.nodes@[n].endpoints@, method@) is None,
        None => true,
    }
}

/// The application core. `R` is the resolution value attached to an
/// endpoint; `M` is a middleware value.
pub struct App<R, M> {
    /// The routing tree.
    pub router: RouteTree<EndPoint<R, M>>,
    /// Middleware run for every request, before the route's own.
    pub global_middleware: Vec<M>,
    /// The growth factor applied when the work queue signals backpressure.
    pub worker_scale_factor: usize,
    /// Whether the accept-loop driver has been started.
    pub has_driver: bool,
    /// Whether the listener is still held, i.e. `start` has not consumed it.
    pub has_listener: bool,
}

impl<R, M> App<R, M> {
    /// A freshly bound application: an empty router, no global middleware,
    /// the default scale factor, the listener held and no driver yet.
    pub fn new() -> (r: Self)
        ensures
            r.router.wf(),
            r.router.nodes@.len() == 1,
            r.router.missing_route is None,
            r.global_middleware@ == Seq::<M>::empty(),
            r.worker_scale_factor == DEFAULT_WORKER_SCALE_FACTOR,
            !r.has_driver,
            r.has_listener,
    {
        App {
            router: RouteTree::new(None),
            global_middleware: Vec::new(),
            worker_scale_factor: DEFAULT_WORKER_SCALE_FACTOR,
            has_driver: false,
            has_listener: true,
        }
    }

    /// Appends middleware run for every request.
    pub fn use_middleware(&mut self, closure: M)
        ensures
            final(self).global_middleware@ == old(self).global_middleware@.push(closure),
            final(self).router == old(self).router,
            final(self).has_driver == old(self).has_driver,
            final(self).has_listener == old(self).has_listener,
            final(self).worker_scale_factor == old(self).worker_scale_factor,
    {
        self.global_middleware.push(closure);
    }

    /// The routing tree, for inspection.
    pub fn get_router(&self) -> (r: &RouteTree<EndPoint<R, M>>)
        ensures
            r == &self.router,
    {
        &self.router
    }

    /// Starts the accept loop once: fails with `Running` while a driver
    /// runs, and with `Closed` when the listener is gone because the
    /// application ran before.
    pub fn start(&mut self) -> (r: Result<AppState, AppState>)
        ensures
            old(self).has_driver ==> (r matches Err(s) && s == AppState::Running)
                && *final(self) == *old(self),
            !old(self).has_driver && !old(self).has_listener ==> (r matches Err(s) && s
                == AppState::Closed) && *final(self) == *old(self),
            !old(self).has_driver && old(self).has_listener ==> (r matches Ok(s) && s
                == AppState::Running) && final(self).has_driver && !final(self).has_listener,
            final(self).router == old(self).router,
            final(self).global_middleware == old(self).global_middleware,
            final(self).worker_scale_factor == old(self).worker_scale_factor,
    {
        if self.has_driver {
            return Err(AppState::Running);
        }
        if !self.has_listener {
            return Err(AppState::Closed);
        }
        self.has_driver = true;
        self.has_listener = false;
        Ok(AppState::Running)
    }

    /// Stops accepting connections: fails with `Closed` when nothing runs,
    /// so a second close reports "already closed".
    pub fn close(&mut self) -> (r: Result<AppState, AppState>)
        ensures
            !old(self).has_driver ==> (r matches Err(s) && s == AppState::Closed)
                && *final(self) == *old(self),
            old(self).has_driver ==> (r matches Ok(s) && s == AppState::Closed)
                && !final(self).has_driver,
            final(self).router == old(self).router,
            final(self).global_middleware == old(self).global_middleware,
            final(self).has_listener == old(self).has_listener,
            final(self).worker_scale_factor == old(self).worker_scale_factor,
    {
        if !self.has_driver {
            return Err(AppState::Closed);
        }
        self.has_driver = false;
        Ok(AppState::Closed)
    }

    /// The lifecycle state: `Running` while the driver runs, else `Closed`.
    pub fn state(&self) -> (r: AppState)
        ensures
            r == (if self.has_driver {
                AppState::Running
            } else {
                AppState::Closed
            }),
    {
        if self.has_driver {
            AppState::Running
        } else {
            AppState::Closed
        }
    }

    /// Adds a route strictly: an existing `(path, method)` pair fails with
    /// `Exist` and changes nothing; otherwise the endpoint is attached as by
    /// [`RouteTree::add_route`].
    pub fn add_route(&mut self, route: &[u8], method: Method, middleware: Option<Vec<M>>, resolution: R) -> (r: Result<(), RoutingError>)
        requires
            old(self).router.wf(),
            old(self).router.nodes@.len() + spec_segments(route@).len() <= usize::MAX,
        ensures
            final(self).router.wf(),
            final(self).global_middleware == old(self).global_middleware,
            final(self).has_driver == old(self).has_driver,
            final(self).has_listener == old(self).has_listener,
            final(self).worker_scale_factor == old(self).worker_scale_factor,
            final(self).router.missing_route == old(self).router.missing_route,
            ({
                let segs = spec_segments(route@);
                let taken = match old(self).router.spec_lookup(segs) {
                    Some(n) => spec_endpoint_of(
                        old(self).router.nodes@[n].endpoints@,
                        method@,
                    ) is Some,
                    None => false,
                };
                if taken {
                    &&& (r matches Err(e) && e.error_type matches RoutingErrorType::Exist)
                    &&& *final(self) == *old(self)
                } else {
                    add_route_post(
                        old(self).router,
                        final(self).router,
                        route@,
                        Some((method, (EndPoint { middleware, resolution }))),
                        r,
                    )
                }
            }),
    {
        let taken = match self.router.get_route(route) {
            Some(t) => {
                proof {
                    self.router.lemma_lookup_in_range(0, spec_segments(route@));
                }
                match self.router.nodes[t].get_resolution(&method) {
                    Some(_) => true,
                    None => false,
                }
            },
            None => false,
        };
        if taken {
            return Err(RoutingError::new(RoutingErrorType::Exist));
        }
        let endpoint = EndPoint::new(resolution, middleware);
        self.router.add_route(route, Some((method, endpoint)))
    }

    /// Adds a route, overwriting the endpoint when the `(path, method)` pair
    /// already exists.
    pub fn add_or_change_route(&mut self, route: &[u8], method: Method, middleware: Option<Vec<M>>, resolution: R) -> (r: Result<(), RoutingError>)
        requires
            old(self).router.wf(),
            old(self).router.nodes@.len() + spec_segments(route@).len() <= usize::MAX,
        ensures
            final(self).router.wf(),
            final(self).global_middleware == old(self).global_middleware,
            final(self).has_driver == old(self).has_driver,
            final(self).has_listener == old(self).has_listener,
            final(self).worker_scale_factor == old(self).worker_scale_factor,
            final(self).router.missing_route == old(self).router.missing_route,
            add_route_post(
                old(self).router,
                final(self).router,
                route@,
                Some((method, (EndPoint { middleware, resolution }))),
                r,
            ),
    {
        let endpoint = EndPoint::new(resolution, middleware);
        self.router.add_route(route, Some((method, endpoint)))
    }

    /// Adds a route during startup, where the caller has arranged that the
    /// add cannot fail; a failure at this stage would be fatal.
    pub fn add_or_panic(&mut self, route: &[u8], method: Method, middleware: Option<Vec<M>>, resolution: R)
        requires
            old(self).router.wf(),
            old(self).router.nodes@.len() + spec_segments(route@).len() <= usize::MAX,
            strict_add_ok(old(self).router, route@, method),
        ensures
            final(self).router.wf(),
            final(self).global_middleware == old(self).global_middleware,
            add_route_post(
                old(self).router,
                final(self).router,
                route@,
                Some((method, (EndPoint { middleware, resolution }))),
                Ok(()),
            ),
    {
        let r = self.add_route(route, method, middleware, resolution);
        match r {
            Ok(()) => {
            },
            Err(_) => {
                proof {
                    assert(false);
                }
            },
        }
    }
}

/// A sample record served by the demonstration program built around the
/// library.
pub struct Person {
    pub name: String,
    pub age: i32,
}

} // verus!
