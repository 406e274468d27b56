//! An endpoint of a route-tree node: the resolution to invoke, preceded by
//! an optional middleware chain.

use vstd::prelude::*;

verus! {

/// What a `(path, method)` pair resolves to: a resolution value `R`, run
/// after an optional chain of middleware values `M`.
pub struct EndPoint<R, M> {
    /// The middleware checked before the resolution runs.
    pub middleware: Option<Vec<M>>,
    /// The resolution invoked once the middleware has passed.
    pub resolution: R,
}

impl<R, M> EndPoint<R, M> {
    /// Pairs a resolution with its middleware chain.
    pub fn new(resolution: R, middleware: Option<Vec<M>>) -> (r: Self)
        ensures
            r == (EndPoint { middleware, resolution }),
    {
        EndPoint { middleware, resolution }
    }
}

} // verus!
