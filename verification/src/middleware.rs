//! The middleware protocol: each middleware in a chain decides whether the
//! request proceeds, and the first one that does not stops the chain before
//! the endpoint runs.

use vstd::prelude::*;

verus! {

/// One middleware's decision. `R` is the resolution type a failing
/// middleware may answer with.
pub enum Middleware<R> {
    /// Stop, and emit this resolution instead of the endpoint's.
    Invalid(R),
    /// Stop, and emit an empty resolution with this status code.
    InvalidEmpty(i32),
    /// Proceed to the next middleware, or to the endpoint.
    Next,
}

/// The first decision of a chain that is not `Next`, with its position;
/// nothing when every middleware let the request proceed, in which case the
/// endpoint runs.
pub fn first_abort<R>(outcomes: Vec<Middleware<R>>) -> (r: Option<(usize, Middleware<R>)>)
    ensures
        match r {
            None => forall|j: int| 0 <= j < outcomes@.len() ==> outcomes@[j] is Next,
            Some((i, m)) => i < outcomes@.len() && outcomes@[i as int] == m && !(m is Next)
                && forall|j: int| 0 <= j < i ==> outcomes@[j] is Next,
        },
{
    let mut v = outcomes;
    let mut i: usize = 0;
    while i < v.len()
        invariant
            i <= v@.len(),
            v@ == outcomes@,
            forall|j: int| 0 <= j < i ==> v@[j] is Next,
        decreases v@.len() - i,
    {
        let stop = match &v[i] {
            Middleware::Next => false,
            _ => true,
        };
        if stop {
            let m = v.remove(i);
            return Some((i, m));
        }
        i = i + 1;
    }
    None
}

/// The chain a request runs: the global middleware first, then the route's
/// own, each in registration order.
pub fn combined_chain<M>(global: Vec<M>, route_middleware: Option<Vec<M>>) -> (r: Vec<M>)
    ensures
        r@ == global@ + (match route_middleware {
            Some(v) => v@,
            None => Seq::<M>::empty(),
        }),
{
    let mut r = global;
    match route_middleware {
        Some(mut v) => {
            r.append(&mut v);
        },
        None => {
            proof {
                assert(r@ + Seq::<M>::empty() =~= r@);
            }
        },
    }
    r
}

} // verus!
