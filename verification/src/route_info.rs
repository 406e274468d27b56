//! A route's registration summary: the path and the method it was added
//! under.

use vstd::prelude::*;

use crate::method::Method;

verus! {

/// The path and method a route was registered with.
pub struct RouteInfo {
    /// The path as registered.
    pub route: Vec<u8>,
    /// The method the endpoint answers.
    pub method: Method,
}

} // verus!
