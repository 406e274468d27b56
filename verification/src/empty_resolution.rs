//! The simplest resolution: a status code and an empty body.

use vstd::prelude::*;

use crate::resolution::{get_status_header, http11_name, spec_status_text, Header, Resolution};

verus! {

/// A response with a status code and no body.
pub struct EmptyResolution {
    pub status_code: i32,
}

impl EmptyResolution {
    /// An empty response with the given status code.
    pub fn new(status_code: i32) -> (r: Self)
        ensures
            r.status_code == status_code,
    {
        EmptyResolution { status_code }
    }
}

impl Resolution for EmptyResolution {
    /// Only the reserved status header.
    fn get_headers(&self) -> (r: Vec<Header>)
        ensures
            r@.len() == 1,
            r@[0].0@ == http11_name(),
            (r@[0].1 matches Some(v) && v@ == spec_status_text(self.status_code as int)),
    {
        let mut r: Vec<Header> = Vec::new();
        r.push(get_status_header(self.status_code));
        r
    }

    /// No chunks at all.
    fn get_content(&self) -> (r: Vec<Vec<u8>>)
        ensures
            r@ == Seq::<Vec<u8>>::empty(),
    {
        crate::resolution::empty_content()
    }
}

} // verus!
