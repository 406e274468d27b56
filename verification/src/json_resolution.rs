//! A resolution carrying an already serialized JSON document.

use vstd::prelude::*;
use vstd::string::StringSliceAdditionalSpecFns;

use crate::resolution::{get_status_header, http11_name, spec_status_text, Header, Resolution};

verus! {

/// The header name `Content-Type`.
pub open spec fn content_type_name() -> Seq<u8> {
    seq![67u8, 111u8, 110u8, 116u8, 101u8, 110u8, 116u8, 45u8, 84u8, 121u8, 112u8, 101u8]
}

/// The JSON media type.
pub open spec fn json_content_type() -> Seq<u8> {
    seq![97u8, 112u8, 112u8, 108u8, 105u8, 99u8, 97u8, 116u8, 105u8, 111u8, 110u8, 47u8, 106u8, 115u8, 111u8, 110u8]
}

/// A response whose body is a JSON document, serialized by the caller.
pub struct JsonResolution {
    pub json_value: String,
    pub status_code: i32,
}

impl JsonResolution {
    /// Wraps a serialized JSON document with an initial `200` status.
    pub fn new(json_value: String) -> (r: Self)
        ensures
            r.json_value@ == json_value@,
            r.status_code == 200,
    {
        JsonResolution { json_value, status_code: 200 }
    }

    /// Sets the status code of the resolution.
    pub fn set_status(&mut self, status_code: i32)
        ensures
            final(self).status_code == status_code,
            final(self).json_value == old(self).json_value,
    {
        self.status_code = status_code;
    }

    /// The resolution itself, handed over for serving.
    pub fn into_resolution(self) -> (r: JsonResolution)
        ensures
            r == self,
    {
        self
    }
}

impl Resolution for JsonResolution {
    /// The status header, then `Content-Type: application/json`.
    fn get_headers(&self) -> (r: Vec<Header>)
        ensures
            r@.len() == 2,
            r@[0].0@ == http11_name(),
            (r@[0].1 matches Some(v) && v@ == spec_status_text(self.status_code as int)),
            r@[1].0@ == content_type_name(),
            (r@[1].1 matches Some(v) && v@ == json_content_type()),
    {
        let mut r: Vec<Header> = Vec::new();
        r.push(get_status_header(self.status_code));
        let name: Vec<u8> = vec![67u8, 111u8, 110u8, 116u8, 101u8, 110u8, 116u8, 45u8, 84u8, 121u8, 112u8, 101u8];
        let value: Vec<u8> = vec![97u8, 112u8, 112u8, 108u8, 105u8, 99u8, 97u8, 116u8, 105u8, 111u8, 110u8, 47u8, 106u8, 115u8, 111u8, 110u8];
        proof {
            assert(name@ =~= content_type_name());
            assert(value@ =~= json_content_type());
        }
        r.push((name, Some(value)));
        r
    }

    /// One chunk: the document's bytes.
    fn get_content(&self) -> (r: Vec<Vec<u8>>)
        ensures
            r@.len() == 1,
            r@[0]@ == vstd::utf8::encode_utf8(self.json_value@),
    {
        let mut r: Vec<Vec<u8>> = Vec::new();
        r.push(vstd::slice::slice_to_vec(self.json_value.as_str().as_bytes()));
        r
    }
}

} // verus!
