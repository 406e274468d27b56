//! Redirect resolutions: a redirect kind picks the status code, and all but
//! `NotModified` carry the target URL in a `Location` header.

use vstd::prelude::*;
use vstd::string::StringSliceAdditionalSpecFns;

use crate::resolution::{get_status_header, http11_name, spec_status_text, Header, Resolution};

verus! {

/// A redirect target URL.
pub type Location = &'static str;

/// The redirection kinds, each mapping to one `3xx` status code.
pub enum RedirectType {
    /// The URL has several possible responses. Not yet implemented: it needs
    /// a structure naming the alternatives.
    MultipleChoices,
    /// The resource moved permanently.
    MovedPermanently(Location),
    /// The resource was found elsewhere temporarily.
    Found(Location),
    /// The browser should redirect to the URL in the `Location` header.
    SeeOther(Location),
    /// The page has not changed since the date the browser asked about.
    NotModified,
    /// The URL moved temporarily.
    TemporaryRedirect(Location),
    /// The URL moved permanently.
    PermanentRedirect(Location),
}

impl RedirectType {
    /// The status code of this redirection kind.
    pub fn status(&self) -> (r: i32)
        ensures
            r == (match self {
                RedirectType::MultipleChoices => 300int,
                RedirectType::MovedPermanently(_) => 301int,
                RedirectType::Found(_) => 302int,
                RedirectType::SeeOther(_) => 303int,
                RedirectType::NotModified => 304int,
                RedirectType::TemporaryRedirect(_) => 307int,
                RedirectType::PermanentRedirect(_) => 308int,
            }),
    {
        match self {
            RedirectType::MultipleChoices => 300,
            RedirectType::MovedPermanently(_) => 301,
            RedirectType::Found(_) => 302,
            RedirectType::SeeOther(_) => 303,
            RedirectType::NotModified => 304,
            RedirectType::TemporaryRedirect(_) => 307,
            RedirectType::PermanentRedirect(_) => 308,
        }
    }

    /// How many headers the kind adds beyond the status header: one for the
    /// `Location`, none for `NotModified`. The count for `MultipleChoices`
    /// is not implemented, so that kind is excluded here.
    pub fn size(&self) -> (r: usize)
        requires
            !(self matches RedirectType::MultipleChoices),
        ensures
            r == (match self {
                RedirectType::NotModified => 0int,
                _ => 1int,
            }),
    {
        match self {
            RedirectType::NotModified => 0,
            _ => 1,
        }
    }
}

/// The URL of a redirect kind that carries one.
pub open spec fn spec_location(t: RedirectType) -> Option<Seq<u8>> {
    match t {
        RedirectType::MovedPermanently(url) => Some(url.spec_bytes()),
        RedirectType::Found(url) => Some(url.spec_bytes()),
        RedirectType::SeeOther(url) => Some(url.spec_bytes()),
        RedirectType::TemporaryRedirect(url) => Some(url.spec_bytes()),
        RedirectType::PermanentRedirect(url) => Some(url.spec_bytes()),
        RedirectType::MultipleChoices => None,
        RedirectType::NotModified => None,
    }
}

/// The header name `Location`.
pub open spec fn location_name() -> Seq<u8> {
    seq![76u8, 111u8, 99u8, 97u8, 116u8, 105u8, 111u8, 110u8]
}

/// The `Location` header for a target URL.
pub fn location_header(url: Location) -> (r: Header)
    ensures
        r.0@ == location_name(),
        (r.1 matches Some(v) && v@ == url.spec_bytes()),
{
    let name: Vec<u8> = vec![76u8, 111u8, 99u8, 97u8, 116u8, 105u8, 111u8, 110u8];
    proof {
        assert(name@ =~= location_name());
    }
    let value: Vec<u8> = vstd::slice::slice_to_vec(url.as_bytes());
    (name, Some(value))
}

/// A redirect response: an empty body under a `3xx` status, with the target
/// in a `Location` header.
pub struct Redirect {
    pub redirect_header_type: RedirectType,
}

impl Redirect {
    /// A redirect response of the given kind.
    pub fn new(redirect_type: RedirectType) -> (r: Self)
        ensures
            r.redirect_header_type == redirect_type,
    {
        Redirect { redirect_header_type: redirect_type }
    }

    /// The status header for the kind's code, then the `Location` header for
    /// kinds that carry a URL. `MultipleChoices` is excluded: its extra
    /// headers are not implemented.
    pub fn get_headers(&self) -> (r: Vec<Header>)
        requires
            !(self.redirect_header_type matches RedirectType::MultipleChoices),
        ensures
            r@.len() >= 1,
            r@[0].0@ == http11_name(),
            (r@[0].1 matches Some(v) && v@ == spec_status_text(
                match self.redirect_header_type {
                    RedirectType::MultipleChoices => 300int,
                    RedirectType::MovedPermanently(_) => 301int,
                    RedirectType::Found(_) => 302int,
                    RedirectType::SeeOther(_) => 303int,
                    RedirectType::NotModified => 304int,
                    RedirectType::TemporaryRedirect(_) => 307int,
                    RedirectType::PermanentRedirect(_) => 308int,
                },
            )),
            match spec_location(self.redirect_header_type) {
                Some(url) => r@.len() == 2 && r@[1].0@ == location_name() && (r@[1].1
                    matches Some(v) && v@ == url),
                None => r@.len() == 1,
            },
    {
        let mut r: Vec<Header> = Vec::new();
        r.push(get_status_header(self.redirect_header_type.status()));
        match &self.redirect_header_type {
            RedirectType::MovedPermanently(url) => r.push(location_header(url)),
            RedirectType::Found(url) => r.push(location_header(url)),
            RedirectType::SeeOther(url) => r.push(location_header(url)),
            RedirectType::TemporaryRedirect(url) => r.push(location_header(url)),
            RedirectType::PermanentRedirect(url) => r.push(location_header(url)),
            RedirectType::MultipleChoices => {
            },
            RedirectType::NotModified => {
            },
        }
        r
    }

    /// A redirect has no body.
    pub fn get_content(&self) -> (r: Vec<Vec<u8>>)
        ensures
            r@ == Seq::<Vec<u8>>::empty(),
    {
        crate::resolution::empty_content()
    }
}

} // verus!
