//! The HTTP request method: the five names the parser knows, plus a catchall
//! that keeps the token as it appeared on the wire. Equality is structural,
//! so `Other` holding the bytes of `GET` is not the `GET` variant.

use vstd::prelude::*;

verus! {

/// A request method. `Other` carries an unrecognised token verbatim.
#[derive(Debug, Clone)]
pub enum Method {
    GET,
    POST,
    PUT,
    DELETE,
    PATCH,
    Other(Vec<u8>),
}

/// The mathematical value of a [`Method`]: the same shape over `Seq<u8>`.
pub enum MethodView {
    GET,
    POST,
    PUT,
    DELETE,
    PATCH,
    Other(Seq<u8>),
}

impl View for Method {
    type V = MethodView;

    open spec fn view(&self) -> MethodView {
        match self {
            Method::GET => MethodView::GET,
            Method::POST => MethodView::POST,
            Method::PUT => MethodView::PUT,
            Method::DELETE => MethodView::DELETE,
            Method::PATCH => MethodView::PATCH,
            Method::Other(t) => MethodView::Other(t@),
        }
    }
}

/// The token bytes of `GET`.
pub open spec fn tok_get() -> Seq<u8> {
    seq![71u8, 69u8, 84u8]
}

/// The token bytes of `PUT`.
pub open spec fn tok_put() -> Seq<u8> {
    seq![80u8, 85u8, 84u8]
}

/// The token bytes of `POST`.
pub open spec fn tok_post() -> Seq<u8> {
    seq![80u8, 79u8, 83u8, 84u8]
}

/// The token bytes of `DELETE`.
pub open spec fn tok_delete() -> Seq<u8> {
    seq![68u8, 69u8, 76u8, 69u8, 84u8, 69u8]
}

/// The token bytes of `PATCH`.
pub open spec fn tok_patch() -> Seq<u8> {
    seq![80u8, 65u8, 84u8, 67u8, 72u8]
}

/// The method a request-line token denotes: one of the five known names, or
/// the token itself under `Other`.
pub open spec fn spec_method_of(t: Seq<u8>) -> MethodView {
    if t == tok_get() {
        MethodView::GET
    } else if t == tok_put() {
        MethodView::PUT
    } else if t == tok_post() {
        MethodView::POST
    } else if t == tok_delete() {
        MethodView::DELETE
    } else if t == tok_patch() {
        MethodView::PATCH
    } else {
        MethodView::Other(t)
    }
}

impl Method {
    /// Reads a request-line token as a method.
    pub fn from_token(token: &[u8]) -> (m: Method)
        ensures
            m@ == spec_method_of(token@),
    {
        let get_tok: Vec<u8> = vec![71u8, 69u8, 84u8];
        let put_tok: Vec<u8> = vec![80u8, 85u8, 84u8];
        let post_tok: Vec<u8> = vec![80u8, 79u8, 83u8, 84u8];
        let delete_tok: Vec<u8> = vec![68u8, 69u8, 76u8, 69u8, 84u8, 69u8];
        let patch_tok: Vec<u8> = vec![80u8, 65u8, 84u8, 67u8, 72u8];
        proof {
            assert(get_tok@ =~= tok_get());
            assert(put_tok@ =~= tok_put());
            assert(post_tok@ =~= tok_post());
            assert(delete_tok@ =~= tok_delete());
            assert(patch_tok@ =~= tok_patch());
        }
        if crate::bytes::bytes_eq(token, get_tok.as_slice()) {
            Method::GET
        } else if crate::bytes::bytes_eq(token, put_tok.as_slice()) {
            Method::PUT
        } else if crate::bytes::bytes_eq(token, post_tok.as_slice()) {
            Method::POST
        } else if crate::bytes::bytes_eq(token, delete_tok.as_slice()) {
            Method::DELETE
        } else if crate::bytes::bytes_eq(token, patch_tok.as_slice()) {
            Method::PATCH
        } else {
            let mut t: Vec<u8> = Vec::new();
            t.extend_from_slice(token);
            proof {
                assert(t@ =~= token@);
            }
            Method::Other(t)
        }
    }

    /// Whether two methods are the same, structurally.
    pub fn same_as(&self, other: &Method) -> (r: bool)
        ensures
            r == (self@ == other@),
    {
        match (self, other) {
            (Method::GET, Method::GET) => true,
            (Method::POST, Method::POST) => true,
            (Method::PUT, Method::PUT) => true,
            (Method::DELETE, Method::DELETE) => true,
            (Method::PATCH, Method::PATCH) => true,
            (Method::Other(a), Method::Other(b)) => crate::bytes::bytes_eq(
                a.as_slice(),
                b.as_slice(),
            ),
            _ => false,
        }
    }
}

impl PartialEq for Method {
    fn eq(&self, other: &Method) -> (r: bool) {
        self.same_as(other)
    }
}

impl Eq for Method {

}

impl vstd::std_specs::cmp::PartialEqSpecImpl for Method {
    open spec fn obeys_eq_spec() -> bool {
        true
    }

    open spec fn eq_spec(&self, other: &Method) -> bool {
        self@ == other@
    }
}

} // verus!
