//! The resolution interface: an abstract response made of named headers in
//! insertion order and a finite sequence of body chunks. The reserved header
//! named `HTTP/1.1` carries the status line suffix, such as `200 OK`.

use vstd::prelude::*;

use crate::bytes::{spec_decimal, encode_decimal};

verus! {

/// A header: a name and an optional value.
pub type Header = (Vec<u8>, Option<Vec<u8>>);

/// An abstract response: headers in insertion order, and the body as a
/// finite sequence of byte chunks. The emitter turns these into a chunked
/// HTTP/1.1 response.
pub trait Resolution {
    /// The headers, in insertion order. The reserved name `HTTP/1.1` carries
    /// the status line suffix.
    fn get_headers(&self) -> Vec<Header>;

    /// The body, as a sequence of byte chunks.
    fn get_content(&self) -> Vec<Vec<u8>>;
}

/// The reserved header name `HTTP/1.1`.
pub open spec fn http11_name() -> Seq<u8> {
    seq![72u8, 84u8, 84u8, 80u8, 47u8, 49u8, 46u8, 49u8]
}

/// The reason phrase for the status codes this crate writes itself; others
/// get none.
pub open spec fn spec_reason(code: int) -> Seq<u8> {
    if code == 200 {
        seq![79u8, 75u8]
    } else if code == 300 {
        seq![77u8, 117u8, 108u8, 116u8, 105u8, 112u8, 108u8, 101u8, 32u8, 67u8, 104u8, 111u8, 105u8, 99u8, 101u8, 115u8]
    } else if code == 301 {
        seq![77u8, 111u8, 118u8, 101u8, 100u8, 32u8, 80u8, 101u8, 114u8, 109u8, 97u8, 110u8, 101u8, 110u8, 116u8, 108u8, 121u8]
    } else if code == 302 {
        seq![70u8, 111u8, 117u8, 110u8, 100u8]
    } else if code == 303 {
        seq![83u8, 101u8, 101u8, 32u8, 79u8, 116u8, 104u8, 101u8, 114u8]
    } else if code == 304 {
        seq![78u8, 111u8, 116u8, 32u8, 77u8, 111u8, 100u8, 105u8, 102u8, 105u8, 101u8, 100u8]
    } else if code == 307 {
        seq![84u8, 101u8, 109u8, 112u8, 111u8, 114u8, 97u8, 114u8, 121u8, 32u8, 82u8, 101u8, 100u8, 105u8, 114u8, 101u8, 99u8, 116u8]
    } else if code == 308 {
        seq![80u8, 101u8, 114u8, 109u8, 97u8, 110u8, 101u8, 110u8, 116u8, 32u8, 82u8, 101u8, 100u8, 105u8, 114u8, 101u8, 99u8, 116u8]
    } else if code == 400 {
        seq![66u8, 97u8, 100u8, 32u8, 82u8, 101u8, 113u8, 117u8, 101u8, 115u8, 116u8]
    } else if code == 401 {
        seq![85u8, 110u8, 97u8, 117u8, 116u8, 104u8, 111u8, 114u8, 105u8, 122u8, 101u8, 100u8]
    } else if code == 403 {
        seq![70u8, 111u8, 114u8, 98u8, 105u8, 100u8, 100u8, 101u8, 110u8]
    } else if code == 404 {
        seq![78u8, 111u8, 116u8, 32u8, 70u8, 111u8, 117u8, 110u8, 100u8]
    } else if code == 500 {
        seq![73u8, 110u8, 116u8, 101u8, 114u8, 110u8, 97u8, 108u8, 32u8, 83u8, 101u8, 114u8, 118u8, 101u8, 114u8, 32u8, 69u8, 114u8, 114u8, 111u8, 114u8]
    } else {
        Seq::empty()
    }
}

/// The decimal bytes of a status code, a possible minus sign included.
pub open spec fn spec_decimal_i32(code: int) -> Seq<u8> {
    if code < 0 {
        seq![45u8] + spec_decimal((-code) as nat)
    } else {
        spec_decimal(code as nat)
    }
}

/// The status line suffix for a code: its decimal form, then the reason
/// phrase when one is known.
pub open spec fn spec_status_text(code: int) -> Seq<u8> {
    let d = spec_decimal_i32(code);
    let r = spec_reason(code);
    if r.len() > 0 {
        d + seq![32u8] + r
    } else {
        d
    }
}

/// The reason phrase for a status code, or nothing.
pub fn reason_phrase(status_code: i32) -> (r: Vec<u8>)
    ensures
        r@ == spec_reason(status_code as int),
{
    if status_code == 200 {
        let v: Vec<u8> = vec![79u8, 75u8];
        proof {
            assert(v@ =~= spec_reason(200));
        }
        return v;
    }
    if status_code == 300 {
        let v: Vec<u8> = vec![77u8, 117u8, 108u8, 116u8, 105u8, 112u8, 108u8, 101u8, 32u8, 67u8, 104u8, 111u8, 105u8, 99u8, 101u8, 115u8];
        proof {
            assert(v@ =~= spec_reason(300));
        }
        return v;
    }
    if status_code == 301 {
        let v: Vec<u8> = vec![77u8, 111u8, 118u8, 101u8, 100u8, 32u8, 80u8, 101u8, 114u8, 109u8, 97u8, 110u8, 101u8, 110u8, 116u8, 108u8, 121u8];
        proof {
            assert(v@ =~= spec_reason(301));
        }
        return v;
    }
    if status_code == 302 {
        let v: Vec<u8> = vec![70u8, 111u8, 117u8, 110u8, 100u8];
        proof {
            assert(v@ =~= spec_reason(302));
        }
        return v;
    }
    if status_code == 303 {
        let v: Vec<u8> = vec![83u8, 101u8, 101u8, 32u8, 79u8, 116u8, 104u8, 101u8, 114u8];
        proof {
            assert(v@ =~= spec_reason(303));
        }
        return v;
    }
    if status_code == 304 {
        let v: Vec<u8> = vec![78u8, 111u8, 116u8, 32u8, 77u8, 111u8, 100u8, 105u8, 102u8, 105u8, 101u8, 100u8];
        proof {
            assert(v@ =~= spec_reason(304));
        }
        return v;
    }
    if status_code == 307 {
        let v: Vec<u8> = vec![84u8, 101u8, 109u8, 112u8, 111u8, 114u8, 97u8, 114u8, 121u8, 32u8, 82u8, 101u8, 100u8, 105u8, 114u8, 101u8, 99u8, 116u8];
        proof {
            assert(v@ =~= spec_reason(307));
        }
        return v;
    }
    if status_code == 308 {
        let v: Vec<u8> = vec![80u8, 101u8, 114u8, 109u8, 97u8, 110u8, 101u8, 110u8, 116u8, 32u8, 82u8, 101u8, 100u8, 105u8, 114u8, 101u8, 99u8, 116u8];
        proof {
            assert(v@ =~= spec_reason(308));
        }
        return v;
    }
    if status_code == 400 {
        let v: Vec<u8> = vec![66u8, 97u8, 100u8, 32u8, 82u8, 101u8, 113u8, 117u8, 101u8, 115u8, 116u8];
        proof {
            assert(v@ =~= spec_reason(400));
        }
        return v;
    }
    if status_code == 401 {
        let v: Vec<u8> = vec![85u8, 110u8, 97u8, 117u8, 116u8, 104u8, 111u8, 114u8, 105u8, 122u8, 101u8, 100u8];
        proof {
            assert(v@ =~= spec_reason(401));
        }
        return v;
    }
    if status_code == 403 {
        let v: Vec<u8> = vec![70u8, 111u8, 114u8, 98u8, 105u8, 100u8, 100u8, 101u8, 110u8];
        proof {
            assert(v@ =~= spec_reason(403));
        }
        return v;
    }
    if status_code == 404 {
        let v: Vec<u8> = vec![78u8, 111u8, 116u8, 32u8, 70u8, 111u8, 117u8, 110u8, 100u8];
        proof {
            assert(v@ =~= spec_reason(404));
        }
        return v;
    }
    if status_code == 500 {
        let v: Vec<u8> = vec![73u8, 110u8, 116u8, 101u8, 114u8, 110u8, 97u8, 108u8, 32u8, 83u8, 101u8, 114u8, 118u8, 101u8, 114u8, 32u8, 69u8, 114u8, 114u8, 111u8, 114u8];
        proof {
            assert(v@ =~= spec_reason(500));
        }
        return v;
    }
    proof {
        assert(Seq::<u8>::empty() =~= spec_reason(status_code as int));
    }
    Vec::new()
}

/// Writes a status code in decimal, a possible minus sign included.
pub fn encode_decimal_i32(code: i32) -> (v: Vec<u8>)
    ensures
        v@ == spec_decimal_i32(code as int),
{
    if code < 0 {
        let mag: u64 = (-(code as i64)) as u64;
        let mut v: Vec<u8> = vec![45u8];
        let mut digits = encode_decimal(mag);
        v.append(&mut digits);
        proof {
            assert(v@ =~= seq![45u8] + spec_decimal(mag as nat));
        }
        v
    } else {
        encode_decimal(code as u64)
    }
}

/// The reserved status header for a code: the name `HTTP/1.1` and the
/// status line suffix as its value.
pub fn get_status_header(status_code: i32) -> (r: Header)
    ensures
        r.0@ == http11_name(),
        (r.1 matches Some(v) && v@ == spec_status_text(status_code as int)),
{
    let name: Vec<u8> = vec![72u8, 84u8, 84u8, 80u8, 47u8, 49u8, 46u8, 49u8];
    proof {
        assert(name@ =~= http11_name());
    }
    let mut text = encode_decimal_i32(status_code);
    let mut reason = reason_phrase(status_code);
    if reason.len() > 0 {
        let ghost d = text@;
        text.push(32u8);
        text.append(&mut reason);
        proof {
            assert(text@ =~= d + seq![32u8] + spec_reason(status_code as int));
        }
    }
    (name, Some(text))
}

/// An empty body: no chunks at all.
pub fn empty_content() -> (r: Vec<Vec<u8>>)
    ensures
        r@ == Seq::<Vec<u8>>::empty(),
{
    Vec::new()
}


/// The views of a header list.
pub open spec fn header_views(hs: Seq<Header>) -> Seq<(Seq<u8>, Option<Seq<u8>>)> {
    hs.map_values(
        |h: Header|
            (
                h.0@,
                match h.1 {
                    Some(v) => Some(v@),
                    None => None,
                },
            ),
    )
}

/// `m` with `v` stored under `k`: the first entry keyed `k` keeps its
/// position and takes the new value, or a new entry is appended.
pub open spec fn spec_header_insert(
    m: Seq<(Seq<u8>, Option<Seq<u8>>)>,
    k: Seq<u8>,
    v: Option<Seq<u8>>,
) -> Seq<(Seq<u8>, Option<Seq<u8>>)>
    decreases m.len(),
{
    if m.len() == 0 {
        seq![(k, v)]
    } else if m[0].0 == k {
        seq![(k, v)] + m.drop_first()
    } else {
        seq![m[0]] + spec_header_insert(m.drop_first(), k, v)
    }
}

/// Each entry of `extra` stored into `base` in turn.
pub open spec fn spec_header_merge(
    base: Seq<(Seq<u8>, Option<Seq<u8>>)>,
    extra: Seq<(Seq<u8>, Option<Seq<u8>>)>,
) -> Seq<(Seq<u8>, Option<Seq<u8>>)>
    decreases extra.len(),
{
    if extra.len() == 0 {
        base
    } else {
        spec_header_merge(spec_header_insert(base, extra[0].0, extra[0].1), extra.drop_first())
    }
}

/// The position of the first entry named `k`, with everything before it
/// named otherwise.
fn find_header(m: &Vec<Header>, k: &[u8]) -> (r: Option<usize>)
    ensures
        match r {
            Some(i) => i < m@.len() && header_views(m@)[i as int].0 == k@ && forall|j: int|
                0 <= j < i ==> header_views(m@)[j].0 != k@,
            None => forall|j: int| 0 <= j < m@.len() ==> header_views(m@)[j].0 != k@,
        },
{
    let mut i: usize = 0;
    while i < m.len()
        invariant
            i <= m@.len(),
            forall|j: int| 0 <= j < i ==> header_views(m@)[j].0 != k@,
        decreases m@.len() - i,
    {
        proof {
            assert(header_views(m@)[i as int].0 == m@[i as int].0@);
        }
        if crate::bytes::bytes_eq(m[i].0.as_slice(), k) {
            return Some(i);
        }
        i = i + 1;
    }
    None
}

/// Stores `v` under `k`, replacing the value of the first entry with that
/// key in place, or appending a new entry.
fn header_insert(m: &mut Vec<Header>, k: Vec<u8>, v: Option<Vec<u8>>)
    ensures
        header_views(final(m)@) == spec_header_insert(header_views(old(m)@), k@, match v {
            Some(vv) => Some(vv@),
            None => None,
        }),
{
    let ghost vv = match &v {
        Some(vv) => Some(vv@),
        None => None,
    };
    match find_header(m, k.as_slice()) {
        Some(i) => {
            m[i] = (k, v);
            proof {
                lemma_header_insert_found(header_views(old(m)@), k@, vv, i as int);
                assert(header_views(m@) =~= header_views(old(m)@).update(i as int, (k@, vv)));
            }
        },
        None => {
            m.push((k, v));
            proof {
                lemma_header_insert_missing(header_views(old(m)@), k@, vv);
                assert(header_views(m@) =~= header_views(old(m)@).push((k@, vv)));
            }
        },
    }
}

proof fn lemma_header_insert_found(
    m: Seq<(Seq<u8>, Option<Seq<u8>>)>,
    k: Seq<u8>,
    v: Option<Seq<u8>>,
    i: int,
)
    requires
        0 <= i < m.len(),
        m[i].0 == k,
        forall|j: int| 0 <= j < i ==> m[j].0 != k,
    ensures
        spec_header_insert(m, k, v) == m.update(i, (k, v)),
    decreases i,
{
    if i == 0 {
        assert(seq![(k, v)] + m.drop_first() =~= m.update(0, (k, v)));
    } else {
        lemma_header_insert_found(m.drop_first(), k, v, i - 1);
        assert(m.drop_first()[i - 1] == m[i]);
        assert(seq![m[0]] + m.drop_first().update(i - 1, (k, v)) =~= m.update(i, (k, v)));
    }
}

proof fn lemma_header_insert_missing(
    m: Seq<(Seq<u8>, Option<Seq<u8>>)>,
    k: Seq<u8>,
    v: Option<Seq<u8>>,
)
    requires
        forall|j: int| 0 <= j < m.len() ==> m[j].0 != k,
    ensures
        spec_header_insert(m, k, v) == m.push((k, v)),
    decreases m.len(),
{
    if m.len() == 0 {
        assert(seq![(k, v)] =~= m.push((k, v)));
    } else {
        lemma_header_insert_missing(m.drop_first(), k, v);
        assert(seq![m[0]] + m.drop_first().push((k, v)) =~= m.push((k, v)));
    }
}

/// Merges two resolutions' headers: the result carries `base`'s entries in
/// order, each entry of `extra` replacing a same-named one in place or
/// appending, so `extra`'s values take precedence.
pub fn merge_headers(base: Vec<Header>, extra: Vec<Header>) -> (r: Vec<Header>)
    ensures
        header_views(r@) == spec_header_merge(header_views(base@), header_views(extra@)),
{
    let ghost all = header_views(extra@);
    let mut r = base;
    let mut rest = extra;
    while rest.len() > 0
        invariant
            spec_header_merge(header_views(r@), header_views(rest@)) == spec_header_merge(
                header_views(base@),
                all,
            ),
        decreases rest@.len(),
    {
        let ghost pre_rest = header_views(rest@);
        let ghost pre_r = header_views(r@);
        let (k, v) = rest.remove(0);
        let ghost vv = match &v {
            Some(vv) => Some(vv@),
            None => None,
        };
        proof {
            assert(header_views(rest@) =~= pre_rest.drop_first());
            assert(pre_rest[0] == (k@, vv));
        }
        header_insert(&mut r, k, v);
        proof {
            assert(spec_header_merge(pre_r, pre_rest) == spec_header_merge(
                spec_header_insert(pre_r, k@, vv),
                pre_rest.drop_first(),
            ));
        }
    }
    proof {
        assert(header_views(rest@) =~= Seq::<(Seq<u8>, Option<Seq<u8>>)>::empty());
    }
    r
}

} // verus!
