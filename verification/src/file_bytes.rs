//! Serving a file's bytes: the path decides the `Content-Type` header via
//! its extension, and whether the path exists decides the status code. The
//! reading of the file itself is I/O and lives outside this crate.

use vstd::prelude::*;
use vstd::string::StringSliceAdditionalSpecFns;

use crate::resolution::{get_status_header, http11_name, spec_status_text, Header};
use crate::segments::SLASH;

verus! {

/// The byte value of `.`.
pub const DOT: u8 = 46;

/// The suffix of `s` after the last occurrence of `sep`; all of `s` when
/// `sep` does not occur.
pub open spec fn after_last(s: Seq<u8>, sep: u8) -> Seq<u8>
    decreases s.len(),
{
    if s.len() == 0 {
        s
    } else if s.last() == sep {
        Seq::empty()
    } else {
        after_last(s.drop_last(), sep).push(s.last())
    }
}

proof fn lemma_after_last_at(s: Seq<u8>, sep: u8, i: int)
    requires
        0 <= i < s.len(),
        s[i] == sep,
        forall|j: int| i < j < s.len() ==> s[j] != sep,
    ensures
        after_last(s, sep) == s.skip(i + 1),
    decreases s.len(),
{
    if i == s.len() - 1 {
        assert(s.skip(i + 1) =~= Seq::<u8>::empty());
    } else {
        lemma_after_last_at(s.drop_last(), sep, i);
        assert(s.drop_last().skip(i + 1).push(s.last()) =~= s.skip(i + 1));
    }
}

proof fn lemma_after_last_none(s: Seq<u8>, sep: u8)
    requires
        forall|j: int| 0 <= j < s.len() ==> s[j] != sep,
    ensures
        after_last(s, sep) == s,
    decreases s.len(),
{
    if s.len() > 0 {
        lemma_after_last_none(s.drop_last(), sep);
        assert(s.drop_last().push(s.last()) =~= s);
    }
}

/// The suffix of `s` after the last occurrence of `sep`, or all of `s`.
fn suffix_after_last<'a>(s: &'a [u8], sep: u8) -> (r: &'a [u8])
    ensures
        r@ == after_last(s@, sep),
{
    let mut i: usize = s.len();
    while i > 0
        invariant
            i <= s@.len(),
            forall|j: int| i <= j < s@.len() ==> s@[j] != sep,
        decreases i,
    {
        if s[i - 1] == sep {
            let r: &[u8] = &s[i..s.len()];
            proof {
                lemma_after_last_at(s@, sep, i - 1);
                assert(r@ =~= s@.skip(i as int));
            }
            return r;
        }
        i = i - 1;
    }
    proof {
        lemma_after_last_none(s@, sep);
    }
    s
}

/// A byte lowered to its ASCII lowercase.
pub open spec fn lower_byte(b: u8) -> u8 {
    if 65 <= b <= 90 {
        (b + 32) as u8
    } else {
        b
    }
}

/// The bytewise ASCII lowercase of `s`.
pub open spec fn lower_bytes(s: Seq<u8>) -> Seq<u8> {
    s.map_values(|b: u8| lower_byte(b))
}

fn to_lower_bytes(s: &[u8]) -> (r: Vec<u8>)
    ensures
        r@ == lower_bytes(s@),
{
    let mut r: Vec<u8> = Vec::new();
    let mut i: usize = 0;
    while i < s.len()
        invariant
            i <= s@.len(),
            r@ == lower_bytes(s@.take(i as int)),
        decreases s@.len() - i,
    {
        let b: u8 = s[i];
        if 65 <= b && b <= 90 {
            r.push((b + 32) as u8);
        } else {
            r.push(b);
        }
        proof {
            assert(r@ =~= lower_bytes(s@.take(i as int)).push(lower_byte(s@[i as int])));
            assert(lower_bytes(s@.take(i + 1)) =~= lower_bytes(s@.take(i as int)).push(
                lower_byte(s@[i as int]),
            ));
        }
        i = i + 1;
    }
    proof {
        assert(s@.take(s@.len() as int) =~= s@);
    }
    r
}

/// The lowercased extension of a path: the part of the final path component
/// after its last dot, absent when the component has no dot, or only its
/// leading one.
pub open spec fn spec_extension(path: Seq<u8>) -> Option<Seq<u8>> {
    let name = after_last(path, SLASH);
    let ext = after_last(name, DOT);
    if ext.len() == name.len() {
        None
    } else if name.len() >= 1 && name[0] == DOT && ext.len() == name.len() - 1 {
        None
    } else {
        Some(lower_bytes(ext))
    }
}

/// The media type registered for a lowercased extension;
/// `application/octet-stream` for the rest.
pub open spec fn spec_mime_of(ext: Seq<u8>) -> Seq<u8> {
    if ext == seq![104u8, 116u8, 109u8, 108u8] {
        seq![116u8, 101u8, 120u8, 116u8, 47u8, 104u8, 116u8, 109u8, 108u8]
    } else if ext == seq![104u8, 116u8, 109u8] {
        seq![116u8, 101u8, 120u8, 116u8, 47u8, 104u8, 116u8, 109u8, 108u8]
    } else if ext == seq![99u8, 115u8, 115u8] {
        seq![116u8, 101u8, 120u8, 116u8, 47u8, 99u8, 115u8, 115u8]
    } else if ext == seq![106u8, 115u8] {
        seq![97u8, 112u8, 112u8, 108u8, 105u8, 99u8, 97u8, 116u8, 105u8, 111u8, 110u8, 47u8, 106u8, 97u8, 118u8, 97u8, 115u8, 99u8, 114u8, 105u8, 112u8, 116u8]
    } else if ext == seq![106u8, 115u8, 111u8, 110u8] {
        seq![97u8, 112u8, 112u8, 108u8, 105u8, 99u8, 97u8, 116u8, 105u8, 111u8, 110u8, 47u8, 106u8, 115u8, 111u8, 110u8]
    } else if ext == seq![116u8, 120u8, 116u8] {
        seq![116u8, 101u8, 120u8, 116u8, 47u8, 112u8, 108u8, 97u8, 105u8, 110u8]
    } else if ext == seq![99u8, 115u8, 118u8] {
        seq![116u8, 101u8, 120u8, 116u8, 47u8, 99u8, 115u8, 118u8]
    } else if ext == seq![120u8, 109u8, 108u8] {
        seq![97u8, 112u8, 112u8, 108u8, 105u8, 99u8, 97u8, 116u8, 105u8, 111u8, 110u8, 47u8, 120u8, 109u8, 108u8]
    } else if ext == seq![106u8, 112u8, 103u8] {
        seq![105u8, 109u8, 97u8, 103u8, 101u8, 47u8, 106u8, 112u8, 101u8, 103u8]
    } else if ext == seq![106u8, 112u8, 101u8, 103u8] {
        seq![105u8, 109u8, 97u8, 103u8, 101u8, 47u8, 106u8, 112u8, 101u8, 103u8]
    } else if ext == seq![112u8, 110u8, 103u8] {
        seq![105u8, 109u8, 97u8, 103u8, 101u8, 47u8, 112u8, 110u8, 103u8]
    } else if ext == seq![103u8, 105u8, 102u8] {
        seq![105u8, 109u8, 97u8, 103u8, 101u8, 47u8, 103u8, 105u8, 102u8]
    } else if ext == seq![98u8, 109u8, 112u8] {
        seq![105u8, 109u8, 97u8, 103u8, 101u8, 47u8, 98u8, 109u8, 112u8]
    } else if ext == seq![119u8, 101u8, 98u8, 112u8] {
        seq![105u8, 109u8, 97u8, 103u8, 101u8, 47u8, 119u8, 101u8, 98u8, 112u8]
    } else if ext == seq![115u8, 118u8, 103u8] {
        seq![105u8, 109u8, 97u8, 103u8, 101u8, 47u8, 115u8, 118u8, 103u8, 43u8, 120u8, 109u8, 108u8]
    } else if ext == seq![105u8, 99u8, 111u8] {
        seq![105u8, 109u8, 97u8, 103u8, 101u8, 47u8, 120u8, 45u8, 105u8, 99u8, 111u8, 110u8]
    } else if ext == seq![109u8, 112u8, 51u8] {
        seq![97u8, 117u8, 100u8, 105u8, 111u8, 47u8, 109u8, 112u8, 101u8, 103u8]
    } else if ext == seq![119u8, 97u8, 118u8] {
        seq![97u8, 117u8, 100u8, 105u8, 111u8, 47u8, 119u8, 97u8, 118u8]
    } else if ext == seq![111u8, 103u8, 103u8] {
        seq![97u8, 117u8, 100u8, 105u8, 111u8, 47u8, 111u8, 103u8, 103u8]
    } else if ext == seq![109u8, 112u8, 52u8] {
        seq![118u8, 105u8, 100u8, 101u8, 111u8, 47u8, 109u8, 112u8, 52u8]
    } else if ext == seq![119u8, 101u8, 98u8, 109u8] {
        seq![118u8, 105u8, 100u8, 101u8, 111u8, 47u8, 119u8, 101u8, 98u8, 109u8]
    } else if ext == seq![119u8, 111u8, 102u8, 102u8] {
        seq![102u8, 111u8, 110u8, 116u8, 47u8, 119u8, 111u8, 102u8, 102u8]
    } else if ext == seq![119u8, 111u8, 102u8, 102u8, 50u8] {
        seq![102u8, 111u8, 110u8, 116u8, 47u8, 119u8, 111u8, 102u8, 102u8, 50u8]
    } else if ext == seq![116u8, 116u8, 102u8] {
        seq![102u8, 111u8, 110u8, 116u8, 47u8, 116u8, 116u8, 102u8]
    } else if ext == seq![111u8, 116u8, 102u8] {
        seq![102u8, 111u8, 110u8, 116u8, 47u8, 111u8, 116u8, 102u8]
    } else if ext == seq![112u8, 100u8, 102u8] {
        seq![97u8, 112u8, 112u8, 108u8, 105u8, 99u8, 97u8, 116u8, 105u8, 111u8, 110u8, 47u8, 112u8, 100u8, 102u8]
    } else if ext == seq![122u8, 105u8, 112u8] {
        seq![97u8, 112u8, 112u8, 108u8, 105u8, 99u8, 97u8, 116u8, 105u8, 111u8, 110u8, 47u8, 122u8, 105u8, 112u8]
    } else if ext == seq![116u8, 97u8, 114u8] {
        seq![97u8, 112u8, 112u8, 108u8, 105u8, 99u8, 97u8, 116u8, 105u8, 111u8, 110u8, 47u8, 120u8, 45u8, 116u8, 97u8, 114u8]
    } else if ext == seq![103u8, 122u8] {
        seq![97u8, 112u8, 112u8, 108u8, 105u8, 99u8, 97u8, 116u8, 105u8, 111u8, 110u8, 47u8, 103u8, 122u8, 105u8, 112u8]
    } else {
        seq![97u8, 112u8, 112u8, 108u8, 105u8, 99u8, 97u8, 116u8, 105u8, 111u8, 110u8, 47u8, 111u8, 99u8, 116u8, 101u8, 116u8, 45u8, 115u8, 116u8, 114u8, 101u8, 97u8, 109u8]
    }
}

/// The media type of a path: its extension's, or the octet-stream fallback
/// when it has none.
pub open spec fn spec_content_type(path: Seq<u8>) -> Seq<u8> {
    match spec_extension(path) {
        None => seq![97u8, 112u8, 112u8, 108u8, 105u8, 99u8, 97u8, 116u8, 105u8, 111u8, 110u8, 47u8, 111u8, 99u8, 116u8, 101u8, 116u8, 45u8, 115u8, 116u8, 114u8, 101u8, 97u8, 109u8],
        Some(e) => spec_mime_of(e),
    }
}

/// The octet-stream fallback media type.
fn octet_stream() -> (r: Vec<u8>)
    ensures
        r@ == seq![97u8, 112u8, 112u8, 108u8, 105u8, 99u8, 97u8, 116u8, 105u8, 111u8, 110u8, 47u8, 111u8, 99u8, 116u8, 101u8, 116u8, 45u8, 115u8, 116u8, 114u8, 101u8, 97u8, 109u8],
{
    let r: Vec<u8> = vec![97u8, 112u8, 112u8, 108u8, 105u8, 99u8, 97u8, 116u8, 105u8, 111u8, 110u8, 47u8, 111u8, 99u8, 116u8, 101u8, 116u8, 45u8, 115u8, 116u8, 114u8, 101u8, 97u8, 109u8];
    proof {
        assert(r@ =~= seq![97u8, 112u8, 112u8, 108u8, 105u8, 99u8, 97u8, 116u8, 105u8, 111u8, 110u8, 47u8, 111u8, 99u8, 116u8, 101u8, 116u8, 45u8, 115u8, 116u8, 114u8, 101u8, 97u8, 109u8]);
    }
    r
}

/// The media type for a lowercased extension.
fn mime_of(ext: &[u8]) -> (r: Vec<u8>)
    ensures
        r@ == spec_mime_of(ext@),
{
    let k: Vec<u8> = vec![104u8, 116u8, 109u8, 108u8];
    proof {
        assert(k@ =~= seq![104u8, 116u8, 109u8, 108u8]);
    }
    if crate::bytes::bytes_eq(ext, k.as_slice()) {
        let r: Vec<u8> = vec![116u8, 101u8, 120u8, 116u8, 47u8, 104u8, 116u8, 109u8, 108u8];
        proof {
            assert(r@ =~= seq![116u8, 101u8, 120u8, 116u8, 47u8, 104u8, 116u8, 109u8, 108u8]);
        }
        return r;
    }
    let k: Vec<u8> = vec![104u8, 116u8, 109u8];
    proof {
        assert(k@ =~= seq![104u8, 116u8, 109u8]);
    }
    if crate::bytes::bytes_eq(ext, k.as_slice()) {
        let r: Vec<u8> = vec![116u8, 101u8, 120u8, 116u8, 47u8, 104u8, 116u8, 109u8, 108u8];
        proof {
            assert(r@ =~= seq![116u8, 101u8, 120u8, 116u8, 47u8, 104u8, 116u8, 109u8, 108u8]);
        }
        return r;
    }
    let k: Vec<u8> = vec![99u8, 115u8, 115u8];
    proof {
        assert(k@ =~= seq![99u8, 115u8, 115u8]);
    }
    if crate::bytes::bytes_eq(ext, k.as_slice()) {
        let r: Vec<u8> = vec![116u8, 101u8, 120u8, 116u8, 47u8, 99u8, 115u8, 115u8];
        proof {
            assert(r@ =~= seq![116u8, 101u8, 120u8, 116u8, 47u8, 99u8, 115u8, 115u8]);
        }
        return r;
    }
    let k: Vec<u8> = vec![106u8, 115u8];
    proof {
        assert(k@ =~= seq![106u8, 115u8]);
    }
    if crate::bytes::bytes_eq(ext, k.as_slice()) {
        let r: Vec<u8> = vec![97u8, 112u8, 112u8, 108u8, 105u8, 99u8, 97u8, 116u8, 105u8, 111u8, 110u8, 47u8, 106u8, 97u8, 118u8, 97u8, 115u8, 99u8, 114u8, 105u8, 112u8, 116u8];
        proof {
            assert(r@ =~= seq![97u8, 112u8, 112u8, 108u8, 105u8, 99u8, 97u8, 116u8, 105u8, 111u8, 110u8, 47u8, 106u8, 97u8, 118u8, 97u8, 115u8, 99u8, 114u8, 105u8, 112u8, 116u8]);
        }
        return r;
    }
    let k: Vec<u8> = vec![106u8, 115u8, 111u8, 110u8];
    proof {
        assert(k@ =~= seq![106u8, 115u8, 111u8, 110u8]);
    }
    if crate::bytes::bytes_eq(ext, k.as_slice()) {
        let r: Vec<u8> = vec![97u8, 112u8, 112u8, 108u8, 105u8, 99u8, 97u8, 116u8, 105u8, 111u8, 110u8, 47u8, 106u8, 115u8, 111u8, 110u8];
        proof {
            assert(r@ =~= seq![97u8, 112u8, 112u8, 108u8, 105u8, 99u8, 97u8, 116u8, 105u8, 111u8, 110u8, 47u8, 106u8, 115u8, 111u8, 110u8]);
        }
        return r;
    }
    let k: Vec<u8> = vec![116u8, 120u8, 116u8];
    proof {
        assert(k@ =~= seq![116u8, 120u8, 116u8]);
    }
    if crate::bytes::bytes_eq(ext, k.as_slice()) {
        let r: Vec<u8> = vec![116u8, 101u8, 120u8, 116u8, 47u8, 112u8, 108u8, 97u8, 105u8, 110u8];
        proof {
            assert(r@ =~= seq![116u8, 101u8, 120u8, 116u8, 47u8, 112u8, 108u8, 97u8, 105u8, 110u8]);
        }
        return r;
    }
    let k: Vec<u8> = vec![99u8, 115u8, 118u8];
    proof {
        assert(k@ =~= seq![99u8, 115u8, 118u8]);
    }
    if crate::bytes::bytes_eq(ext, k.as_slice()) {
        let r: Vec<u8> = vec![116u8, 101u8, 120u8, 116u8, 47u8, 99u8, 115u8, 118u8];
        proof {
            assert(r@ =~= seq![116u8, 101u8, 120u8, 116u8, 47u8, 99u8, 115u8, 118u8]);
        }
        return r;
    }
    let k: Vec<u8> = vec![120u8, 109u8, 108u8];
    proof {
        assert(k@ =~= seq![120u8, 109u8, 108u8]);
    }
    if crate::bytes::bytes_eq(ext, k.as_slice()) {
        let r: Vec<u8> = vec![97u8, 112u8, 112u8, 108u8, 105u8, 99u8, 97u8, 116u8, 105u8, 111u8, 110u8, 47u8, 120u8, 109u8, 108u8];
        proof {
            assert(r@ =~= seq![97u8, 112u8, 112u8, 108u8, 105u8, 99u8, 97u8, 116u8, 105u8, 111u8, 110u8, 47u8, 120u8, 109u8, 108u8]);
        }
        return r;
    }
    let k: Vec<u8> = vec![106u8, 112u8, 103u8];
    proof {
        assert(k@ =~= seq![106u8, 112u8, 103u8]);
    }
    if crate::bytes::bytes_eq(ext, k.as_slice()) {
        let r: Vec<u8> = vec![105u8, 109u8, 97u8, 103u8, 101u8, 47u8, 106u8, 112u8, 101u8, 103u8];
        proof {
            assert(r@ =~= seq![105u8, 109u8, 97u8, 103u8, 101u8, 47u8, 106u8, 112u8, 101u8, 103u8]);
        }
        return r;
    }
    let k: Vec<u8> = vec![106u8, 112u8, 101u8, 103u8];
    proof {
        assert(k@ =~= seq![106u8, 112u8, 101u8, 103u8]);
    }
    if crate::bytes::bytes_eq(ext, k.as_slice()) {
        let r: Vec<u8> = vec![105u8, 109u8, 97u8, 103u8, 101u8, 47u8, 106u8, 112u8, 101u8, 103u8];
        proof {
            assert(r@ =~= seq![105u8, 109u8, 97u8, 103u8, 101u8, 47u8, 106u8, 112u8, 101u8, 103u8]);
        }
        return r;
    }
    let k: Vec<u8> = vec![112u8, 110u8, 103u8];
    proof {
        assert(k@ =~= seq![112u8, 110u8, 103u8]);
    }
    if crate::bytes::bytes_eq(ext, k.as_slice()) {
        let r: Vec<u8> = vec![105u8, 109u8, 97u8, 103u8, 101u8, 47u8, 112u8, 110u8, 103u8];
        proof {
            assert(r@ =~= seq![105u8, 109u8, 97u8, 103u8, 101u8, 47u8, 112u8, 110u8, 103u8]);
        }
        return r;
    }
    let k: Vec<u8> = vec![103u8, 105u8, 102u8];
    proof {
        assert(k@ =~= seq![103u8, 105u8, 102u8]);
    }
    if crate::bytes::bytes_eq(ext, k.as_slice()) {
        let r: Vec<u8> = vec![105u8, 109u8, 97u8, 103u8, 101u8, 47u8, 103u8, 105u8, 102u8];
        proof {
            assert(r@ =~= seq![105u8, 109u8, 97u8, 103u8, 101u8, 47u8, 103u8, 105u8, 102u8]);
        }
        return r;
    }
    let k: Vec<u8> = vec![98u8, 109u8, 112u8];
    proof {
        assert(k@ =~= seq![98u8, 109u8, 112u8]);
    }
    if crate::bytes::bytes_eq(ext, k.as_slice()) {
        let r: Vec<u8> = vec![105u8, 109u8, 97u8, 103u8, 101u8, 47u8, 98u8, 109u8, 112u8];
        proof {
            assert(r@ =~= seq![105u8, 109u8, 97u8, 103u8, 101u8, 47u8, 98u8, 109u8, 112u8]);
        }
        return r;
    }
    let k: Vec<u8> = vec![119u8, 101u8, 98u8, 112u8];
    proof {
        assert(k@ =~= seq![119u8, 101u8, 98u8, 112u8]);
    }
    if crate::bytes::bytes_eq(ext, k.as_slice()) {
        let r: Vec<u8> = vec![105u8, 109u8, 97u8, 103u8, 101u8, 47u8, 119u8, 101u8, 98u8, 112u8];
        proof {
            assert(r@ =~= seq![105u8, 109u8, 97u8, 103u8, 101u8, 47u8, 119u8, 101u8, 98u8, 112u8]);
        }
        return r;
    }
    let k: Vec<u8> = vec![115u8, 118u8, 103u8];
    proof {
        assert(k@ =~= seq![115u8, 118u8, 103u8]);
    }
    if crate::bytes::bytes_eq(ext, k.as_slice()) {
        let r: Vec<u8> = vec![105u8, 109u8, 97u8, 103u8, 101u8, 47u8, 115u8, 118u8, 103u8, 43u8, 120u8, 109u8, 108u8];
        proof {
            assert(r@ =~= seq![105u8, 109u8, 97u8, 103u8, 101u8, 47u8, 115u8, 118u8, 103u8, 43u8, 120u8, 109u8, 108u8]);
        }
        return r;
    }
    let k: Vec<u8> = vec![105u8, 99u8, 111u8];
    proof {
        assert(k@ =~= seq![105u8, 99u8, 111u8]);
    }
    if crate::bytes::bytes_eq(ext, k.as_slice()) {
        let r: Vec<u8> = vec![105u8, 109u8, 97u8, 103u8, 101u8, 47u8, 120u8, 45u8, 105u8, 99u8, 111u8, 110u8];
        proof {
            assert(r@ =~= seq![105u8, 109u8, 97u8, 103u8, 101u8, 47u8, 120u8, 45u8, 105u8, 99u8, 111u8, 110u8]);
        }
        return r;
    }
    let k: Vec<u8> = vec![109u8, 112u8, 51u8];
    proof {
        assert(k@ =~= seq![109u8, 112u8, 51u8]);
    }
    if crate::bytes::bytes_eq(ext, k.as_slice()) {
        let r: Vec<u8> = vec![97u8, 117u8, 100u8, 105u8, 111u8, 47u8, 109u8, 112u8, 101u8, 103u8];
        proof {
            assert(r@ =~= seq![97u8, 117u8, 100u8, 105u8, 111u8, 47u8, 109u8, 112u8, 101u8, 103u8]);
        }
        return r;
    }
    let k: Vec<u8> = vec![119u8, 97u8, 118u8];
    proof {
        assert(k@ =~= seq![119u8, 97u8, 118u8]);
    }
    if crate::bytes::bytes_eq(ext, k.as_slice()) {
        let r: Vec<u8> = vec![97u8, 117u8, 100u8, 105u8, 111u8, 47u8, 119u8, 97u8, 118u8];
        proof {
            assert(r@ =~= seq![97u8, 117u8, 100u8, 105u8, 111u8, 47u8, 119u8, 97u8, 118u8]);
        }
        return r;
    }
    let k: Vec<u8> = vec![111u8, 103u8, 103u8];
    proof {
        assert(k@ =~= seq![111u8, 103u8, 103u8]);
    }
    if crate::bytes::bytes_eq(ext, k.as_slice()) {
        let r: Vec<u8> = vec![97u8, 117u8, 100u8, 105u8, 111u8, 47u8, 111u8, 103u8, 103u8];
        proof {
            assert(r@ =~= seq![97u8, 117u8, 100u8, 105u8, 111u8, 47u8, 111u8, 103u8, 103u8]);
        }
        return r;
    }
    let k: Vec<u8> = vec![109u8, 112u8, 52u8];
    proof {
        assert(k@ =~= seq![109u8, 112u8, 52u8]);
    }
    if crate::bytes::bytes_eq(ext, k.as_slice()) {
        let r: Vec<u8> = vec![118u8, 105u8, 100u8, 101u8, 111u8, 47u8, 109u8, 112u8, 52u8];
        proof {
            assert(r@ =~= seq![118u8, 105u8, 100u8, 101u8, 111u8, 47u8, 109u8, 112u8, 52u8]);
        }
        return r;
    }
    let k: Vec<u8> = vec![119u8, 101u8, 98u8, 109u8];
    proof {
        assert(k@ =~= seq![119u8, 101u8, 98u8, 109u8]);
    }
    if crate::bytes::bytes_eq(ext, k.as_slice()) {
        let r: Vec<u8> = vec![118u8, 105u8, 100u8, 101u8, 111u8, 47u8, 119u8, 101u8, 98u8, 109u8];
        proof {
            assert(r@ =~= seq![118u8, 105u8, 100u8, 101u8, 111u8, 47u8, 119u8, 101u8, 98u8, 109u8]);
        }
        return r;
    }
    let k: Vec<u8> = vec![119u8, 111u8, 102u8, 102u8];
    proof {
        assert(k@ =~= seq![119u8, 111u8, 102u8, 102u8]);
    }
    if crate::bytes::bytes_eq(ext, k.as_slice()) {
        let r: Vec<u8> = vec![102u8, 111u8, 110u8, 116u8, 47u8, 119u8, 111u8, 102u8, 102u8];
        proof {
            assert(r@ =~= seq![102u8, 111u8, 110u8, 116u8, 47u8, 119u8, 111u8, 102u8, 102u8]);
        }
        return r;
    }
    let k: Vec<u8> = vec![119u8, 111u8, 102u8, 102u8, 50u8];
    proof {
        assert(k@ =~= seq![119u8, 111u8, 102u8, 102u8, 50u8]);
    }
    if crate::bytes::bytes_eq(ext, k.as_slice()) {
        let r: Vec<u8> = vec![102u8, 111u8, 110u8, 116u8, 47u8, 119u8, 111u8, 102u8, 102u8, 50u8];
        proof {
            assert(r@ =~= seq![102u8, 111u8, 110u8, 116u8, 47u8, 119u8, 111u8, 102u8, 102u8, 50u8]);
        }
        return r;
    }
    let k: Vec<u8> = vec![116u8, 116u8, 102u8];
    proof {
        assert(k@ =~= seq![116u8, 116u8, 102u8]);
    }
    if crate::bytes::bytes_eq(ext, k.as_slice()) {
        let r: Vec<u8> = vec![102u8, 111u8, 110u8, 116u8, 47u8, 116u8, 116u8, 102u8];
        proof {
            assert(r@ =~= seq![102u8, 111u8, 110u8, 116u8, 47u8, 116u8, 116u8, 102u8]);
        }
        return r;
    }
    let k: Vec<u8> = vec![111u8, 116u8, 102u8];
    proof {
        assert(k@ =~= seq![111u8, 116u8, 102u8]);
    }
    if crate::bytes::bytes_eq(ext, k.as_slice()) {
        let r: Vec<u8> = vec![102u8, 111u8, 110u8, 116u8, 47u8, 111u8, 116u8, 102u8];
        proof {
            assert(r@ =~= seq![102u8, 111u8, 110u8, 116u8, 47u8, 111u8, 116u8, 102u8]);
        }
        return r;
    }
    let k: Vec<u8> = vec![112u8, 100u8, 102u8];
    proof {
        assert(k@ =~= seq![112u8, 100u8, 102u8]);
    }
    if crate::bytes::bytes_eq(ext, k.as_slice()) {
        let r: Vec<u8> = vec![97u8, 112u8, 112u8, 108u8, 105u8, 99u8, 97u8, 116u8, 105u8, 111u8, 110u8, 47u8, 112u8, 100u8, 102u8];
        proof {
            assert(r@ =~= seq![97u8, 112u8, 112u8, 108u8, 105u8, 99u8, 97u8, 116u8, 105u8, 111u8, 110u8, 47u8, 112u8, 100u8, 102u8]);
        }
        return r;
    }
    let k: Vec<u8> = vec![122u8, 105u8, 112u8];
    proof {
        assert(k@ =~= seq![122u8, 105u8, 112u8]);
    }
    if crate::bytes::bytes_eq(ext, k.as_slice()) {
        let r: Vec<u8> = vec![97u8, 112u8, 112u8, 108u8, 105u8, 99u8, 97u8, 116u8, 105u8, 111u8, 110u8, 47u8, 122u8, 105u8, 112u8];
        proof {
            assert(r@ =~= seq![97u8, 112u8, 112u8, 108u8, 105u8, 99u8, 97u8, 116u8, 105u8, 111u8, 110u8, 47u8, 122u8, 105u8, 112u8]);
        }
        return r;
    }
    let k: Vec<u8> = vec![116u8, 97u8, 114u8];
    proof {
        assert(k@ =~= seq![116u8, 97u8, 114u8]);
    }
    if crate::bytes::bytes_eq(ext, k.as_slice()) {
        let r: Vec<u8> = vec![97u8, 112u8, 112u8, 108u8, 105u8, 99u8, 97u8, 116u8, 105u8, 111u8, 110u8, 47u8, 120u8, 45u8, 116u8, 97u8, 114u8];
        proof {
            assert(r@ =~= seq![97u8, 112u8, 112u8, 108u8, 105u8, 99u8, 97u8, 116u8, 105u8, 111u8, 110u8, 47u8, 120u8, 45u8, 116u8, 97u8, 114u8]);
        }
        return r;
    }
    let k: Vec<u8> = vec![103u8, 122u8];
    proof {
        assert(k@ =~= seq![103u8, 122u8]);
    }
    if crate::bytes::bytes_eq(ext, k.as_slice()) {
        let r: Vec<u8> = vec![97u8, 112u8, 112u8, 108u8, 105u8, 99u8, 97u8, 116u8, 105u8, 111u8, 110u8, 47u8, 103u8, 122u8, 105u8, 112u8];
        proof {
            assert(r@ =~= seq![97u8, 112u8, 112u8, 108u8, 105u8, 99u8, 97u8, 116u8, 105u8, 111u8, 110u8, 47u8, 103u8, 122u8, 105u8, 112u8]);
        }
        return r;
    }
    octet_stream()
}

/// Relies on `std::path::Path::exists`: whether the path points at an
/// existing filesystem entity. The answer depends on the filesystem at the
/// moment of the call, so nothing further is promised of it.
#[verifier::external_body]
pub(crate) fn path_exists(p: &str) -> bool {
    std::path::Path::new(p).exists()
}

/// Relies on `std::path::Path::is_file`: whether the path points at a
/// regular file. The answer depends on the filesystem at the moment of the
/// call, so nothing further is promised of it.
#[verifier::external_body]
pub(crate) fn path_is_file(p: &str) -> bool {
    std::path::Path::new(p).is_file()
}

/// The status code owed to a probe of the filesystem: `200` when the target
/// was present, `404` when it was not.
pub fn status_for(present: bool) -> (r: i32)
    ensures
        present ==> r == 200,
        !present ==> r == 404,
{
    if present {
        200
    } else {
        404
    }
}

/// Serves a file as raw bytes with a media type from its extension. The
/// file's contents are read outside this crate.
pub struct FileBytes {
    pub file_path: String,
}

impl FileBytes {
    /// A file-serving resolution for a path.
    pub fn new(file_path: String) -> (r: Self)
        ensures
            r.file_path@ == file_path@,
    {
        FileBytes { file_path }
    }

    /// The media type for this path's extension.
    pub fn get_file_type_header(&self) -> (r: Vec<u8>)
        ensures
            r@ == spec_content_type(vstd::utf8::encode_utf8(self.file_path@)),
    {
        let bytes: &[u8] = self.file_path.as_str().as_bytes();
        let name = suffix_after_last(bytes, SLASH);
        let ext = suffix_after_last(name, DOT);
        if ext.len() == name.len() {
            return octet_stream();
        }
        if name.len() >= 1 && name[0] == DOT && ext.len() == name.len() - 1 {
            return octet_stream();
        }
        let lowered = to_lower_bytes(ext);
        mime_of(lowered.as_slice())
    }

    /// `200` when the path exists right now, else `404`.
    pub fn get_status(&self) -> (r: i32)
        ensures
            r == 200 || r == 404,
    {
        let present = path_exists(self.file_path.as_str());
        status_for(present)
    }

    /// The status header for the path's current presence, then the
    /// `Content-Type` for its extension.
    pub fn get_headers(&self) -> (r: Vec<Header>)
        ensures
            r@.len() == 2,
            r@[0].0@ == http11_name(),
            (r@[0].1 matches Some(v) && (v@ == spec_status_text(200) || v@ == spec_status_text(
                404,
            ))),
            r@[1].0@ == crate::json_resolution::content_type_name(),
            (r@[1].1 matches Some(v) && v@ == spec_content_type(
                vstd::utf8::encode_utf8(self.file_path@),
            )),
    {
        let mut r: Vec<Header> = Vec::new();
        r.push(get_status_header(self.get_status()));
        let name: Vec<u8> = vec![67u8, 111u8, 110u8, 116u8, 101u8, 110u8, 116u8, 45u8, 84u8, 121u8, 112u8, 101u8];
        proof {
            assert(name@ =~= crate::json_resolution::content_type_name());
        }
        r.push((name, Some(self.get_file_type_header())));
        r
    }
}

} // verus!
