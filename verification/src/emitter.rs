//! The response emitter's byte-level work: the head block, with the status
//! line taken from the reserved `HTTP/1.1` header and `Transfer-Encoding:
//! chunked` appended last, and the body in chunked transfer encoding. A spec
//! decoder states what a client reads back: decoding an emitted body yields
//! exactly the concatenation of the chunks.

use vstd::prelude::*;

use crate::bytes::{encode_hex, hex_digit, spec_hex};
use crate::request::{CR, LF, SPACE};
use crate::resolution::{http11_name, spec_status_text, Header};

verus! {

/// The line terminator.
pub open spec fn crlf() -> Seq<u8> {
    seq![CR, LF]
}

/// The default status text used when a resolution names none.
pub open spec fn default_status() -> Seq<u8> {
    spec_status_text(200)
}

/// The value of the first header named `HTTP/1.1`, when it has one.
pub open spec fn spec_status_of(hs: Seq<(Seq<u8>, Option<Seq<u8>>)>) -> Option<Seq<u8>>
    decreases hs.len(),
{
    if hs.len() == 0 {
        None
    } else if hs[0].0 == http11_name() && hs[0].1 is Some {
        hs[0].1
    } else {
        spec_status_of(hs.drop_first())
    }
}

/// The status text the head carries: the reserved header's value, or the
/// default.
pub open spec fn spec_status_text_of(hs: Seq<(Seq<u8>, Option<Seq<u8>>)>) -> Seq<u8> {
    match spec_status_of(hs) {
        Some(v) => v,
        None => default_status(),
    }
}

/// One emitted header line: `Name: Value` or just `Name`, then the line
/// terminator.
pub open spec fn spec_header_line(h: (Seq<u8>, Option<Seq<u8>>)) -> Seq<u8> {
    match h.1 {
        Some(v) => h.0 + seq![58u8, SPACE] + v + crlf(),
        None => h.0 + crlf(),
    }
}

/// The emitted lines of all headers but the reserved one, in order.
pub open spec fn spec_header_block(hs: Seq<(Seq<u8>, Option<Seq<u8>>)>) -> Seq<u8>
    decreases hs.len(),
{
    if hs.len() == 0 {
        Seq::empty()
    } else {
        spec_header_block(hs.drop_last()) + (if hs.last().0 == http11_name() {
            Seq::<u8>::empty()
        } else {
            spec_header_line(hs.last())
        })
    }
}

/// The trailing `Transfer-Encoding: chunked` header line, appended even
/// when the resolution set one of its own.
pub open spec fn te_chunked_line() -> Seq<u8> {
    seq![84u8, 114u8, 97u8, 110u8, 115u8, 102u8, 101u8, 114u8, 45u8, 69u8, 110u8, 99u8, 111u8,
        100u8, 105u8, 110u8, 103u8, 58u8, SPACE, 99u8, 104u8, 117u8, 110u8, 107u8, 101u8, 100u8]
        + crlf()
}

/// The whole head block: the status line, the header lines in insertion
/// order, the chunked transfer-encoding line, and the blank line.
pub open spec fn spec_head(hs: Seq<(Seq<u8>, Option<Seq<u8>>)>) -> Seq<u8> {
    http11_name() + seq![SPACE] + spec_status_text_of(hs) + crlf() + spec_header_block(hs)
        + te_chunked_line() + crlf()
}

/// The head block always begins with the status line `HTTP/1.1 <status>`;
/// when the first header is the reserved one carrying a status text, that
/// text is the one emitted.
pub proof fn lemma_status_line(hs: Seq<(Seq<u8>, Option<Seq<u8>>)>, status: Seq<u8>)
    requires
        hs.len() >= 1,
        hs[0].0 == http11_name(),
        hs[0].1 == Some(status),
    ensures
        spec_status_text_of(hs) == status,
        spec_head(hs).take(11 + status.len() as int) == http11_name() + seq![SPACE] + status
            + crlf(),
{
    assert(spec_head(hs).take(11 + status.len() as int) =~= http11_name() + seq![SPACE] + status
        + crlf());
}

/// The value of the first `HTTP/1.1` header, or nothing.
fn find_status(headers: &Vec<Header>) -> (r: Option<&Vec<u8>>)
    ensures
        match r {
            Some(v) => spec_status_of(views_of_headers(headers@)) == Some(v@),
            None => spec_status_of(views_of_headers(headers@)) is None,
        },
{
    let http11: Vec<u8> = vec![72u8, 84u8, 84u8, 80u8, 47u8, 49u8, 46u8, 49u8];
    proof {
        assert(http11@ =~= http11_name());
        assert(views_of_headers(headers@).skip(0) =~= views_of_headers(headers@));
    }
    let mut i: usize = 0;
    while i < headers.len()
        invariant
            i <= headers@.len(),
            http11@ == http11_name(),
            spec_status_of(views_of_headers(headers@).skip(i as int)) == spec_status_of(
                views_of_headers(headers@),
            ),
        decreases headers@.len() - i,
    {
        proof {
            assert(views_of_headers(headers@).skip(i as int)[0] == view_of_header(
                headers@[i as int],
            ));
            assert(views_of_headers(headers@).skip(i as int).drop_first() =~= views_of_headers(
                headers@,
            ).skip(i + 1));
        }
        if crate::bytes::bytes_eq(headers[i].0.as_slice(), http11.as_slice()) {
            match &headers[i].1 {
                Some(v) => {
                    return Some(v);
                },
                None => {
                },
            }
        }
        i = i + 1;
    }
    proof {
        assert(views_of_headers(headers@).skip(headers@.len() as int) =~= Seq::<
            (Seq<u8>, Option<Seq<u8>>),
        >::empty());
    }
    None
}

/// The view of one header.
pub open spec fn view_of_header(h: Header) -> (Seq<u8>, Option<Seq<u8>>) {
    (
        h.0@,
        match h.1 {
            Some(v) => Some(v@),
            None => None,
        },
    )
}

/// The views of a header list.
pub open spec fn views_of_headers(hs: Seq<Header>) -> Seq<(Seq<u8>, Option<Seq<u8>>)> {
    hs.map_values(|h: Header| view_of_header(h))
}

/// Composes the head block for a resolution's headers.
pub fn compose_head(headers: &Vec<Header>) -> (r: Vec<u8>)
    ensures
        r@ == spec_head(views_of_headers(headers@)),
{
    let ghost hs = views_of_headers(headers@);
    let mut r: Vec<u8> = vec![72u8, 84u8, 84u8, 80u8, 47u8, 49u8, 46u8, 49u8, SPACE];
    proof {
        assert(r@ =~= http11_name() + seq![SPACE]);
    }
    match find_status(headers) {
        Some(v) => {
            r.extend_from_slice(v.as_slice());
        },
        None => {
            let mut d = crate::resolution::get_status_header(200);
            match d.1 {
                Some(mut v) => {
                    r.append(&mut v);
                },
                None => {
                    proof {
                        assert(false);
                    }
                },
            }
        },
    }
    r.push(CR);
    r.push(LF);
    let ghost head_start = r@;
    proof {
        assert(head_start =~= http11_name() + seq![SPACE] + spec_status_text_of(hs) + crlf());
        assert(spec_header_block(hs.take(0)) =~= Seq::<u8>::empty());
        assert(r@ =~= head_start + spec_header_block(hs.take(0)));
    }
    let http11: Vec<u8> = vec![72u8, 84u8, 84u8, 80u8, 47u8, 49u8, 46u8, 49u8];
    proof {
        assert(http11@ =~= http11_name());
    }
    let mut i: usize = 0;
    while i < headers.len()
        invariant
            i <= headers@.len(),
            hs == views_of_headers(headers@),
            http11@ == http11_name(),
            r@ == head_start + spec_header_block(hs.take(i as int)),
        decreases headers@.len() - i,
    {
        let ghost pre = r@;
        proof {
            assert(hs.take(i + 1).drop_last() =~= hs.take(i as int));
            assert(hs.take(i + 1).last() == view_of_header(headers@[i as int]));
        }
        if !crate::bytes::bytes_eq(headers[i].0.as_slice(), http11.as_slice()) {
            r.extend_from_slice(headers[i].0.as_slice());
            match &headers[i].1 {
                Some(v) => {
                    r.push(58u8);
                    r.push(SPACE);
                    r.extend_from_slice(v.as_slice());
                    r.push(CR);
                    r.push(LF);
                    proof {
                        assert(r@ =~= pre + spec_header_line(view_of_header(headers@[i as int])));
                    }
                },
                None => {
                    r.push(CR);
                    r.push(LF);
                    proof {
                        assert(r@ =~= pre + spec_header_line(view_of_header(headers@[i as int])));
                    }
                },
            }
            proof {
                assert(r@ =~= head_start + spec_header_block(hs.take(i + 1)));
            }
        } else {
            proof {
                assert(r@ =~= head_start + spec_header_block(hs.take(i + 1)));
            }
        }
        i = i + 1;
    }
    proof {
        assert(hs.take(hs.len() as int) =~= hs);
    }
    let te: Vec<u8> = vec![84u8, 114u8, 97u8, 110u8, 115u8, 102u8, 101u8, 114u8, 45u8, 69u8, 110u8,
        99u8, 111u8, 100u8, 105u8, 110u8, 103u8, 58u8, SPACE, 99u8, 104u8, 117u8, 110u8, 107u8,
        101u8, 100u8, CR, LF];
    proof {
        assert(te@ =~= te_chunked_line());
    }
    r.extend_from_slice(te.as_slice());
    r.push(CR);
    r.push(LF);
    proof {
        assert(r@ =~= spec_head(hs));
    }
    r
}

/// The final chunk marker: a zero length line and the blank line.
pub open spec fn terminator() -> Seq<u8> {
    seq![48u8, CR, LF, CR, LF]
}

/// One emitted chunk: its length in lowercase hexadecimal, the terminator,
/// the bytes, the terminator; an empty chunk is skipped entirely.
pub open spec fn spec_chunk(data: Seq<u8>) -> Seq<u8> {
    if data.len() == 0 {
        Seq::empty()
    } else {
        spec_hex(data.len() as nat) + crlf() + data + crlf()
    }
}

/// The emitted body: each chunk in order, then the final marker.
pub open spec fn spec_chunked_body(chunks: Seq<Seq<u8>>) -> Seq<u8>
    decreases chunks.len(),
{
    if chunks.len() == 0 {
        terminator()
    } else {
        spec_chunk(chunks[0]) + spec_chunked_body(chunks.drop_first())
    }
}

/// Encodes one chunk.
pub fn encode_chunk(data: &Vec<u8>) -> (r: Vec<u8>)
    ensures
        r@ == spec_chunk(data@),
{
    if data.len() == 0 {
        proof {
            assert(Seq::<u8>::empty() =~= spec_chunk(data@));
        }
        return Vec::new();
    }
    let mut r = encode_hex(data.len() as u64);
    r.push(CR);
    r.push(LF);
    r.extend_from_slice(data.as_slice());
    r.push(CR);
    r.push(LF);
    proof {
        assert(r@ =~= spec_chunk(data@));
    }
    r
}

/// Encodes a whole body: every chunk, then the final marker.
pub fn encode_chunks(chunks: &Vec<Vec<u8>>) -> (r: Vec<u8>)
    ensures
        r@ == spec_chunked_body(crate::segments::views_of(chunks@)),
{
    let ghost vs = crate::segments::views_of(chunks@);
    let mut r: Vec<u8> = Vec::new();
    let mut i: usize = 0;
    proof {
        assert(vs.skip(0) =~= vs);
        assert(r@ + spec_chunked_body(vs.skip(0)) =~= spec_chunked_body(vs));
    }
    while i < chunks.len()
        invariant
            i <= chunks@.len(),
            vs == crate::segments::views_of(chunks@),
            r@ + spec_chunked_body(vs.skip(i as int)) == spec_chunked_body(vs),
        decreases chunks@.len() - i,
    {
        let ghost pre = r@;
        let mut c = encode_chunk(&chunks[i]);
        r.append(&mut c);
        proof {
            assert(vs.skip(i as int)[0] == vs[i as int]);
            assert(vs.skip(i as int).drop_first() =~= vs.skip(i + 1));
            assert(pre + (spec_chunk(vs[i as int]) + spec_chunked_body(vs.skip(i + 1))) =~= (pre
                + spec_chunk(vs[i as int])) + spec_chunked_body(vs.skip(i + 1)));
        }
        i = i + 1;
    }
    let term: Vec<u8> = vec![48u8, CR, LF, CR, LF];
    proof {
        assert(term@ =~= terminator());
        assert(vs.skip(vs.len() as int) =~= Seq::<Seq<u8>>::empty());
    }
    r.extend_from_slice(term.as_slice());
    proof {
        assert(r@ =~= spec_chunked_body(vs));
    }
    r
}


/// A lowercase hexadecimal digit byte.
pub open spec fn is_hex_byte(b: u8) -> bool {
    (48 <= b <= 57) || (97 <= b <= 102)
}

/// Every byte of `s` is a lowercase hexadecimal digit.
pub open spec fn all_hex(s: Seq<u8>) -> bool {
    forall|i: int| 0 <= i < s.len() ==> is_hex_byte(s[i])
}

/// The value of one lowercase hexadecimal digit byte.
pub open spec fn hex_byte_val(b: u8) -> nat {
    if 48 <= b <= 57 {
        (b - 48) as nat
    } else {
        (b - 87) as nat
    }
}

/// The number denoted by lowercase hexadecimal digit bytes.
pub open spec fn spec_hex_val(s: Seq<u8>) -> nat
    decreases s.len(),
{
    if s.len() == 0 {
        0
    } else {
        spec_hex_val(s.drop_last()) * 16 + hex_byte_val(s.last())
    }
}

/// One hexadecimal digit byte denotes its digit.
proof fn lemma_hex_digit_val(d: nat)
    requires
        d < 16,
    ensures
        is_hex_byte(hex_digit(d)),
        hex_byte_val(hex_digit(d)) == d,
{
}

/// The digits the hexadecimal encoder writes are hexadecimal digits, and
/// they denote the encoded number.
pub proof fn lemma_hex_round_trip(n: nat)
    ensures
        all_hex(spec_hex(n)),
        spec_hex_val(spec_hex(n)) == n,
        spec_hex(n).len() >= 1,
    decreases n,
{
    if n < 16 {
        lemma_hex_digit_val(n);
        assert(spec_hex_val(Seq::<u8>::empty()) == 0);
        assert(spec_hex(n) =~= seq![hex_digit(n)]);
        assert(spec_hex(n).drop_last() =~= Seq::<u8>::empty());
        assert(spec_hex(n).last() == hex_digit(n));
        assert forall|i: int| 0 <= i < spec_hex(n).len() implies is_hex_byte(spec_hex(n)[i]) by {
            assert(spec_hex(n)[i] == hex_digit(n));
        }
    } else {
        lemma_hex_digit_val(n % 16);
        lemma_hex_round_trip(n / 16);
        let s = spec_hex(n / 16);
        assert(spec_hex(n) =~= s.push(hex_digit(n % 16)));
        assert(spec_hex(n).drop_last() =~= s);
        assert(spec_hex(n).last() == hex_digit(n % 16));
        assert forall|i: int| 0 <= i < spec_hex(n).len() implies is_hex_byte(spec_hex(n)[i]) by {
            if i < s.len() {
                assert(spec_hex(n)[i] == s[i]);
            }
        }
        assert(spec_hex_val(spec_hex(n)) == (n / 16) * 16 + n % 16);
        assert((n / 16) * 16 + n % 16 == n) by (nonlinear_arith);
    }
}

/// What a client's chunked-transfer decoder reads from a body: each chunk's
/// bytes in order, or nothing when the body is not well-formed chunked
/// encoding.
pub open spec fn spec_decode_chunked(s: Seq<u8>) -> Option<Seq<u8>>
    decreases s.len(),
    via spec_decode_chunked_dec
{
    match crate::bytes::spec_split_first(s, CR) {
        None => None,
        Some((size, rest)) => {
            if size.len() == 0 || !all_hex(size) {
                None
            } else {
                let n = spec_hex_val(size) as int;
                if n == 0 {
                    if rest == seq![LF, CR, LF] {
                        Some(Seq::empty())
                    } else {
                        None
                    }
                } else {
                    if rest.len() >= n + 3 && rest[0] == LF && rest[n + 1] == CR && rest[n + 2]
                        == LF {
                        match spec_decode_chunked(rest.skip(n + 3)) {
                            Some(tail) => Some(rest.subrange(1, n + 1) + tail),
                            None => None,
                        }
                    } else {
                        None
                    }
                }
            }
        },
    }
}

#[via_fn]
proof fn spec_decode_chunked_dec(s: Seq<u8>) {
    crate::bytes::lemma_split_first_len(s, CR);
}

/// The concatenation of a body's chunks.
pub open spec fn spec_concat(chunks: Seq<Seq<u8>>) -> Seq<u8>
    decreases chunks.len(),
{
    if chunks.len() == 0 {
        Seq::empty()
    } else {
        chunks[0] + spec_concat(chunks.drop_first())
    }
}

/// An encoded body is never shorter than the final marker.
proof fn lemma_chunked_body_min_len(chunks: Seq<Seq<u8>>)
    ensures
        spec_chunked_body(chunks).len() >= 5,
    decreases chunks.len(),
{
    if chunks.len() > 0 {
        lemma_chunked_body_min_len(chunks.drop_first());
    }
}

/// The round trip of the wire encoding: decoding an emitted chunked body
/// yields exactly the concatenation of the resolution's chunks, so a client
/// reads back the body the resolution produced.
pub proof fn lemma_chunked_round_trip(chunks: Seq<Seq<u8>>)
    ensures
        spec_decode_chunked(spec_chunked_body(chunks)) == Some(spec_concat(chunks)),
    decreases chunks.len(),
{
    if chunks.len() == 0 {
        let s = terminator();
        assert(s[0] == 48 && s[1] == CR);
        crate::bytes::lemma_split_first_at(s, CR, 1);
        assert(s.take(1) =~= seq![48u8]);
        assert(s.skip(2) =~= seq![LF, CR, LF]);
        assert(spec_hex_val(seq![48u8]) == 0) by {
            assert(spec_hex_val(Seq::<u8>::empty()) == 0);
            assert(seq![48u8].drop_last() =~= Seq::<u8>::empty());
            assert(seq![48u8].last() == 48u8);
        }
        assert(all_hex(s.take(1))) by {
            assert(s.take(1)[0] == 48u8);
        }
        assert(spec_decode_chunked(s) == Some(Seq::<u8>::empty()));
    } else {
        let c0 = chunks[0];
        let tail = spec_chunked_body(chunks.drop_first());
        lemma_chunked_round_trip(chunks.drop_first());
        lemma_chunked_body_min_len(chunks.drop_first());
        if c0.len() == 0 {
            assert(spec_chunked_body(chunks) =~= tail);
            assert(spec_concat(chunks) =~= spec_concat(chunks.drop_first()));
        } else {
            let n = c0.len() as int;
            let h = spec_hex(c0.len() as nat);
            lemma_hex_round_trip(c0.len() as nat);
            let s = spec_chunked_body(chunks);
            assert(s =~= h + crlf() + c0 + crlf() + tail);
            let hl = h.len() as int;
            assert(s[hl] == CR);
            assert(forall|j: int| 0 <= j < hl ==> s[j] == h[j]);
            crate::bytes::lemma_split_first_at(s, CR, hl);
            let size = s.take(hl);
            let rest = s.skip(hl + 1);
            assert(size =~= h);
            assert(rest =~= seq![LF] + c0 + crlf() + tail);
            assert(spec_hex_val(size) == c0.len());
            assert(rest.len() == n + 3 + tail.len());
            assert(rest[0] == LF);
            assert(rest[n + 1] == CR);
            assert(rest[n + 2] == LF);
            assert(rest.skip(n + 3) =~= tail);
            assert(rest.subrange(1, n + 1) =~= c0);
            assert(spec_decode_chunked(s) == Some(c0 + spec_concat(chunks.drop_first())));
            assert(spec_concat(chunks) == c0 + spec_concat(chunks.drop_first()));
        }
    }
}

} // verus!
