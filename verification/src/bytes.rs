//! Byte-level utilities shared by the parser, the router and the emitter:
//! slice equality, ASCII-whitespace trimming, and decimal/hexadecimal codecs.

use vstd::prelude::*;

verus! {

/// Compares two byte slices for equality of contents.
pub fn bytes_eq(a: &[u8], b: &[u8]) -> (r: bool)
    ensures
        r == (a@ == b@),
{
    if a.len() != b.len() {
        return false;
    }
    let mut i: usize = 0;
    while i < a.len()
        invariant
            i <= a@.len(),
            a@.len() == b@.len(),
            forall|j: int| 0 <= j < i ==> a@[j] == b@[j],
        decreases a@.len() - i,
    {
        if a[i] != b[i] {
            return false;
        }
        i = i + 1;
    }
    proof {
        assert(a@ =~= b@);
    }
    true
}

/// An ASCII whitespace byte: space, tab, line feed, vertical tab, form feed
/// or carriage return.
pub open spec fn is_ws(b: u8) -> bool {
    b == 32 || b == 9 || b == 10 || b == 11 || b == 12 || b == 13
}

/// `s` with every trailing whitespace byte removed.
pub open spec fn spec_trim_end(s: Seq<u8>) -> Seq<u8>
    decreases s.len(),
{
    if s.len() > 0 && is_ws(s.last()) {
        spec_trim_end(s.drop_last())
    } else {
        s
    }
}

/// `s` with every leading whitespace byte removed.
pub open spec fn spec_trim_start(s: Seq<u8>) -> Seq<u8>
    decreases s.len(),
{
    if s.len() > 0 && is_ws(s[0]) {
        spec_trim_start(s.drop_first())
    } else {
        s
    }
}

/// `s` with whitespace removed from both ends.
pub open spec fn spec_trim(s: Seq<u8>) -> Seq<u8> {
    spec_trim_start(spec_trim_end(s))
}

fn is_ws_byte(b: u8) -> (r: bool)
    ensures
        r == is_ws(b),
{
    b == 32 || b == 9 || b == 10 || b == 11 || b == 12 || b == 13
}

/// Removes ASCII whitespace from both ends of `s`.
pub fn trim_bytes(s: &[u8]) -> (r: Vec<u8>)
    ensures
        r@ == spec_trim(s@),
{
    let mut hi: usize = s.len();
    proof {
        assert(s@.take(s@.len() as int) =~= s@);
    }
    while hi > 0 && is_ws_byte(s[hi - 1])
        invariant
            hi <= s@.len(),
            spec_trim_end(s@.take(hi as int)) == spec_trim_end(s@),
        decreases hi,
    {
        proof {
            assert(s@.take(hi as int).drop_last() =~= s@.take(hi - 1));
        }
        hi = hi - 1;
    }
    let ghost kept = s@.take(hi as int);
    proof {
        assert(kept == spec_trim_end(s@));
    }
    let mut lo: usize = 0;
    proof {
        assert(kept.skip(0) =~= kept);
    }
    while lo < hi && is_ws_byte(s[lo])
        invariant
            lo <= hi <= s@.len(),
            kept == s@.take(hi as int),
            spec_trim_start(kept.skip(lo as int)) == spec_trim_start(kept),
        decreases hi - lo,
    {
        proof {
            assert(kept.skip(lo as int).drop_first() =~= kept.skip(lo + 1));
            assert(kept.skip(lo as int)[0] == s@[lo as int]);
        }
        lo = lo + 1;
    }
    let mut r: Vec<u8> = Vec::new();
    let mut i: usize = lo;
    while i < hi
        invariant
            lo <= i <= hi <= s@.len(),
            r@ == s@.subrange(lo as int, i as int),
        decreases hi - i,
    {
        r.push(s[i]);
        proof {
            assert(s@.subrange(lo as int, i + 1) =~= s@.subrange(lo as int, i as int).push(
                s@[i as int],
            ));
        }
        i = i + 1;
    }
    proof {
        assert(kept.skip(lo as int) =~= s@.subrange(lo as int, hi as int));
        if lo < hi {
            assert(!is_ws(kept.skip(lo as int)[0]));
            assert(spec_trim_start(kept.skip(lo as int)) == kept.skip(lo as int));
        } else {
            assert(kept.skip(lo as int) =~= Seq::<u8>::empty());
        }
    }
    r
}


/// Removes ASCII whitespace from the end of `s`.
pub fn trim_end_bytes(s: &[u8]) -> (r: Vec<u8>)
    ensures
        r@ == spec_trim_end(s@),
{
    let mut hi: usize = s.len();
    proof {
        assert(s@.take(s@.len() as int) =~= s@);
    }
    while hi > 0 && is_ws_byte(s[hi - 1])
        invariant
            hi <= s@.len(),
            spec_trim_end(s@.take(hi as int)) == spec_trim_end(s@),
        decreases hi,
    {
        proof {
            assert(s@.take(hi as int).drop_last() =~= s@.take(hi - 1));
        }
        hi = hi - 1;
    }
    let mut r: Vec<u8> = Vec::new();
    let mut i: usize = 0;
    while i < hi
        invariant
            i <= hi <= s@.len(),
            spec_trim_end(s@.take(hi as int)) == spec_trim_end(s@),
            hi > 0 ==> !is_ws(s@[hi - 1]),
            r@ == s@.subrange(0, i as int),
        decreases hi - i,
    {
        r.push(s[i]);
        proof {
            assert(s@.subrange(0, i + 1) =~= s@.subrange(0, i as int).push(s@[i as int]));
        }
        i = i + 1;
    }
    proof {
        assert(r@ =~= s@.take(hi as int));
        assert(spec_trim_end(s@.take(hi as int)) == s@.take(hi as int));
    }
    r
}

/// A decimal digit byte.
pub open spec fn is_digit(b: u8) -> bool {
    48 <= b <= 57
}

/// Every byte of `s` is a decimal digit.
pub open spec fn all_digits(s: Seq<u8>) -> bool {
    forall|i: int| 0 <= i < s.len() ==> is_digit(s[i])
}

/// The number denoted by a sequence of decimal digit bytes.
pub open spec fn spec_digits_val(s: Seq<u8>) -> nat
    decreases s.len(),
{
    if s.len() == 0 {
        0
    } else {
        (spec_digits_val(s.drop_last()) * 10 + (s.last() - 48)) as nat
    }
}

/// What `usize` parsing accepts for a `Content-Length` value: an optional
/// leading `+`, then one or more decimal digits denoting a number that fits.
pub open spec fn spec_parse_usize(s: Seq<u8>) -> Option<usize> {
    let t = if s.len() > 0 && s[0] == 43 {
        s.drop_first()
    } else {
        s
    };
    if t.len() > 0 && all_digits(t) && spec_digits_val(t) <= usize::MAX {
        Some(spec_digits_val(t) as usize)
    } else {
        None
    }
}

proof fn lemma_digits_val_step(s: Seq<u8>, i: int)
    requires
        0 <= i < s.len(),
        is_digit(s[i]),
    ensures
        spec_digits_val(s.take(i + 1)) == spec_digits_val(s.take(i)) * 10 + (s[i] - 48),
{
    assert(s.take(i + 1).drop_last() =~= s.take(i));
    assert(s.take(i + 1).last() == s[i]);
    assert(spec_digits_val(s.take(i)) * 10 + (s[i] - 48) >= 0);
}

/// Parses an unsigned decimal number, as `str::parse::<usize>` would accept
/// it, except that a leading `-` (always out of range for `usize` unless the
/// value is handled specially) is rejected here outright.
pub fn parse_usize(s: &[u8]) -> (r: Option<usize>)
    ensures
        r == spec_parse_usize(s@),
{
    let mut lo: usize = 0;
    if s.len() > 0 && s[0] == 43 {
        lo = 1;
    }
    let ghost t = s@.skip(lo as int);
    proof {
        assert(s@.skip(0) =~= s@);
        if s@.len() > 0 {
            assert(s@.skip(1) =~= s@.drop_first());
        }
    }
    if lo == s.len() {
        proof {
            assert(t =~= Seq::<u8>::empty());
        }
        return None;
    }
    let mut acc: usize = 0;
    let mut i: usize = lo;
    while i < s.len()
        invariant
            lo <= i <= s@.len(),
            lo < s@.len(),
            t == s@.skip(lo as int),
            t == (if s@.len() > 0 && s@[0] == 43 {
                s@.drop_first()
            } else {
                s@
            }),
            all_digits(t.take(i - lo)),
            acc == spec_digits_val(t.take(i - lo)),
        decreases s@.len() - i,
    {
        let b: u8 = s[i];
        if !(48 <= b && b <= 57) {
            proof {
                assert(t[i - lo] == s@[i as int]);
                assert(!all_digits(t));
            }
            return None;
        }
        let d: usize = (b - 48) as usize;
        proof {
            assert(t[i - lo] == s@[i as int]);
        }
        if acc > (usize::MAX - d) / 10 {
            proof {
                assert(acc * 10 + d > usize::MAX) by (nonlinear_arith)
                    requires
                        acc > (usize::MAX - d) / 10,
                        d <= 9,
                ;
                lemma_digits_val_step(t, i - lo);
                assert(t.take(i - lo + 1) == t.take(i + 1 - lo));
                if all_digits(t) {
                    lemma_digits_prefix_le(t, i + 1 - lo);
                }
            }
            return None;
        }
        proof {
            assert(acc * 10 + d <= usize::MAX) by (nonlinear_arith)
                requires
                    acc <= (usize::MAX - d) / 10,
                    d <= 9,
            ;
            lemma_digits_val_step(t, i - lo);
            assert(t.take(i + 1 - lo).drop_last() =~= t.take(i - lo));
        }
        acc = acc * 10 + d;
        i = i + 1;
    }
    proof {
        assert(t.take(s@.len() - lo) =~= t);
    }
    Some(acc)
}

/// A digit sequence denotes at least what any of its prefixes denotes.
proof fn lemma_digits_prefix_le(s: Seq<u8>, i: int)
    requires
        0 <= i <= s.len(),
        all_digits(s),
    ensures
        spec_digits_val(s.take(i)) <= spec_digits_val(s),
    decreases s.len() - i,
{
    if i < s.len() {
        lemma_digits_val_step(s, i);
        let a = spec_digits_val(s.take(i));
        let d = s[i] - 48;
        assert(a <= a * 10 + d) by (nonlinear_arith)
            requires
                a >= 0,
                d >= 0,
        ;
        lemma_digits_prefix_le(s, i + 1);
    } else {
        assert(s.take(i) =~= s);
    }
}

/// The decimal digit bytes of `n`.
pub open spec fn spec_decimal(n: nat) -> Seq<u8>
    decreases n,
{
    if n < 10 {
        seq![(48 + n) as u8]
    } else {
        spec_decimal(n / 10).push((48 + n % 10) as u8)
    }
}

/// Writes `n` in decimal.
pub fn encode_decimal(n: u64) -> (v: Vec<u8>)
    ensures
        v@ == spec_decimal(n as nat),
    decreases n,
{
    if n < 10 {
        vec![(48 + n) as u8]
    } else {
        let mut v = encode_decimal(n / 10);
        v.push((48 + n % 10) as u8);
        v
    }
}

/// The lowercase hexadecimal digit bytes of `n`.
pub open spec fn spec_hex(n: nat) -> Seq<u8>
    decreases n,
{
    if n < 16 {
        seq![hex_digit(n)]
    } else {
        spec_hex(n / 16).push(hex_digit(n % 16))
    }
}

/// The byte for one hexadecimal digit, `0`-`9` then `a`-`f`.
pub open spec fn hex_digit(d: nat) -> u8 {
    if d < 10 {
        (48 + d) as u8
    } else {
        (87 + d) as u8
    }
}

fn hex_digit_byte(d: u64) -> (b: u8)
    requires
        d < 16,
    ensures
        b == hex_digit(d as nat),
{
    if d < 10 {
        (48 + d) as u8
    } else {
        (87 + d) as u8
    }
}

/// Writes `n` in lowercase hexadecimal.
pub fn encode_hex(n: u64) -> (v: Vec<u8>)
    ensures
        v@ == spec_hex(n as nat),
    decreases n,
{
    if n < 16 {
        vec![hex_digit_byte(n)]
    } else {
        let mut v = encode_hex(n / 16);
        v.push(hex_digit_byte(n % 16));
        v
    }
}


/// Splits `s` at the first occurrence of `sep`: the part before it and the
/// part after it, or nothing when `sep` does not occur.
pub open spec fn spec_split_first(s: Seq<u8>, sep: u8) -> Option<(Seq<u8>, Seq<u8>)>
    decreases s.len(),
{
    if s.len() == 0 {
        None
    } else if s[0] == sep {
        Some((Seq::empty(), s.drop_first()))
    } else {
        match spec_split_first(s.drop_first(), sep) {
            None => None,
            Some((a, b)) => Some((seq![s[0]] + a, b)),
        }
    }
}

pub proof fn lemma_split_first_at(s: Seq<u8>, sep: u8, i: int)
    requires
        0 <= i < s.len(),
        s[i] == sep,
        forall|j: int| 0 <= j < i ==> s[j] != sep,
    ensures
        spec_split_first(s, sep) == Some((s.take(i), s.skip(i + 1))),
    decreases i,
{
    if i == 0 {
        assert(s.take(0) =~= Seq::<u8>::empty());
        assert(s.skip(1) =~= s.drop_first());
    } else {
        lemma_split_first_at(s.drop_first(), sep, i - 1);
        assert(seq![s[0]] + s.drop_first().take(i - 1) =~= s.take(i));
        assert(s.drop_first().skip(i) =~= s.skip(i + 1));
    }
}

proof fn lemma_split_first_none(s: Seq<u8>, sep: u8)
    requires
        forall|j: int| 0 <= j < s.len() ==> s[j] != sep,
    ensures
        spec_split_first(s, sep) is None,
    decreases s.len(),
{
    if s.len() > 0 {
        lemma_split_first_none(s.drop_first(), sep);
    }
}

/// Splits a slice at the first occurrence of `sep`, as [`spec_split_first`]
/// describes.
pub fn split_once_byte<'a>(s: &'a [u8], sep: u8) -> (r: Option<(&'a [u8], &'a [u8])>)
    ensures
        match r {
            Some((a, b)) => spec_split_first(s@, sep) == Some((a@, b@)),
            None => spec_split_first(s@, sep) is None,
        },
{
    let mut i: usize = 0;
    while i < s.len()
        invariant
            i <= s@.len(),
            forall|j: int| 0 <= j < i ==> s@[j] != sep,
        decreases s@.len() - i,
    {
        if s[i] == sep {
            let a: &[u8] = &s[0..i];
            let b: &[u8] = &s[i + 1..s.len()];
            proof {
                lemma_split_first_at(s@, sep, i as int);
                assert(a@ =~= s@.take(i as int));
                assert(b@ =~= s@.skip(i + 1));
            }
            return Some((a, b));
        }
        i = i + 1;
    }
    proof {
        lemma_split_first_none(s@, sep);
    }
    None
}

/// The views of a sequence of byte-vector pairs.
pub open spec fn pairs_view(m: Seq<(Vec<u8>, Vec<u8>)>) -> Seq<(Seq<u8>, Seq<u8>)> {
    m.map_values(|p: (Vec<u8>, Vec<u8>)| (p.0@, p.1@))
}

/// The value under the first entry of `m` whose key is `k`.
pub open spec fn spec_assoc_get(m: Seq<(Seq<u8>, Seq<u8>)>, k: Seq<u8>) -> Option<Seq<u8>>
    decreases m.len(),
{
    if m.len() == 0 {
        None
    } else if m[0].0 == k {
        Some(m[0].1)
    } else {
        spec_assoc_get(m.drop_first(), k)
    }
}

/// `m` with `v` stored under `k`: the first entry keyed `k` is replaced, or a
/// new entry is appended when none exists.
pub open spec fn spec_assoc_insert(
    m: Seq<(Seq<u8>, Seq<u8>)>,
    k: Seq<u8>,
    v: Seq<u8>,
) -> Seq<(Seq<u8>, Seq<u8>)>
    decreases m.len(),
{
    if m.len() == 0 {
        seq![(k, v)]
    } else if m[0].0 == k {
        seq![(k, v)] + m.drop_first()
    } else {
        seq![m[0]] + spec_assoc_insert(m.drop_first(), k, v)
    }
}

/// Looks `k` up in an association list, returning the first match.
pub fn assoc_get<'a>(m: &'a Vec<(Vec<u8>, Vec<u8>)>, k: &[u8]) -> (r: Option<&'a Vec<u8>>)
    ensures
        match r {
            Some(v) => spec_assoc_get(pairs_view(m@), k@) == Some(v@),
            None => spec_assoc_get(pairs_view(m@), k@) is None,
        },
{
    let mut i: usize = 0;
    proof {
        assert(pairs_view(m@).skip(0) =~= pairs_view(m@));
    }
    while i < m.len()
        invariant
            i <= m@.len(),
            spec_assoc_get(pairs_view(m@).skip(i as int), k@) == spec_assoc_get(
                pairs_view(m@),
                k@,
            ),
        decreases m@.len() - i,
    {
        proof {
            assert(pairs_view(m@).skip(i as int)[0] == (m@[i as int].0@, m@[i as int].1@));
            assert(pairs_view(m@).skip(i as int).drop_first() =~= pairs_view(m@).skip(i + 1));
        }
        if bytes_eq(m[i].0.as_slice(), k) {
            return Some(&m[i].1);
        }
        i = i + 1;
    }
    proof {
        assert(pairs_view(m@).skip(m@.len() as int) =~= Seq::<(Seq<u8>, Seq<u8>)>::empty());
    }
    None
}

/// Stores `v` under `k`, replacing the first entry with that key, or
/// appending a new one.
pub fn assoc_insert(m: &mut Vec<(Vec<u8>, Vec<u8>)>, k: Vec<u8>, v: Vec<u8>)
    ensures
        pairs_view(final(m)@) == spec_assoc_insert(pairs_view(old(m)@), k@, v@),
{
    let mut i: usize = 0;
    while i < m.len()
        invariant
            i <= m@.len(),
            m@ == old(m)@,
            forall|j: int| 0 <= j < i ==> pairs_view(m@)[j].0 != k@,
        decreases m@.len() - i,
    {
        proof {
            assert(pairs_view(m@)[i as int] == (m@[i as int].0@, m@[i as int].1@));
        }
        if bytes_eq(m[i].0.as_slice(), k.as_slice()) {
            m[i] = (k, v);
            proof {
                lemma_assoc_insert_found(pairs_view(old(m)@), k@, v@, i as int);
                assert(pairs_view(m@) =~= pairs_view(old(m)@).update(
                    i as int,
                    (k@, v@),
                ));
            }
            return ;
        }
        i = i + 1;
    }
    m.push((k, v));
    proof {
        lemma_assoc_insert_missing(pairs_view(old(m)@), k@, v@);
        assert(pairs_view(m@) =~= pairs_view(old(m)@).push((k@, v@)));
    }
}

proof fn lemma_assoc_insert_found(m: Seq<(Seq<u8>, Seq<u8>)>, k: Seq<u8>, v: Seq<u8>, i: int)
    requires
        0 <= i < m.len(),
        m[i].0 == k,
        forall|j: int| 0 <= j < i ==> m[j].0 != k,
    ensures
        spec_assoc_insert(m, k, v) == m.update(i, (k, v)),
    decreases i,
{
    if i == 0 {
        assert(seq![(k, v)] + m.drop_first() =~= m.update(0, (k, v)));
    } else {
        lemma_assoc_insert_found(m.drop_first(), k, v, i - 1);
        assert(m.drop_first()[i - 1] == m[i]);
        assert(seq![m[0]] + m.drop_first().update(i - 1, (k, v)) =~= m.update(i, (k, v)));
    }
}

proof fn lemma_assoc_insert_missing(m: Seq<(Seq<u8>, Seq<u8>)>, k: Seq<u8>, v: Seq<u8>)
    requires
        forall|j: int| 0 <= j < m.len() ==> m[j].0 != k,
    ensures
        spec_assoc_insert(m, k, v) == m.push((k, v)),
    decreases m.len(),
{
    if m.len() == 0 {
        assert(seq![(k, v)] =~= m.push((k, v)));
    } else {
        lemma_assoc_insert_missing(m.drop_first(), k, v);
        assert(seq![m[0]] + m.drop_first().push((k, v)) =~= m.push((k, v)));
    }
}


/// A split's two halves are shorter than the whole: they omit the separator.
pub proof fn lemma_split_first_len(s: Seq<u8>, sep: u8)
    ensures
        spec_split_first(s, sep) matches Some((a, b)) ==> a.len() + 1 + b.len() == s.len(),
    decreases s.len(),
{
    if s.len() > 0 && s[0] != sep {
        lemma_split_first_len(s.drop_first(), sep);
    }
}

/// Stores each pair of `ps` in turn into the association list `m`.
pub open spec fn spec_collect_into(
    m: Seq<(Seq<u8>, Seq<u8>)>,
    ps: Seq<(Seq<u8>, Seq<u8>)>,
) -> Seq<(Seq<u8>, Seq<u8>)>
    decreases ps.len(),
{
    if ps.len() == 0 {
        m
    } else {
        spec_collect_into(spec_assoc_insert(m, ps[0].0, ps[0].1), ps.drop_first())
    }
}

/// Collecting a concatenation collects the first part, then the second.
pub proof fn lemma_collect_into_concat(
    m: Seq<(Seq<u8>, Seq<u8>)>,
    a: Seq<(Seq<u8>, Seq<u8>)>,
    b: Seq<(Seq<u8>, Seq<u8>)>,
)
    ensures
        spec_collect_into(m, a + b) == spec_collect_into(spec_collect_into(m, a), b),
    decreases a.len(),
{
    if a.len() == 0 {
        assert(a + b =~= b);
    } else {
        assert((a + b)[0] == a[0]);
        assert((a + b).drop_first() =~= a.drop_first() + b);
        lemma_collect_into_concat(spec_assoc_insert(m, a[0].0, a[0].1), a.drop_first(), b);
    }
}

} // verus!
