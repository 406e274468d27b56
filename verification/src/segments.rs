//! Path segmentation: a path is equivalent to its sequence of non-empty
//! `/`-separated segments, so leading, trailing and repeated separators do
//! not matter.

use vstd::prelude::*;

verus! {


/// The byte value of the path separator `/`.
pub const SLASH: u8 = 47;

/// Helper for [`spec_segments`]: `cur` is the partial segment read so far.
pub open spec fn spec_segments_rec(path: Seq<u8>, cur: Seq<u8>) -> Seq<Seq<u8>>
    decreases path.len(),
{
    if path.len() == 0 {
        if cur.len() > 0 {
            seq![cur]
        } else {
            Seq::empty()
        }
    } else if path[0] == SLASH {
        (if cur.len() > 0 {
            seq![cur]
        } else {
            Seq::empty()
        }) + spec_segments_rec(path.drop_first(), Seq::empty())
    } else {
        spec_segments_rec(path.drop_first(), cur.push(path[0]))
    }
}

/// Splits a path into its non-empty segments, so leading, trailing and
/// repeated separators are all equivalent to a single one.
pub open spec fn spec_segments(path: Seq<u8>) -> Seq<Seq<u8>> {
    spec_segments_rec(path, Seq::empty())
}

/// The views of a sequence of byte vectors.
pub open spec fn views_of(v: Seq<Vec<u8>>) -> Seq<Seq<u8>> {
    v.map_values(|s: Vec<u8>| s@)
}

/// Splits a path into its non-empty `/`-separated segments.
pub fn split_segments(path: &[u8]) -> (segs: Vec<Vec<u8>>)
    ensures
        views_of(segs@) == spec_segments(path@),
{
    let mut segs: Vec<Vec<u8>> = Vec::new();
    let mut cur: Vec<u8> = Vec::new();
    let mut i: usize = 0;
    proof {
        assert(path@.skip(0) =~= path@);
        assert(views_of(segs@) + spec_segments_rec(path@, cur@)
            =~= spec_segments(path@));
    }
    while i < path.len()
        invariant
            i <= path@.len(),
            views_of(segs@) + spec_segments_rec(path@.skip(i as int), cur@)
                == spec_segments(path@),
        decreases path@.len() - i,
    {
        let ghost old_segs = views_of(segs@);
        let ghost old_cur = cur@;
        let ghost rest = path@.skip(i as int);
        let b: u8 = path[i];
        proof {
            assert(rest.drop_first() =~= path@.skip(i + 1));
            assert(rest[0] == path@[i as int]);
        }
        if b == SLASH {
            if cur.len() > 0 {
                let done = cur;
                cur = Vec::new();
                segs.push(done);
                proof {
                    assert(spec_segments_rec(rest, old_cur) == seq![old_cur]
                        + spec_segments_rec(rest.drop_first(), Seq::empty()));
                    assert(views_of(segs@) =~= old_segs.push(done@));
                    assert(old_segs.push(done@) + spec_segments_rec(path@.skip(i + 1), cur@)
                        =~= old_segs + (seq![old_cur] + spec_segments_rec(
                        path@.skip(i + 1),
                        Seq::empty(),
                    )));
            }
            } else {
                proof {
                    assert(old_cur =~= Seq::<u8>::empty());
                    assert(spec_segments_rec(rest, old_cur) == Seq::<Seq<u8>>::empty()
                        + spec_segments_rec(rest.drop_first(), Seq::empty()));
                    assert(Seq::<Seq<u8>>::empty() + spec_segments_rec(
                        path@.skip(i + 1),
                        Seq::empty(),
                    ) =~= spec_segments_rec(path@.skip(i + 1), Seq::empty()));
            }
            }
        } else {
            cur.push(b);
            proof {
                assert(spec_segments_rec(rest, old_cur) == spec_segments_rec(rest.drop_first(),
                    old_cur.push(rest[0])));
                assert(cur@ == old_cur.push(rest[0]));
                assert(spec_segments_rec(rest, old_cur) == spec_segments_rec(
                    path@.skip(i + 1),
                    cur@,
                ));
        }
        }
        proof {
            assert(views_of(segs@) + spec_segments_rec(path@.skip(i + 1), cur@)
                == spec_segments(path@));
        }
        i = i + 1;
    }
    proof {
        assert(path@.skip(path@.len() as int) =~= Seq::<u8>::empty());
    }
    let ghost old_segs = views_of(segs@);
    if cur.len() > 0 {
        let done = cur;
        segs.push(done);
        proof {
            assert(views_of(segs@) =~= old_segs.push(done@));
            assert(old_segs.push(done@) =~= old_segs + seq![done@]);
        }
    } else {
        proof {
            assert(cur@ =~= Seq::<u8>::empty());
            assert(old_segs + Seq::<Seq<u8>>::empty() =~= old_segs);
        }
    }
    segs
}




/// A trailing separator never changes the segments: `/a/b/` and `/a/b` are
/// the same path.
pub proof fn lemma_trailing_slash_rec(path: Seq<u8>, cur: Seq<u8>)
    ensures
        spec_segments_rec(path.push(SLASH), cur) == spec_segments_rec(path, cur),
    decreases path.len(),
{
    if path.len() == 0 {
        assert(path.push(SLASH)[0] == SLASH);
        assert(path.push(SLASH).drop_first() =~= Seq::<u8>::empty());
        if cur.len() > 0 {
            assert(seq![cur] + spec_segments_rec(Seq::empty(), Seq::empty()) =~= seq![cur]);
        } else {
            assert(Seq::<Seq<u8>>::empty() + spec_segments_rec(Seq::empty(), Seq::empty())
                =~= Seq::<Seq<u8>>::empty());
        }
    } else {
        assert(path.push(SLASH)[0] == path[0]);
        assert(path.push(SLASH).drop_first() =~= path.drop_first().push(SLASH));
        if path[0] == SLASH {
            lemma_trailing_slash_rec(path.drop_first(), Seq::empty());
        } else {
            lemma_trailing_slash_rec(path.drop_first(), cur.push(path[0]));
        }
    }
}

/// Leading and trailing separators do not change a path's segments, so
/// lookups of `/a/b` and `/a/b/` and `//a/b` land on the same node.
pub proof fn lemma_slash_equivalence(path: Seq<u8>)
    ensures
        spec_segments(path.push(SLASH)) == spec_segments(path),
        spec_segments(seq![SLASH] + path) == spec_segments(path),
{
    lemma_trailing_slash_rec(path, Seq::empty());
    assert((seq![SLASH] + path)[0] == SLASH);
    assert((seq![SLASH] + path).drop_first() =~= path);
    assert(Seq::<Seq<u8>>::empty() + spec_segments_rec(path, Seq::empty()) =~= spec_segments_rec(
        path,
        Seq::empty(),
    ));
}

/// Joins segments with a single `/` between consecutive ones.
pub open spec fn spec_join(segs: Seq<Seq<u8>>) -> Seq<u8>
    decreases segs.len(),
{
    if segs.len() == 0 {
        Seq::empty()
    } else if segs.len() == 1 {
        segs[0]
    } else {
        spec_join(segs.drop_last()) + seq![SLASH] + segs.last()
    }
}

/// Joins segments with a single `/` between consecutive ones.
pub fn join_segments(segs: &Vec<Vec<u8>>) -> (r: Vec<u8>)
    ensures
        r@ == spec_join(views_of(segs@)),
{
    let mut r: Vec<u8> = Vec::new();
    let mut i: usize = 0;
    while i < segs.len()
        invariant
            i <= segs@.len(),
            r@ == spec_join(views_of(segs@).take(i as int)),
        decreases segs@.len() - i,
    {
        if i > 0 {
            r.push(SLASH);
        }
        let mut j: usize = 0;
        let seg = &segs[i];
        while j < seg.len()
            invariant
                j <= seg@.len(),
                i < segs@.len(),
                seg == segs@[i as int],
                i > 0 ==> r@ == spec_join(views_of(segs@).take(i as int)) + seq![SLASH]
                    + seg@.take(j as int),
                i == 0 ==> r@ == seg@.take(j as int),
            decreases seg@.len() - j,
        {
            r.push(seg[j]);
            proof {
                assert(seg@.take(j + 1) =~= seg@.take(j as int).push(seg@[j as int]));
            }
            j = j + 1;
        }
        proof {
            let vs = views_of(segs@);
            assert(seg@.take(seg@.len() as int) =~= seg@);
            assert(vs.take(i + 1).drop_last() =~= vs.take(i as int));
            assert(vs.take(i + 1).last() == seg@);
            if i > 0 {
                assert(r@ == spec_join(vs.take(i as int)) + seq![SLASH] + seg@);
                assert(spec_join(vs.take(i + 1)) == spec_join(vs.take(i as int)) + seq![SLASH]
                    + seg@);
            } else {
                assert(vs.take(1) =~= seq![seg@]);
                assert(spec_join(vs.take(1)) == seg@);
                assert(r@ =~= seg@);
            }
        }
        i = i + 1;
    }
    proof {
        assert(views_of(segs@).take(segs@.len() as int) =~= views_of(segs@));
    }
    r
}

} // verus!
