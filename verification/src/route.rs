//! A client-supplied URL: the raw form, the cleaned path (each segment cut at
//! its first `?`), and the query parameters collected from the `?`-suffixes,
//! split on `&` into `key=value` pairs that keep their percent-encoding.

use vstd::prelude::*;

use crate::bytes::{
    assoc_get, assoc_insert, pairs_view, spec_assoc_get, spec_assoc_insert, spec_collect_into, spec_split_first,
    lemma_split_first_len, lemma_collect_into_concat, split_once_byte,
};
use crate::segments::{spec_segments, split_segments, views_of, SLASH};

verus! {

/// The byte value of `?`.
pub const QMARK: u8 = 63;

/// The byte value of `&`.
pub const AMP: u8 = 38;

/// The byte value of `=`.
pub const EQUALS: u8 = 61;

/// The part of a path segment before its first `?`, or all of it.
pub open spec fn spec_clean_of(part: Seq<u8>) -> Seq<u8> {
    match spec_split_first(part, QMARK) {
        None => part,
        Some((a, _)) => a,
    }
}

/// What a segment adds to the cleaned path: `/` then its cleaned part, or
/// nothing when nothing of it remains.
pub open spec fn spec_contrib_of(part: Seq<u8>) -> Seq<u8> {
    let c = spec_clean_of(part);
    if c.len() > 0 {
        seq![SLASH] + c
    } else {
        Seq::empty()
    }
}

/// The cleaned path assembled from a path's segments.
pub open spec fn spec_cleaned(parts: Seq<Seq<u8>>) -> Seq<u8>
    decreases parts.len(),
{
    if parts.len() == 0 {
        Seq::empty()
    } else {
        spec_cleaned(parts.drop_last()) + spec_contrib_of(parts.last())
    }
}

/// The pair a `key=value` item denotes; an item without `=` denotes none.
pub open spec fn spec_pair_of(item: Seq<u8>) -> Seq<(Seq<u8>, Seq<u8>)> {
    match spec_split_first(item, EQUALS) {
        None => Seq::empty(),
        Some((k, v)) => seq![(k, v)],
    }
}

/// The pairs of a query string: its `&`-separated items, each read as
/// `key=value`.
pub open spec fn spec_query_pairs(q: Seq<u8>) -> Seq<(Seq<u8>, Seq<u8>)>
    decreases q.len(),
    via spec_query_pairs_dec
{
    match spec_split_first(q, AMP) {
        None => spec_pair_of(q),
        Some((h, t)) => spec_pair_of(h) + spec_query_pairs(t),
    }
}

#[via_fn]
proof fn spec_query_pairs_dec(q: Seq<u8>) {
    lemma_split_first_len(q, AMP);
}

/// The pairs a single path segment contributes: those of its `?`-suffix.
pub open spec fn spec_part_pairs(part: Seq<u8>) -> Seq<(Seq<u8>, Seq<u8>)> {
    match spec_split_first(part, QMARK) {
        None => Seq::empty(),
        Some((_, q)) => spec_query_pairs(q),
    }
}

/// All pairs contributed by a path's segments, in order.
pub open spec fn spec_route_pairs(parts: Seq<Seq<u8>>) -> Seq<(Seq<u8>, Seq<u8>)>
    decreases parts.len(),
{
    if parts.len() == 0 {
        Seq::empty()
    } else {
        spec_route_pairs(parts.drop_last()) + spec_part_pairs(parts.last())
    }
}

/// The parameter map of a path: its pairs stored in order, a later pair
/// replacing an earlier one under the same key.
pub open spec fn spec_route_params(parts: Seq<Seq<u8>>) -> Seq<(Seq<u8>, Seq<u8>)> {
    spec_collect_into(Seq::empty(), spec_route_pairs(parts))
}

/// A parsed URL: the raw bytes as received, the cleaned path, and the query
/// parameters.
#[derive(Debug)]
pub struct Route {
    /// The full route as received.
    pub init_route: Vec<u8>,
    /// The route without any parameters: each segment cut at its first `?`,
    /// assembled with single leading slashes.
    pub cleaned_route: Vec<u8>,
    /// The query parameters within the route.
    pub params: Vec<(Vec<u8>, Vec<u8>)>,
}

/// Stores the pair of one `key=value` item; an item without `=` is skipped.
fn insert_query_item(params: &mut Vec<(Vec<u8>, Vec<u8>)>, item: &[u8])
    ensures
        pairs_view(final(params)@) == spec_collect_into(
            pairs_view(old(params)@),
            spec_pair_of(item@),
        ),
{
    match split_once_byte(item, EQUALS) {
        None => {
            proof {
                assert(spec_pair_of(item@) =~= Seq::<(Seq<u8>, Seq<u8>)>::empty());
                assert(spec_collect_into(pairs_view(params@), spec_pair_of(item@))
                    == pairs_view(params@));
            }
        },
        Some((k, v)) => {
            let kv: Vec<u8> = vstd::slice::slice_to_vec(k);
            let vv: Vec<u8> = vstd::slice::slice_to_vec(v);
            proof {
                assert(kv@ == k@ && vv@ == v@);
                assert(spec_split_first(item@, EQUALS) == Some((kv@, vv@)));
                assert(spec_pair_of(item@) =~= seq![(kv@, vv@)]);
            }
            assoc_insert(params, kv, vv);
            proof {
                assert(spec_pair_of(item@).drop_first() =~= Seq::<(Seq<u8>, Seq<u8>)>::empty());
                let m0 = spec_assoc_insert(pairs_view(old(params)@), kv@, vv@);
                assert(spec_collect_into(m0, Seq::<(Seq<u8>, Seq<u8>)>::empty()) == m0);
                assert(spec_collect_into(pairs_view(old(params)@), spec_pair_of(item@))
                    == pairs_view(params@));
            }
        },
    }
}

/// Stores every `key=value` pair of a query string, in order.
fn insert_query_pairs(params: &mut Vec<(Vec<u8>, Vec<u8>)>, q: &[u8])
    ensures
        pairs_view(final(params)@) == spec_collect_into(
            pairs_view(old(params)@),
            spec_query_pairs(q@),
        ),
    decreases q@.len(),
{
    match split_once_byte(q, AMP) {
        None => {
            insert_query_item(params, q);
        },
        Some((h, t)) => {
            insert_query_item(params, h);
            proof {
                lemma_split_first_len(q@, AMP);
                lemma_collect_into_concat(
                    pairs_view(old(params)@),
                    spec_pair_of(h@),
                    spec_query_pairs(t@),
                );
            }
            insert_query_pairs(params, t);
        },
    }
}

impl Route {
    /// Parses a raw URL into its cleaned path and query parameters.
    pub fn parse_route(init_route: Vec<u8>) -> (r: Route)
        ensures
            r.init_route@ == init_route@,
            r.cleaned_route@ == spec_cleaned(spec_segments(init_route@)),
            pairs_view(r.params@) == spec_route_params(spec_segments(init_route@)),
    {
        let segs = split_segments(init_route.as_slice());
        let ghost vs = spec_segments(init_route@);
        let mut cleaned: Vec<u8> = Vec::new();
        let mut params: Vec<(Vec<u8>, Vec<u8>)> = Vec::new();
        let mut i: usize = 0;
        proof {
            assert(vs.take(0) =~= Seq::<Seq<u8>>::empty());
        }
        while i < segs.len()
            invariant
                i <= segs@.len(),
                views_of(segs@) == vs,
                cleaned@ == spec_cleaned(vs.take(i as int)),
                pairs_view(params@) == spec_collect_into(
                    Seq::empty(),
                    spec_route_pairs(vs.take(i as int)),
                ),
            decreases segs@.len() - i,
        {
            let part = &segs[i];
            let ghost pv = part@;
            proof {
                assert(vs[i as int] == pv);
                assert(vs.take(i + 1).drop_last() =~= vs.take(i as int));
                assert(vs.take(i + 1).last() == pv);
            }
            let ghost old_cleaned = cleaned@;
            let ghost old_params = pairs_view(params@);
            match split_once_byte(part.as_slice(), QMARK) {
                None => {
                    if part.len() > 0 {
                        cleaned.push(SLASH);
                        cleaned.extend_from_slice(part.as_slice());
                        proof {
                            assert(cleaned@ =~= old_cleaned + (seq![SLASH] + pv));
                        }
                    } else {
                        proof {
                            assert(cleaned@ =~= old_cleaned + spec_contrib_of(pv));
                        }
                    }
                    proof {
                        assert(spec_route_pairs(vs.take(i + 1)) =~= spec_route_pairs(
                            vs.take(i as int),
                        ));
                    }
                },
                Some((non_param, q)) => {
                    if non_param.len() > 0 {
                        cleaned.push(SLASH);
                        cleaned.extend_from_slice(non_param);
                        proof {
                            assert(cleaned@ =~= old_cleaned + (seq![SLASH] + non_param@));
                        }
                    } else {
                        proof {
                            assert(non_param@ =~= Seq::<u8>::empty());
                            assert(cleaned@ =~= old_cleaned + spec_contrib_of(pv));
                        }
                    }
                    insert_query_pairs(&mut params, q);
                    proof {
                        lemma_collect_into_concat(
                            Seq::empty(),
                            spec_route_pairs(vs.take(i as int)),
                            spec_query_pairs(q@),
                        );
                    }
                },
            }
            i = i + 1;
        }
        proof {
            assert(vs.take(segs@.len() as int) =~= vs);
        }
        Route { init_route, cleaned_route: cleaned, params }
    }

    /// The value sent under a query parameter name, if any.
    pub fn get_param(&self, param_name: &[u8]) -> (r: Option<&Vec<u8>>)
        ensures
            match r {
                Some(v) => spec_assoc_get(pairs_view(self.params@), param_name@) == Some(v@),
                None => spec_assoc_get(pairs_view(self.params@), param_name@) is None,
            },
    {
        assoc_get(&self.params, param_name)
    }

    /// All query parameters of the route.
    pub fn get_params(&self) -> (r: &Vec<(Vec<u8>, Vec<u8>)>)
        ensures
            r == &self.params,
    {
        &self.params
    }
}

} // verus!
