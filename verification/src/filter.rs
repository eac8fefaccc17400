//! The search filter: reduces the catalog to the identifiers whose
//! canonical name contains the query, compared case-insensitively. A pure
//! function of its inputs; the catalog's relative order is kept and
//! nothing is re-ranked.

use vstd::prelude::*;
use crate::catalog::{IconCatalog, IconId};
use crate::text::{contains_chars, contains_seq, lower, str_chars, to_lower_chars};

verus! {

/// A canonical name matches a query when the case-folded query occurs
/// inside the case-folded name; every name matches the empty query.
pub open spec fn name_matches(name: Seq<char>, query: Seq<char>) -> bool {
    contains_seq(lower(name), lower(query))
}

/// The identifiers of the matching names, in catalog order.
pub open spec fn spec_filter(names: Seq<Seq<char>>, query: Seq<char>) -> Seq<IconId>
    decreases names.len(),
{
    if names.len() == 0 {
        Seq::empty()
    } else {
        spec_filter(names.drop_last(), query) + if name_matches(names.last(), query) {
            seq![IconId { index: (names.len() - 1) as usize }]
        } else {
            Seq::empty()
        }
    }
}

/// Reduces the catalog to the identifiers whose canonical name matches
/// the query.
pub fn filter_icons(query: &str, catalog: &IconCatalog) -> (r: Vec<IconId>)
    ensures
        r@ == spec_filter(catalog.names(), query@),
{
    let ghost qv = query@;
    let ghost names = catalog.names();
    let q = str_chars(query);
    let lq = to_lower_chars(&q);
    let mut r: Vec<IconId> = Vec::new();
    let n = catalog.count();
    let mut i: usize = 0;
    proof {
        assert(names.subrange(0, 0) =~= Seq::<Seq<char>>::empty());
    }
    while i < n
        invariant
            i <= n,
            n == catalog.entries@.len(),
            names == catalog.names(),
            lq@ == lower(qv),
            r@ == spec_filter(names.subrange(0, i as int), qv),
        decreases n - i,
    {
        let name_chars = str_chars(catalog.entries[i].name.as_str());
        let folded = to_lower_chars(&name_chars);
        proof {
            assert(names[i as int] == catalog.entries@[i as int].name@);
        }
        let ghost prev = r@;
        if contains_chars(&folded, &lq) {
            r.push(IconId { index: i });
        }
        proof {
            let pre = names.subrange(0, i as int);
            let post = names.subrange(0, i + 1);
            assert(post.drop_last() =~= pre);
            assert(post.last() == names[i as int]);
            if name_matches(names[i as int], qv) {
                assert(r@ =~= prev + seq![IconId { index: i }]);
            } else {
                assert(r@ =~= prev + Seq::<IconId>::empty());
            }
        }
        i += 1;
    }
    proof {
        assert(names.subrange(0, n as int) =~= names);
    }
    r
}

/// Every identifier the filter keeps indexes into the catalog, and the
/// kept identifiers are strictly increasing (catalog order, no repeats).
pub proof fn lemma_filter_ids_in_range(names: Seq<Seq<char>>, query: Seq<char>)
    requires
        names.len() <= usize::MAX,
    ensures
        forall|k: int|
            0 <= k < spec_filter(names, query).len()
                ==> (#[trigger] spec_filter(names, query)[k]).index < names.len(),
        forall|a: int, b: int|
            0 <= a < b < spec_filter(names, query).len() ==> (#[trigger] spec_filter(
                names,
                query,
            )[a]).index < (#[trigger] spec_filter(names, query)[b]).index,
    decreases names.len(),
{
    if names.len() > 0 {
        lemma_filter_ids_in_range(names.drop_last(), query);
        let f = spec_filter(names, query);
        let p = spec_filter(names.drop_last(), query);
        let last_id = IconId { index: (names.len() - 1) as usize };
        assert forall|k: int| 0 <= k < f.len() implies (#[trigger] f[k]).index < names.len() by {
            if k < p.len() {
                assert(f[k] == p[k]);
            } else {
                assert(f[k] == last_id);
            }
        }
        assert forall|a: int, b: int| 0 <= a < b < f.len() implies (#[trigger] f[a]).index
            < (#[trigger] f[b]).index by {
            if b < p.len() {
                assert(f[a] == p[a]);
                assert(f[b] == p[b]);
            } else {
                assert(f[a] == p[a]);
                assert(f[b] == last_id);
            }
        }
    }
}

/// Law: the empty query keeps the full catalog, in original order.
pub proof fn lemma_filter_empty_query(names: Seq<Seq<char>>)
    requires
        names.len() <= usize::MAX,
    ensures
        spec_filter(names, Seq::empty()).len() == names.len(),
        forall|k: int|
            0 <= k < names.len() ==> (#[trigger] spec_filter(names, Seq::empty())[k]).index == k,
    decreases names.len(),
{
    assert(lower(Seq::<char>::empty()) =~= Seq::<char>::empty());
    if names.len() > 0 {
        lemma_filter_empty_query(names.drop_last());
        let folded = lower(names.last());
        assert(folded.subrange(0, 0) =~= Seq::<char>::empty());
        assert(crate::text::match_at(folded, Seq::<char>::empty(), 0));
        assert(name_matches(names.last(), Seq::<char>::empty()));
        let f = spec_filter(names, Seq::<char>::empty());
        let p = spec_filter(names.drop_last(), Seq::<char>::empty());
        assert forall|k: int| 0 <= k < names.len() implies (#[trigger] f[k]).index == k by {
            if k < names.len() - 1 {
                assert(f[k] == p[k]);
            } else {
                assert(f[k] == IconId { index: (names.len() - 1) as usize });
            }
        }
    }
}

/// Law: filtering is case-insensitive. Two queries that fold to the same
/// characters keep exactly the same identifiers; in particular a query
/// and its upper-case form filter identically.
pub proof fn lemma_filter_case_insensitive(names: Seq<Seq<char>>, q1: Seq<char>, q2: Seq<char>)
    requires
        lower(q1) == lower(q2),
    ensures
        spec_filter(names, q1) == spec_filter(names, q2),
    decreases names.len(),
{
    if names.len() == 0 {
        assert(spec_filter(names, q1) =~= spec_filter(names, q2));
    } else {
        lemma_filter_case_insensitive(names.drop_last(), q1, q2);
        assert(name_matches(names.last(), q1) == name_matches(names.last(), q2));
        assert(spec_filter(names, q1) =~= spec_filter(names, q2));
    }
}

/// Law: a query and its upper-case form filter identically.
pub proof fn lemma_filter_uppercase_query(names: Seq<Seq<char>>, query: Seq<char>)
    ensures
        spec_filter(names, crate::text::upper(query)) == spec_filter(names, query),
{
    crate::text::lemma_lower_of_upper(query);
    lemma_filter_case_insensitive(names, crate::text::upper(query), query);
}

} // verus!
