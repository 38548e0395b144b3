//! The search command: querying and arranging registry entries.

use vstd::prelude::*;
use crate::db::{AppConfig, SourceType};
use crate::text::{
    chars_of, contains_seq, seq_contains, lower_chars, lower_seq, spec_le, le_chars,
    lemma_le_total, lemma_le_trans,
};

verus! {

/// An entry answers a query when its lower-cased name or description
/// contains the lower-cased query text.
pub open spec fn spec_matches_query(c: AppConfig, q: Seq<char>) -> bool {
    seq_contains(lower_seq(c.app.name@), lower_seq(q)) || seq_contains(
        lower_seq(c.app.description@),
        lower_seq(q),
    )
}

pub open spec fn spec_search(apps: Seq<AppConfig>, q: Seq<char>) -> Seq<AppConfig>
    decreases apps.len(),
{
    if apps.len() == 0 {
        Seq::<AppConfig>::empty()
    } else {
        let rest = spec_search(apps.drop_last(), q);
        if spec_matches_query(apps.last(), q) {
            rest.push(apps.last())
        } else {
            rest
        }
    }
}

/// Keeps the entries that answer the query, case-insensitively, in
/// order.
pub fn search_apps(apps: Vec<AppConfig>, query: &str) -> (r: Vec<AppConfig>)
    ensures
        r@ == spec_search(apps@, query@),
{
    let ghost orig = apps@;
    let mut rest = apps;
    let qc = lower_chars(&chars_of(query));
    let mut r: Vec<AppConfig> = Vec::new();
    let ghost k: int = 0;
    proof {
        assert(orig.subrange(0, 0) =~= Seq::<AppConfig>::empty());
        assert(orig.subrange(0, orig.len() as int) =~= orig);
    }
    while rest.len() > 0
        invariant
            qc@ == lower_seq(query@),
            orig == apps@,
            0 <= k <= orig.len(),
            rest@ == orig.subrange(k, orig.len() as int),
            r@ == spec_search(orig.subrange(0, k), query@),
        decreases rest@.len(),
    {
        let ghost before = rest@;
        let c = rest.remove(0);
        proof {
            assert(before[0] == orig[k]);
            assert(orig.subrange(0, k + 1).drop_last() =~= orig.subrange(0, k));
            assert(orig.subrange(0, k + 1).last() == orig[k]);
            assert(rest@ =~= orig.subrange(k + 1, orig.len() as int));
        }
        let name_hit = contains_seq(&lower_chars(&chars_of(c.app.name.as_str())), &qc);
        let desc_hit = contains_seq(&lower_chars(&chars_of(c.app.description.as_str())), &qc);
        if name_hit || desc_hit {
            r.push(c);
        }
        proof {
            k = k + 1;
        }
    }
    proof {
        assert(orig.subrange(k, orig.len() as int).len() == 0);
    }
    r
}

pub open spec fn spec_filter_by_type(apps: Seq<AppConfig>, t: SourceType) -> Seq<AppConfig>
    decreases apps.len(),
{
    if apps.len() == 0 {
        Seq::<AppConfig>::empty()
    } else {
        let rest = spec_filter_by_type(apps.drop_last(), t);
        if apps.last().source.source_type == t {
            rest.push(apps.last())
        } else {
            rest
        }
    }
}

/// Keeps the entries of one source type, in order.
pub fn filter_by_type(apps: Vec<AppConfig>, t: SourceType) -> (r: Vec<AppConfig>)
    ensures
        r@ == spec_filter_by_type(apps@, t),
{
    let ghost orig = apps@;
    let mut rest = apps;
    let mut r: Vec<AppConfig> = Vec::new();
    let ghost k: int = 0;
    proof {
        assert(orig.subrange(0, 0) =~= Seq::<AppConfig>::empty());
        assert(orig.subrange(0, orig.len() as int) =~= orig);
    }
    while rest.len() > 0
        invariant
            orig == apps@,
            0 <= k <= orig.len(),
            rest@ == orig.subrange(k, orig.len() as int),
            r@ == spec_filter_by_type(orig.subrange(0, k), t),
        decreases rest@.len(),
    {
        let ghost before = rest@;
        let c = rest.remove(0);
        proof {
            assert(before[0] == orig[k]);
            assert(orig.subrange(0, k + 1).drop_last() =~= orig.subrange(0, k));
            assert(orig.subrange(0, k + 1).last() == orig[k]);
            assert(rest@ =~= orig.subrange(k + 1, orig.len() as int));
        }
        let keep = match (c.source.source_type, t) {
            (SourceType::AppImage, SourceType::AppImage) => true,
            (SourceType::Deb, SourceType::Deb) => true,
            (SourceType::Flatpak, SourceType::Flatpak) => true,
            (SourceType::Script, SourceType::Script) => true,
            _ => false,
        };
        if keep {
            r.push(c);
        }
        proof {
            k = k + 1;
        }
    }
    proof {
        assert(orig.subrange(k, orig.len() as int).len() == 0);
    }
    r
}

/// A listing of entries is sorted when the names are in lexicographic
/// order.
pub open spec fn sorted_by_name(s: Seq<AppConfig>) -> bool {
    forall|i: int, j: int| 0 <= i < j < s.len() ==> spec_le(s[i].app.name@, s[j].app.name@)
}

/// Insertion sort by entry name; keeps exactly the given entries.
pub fn sort_by_name(apps: Vec<AppConfig>) -> (r: Vec<AppConfig>)
    ensures
        sorted_by_name(r@),
        r@.to_multiset() == apps@.to_multiset(),
{
    broadcast use vstd::seq_lib::group_seq_lib_default, vstd::seq_lib::group_to_multiset_ensures,
        vstd::multiset::group_multiset_axioms;

    let mut rest = apps;
    let mut r: Vec<AppConfig> = Vec::new();
    proof {
        assert(r@.to_multiset().add(rest@.to_multiset()) =~= rest@.to_multiset());
    }
    while rest.len() > 0
        invariant
            sorted_by_name(r@),
            r@.to_multiset().add(rest@.to_multiset()) == apps@.to_multiset(),
        decreases rest@.len(),
    {
        let ghost rest0 = rest@;
        let x = rest.remove(0);
        proof {
            vstd::seq_lib::to_multiset_remove(rest0, 0);
        }
        let xc = chars_of(x.app.name.as_str());
        let mut k: usize = 0;
        while k < r.len() && le_chars(&chars_of(r[k].app.name.as_str()), &xc)
            invariant
                k <= r@.len(),
                xc@ == x.app.name@,
                forall|t: int| 0 <= t < k ==> spec_le(r@[t].app.name@, x.app.name@),
            decreases r@.len() - k,
        {
            k += 1;
        }
        let ghost rold = r@;
        r.insert(k, x);
        proof {
            vstd::seq_lib::to_multiset_insert(rold, k as int, x);
            assert(rest0[0] == x);
            assert(rest0.contains(x));
            vstd::seq_lib::to_multiset_contains(rest0, x);
            assert(rest0.to_multiset().count(x) > 0);
            assert forall|y: AppConfig|
                r@.to_multiset().add(rest@.to_multiset()).count(y) == apps@.to_multiset().count(
                    y,
                ) by {
                let lhs = r@.to_multiset().add(rest@.to_multiset());
                assert(r@.to_multiset().count(y) == rold.to_multiset().insert(x).count(y));
                assert(rest@.to_multiset().count(y) == rest0.to_multiset().remove(x).count(y));
                if y == x {
                    assert(lhs.count(y) == rold.to_multiset().count(y) + 1 + (
                    rest0.to_multiset().count(y) - 1));
                } else {
                    assert(lhs.count(y) == rold.to_multiset().count(y)
                        + rest0.to_multiset().count(y));
                }
                assert(apps@.to_multiset().count(y) == rold.to_multiset().add(
                    rest0.to_multiset(),
                ).count(y));
            }
            assert(r@.to_multiset().add(rest@.to_multiset()) =~= apps@.to_multiset());
            if (k as int) < rold.len() {
                lemma_le_total(rold[k as int].app.name@, x.app.name@);
            }
            assert forall|i: int, j: int| 0 <= i < j < r@.len() implies spec_le(
                r@[i].app.name@,
                r@[j].app.name@,
            ) by {
                if j < k {
                } else if j == k {
                    assert(r@[j] == x);
                } else {
                    if i < k {
                        assert(r@[j] == rold[j - 1]);
                    } else if i == k {
                        assert(spec_le(x.app.name@, rold[k as int].app.name@));
                        assert(rold[k as int] == r@[k + 1]);
                        if j > k + 1 {
                            lemma_le_trans(
                                x.app.name@,
                                rold[k as int].app.name@,
                                rold[j - 1].app.name@,
                            );
                        }
                    } else {
                        assert(r@[i] == rold[i - 1] && r@[j] == rold[j - 1]);
                    }
                }
            }
        }
    }
    proof {
        assert(rest@.to_multiset() =~= vstd::multiset::Multiset::<AppConfig>::empty());
        assert(r@.to_multiset() =~= apps@.to_multiset());
    }
    r
}

} // verus!
