//! Ranking: the stable three-bucket ordering of query results for display —
//! installed first, then available, then not found, each bucket keeping the
//! original relative order.

use vstd::prelude::*;
use vstd::seq_lib::lemma_multiset_commutative;
use crate::model::{PackageResult, ResultModel, Status};

verus! {

/// Whether a result model carries the given status.
pub open spec fn has_status(r: ResultModel, st: Status) -> bool {
    r.status == st
}

/// The subsequence of `rs` whose status is `st`, in the original order.
pub open spec fn with_status(rs: Seq<ResultModel>, st: Status) -> Seq<ResultModel> {
    rs.filter(|r: ResultModel| has_status(r, st))
}

/// The stable three-bucket ordering of `rs`: all installed results in their
/// original order, then all available ones, then all not-found ones.
pub open spec fn sorted_by_status(rs: Seq<ResultModel>) -> Seq<ResultModel> {
    with_status(rs, Status::Installed) + with_status(rs, Status::Available) + with_status(
        rs,
        Status::NotFound,
    )
}

/// Extending the input on the right extends exactly the bucket of the new
/// element's status.
proof fn lemma_with_status_push(s: Seq<ResultModel>, m: ResultModel, st: Status)
    ensures
        with_status(s.push(m), st) == if has_status(m, st) {
            with_status(s, st).push(m)
        } else {
            with_status(s, st)
        },
{
    reveal(Seq::filter);
    assert(s.push(m).drop_last() =~= s);
    assert(s.push(m).last() == m);
}

/// Orders results for display: a stable partition into the three status
/// buckets, concatenated in the fixed priority installed, available,
/// not found. No result is added, dropped, or reordered within its bucket.
pub fn sort_results(results: Vec<PackageResult>) -> (r: Vec<PackageResult>)
    ensures
        r.deep_view() == sorted_by_status(results.deep_view()),
{
    let ghost orig = results.deep_view();
    let mut rest = results;
    let mut installed: Vec<PackageResult> = Vec::new();
    let mut available: Vec<PackageResult> = Vec::new();
    let mut not_found: Vec<PackageResult> = Vec::new();
    let ghost mut done = Seq::<ResultModel>::empty();
    proof {
        assert(done + rest.deep_view() =~= orig);
        reveal(Seq::filter);
    }
    while rest.len() > 0
        invariant
            orig == done + rest.deep_view(),
            installed.deep_view() == with_status(done, Status::Installed),
            available.deep_view() == with_status(done, Status::Available),
            not_found.deep_view() == with_status(done, Status::NotFound),
        decreases rest.len(),
    {
        let ghost done0 = done;
        let ghost rest0 = rest.deep_view();
        let p = rest.remove(0);
        proof {
            done = done0.push(p@);
            assert(rest.deep_view() =~= rest0.drop_first());
            assert(rest0[0] == p@);
            assert(done0 + rest0 =~= done + rest.deep_view());
            lemma_with_status_push(done0, p@, Status::Installed);
            lemma_with_status_push(done0, p@, Status::Available);
            lemma_with_status_push(done0, p@, Status::NotFound);
        }
        let ghost inst0 = installed.deep_view();
        let ghost avail0 = available.deep_view();
        let ghost nf0 = not_found.deep_view();
        match p.status {
            Status::Installed => {
                installed.push(p);
                proof {
                    assert(installed.deep_view() =~= inst0.push(done.last()));
                }
            },
            Status::Available => {
                available.push(p);
                proof {
                    assert(available.deep_view() =~= avail0.push(done.last()));
                }
            },
            Status::NotFound => {
                not_found.push(p);
                proof {
                    assert(not_found.deep_view() =~= nf0.push(done.last()));
                }
            },
        }
    }
    proof {
        assert(rest.deep_view() =~= Seq::<ResultModel>::empty());
        assert(done =~= orig);
    }
    let ghost inst = installed.deep_view();
    let ghost avail = available.deep_view();
    let ghost nf = not_found.deep_view();
    let mut out = installed;
    out.append(&mut available);
    out.append(&mut not_found);
    proof {
        assert(out.deep_view() =~= (inst + avail) + nf);
    }
    out
}

/// The three status buckets of `rs` are disjoint and exhaustive: their
/// multisets add up to the multiset of `rs`.
proof fn lemma_status_partition(rs: Seq<ResultModel>)
    ensures
        with_status(rs, Status::Installed).to_multiset().add(
            with_status(rs, Status::Available).to_multiset(),
        ).add(with_status(rs, Status::NotFound).to_multiset()) =~= rs.to_multiset(),
    decreases rs.len(),
{
    broadcast use vstd::seq_lib::group_to_multiset_ensures;
    broadcast use vstd::multiset::group_multiset_axioms;

    reveal(Seq::filter);
    if rs.len() == 0 {
        assert(with_status(rs, Status::Installed) =~= rs);
        assert(with_status(rs, Status::Available) =~= rs);
        assert(with_status(rs, Status::NotFound) =~= rs);
    } else {
        let s = rs.drop_last();
        let m = rs.last();
        assert(rs =~= s.push(m));
        lemma_status_partition(s);
        lemma_with_status_push(s, m, Status::Installed);
        lemma_with_status_push(s, m, Status::Available);
        lemma_with_status_push(s, m, Status::NotFound);
        assert(s.push(m).to_multiset() =~= s.to_multiset().insert(m));
    }
}

/// Law: ranking preserves the multiset of results — no result is added or
/// dropped by `sort_results`.
pub proof fn lemma_sort_preserves_multiset(rs: Seq<ResultModel>)
    ensures
        sorted_by_status(rs).to_multiset() == rs.to_multiset(),
{
    broadcast use vstd::multiset::group_multiset_axioms;

    let a = with_status(rs, Status::Installed);
    let b = with_status(rs, Status::Available);
    let c = with_status(rs, Status::NotFound);
    lemma_multiset_commutative(a + b, c);
    lemma_multiset_commutative(a, b);
    lemma_status_partition(rs);
    assert(sorted_by_status(rs).to_multiset() =~= rs.to_multiset());
}

} // verus!
