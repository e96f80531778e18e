//! Order statistics of round-trip samples: count, extremes and percentiles.
//!
//! The percentile of fraction `p` is the sample at position `⌈(n − 1)·p⌉` of
//! the `n` samples in ascending order, computed here exactly with `p` in
//! thousandths.
use vstd::prelude::*;
use vstd::relations::{sorted_by, total_ordering};
use vstd::seq_lib::lemma_sorted_unique;

verus! {

/// Ascending order of samples.
pub open spec fn ascending() -> spec_fn(u64, u64) -> bool {
    |a: u64, b: u64| a <= b
}

/// The samples `s` in ascending order.
pub open spec fn sorted_samples(s: Seq<u64>) -> Seq<u64> {
    s.sort_by(ascending())
}

/// The position `⌈(len − 1) · per_mille / 1000⌉` of a percentile among
/// `len` ascending samples.
pub open spec fn percentile_position(len: nat, per_mille: nat) -> int {
    ((len - 1) * per_mille + 999) / 1000
}

/// Count, extremes and percentiles of a set of samples, in nanoseconds.
#[derive(Clone, Copy, Debug, PartialEq, Eq, Structural)]
pub struct OrderStats {
    pub samples: u64,
    pub min_ns: u64,
    pub p50_ns: u64,
    pub p90_ns: u64,
    pub p95_ns: u64,
    pub p99_ns: u64,
    pub p999_ns: u64,
    pub max_ns: u64,
}

/// The order statistics of the ascending samples `sorted`; all zero when
/// there is none.
pub open spec fn spec_order_stats(sorted: Seq<u64>) -> OrderStats {
    if sorted.len() == 0 {
        OrderStats {
            samples: 0,
            min_ns: 0,
            p50_ns: 0,
            p90_ns: 0,
            p95_ns: 0,
            p99_ns: 0,
            p999_ns: 0,
            max_ns: 0,
        }
    } else {
        OrderStats {
            samples: sorted.len() as u64,
            min_ns: sorted[0],
            p50_ns: sorted[percentile_position(sorted.len(), 500)],
            p90_ns: sorted[percentile_position(sorted.len(), 900)],
            p95_ns: sorted[percentile_position(sorted.len(), 950)],
            p99_ns: sorted[percentile_position(sorted.len(), 990)],
            p999_ns: sorted[percentile_position(sorted.len(), 999)],
            max_ns: sorted.last(),
        }
    }
}

/// Calls `slice::sort_unstable` on the samples; the contract claims what its
/// documentation states: the same samples come out, in ascending order.
#[verifier::external_body]
fn sort_ascending(v: &mut Vec<u64>)
    ensures
        final(v)@.to_multiset() == old(v)@.to_multiset(),
        sorted_by(final(v)@, ascending()),
{
    v.sort_unstable();
}

proof fn lemma_ascending_total()
    ensures
        total_ordering(ascending()),
{
    let r = ascending();
    assert(vstd::relations::reflexive(r));
    assert(vstd::relations::antisymmetric(r));
    assert(vstd::relations::transitive(r));
    assert(vstd::relations::strongly_connected(r));
}

/// Sorting by ascending order has exactly one outcome: any ascending
/// arrangement of the samples is `sorted_samples`.
pub proof fn lemma_sorted_samples_unique(s: Seq<u64>, t: Seq<u64>)
    requires
        sorted_by(t, ascending()),
        t.to_multiset() == s.to_multiset(),
    ensures
        t == sorted_samples(s),
{
    lemma_ascending_total();
    s.lemma_sort_by_ensures(ascending());
    lemma_sorted_unique(t, sorted_samples(s), ascending());
}

proof fn lemma_position_in_range(len: nat, per_mille: nat)
    requires
        len > 0,
        per_mille <= 1000,
    ensures
        0 <= percentile_position(len, per_mille) < len,
{
    assert(0 <= (len - 1) * per_mille <= (len - 1) * 1000) by (nonlinear_arith)
        requires
            len > 0,
            per_mille <= 1000,
    ;
    assert(((len - 1) * per_mille + 999) / 1000 <= len - 1) by (nonlinear_arith)
        requires
            0 <= (len - 1) * per_mille <= (len - 1) * 1000,
            len > 0,
    ;
}

/// The sample at the percentile position of `per_mille` thousandths.
fn percentile(sorted: &Vec<u64>, per_mille: u64) -> (value: u64)
    requires
        sorted@.len() > 0,
        per_mille <= 1000,
    ensures
        value == sorted@[percentile_position(sorted@.len(), per_mille as nat)],
{
    proof {
        lemma_position_in_range(sorted@.len(), per_mille as nat);
    }
    let last = (sorted.len() - 1) as u128;
    assert(last * per_mille <= u64::MAX * 1000) by (nonlinear_arith)
        requires
            last <= u64::MAX,
            per_mille <= 1000,
    ;
    let index = (last * (per_mille as u128) + 999) / 1000;
    sorted[index as usize]
}

/// Summarize `samples` by their count, extremes and percentiles.
pub fn order_stats(samples: &[u64]) -> (stats: OrderStats)
    ensures
        stats == spec_order_stats(sorted_samples(samples@)),
{
    let mut sorted: Vec<u64> = Vec::new();
    let mut i: usize = 0;
    while i < samples.len()
        invariant
            i <= samples@.len(),
            sorted@ == samples@.subrange(0, i as int),
        decreases samples@.len() - i,
    {
        sorted.push(samples[i]);
        i = i + 1;
    }
    assert(sorted@ =~= samples@);
    sort_ascending(&mut sorted);
    proof {
        lemma_sorted_samples_unique(samples@, sorted@);
    }
    let n = sorted.len();
    if n == 0 {
        return OrderStats {
            samples: 0,
            min_ns: 0,
            p50_ns: 0,
            p90_ns: 0,
            p95_ns: 0,
            p99_ns: 0,
            p999_ns: 0,
            max_ns: 0,
        };
    }
    OrderStats {
        samples: n as u64,
        min_ns: sorted[0],
        p50_ns: percentile(&sorted, 500),
        p90_ns: percentile(&sorted, 900),
        p95_ns: percentile(&sorted, 950),
        p99_ns: percentile(&sorted, 990),
        p999_ns: percentile(&sorted, 999),
        max_ns: sorted[n - 1],
    }
}

/// In every summary the samples are ordered: minimum, percentiles and maximum
/// never decrease, each is one of the samples, and the count is the number
/// of samples.
pub proof fn lemma_order_stats_monotone(s: Seq<u64>)
    requires
        s.len() > 0,
        s.len() <= u64::MAX,
    ensures
        ({
            let o = spec_order_stats(sorted_samples(s));
            &&& o.samples == s.len()
            &&& o.min_ns <= o.p50_ns <= o.p90_ns <= o.p95_ns <= o.p99_ns <= o.p999_ns <= o.max_ns
            &&& s.contains(o.min_ns) && s.contains(o.p50_ns) && s.contains(o.max_ns)
        }),
{
    lemma_ascending_total();
    s.lemma_sort_by_ensures(ascending());
    let t = sorted_samples(s);
    let n = s.len();
    broadcast use vstd::seq_lib::group_to_multiset_ensures;
    assert(t.len() == n) by {
        assert(t.to_multiset().len() == s.to_multiset().len());
    }
    lemma_position_in_range(n, 500);
    lemma_position_in_range(n, 900);
    lemma_position_in_range(n, 950);
    lemma_position_in_range(n, 990);
    lemma_position_in_range(n, 999);
    let a = percentile_position(n, 500);
    let b = percentile_position(n, 900);
    let c = percentile_position(n, 950);
    let d = percentile_position(n, 990);
    let e = percentile_position(n, 999);
    assert(a <= b <= c <= d <= e) by (nonlinear_arith)
        requires
            a == ((n - 1) * 500 + 999) / 1000,
            b == ((n - 1) * 900 + 999) / 1000,
            c == ((n - 1) * 950 + 999) / 1000,
            d == ((n - 1) * 990 + 999) / 1000,
            e == ((n - 1) * 999 + 999) / 1000,
            n > 0,
    ;
    let r = ascending();
    assert(a == 0 || r(t[0], t[a]));
    assert(a == b || r(t[a], t[b]));
    assert(b == c || r(t[b], t[c]));
    assert(c == d || r(t[c], t[d]));
    assert(d == e || r(t[d], t[e]));
    assert(e == n - 1 || r(t[e], t[n - 1]));
    assert(s.to_multiset().count(t[0]) > 0);
    assert(s.to_multiset().count(t[a]) > 0);
    assert(s.to_multiset().count(t[n - 1]) > 0);
}

} // verus!
