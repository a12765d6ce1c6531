//! The statistics aggregator: groups raw outcomes by (chain, endpoint,
//! method), computes distributional summaries over the successful attempts
//! of each group, and ranks the groups.
//!
//! Latencies are carried in microseconds as integers; the average and the
//! median round down. A group's success rate is the exact ratio of its
//! success count to its call count, compared between groups by
//! cross-multiplication.

use vstd::prelude::*;

use vstd::multiset::Multiset;

use crate::rpc::RpcResult;
use crate::text::{
    dec_digits, digit_char, lemma_seq_char_lt_asymmetric, lemma_seq_char_lt_transitive,
    lemma_seq_char_lt_trichotomy, push_char, seq_char_lt, str_eq, str_lt, u64_to_dec,
};

verus! {

/// The grouping key of one outcome.
pub open spec fn result_key(r: RpcResult) -> (Seq<char>, Seq<char>, Seq<char>) {
    (r.chain@, r.endpoint@, r.method@)
}

/// Does the outcome belong to the group with this key?
pub open spec fn in_group(r: RpcResult, key: (Seq<char>, Seq<char>, Seq<char>)) -> bool {
    result_key(r) == key
}

/// The outcomes of one group, in recording order.
pub open spec fn group_of(
    results: Seq<RpcResult>,
    key: (Seq<char>, Seq<char>, Seq<char>),
) -> Seq<RpcResult> {
    results.filter(|r: RpcResult| in_group(r, key))
}

/// The successful outcomes of a group, in order.
pub open spec fn successful(g: Seq<RpcResult>) -> Seq<RpcResult> {
    g.filter(|r: RpcResult| r.success)
}

/// The latencies of a group's successful outcomes, in order.
pub open spec fn success_latencies(g: Seq<RpcResult>) -> Seq<u64> {
    successful(g).map_values(|r: RpcResult| r.latency_us)
}

/// The sum of a latency sequence.
pub open spec fn sum_of(s: Seq<u64>) -> int
    decreases s.len(),
{
    if s.len() == 0 {
        0
    } else {
        sum_of(s.drop_last()) + s.last()
    }
}

/// The least entry of a nonempty latency sequence.
pub open spec fn min_of(s: Seq<u64>) -> u64
    recommends
        s.len() > 0,
    decreases s.len(),
{
    if s.len() <= 1 {
        s[0]
    } else if s.last() < min_of(s.drop_last()) {
        s.last()
    } else {
        min_of(s.drop_last())
    }
}

/// The greatest entry of a nonempty latency sequence.
pub open spec fn max_of(s: Seq<u64>) -> u64
    recommends
        s.len() > 0,
    decreases s.len(),
{
    if s.len() <= 1 {
        s[0]
    } else if s.last() > max_of(s.drop_last()) {
        s.last()
    } else {
        max_of(s.drop_last())
    }
}

/// Is the sequence sorted in ascending order?
pub open spec fn ascending(s: Seq<u64>) -> bool {
    forall|i: int, j: int| 0 <= i < j < s.len() ==> s[i] <= s[j]
}

/// An ascending sequence with `x` inserted in order.
pub open spec fn insert_sorted(s: Seq<u64>, x: u64) -> Seq<u64>
    decreases s.len(),
{
    if s.len() == 0 {
        seq![x]
    } else if x < s.last() {
        insert_sorted(s.drop_last(), x).push(s.last())
    } else {
        s.push(x)
    }
}

/// The ascending rearrangement of a latency sequence.
pub open spec fn sort_lats(s: Seq<u64>) -> Seq<u64>
    decreases s.len(),
{
    if s.len() == 0 {
        Seq::<u64>::empty()
    } else {
        insert_sorted(sort_lats(s.drop_last()), s.last())
    }
}

/// The index read for the 95th percentile among `n` ascending values: the
/// 95% point of the index range, rounded down. For every positive `n` it
/// stays within the sequence, so no clamping is needed.
pub open spec fn p95_index(n: int) -> int {
    (n * 19) / 20
}

/// The median of a nonempty ascending sequence: the middle entry when the
/// length is odd, the average of the two middle entries (rounded down) when
/// it is even.
pub open spec fn median_of(s: Seq<u64>) -> int
    recommends
        s.len() > 0,
{
    let n = s.len() as int;
    if n % 2 == 1 {
        s[n / 2] as int
    } else {
        (s[n / 2 - 1] + s[n / 2]) / 2
    }
}

proof fn lemma_insert_sorted_ensures(s: Seq<u64>, x: u64)
    requires
        ascending(s),
    ensures
        ascending(insert_sorted(s, x)),
        insert_sorted(s, x).len() == s.len() + 1,
        insert_sorted(s, x).to_multiset() == s.to_multiset().insert(x),
        sum_of(insert_sorted(s, x)) == sum_of(s) + x,
    decreases s.len(),
{
    broadcast use vstd::seq_lib::group_seq_properties;

    if s.len() == 0 {
        assert(insert_sorted(s, x) =~= seq![x]);
        assert(seq![x].drop_last() =~= Seq::<u64>::empty());
        assert(s.to_multiset() =~= Multiset::<u64>::empty());
        assert(insert_sorted(s, x).to_multiset() =~= s.to_multiset().insert(x));
    } else if x < s.last() {
        assert(ascending(s.drop_last()));
        lemma_insert_sorted_ensures(s.drop_last(), x);
        let inner = insert_sorted(s.drop_last(), x);
        let out = inner.push(s.last());
        assert(out.drop_last() =~= inner);
        assert(ascending(out)) by {
            assert(forall|i: int|
                0 <= i < inner.len() ==> inner.to_multiset().count(#[trigger] inner[i]) > 0);
            assert(forall|i: int|
                0 <= i < inner.len() ==> s.drop_last().to_multiset().insert(x).count(
                    #[trigger] inner[i],
                ) > 0);
            assert forall|i: int| 0 <= i < inner.len() implies inner[i] <= s.last() by {
                let v = inner[i];
                assert(inner.to_multiset().count(v) > 0);
                if v != x {
                    assert(s.drop_last().to_multiset().count(v) > 0);
                    let k = choose|k: int|
                        0 <= k < s.drop_last().len() && s.drop_last()[k] == v;
                    assert(s[k] == v);
                    assert(v <= s.last());
                }
            }
        }
        assert(out.to_multiset() =~= s.to_multiset().insert(x)) by {
            assert(s.drop_last().push(s.last()) =~= s);
            assert(s.drop_last().to_multiset().insert(s.last()) =~= s.to_multiset());
        }
    } else {
        let out = s.push(x);
        assert(out.drop_last() =~= s);
        assert(ascending(out)) by {
            assert(forall|i: int| 0 <= i < s.len() ==> s[i] <= s.last());
        }
    }
}

/// What the ascending rearrangement guarantees: it is ascending, it is a
/// permutation, and it keeps the length and the sum.
pub proof fn lemma_sort_lats_ensures(s: Seq<u64>)
    ensures
        ascending(sort_lats(s)),
        sort_lats(s).len() == s.len(),
        sort_lats(s).to_multiset() == s.to_multiset(),
        sum_of(sort_lats(s)) == sum_of(s),
    decreases s.len(),
{
    broadcast use vstd::seq_lib::group_seq_properties;

    if s.len() == 0 {
        assert(sort_lats(s) =~= Seq::<u64>::empty());
        assert(sort_lats(s).to_multiset() =~= s.to_multiset());
    } else {
        lemma_sort_lats_ensures(s.drop_last());
        lemma_insert_sorted_ensures(sort_lats(s.drop_last()), s.last());
        assert(s.drop_last().push(s.last()) =~= s);
        assert(s.drop_last().to_multiset().insert(s.last()) =~= s.to_multiset());
    }
}

/// Every entry of a nonempty sequence lies between its minimum and maximum,
/// and the sum is at most the length times the maximum.
proof fn lemma_min_max_sum_bounds(s: Seq<u64>)
    requires
        s.len() > 0,
    ensures
        forall|i: int| 0 <= i < s.len() ==> min_of(s) <= #[trigger] s[i] <= max_of(s),
        sum_of(s) <= s.len() * max_of(s),
        min_of(s) <= max_of(s),
        sum_of(s) >= 0,
    decreases s.len(),
{
    if s.len() == 1 {
        assert(s.drop_last() =~= Seq::<u64>::empty());
        assert(sum_of(Seq::<u64>::empty()) == 0);
        assert(sum_of(s) == s[0]);
        assert(sum_of(s) <= 1 * max_of(s)) by (nonlinear_arith)
            requires
                sum_of(s) == s[0] && s[0] <= max_of(s),
        ;
    } else {
        lemma_min_max_sum_bounds(s.drop_last());
        assert(forall|i: int| 0 <= i < s.len() - 1 ==> s.drop_last()[i] == s[i]);
        let n = s.len() as int;
        let m1 = max_of(s.drop_last());
        let m = max_of(s);
        assert(m1 <= m && s.last() <= m);
        assert(sum_of(s.drop_last()) <= (n - 1) * m1);
        assert((n - 1) * m1 <= (n - 1) * m) by (nonlinear_arith)
            requires
                m1 <= m && n >= 1,
        ;
        assert((n - 1) * m + m == n * m) by (nonlinear_arith);
        assert(sum_of(s) <= n * m);
    }
}

/// Sorts a latency vector ascending.
fn sort_latencies(v: &mut Vec<u64>)
    ensures
        final(v)@ == sort_lats(old(v)@),
        ascending(final(v)@),
        final(v)@.len() == old(v)@.len(),
{
    let ghost orig = old(v)@;
    let n = v.len();
    let mut sorted: Vec<u64> = Vec::new();
    let mut i: usize = 0;
    assert(orig.take(0) =~= Seq::<u64>::empty());
    assert(sorted@ =~= sort_lats(orig.take(0)));
    while i < n
        invariant
            0 <= i <= n,
            n == v@.len(),
            v@ == orig,
            sorted@ == sort_lats(orig.take(i as int)),
            ascending(sorted@),
            sorted@.len() == i,
        decreases n - i,
    {
        let x = v[i];
        proof {
            assert(orig.take(i + 1).drop_last() =~= orig.take(i as int));
            assert(orig.take(i + 1).last() == orig[i as int]);
            lemma_insert_sorted_ensures(sorted@, x);
        }
        // find the insertion point: the first entry greater than x
        let mut p: usize = sorted.len();
        while p > 0 && sorted[p - 1] > x
            invariant
                0 <= p <= sorted@.len(),
                ascending(sorted@),
                forall|k: int| p <= k < sorted@.len() ==> sorted@[k] > x,
            decreases p,
        {
            p = p - 1;
        }
        proof {
            assert(forall|k: int| 0 <= k < p ==> sorted@[k] <= x);
            lemma_insert_at_point(sorted@, x, p as int);
        }
        sorted.insert(p, x);
        i = i + 1;
    }
    assert(orig.take(n as int) =~= orig);
    proof {
        lemma_sort_lats_ensures(orig);
    }
    *v = sorted;
}

/// Inserting at the first position whose entry exceeds `x` realizes the
/// ordered insertion.
proof fn lemma_insert_at_point(s: Seq<u64>, x: u64, p: int)
    requires
        ascending(s),
        0 <= p <= s.len(),
        forall|k: int| 0 <= k < p ==> s[k] <= x,
        forall|k: int| p <= k < s.len() ==> s[k] > x,
    ensures
        insert_sorted(s, x) == s.take(p).push(x) + s.skip(p),
    decreases s.len(),
{
    if s.len() == 0 {
        assert(insert_sorted(s, x) =~= s.take(0).push(x) + s.skip(0));
    } else if x < s.last() {
        assert(p < s.len());
        assert(ascending(s.drop_last()));
        lemma_insert_at_point(s.drop_last(), x, p);
        assert(s.drop_last().take(p) =~= s.take(p));
        assert(insert_sorted(s, x) =~= s.take(p).push(x) + s.skip(p)) by {
            assert(insert_sorted(s.drop_last(), x) == s.take(p).push(x) + s.drop_last().skip(p));
            assert((s.take(p).push(x) + s.drop_last().skip(p)).push(s.last()) =~= s.take(p).push(x)
                + s.skip(p));
        }
    } else {
        assert(p == s.len());
        assert(insert_sorted(s, x) =~= s.take(p).push(x) + s.skip(p));
    }
}

/// The aggregated summary of one (chain, endpoint, method) group. Latency
/// fields are in microseconds and cover successful attempts only; they are
/// all zero when the group has no success. The success rate is the exact
/// ratio `success_count / call_count`.
#[derive(Debug)]
pub struct MethodStats {
    /// Name of the chain.
    pub chain: String,
    /// Address of the endpoint.
    pub endpoint: String,
    /// Name of the method.
    pub method: String,
    /// Number of attempts recorded for the group.
    pub call_count: usize,
    /// Number of successful attempts.
    pub success_count: usize,
    /// Least latency among the successes.
    pub min_latency: u64,
    /// Greatest latency among the successes.
    pub max_latency: u64,
    /// Mean latency of the successes, rounded down.
    pub avg_latency: u64,
    /// Median latency of the successes; for an even count, the mean of the
    /// two middle values, rounded down.
    pub median_latency: u64,
    /// Latency at the 95th-percentile index of the ascending successes.
    pub p95_latency: u64,
}

/// The grouping key of one summary.
pub open spec fn stats_key(s: MethodStats) -> (Seq<char>, Seq<char>, Seq<char>) {
    (s.chain@, s.endpoint@, s.method@)
}

/// Does `s` summarize its group within `results` correctly? The call count
/// is the group's size; the success count, the number of its successes; and
/// the latency fields are the stated statistics of the successes' latencies,
/// or all zero when there is no success.
pub open spec fn stats_correct_for(s: MethodStats, results: Seq<RpcResult>) -> bool {
    let g = group_of(results, stats_key(s));
    let lats = success_latencies(g);
    let sorted = sort_lats(lats);
    &&& s.call_count == g.len()
    &&& s.success_count == lats.len()
    &&& if lats.len() == 0 {
        &&& s.min_latency == 0
        &&& s.max_latency == 0
        &&& s.avg_latency == 0
        &&& s.median_latency == 0
        &&& s.p95_latency == 0
    } else {
        &&& s.min_latency == min_of(lats)
        &&& s.max_latency == max_of(lats)
        &&& s.avg_latency as int == sum_of(lats) / (lats.len() as int)
        &&& s.median_latency as int == median_of(sorted)
        &&& s.p95_latency == sorted[p95_index(sorted.len() as int)]
    }
}

struct GroupAcc {
    chain: String,
    endpoint: String,
    method: String,
    call_count: usize,
    lat_succ: Vec<u64>,
}

impl GroupAcc {
    spec fn key(&self) -> (Seq<char>, Seq<char>, Seq<char>) {
        (self.chain@, self.endpoint@, self.method@)
    }

    spec fn ok_for(&self, results: Seq<RpcResult>) -> bool {
        &&& self.call_count == group_of(results, self.key()).len()
        &&& self.lat_succ@ == success_latencies(group_of(results, self.key()))
    }
}

/// Does some group in `groups` carry this key?
spec fn key_covered(groups: Seq<GroupAcc>, key: (Seq<char>, Seq<char>, Seq<char>)) -> bool {
    exists|gi: int| 0 <= gi < groups.len() && (#[trigger] groups[gi]).key() == key
}

proof fn lemma_group_of_empty(s: Seq<RpcResult>, key: (Seq<char>, Seq<char>, Seq<char>))
    requires
        forall|k: int| 0 <= k < s.len() ==> result_key(#[trigger] s[k]) != key,
    ensures
        group_of(s, key).len() == 0,
    decreases s.len(),
{
    reveal(Seq::filter);
    if s.len() > 0 {
        assert(forall|k: int| 0 <= k < s.len() - 1 ==> s.drop_last()[k] == s[k]);
        lemma_group_of_empty(s.drop_last(), key);
    }
}

proof fn lemma_group_of_push(
    s: Seq<RpcResult>,
    r: RpcResult,
    key: (Seq<char>, Seq<char>, Seq<char>),
)
    ensures
        group_of(s.push(r), key) == if in_group(r, key) {
            group_of(s, key).push(r)
        } else {
            group_of(s, key)
        },
{
    broadcast use vstd::prelude::Seq::lemma_filter_push;

}

proof fn lemma_success_latencies_push(g: Seq<RpcResult>, r: RpcResult)
    ensures
        success_latencies(g.push(r)) == if r.success {
            success_latencies(g).push(r.latency_us)
        } else {
            success_latencies(g)
        },
{
    broadcast use vstd::prelude::Seq::lemma_filter_push;

    if r.success {
        assert(successful(g.push(r)) == successful(g).push(r));
        assert(successful(g).push(r).map_values(|x: RpcResult| x.latency_us) =~= successful(
            g,
        ).map_values(|x: RpcResult| x.latency_us).push(r.latency_us));
    }
}

/// The number of successes in a group never exceeds its size.
proof fn lemma_success_latencies_len(g: Seq<RpcResult>)
    ensures
        success_latencies(g).len() <= g.len(),
{
    broadcast use vstd::prelude::Seq::lemma_filter_len;

}

fn group_key_matches(g: &GroupAcc, r: &RpcResult) -> (b: bool)
    ensures
        b == (g.key() == result_key(*r)),
{
    let b = str_eq(g.chain.as_str(), r.chain.as_str()) && str_eq(
        g.endpoint.as_str(),
        r.endpoint.as_str(),
    ) && str_eq(g.method.as_str(), r.method.as_str());
    b
}

fn group_results(results: &Vec<RpcResult>) -> (groups: Vec<GroupAcc>)
    ensures
        forall|gi: int|
            0 <= gi < groups@.len() ==> (#[trigger] groups@[gi]).ok_for(results@),
        forall|gi: int, gj: int|
            0 <= gi < gj < groups@.len() ==> groups@[gi].key() != groups@[gj].key(),
        forall|k: int|
            0 <= k < results@.len() ==> key_covered(groups@, result_key(#[trigger] results@[k])),
        forall|gi: int| 0 <= gi < groups@.len() ==> (#[trigger] groups@[gi]).call_count >= 1,
{
    let n = results.len();
    let mut groups: Vec<GroupAcc> = Vec::new();
    let mut i: usize = 0;
    assert(results@.take(0) =~= Seq::<RpcResult>::empty());
    while i < n
        invariant
            0 <= i <= n,
            n == results@.len(),
            forall|gi: int|
                0 <= gi < groups@.len() ==> (#[trigger] groups@[gi]).ok_for(
                    results@.take(i as int),
                ),
            forall|gi: int, gj: int|
                0 <= gi < gj < groups@.len() ==> groups@[gi].key() != groups@[gj].key(),
            forall|k: int|
                0 <= k < i ==> key_covered(groups@, result_key(#[trigger] results@[k])),
            forall|gi: int| 0 <= gi < groups@.len() ==> (#[trigger] groups@[gi]).call_count >= 1,
        decreases n - i,
    {
        let r = &results[i];
        let ghost groups0 = groups@;
        proof {
            assert(results@.take(i + 1).drop_last() =~= results@.take(i as int));
            assert(results@.take(i + 1) =~= results@.take(i as int).push(results@[i as int]));
        }
        let mut gi: usize = 0;
        let mut found = false;
        while gi < groups.len() && !found
            invariant
                0 <= gi <= groups@.len(),
                !found ==> forall|j: int|
                    0 <= j < gi ==> (#[trigger] groups@[j]).key() != result_key(*r),
                found ==> gi < groups@.len() && groups@[gi as int].key() == result_key(*r),
            decreases groups@.len() - gi + (if found { 0int } else { 1int }),
        {
            if group_key_matches(&groups[gi], r) {
                found = true;
            } else {
                gi = gi + 1;
            }
        }
        if found {
            let mut g = groups.remove(gi);
            let ghost old_groups = groups@.insert(gi as int, g);
            proof {
                broadcast use vstd::prelude::Seq::lemma_filter_len;

                lemma_group_of_push(results@.take(i as int), results@[i as int], g.key());
                lemma_success_latencies_push(
                    group_of(results@.take(i as int), g.key()),
                    results@[i as int],
                );
                assert(group_of(results@.take(i as int), g.key()).len() <= results@.take(
                    i as int,
                ).len());
            }
            g.call_count = g.call_count + 1;
            if r.success {
                g.lat_succ.push(r.latency_us);
            }
            proof {
                assert(g.ok_for(results@.take(i + 1)));
            }
            groups.insert(gi, g);
            proof {
                // other groups keep their key and contents; the key set is
                // unchanged
                assert(groups@ =~= groups0.update(gi as int, g));
                assert(forall|j: int|
                    0 <= j < groups0.len() && j != gi ==> groups@[j] == groups0[j]);
                assert(groups@[gi as int].key() == groups0[gi as int].key());
                assert forall|j: int|
                    0 <= j < groups@.len() implies (#[trigger] groups@[j]).ok_for(
                    results@.take(i + 1),
                ) by {
                    if j != gi {
                        lemma_group_of_push(
                            results@.take(i as int),
                            results@[i as int],
                            groups@[j].key(),
                        );
                    }
                }
                assert forall|k: int|
                    0 <= k < i + 1 implies key_covered(
                    groups@,
                    result_key(#[trigger] results@[k]),
                ) by {
                    if k < i {
                        assert(key_covered(groups0, result_key(results@[k])));
                        let w = choose|w: int|
                            0 <= w < groups0.len() && (#[trigger] groups0[w]).key() == result_key(
                                results@[k],
                            );
                        assert(groups@[w].key() == result_key(results@[k]));
                    } else {
                        assert(groups@[gi as int].key() == result_key(results@[k]));
                    }
                }
            }
        } else {
            proof {
                // no earlier result carries this key, so its group is empty
                assert forall|k: int|
                    0 <= k < i implies result_key(#[trigger] results@.take(i as int)[k])
                    != result_key(*r) by {
                    let gk = choose|gj: int|
                        0 <= gj < groups@.len() && (#[trigger] groups@[gj]).key() == result_key(
                            results@[k],
                        );
                }
                lemma_group_of_empty(results@.take(i as int), result_key(*r));
                lemma_group_of_push(results@.take(i as int), results@[i as int], result_key(*r));
                lemma_success_latencies_push(
                    group_of(results@.take(i as int), result_key(*r)),
                    results@[i as int],
                );
            }
            let mut lat_succ: Vec<u64> = Vec::new();
            if r.success {
                lat_succ.push(r.latency_us);
            }
            let g = GroupAcc {
                chain: r.chain.clone(),
                endpoint: r.endpoint.clone(),
                method: r.method.clone(),
                call_count: 1,
                lat_succ,
            };
            proof {
                assert(success_latencies(Seq::<RpcResult>::empty()) =~= Seq::<u64>::empty()) by {
                    reveal(Seq::filter);
                }
                assert(group_of(results@.take(i as int), g.key()) =~= Seq::<RpcResult>::empty());
                assert(g.ok_for(results@.take(i + 1)));
            }
            groups.push(g);
            proof {
                assert(groups@ =~= groups0.push(g));
                assert forall|j: int|
                    0 <= j < groups@.len() - 1 implies (#[trigger] groups@[j]).ok_for(
                    results@.take(i + 1),
                ) by {
                    lemma_group_of_push(
                        results@.take(i as int),
                        results@[i as int],
                        groups@[j].key(),
                    );
                }
                assert forall|k: int|
                    0 <= k < i + 1 implies key_covered(
                    groups@,
                    result_key(#[trigger] results@[k]),
                ) by {
                    if k < i {
                        assert(key_covered(groups0, result_key(results@[k])));
                        let w = choose|w: int|
                            0 <= w < groups0.len() && (#[trigger] groups0[w]).key() == result_key(
                                results@[k],
                            );
                        assert(groups@[w].key() == result_key(results@[k]));
                    } else {
                        assert(groups@[groups@.len() - 1].key() == result_key(results@[k]));
                    }
                }
            }
        }
        i = i + 1;
    }
    assert(results@.take(n as int) =~= results@);
    groups
}

fn stats_of_group(g: GroupAcc) -> (s: MethodStats)
    ensures
        s.chain == g.chain,
        s.endpoint == g.endpoint,
        s.method == g.method,
        s.call_count == g.call_count,
        s.success_count == g.lat_succ@.len(),
        g.lat_succ@.len() == 0 ==> s.min_latency == 0 && s.max_latency == 0 && s.avg_latency == 0
            && s.median_latency == 0 && s.p95_latency == 0,
        g.lat_succ@.len() > 0 ==> {
            &&& s.min_latency == min_of(g.lat_succ@)
            &&& s.max_latency == max_of(g.lat_succ@)
            &&& s.avg_latency as int == sum_of(g.lat_succ@) / (g.lat_succ@.len() as int)
            &&& s.median_latency as int == median_of(sort_lats(g.lat_succ@))
            &&& s.p95_latency == sort_lats(g.lat_succ@)[p95_index(g.lat_succ@.len() as int)]
        },
{
    let GroupAcc { chain, endpoint, method, call_count, lat_succ } = g;
    let sc = lat_succ.len();
    if sc == 0 {
        return MethodStats {
            chain,
            endpoint,
            method,
            call_count,
            success_count: 0,
            min_latency: 0,
            max_latency: 0,
            avg_latency: 0,
            median_latency: 0,
            p95_latency: 0,
        };
    }
    let ghost lats = lat_succ@;
    let ghost bound: int = u64::MAX as int;
    let mut mn = lat_succ[0];
    let mut mx = lat_succ[0];
    let mut total: u128 = lat_succ[0] as u128;
    let mut k: usize = 1;
    proof {
        assert(lats.take(1) =~= seq![lats[0]]);
        assert(sum_of(lats.take(1)) == lats[0]) by {
            assert(lats.take(1).drop_last() =~= Seq::<u64>::empty());
            assert(sum_of(Seq::<u64>::empty()) == 0);
            assert(lats.take(1).last() == lats[0]);
        }
        assert(1 * bound == bound) by (nonlinear_arith);
    }
    while k < sc
        invariant
            1 <= k <= sc,
            sc == lats.len(),
            lat_succ@ == lats,
            mn == min_of(lats.take(k as int)),
            mx == max_of(lats.take(k as int)),
            total as int == sum_of(lats.take(k as int)),
            total as int <= (k as int) * bound,
            bound == u64::MAX as int,
        decreases sc - k,
    {
        proof {
            assert(lats.take(k + 1).drop_last() =~= lats.take(k as int));
            assert(lats.take(k + 1).last() == lats[k as int]);
        }
        let x = lat_succ[k];
        if x < mn {
            mn = x;
        }
        if x > mx {
            mx = x;
        }
        proof {
            assert((k as int) * bound + bound == (k + 1) * bound) by (nonlinear_arith);
            assert(total as int + x as int <= (k + 1) * bound);
            assert((k + 1) * bound <= u128::MAX as int) by (nonlinear_arith)
                requires
                    1 <= k + 1 <= 0xffff_ffff_ffff_ffff && bound == u64::MAX as int,
            ;
        }
        total = total + (x as u128);
        k = k + 1;
    }
    assert(lats.take(sc as int) =~= lats);
    proof {
        lemma_min_max_sum_bounds(lats);
        assert(sum_of(lats) / (sc as int) <= mx as int) by {
            vstd::arithmetic::div_mod::lemma_div_is_ordered(
                sum_of(lats),
                (sc as int) * (mx as int),
                sc as int,
            );
            vstd::arithmetic::div_mod::lemma_div_multiples_vanish(mx as int, sc as int);
            assert((sc as int) * (mx as int) / (sc as int) == mx as int);
        }
    }
    let avg = (total / (sc as u128)) as u64;
    let mut sorted_v = lat_succ;
    sort_latencies(&mut sorted_v);
    proof {
        lemma_sort_lats_ensures(lats);
    }
    let n = sorted_v.len();
    let median: u64 = if n % 2 == 1 {
        sorted_v[n / 2]
    } else {
        (((sorted_v[n / 2 - 1] as u128) + (sorted_v[n / 2] as u128)) / 2) as u64
    };
    let idx = (((n as u128) * 19) / 20) as usize;
    proof {
        assert((n as int) * 19 / 20 < n as int) by (nonlinear_arith)
            requires
                n >= 1,
        ;
        assert(((n as u128) * 19 / 20) as int == p95_index(n as int));
    }
    let p95 = sorted_v[idx];
    MethodStats {
        chain,
        endpoint,
        method,
        call_count,
        success_count: sc,
        min_latency: mn,
        max_latency: mx,
        avg_latency: avg,
        median_latency: median,
        p95_latency: p95,
    }
}

/// The ranking of summaries: chain name ascending, then success rate
/// descending, then average latency ascending. Success rates are compared
/// exactly, by cross-multiplication of `success_count / call_count`.
pub open spec fn stats_le(a: MethodStats, b: MethodStats) -> bool {
    if a.chain@ != b.chain@ {
        seq_char_lt(a.chain@, b.chain@)
    } else if a.success_count * b.call_count != b.success_count * a.call_count {
        a.success_count * b.call_count > b.success_count * a.call_count
    } else {
        a.avg_latency <= b.avg_latency
    }
}

/// Is the sequence of summaries in ranking order?
pub open spec fn ranked(s: Seq<MethodStats>) -> bool {
    forall|i: int, j: int| 0 <= i < j < s.len() ==> stats_le(#[trigger] s[i], #[trigger] s[j])
}

proof fn lemma_rate_trans_ge(x1: int, y1: int, x2: int, y2: int, x3: int, y3: int)
    requires
        y1 >= 1,
        y2 >= 1,
        y3 >= 1,
        x1 * y2 >= x2 * y1,
        x2 * y3 >= x3 * y2,
    ensures
        x1 * y3 >= x3 * y1,
{
    assert(x1 * y3 * y2 >= x3 * y1 * y2) by (nonlinear_arith)
        requires
            y1 >= 1 && y2 >= 1 && y3 >= 1 && x1 * y2 >= x2 * y1 && x2 * y3 >= x3 * y2,
    ;
    assert(x1 * y3 >= x3 * y1) by (nonlinear_arith)
        requires
            y2 >= 1 && x1 * y3 * y2 >= x3 * y1 * y2,
    ;
}

proof fn lemma_rate_trans_gt(x1: int, y1: int, x2: int, y2: int, x3: int, y3: int)
    requires
        y1 >= 1,
        y2 >= 1,
        y3 >= 1,
        x1 * y2 >= x2 * y1,
        x2 * y3 >= x3 * y2,
        x1 * y2 > x2 * y1 || x2 * y3 > x3 * y2,
    ensures
        x1 * y3 > x3 * y1,
{
    assert(x1 * y3 * y2 > x3 * y1 * y2) by (nonlinear_arith)
        requires
            y1 >= 1 && y2 >= 1 && y3 >= 1 && x1 * y2 >= x2 * y1 && x2 * y3 >= x3 * y2 && (x1 * y2
                > x2 * y1 || x2 * y3 > x3 * y2),
    ;
    assert(x1 * y3 > x3 * y1) by (nonlinear_arith)
        requires
            y2 >= 1 && x1 * y3 * y2 > x3 * y1 * y2,
    ;
}

/// Any two summaries are ranked one way or the other.
pub proof fn lemma_stats_le_total(a: MethodStats, b: MethodStats)
    ensures
        stats_le(a, b) || stats_le(b, a),
{
    if a.chain@ != b.chain@ {
        lemma_seq_char_lt_trichotomy(a.chain@, b.chain@);
    }
}

/// The ranking is transitive over summaries with a positive call count.
pub proof fn lemma_stats_le_trans(a: MethodStats, b: MethodStats, c: MethodStats)
    requires
        a.call_count >= 1,
        b.call_count >= 1,
        c.call_count >= 1,
        stats_le(a, b),
        stats_le(b, c),
    ensures
        stats_le(a, c),
{
    if a.chain@ != b.chain@ && b.chain@ != c.chain@ {
        lemma_seq_char_lt_transitive(a.chain@, b.chain@, c.chain@);
        if a.chain@ == c.chain@ {
            // then the chain order would cycle, which asymmetry refutes
            lemma_seq_char_lt_asymmetric(a.chain@, b.chain@);
            assert(false);
        }
    } else if a.chain@ != b.chain@ {
        // b and c share a chain name, a differs from both
        assert(c.chain@ == b.chain@);
    } else if b.chain@ != c.chain@ {
        assert(a.chain@ == b.chain@);
    } else {
        // all three share a chain name: compare rates, then averages
        let x1 = a.success_count as int;
        let y1 = a.call_count as int;
        let x2 = b.success_count as int;
        let y2 = b.call_count as int;
        let x3 = c.success_count as int;
        let y3 = c.call_count as int;
        if x1 * y2 != x2 * y1 || x2 * y3 != x3 * y2 {
            lemma_rate_trans_gt(x1, y1, x2, y2, x3, y3);
        } else {
            lemma_rate_trans_ge(x1, y1, x2, y2, x3, y3);
            lemma_rate_trans_ge(x3, y3, x2, y2, x1, y1);
        }
    }
}

fn stats_le_exec(a: &MethodStats, b: &MethodStats) -> (r: bool)
    ensures
        r == stats_le(*a, *b),
{
    if !str_eq(a.chain.as_str(), b.chain.as_str()) {
        str_lt(a.chain.as_str(), b.chain.as_str())
    } else {
        proof {
            assert((a.success_count as int) * (b.call_count as int) <= u128::MAX && (
            b.success_count as int) * (a.call_count as int) <= u128::MAX) by (nonlinear_arith)
                requires
                    a.success_count <= 0xffff_ffff_ffff_ffffu64 && b.call_count
                        <= 0xffff_ffff_ffff_ffffu64 && b.success_count <= 0xffff_ffff_ffff_ffffu64
                        && a.call_count <= 0xffff_ffff_ffff_ffffu64,
            ;
        }
        let l = (a.success_count as u128) * (b.call_count as u128);
        let r = (b.success_count as u128) * (a.call_count as u128);
        if l != r {
            l > r
        } else {
            a.avg_latency <= b.avg_latency
        }
    }
}

/// Sorts summaries into ranking order. The output is a permutation of the
/// input.
fn sort_stats(stats: Vec<MethodStats>) -> (r: Vec<MethodStats>)
    requires
        forall|i: int| 0 <= i < stats@.len() ==> (#[trigger] stats@[i]).call_count >= 1,
    ensures
        r@.to_multiset() == stats@.to_multiset(),
        r@.len() == stats@.len(),
        ranked(r@),
        forall|i: int| 0 <= i < r@.len() ==> (#[trigger] r@[i]).call_count >= 1,
{
    broadcast use vstd::seq_lib::group_to_multiset_ensures;

    let ghost orig = stats@;
    let mut rest = stats;
    let mut out: Vec<MethodStats> = Vec::new();
    proof {
        lemma_to_multiset_of_empty();
        assert(out@.to_multiset().add(rest@.to_multiset()) =~= orig.to_multiset());
    }
    while rest.len() > 0
        invariant
            out@.to_multiset().add(rest@.to_multiset()) == orig.to_multiset(),
            out@.len() + rest@.len() == orig.len(),
            ranked(out@),
            forall|i: int| 0 <= i < out@.len() ==> (#[trigger] out@[i]).call_count >= 1,
            forall|i: int| 0 <= i < rest@.len() ==> (#[trigger] rest@[i]).call_count >= 1,
        decreases rest@.len(),
    {
        broadcast use vstd::seq_lib::group_to_multiset_ensures;

        let ghost rest0 = rest@;
        let x = rest.pop().unwrap();
        proof {
            assert(rest@.push(x) =~= rest0);
            assert(rest@.push(x).to_multiset() =~= rest@.to_multiset().insert(x));
            assert(rest@.to_multiset().insert(x) =~= rest0.to_multiset());
        }
        let mut p: usize = 0;
        while p < out.len() && stats_le_exec(&out[p], &x)
            invariant
                0 <= p <= out@.len(),
                forall|k: int| 0 <= k < p ==> stats_le(#[trigger] out@[k], x),
            decreases out@.len() - p,
        {
            p = p + 1;
        }
        proof {
            if p < out@.len() {
                lemma_stats_le_total(out@[p as int], x);
                assert(stats_le(x, out@[p as int]));
            }
            assert forall|k: int| p <= k < out@.len() implies stats_le(
                x,
                #[trigger] out@[k],
            ) by {
                if k > p {
                    assert(stats_le(out@[p as int], out@[k]));
                    lemma_stats_le_trans(x, out@[p as int], out@[k]);
                }
            }
        }
        let ghost out0 = out@;
        out.insert(p, x);
        proof {
            assert(out@.remove(p as int) =~= out0);
            assert(out@.remove(p as int).to_multiset() =~= out@.to_multiset().remove(
                out@[p as int],
            ));
            assert(out@.to_multiset().remove(x) =~= out0.to_multiset());
            assert(out@.to_multiset().count(x) >= 1) by {
                assert(out@[p as int] == x);
                assert(out@.contains(x));
            }
            assert(out@.to_multiset() =~= out0.to_multiset().insert(x));
            assert(out@.to_multiset().add(rest@.to_multiset()) =~= orig.to_multiset());
            assert(ranked(out@)) by {
                assert forall|i: int, j: int|
                    0 <= i < j < out@.len() implies stats_le(
                    #[trigger] out@[i],
                    #[trigger] out@[j],
                ) by {
                    if i < p && j > p {
                        assert(out@[i] == out0[i] && out@[j] == out0[j - 1]);
                    } else if i == p {
                        assert(out@[j] == out0[j - 1]);
                    } else if j == p {
                        assert(out@[i] == out0[i]);
                    }
                }
            }
        }
    }
    proof {
        lemma_to_multiset_of_empty();
        assert(rest@ =~= Seq::<MethodStats>::empty());
        assert(out@.to_multiset() =~= orig.to_multiset());
    }
    out
}

/// Does some summary in `stats` carry this key?
pub open spec fn stats_cover(
    stats: Seq<MethodStats>,
    key: (Seq<char>, Seq<char>, Seq<char>),
) -> bool {
    exists|i: int| 0 <= i < stats.len() && stats_key(#[trigger] stats[i]) == key
}

/// Converts a flat list of outcomes into ranked summaries: one summary per
/// distinct (chain, endpoint, method) key present in the results, each
/// correct for its group, sorted by chain name ascending, then success rate
/// descending, then average latency ascending.
pub fn calculate_stats(results: &Vec<RpcResult>) -> (stats: Vec<MethodStats>)
    ensures
        forall|i: int|
            0 <= i < stats@.len() ==> stats_correct_for(#[trigger] stats@[i], results@),
        forall|i: int|
            0 <= i < stats@.len() ==> group_of(results@, stats_key(#[trigger] stats@[i])).len()
                >= 1,
        forall|i: int, j: int|
            0 <= i < j < stats@.len() ==> stats_key(stats@[i]) != stats_key(stats@[j]),
        forall|k: int|
            0 <= k < results@.len() ==> stats_cover(stats@, result_key(#[trigger] results@[k])),
        ranked(stats@),
        forall|i: int|
            0 <= i < stats@.len() ==> 1 <= (#[trigger] stats@[i]).call_count,
        forall|i: int|
            0 <= i < stats@.len() ==> (#[trigger] stats@[i]).success_count <= stats@[i].call_count,
{
    broadcast use vstd::seq_lib::group_to_multiset_ensures;

    let mut groups = group_results(results);
    let ghost groups0 = groups@;
    let mut pre: Vec<MethodStats> = Vec::new();
    let ghost done: int = 0;
    while groups.len() > 0
        invariant
            0 <= done <= groups0.len(),
            groups@ =~= groups0.skip(done),
            forall|gi: int|
                0 <= gi < groups0.len() ==> (#[trigger] groups0[gi]).ok_for(results@),
            forall|gi: int, gj: int|
                0 <= gi < gj < groups0.len() ==> groups0[gi].key() != groups0[gj].key(),
            forall|gi: int| 0 <= gi < groups0.len() ==> (#[trigger] groups0[gi]).call_count >= 1,
            pre@.len() == done,
            forall|i: int|
                0 <= i < done ==> stats_key(#[trigger] pre@[i]) == groups0[i].key(),
            forall|i: int|
                0 <= i < done ==> stats_correct_for(#[trigger] pre@[i], results@),
            forall|i: int| 0 <= i < done ==> (#[trigger] pre@[i]).call_count >= 1,
        decreases groups@.len(),
    {
        let g = groups.remove(0);
        assert(g == groups0[done]);
        assert(g.ok_for(results@));
        let s = stats_of_group(g);
        proof {
            assert(stats_key(s) == g.key());
            lemma_sort_lats_ensures(g.lat_succ@);
            assert(stats_correct_for(s, results@));
        }
        pre.push(s);
        proof {
            assert(groups@ =~= groups0.skip(done + 1));
            done = done + 1;
        }
    }
    proof {
        // groups with distinct keys give summaries with distinct keys, so
        // the summary values themselves are pairwise distinct
        assert(pre@.no_duplicates()) by {
            assert forall|i: int, j: int|
                0 <= i < pre@.len() && 0 <= j < pre@.len() && i != j implies pre@[i]
                != pre@[j] by {
                assert(stats_key(pre@[i]) != stats_key(pre@[j]));
            }
        }
        pre@.lemma_multiset_has_no_duplicates();
    }
    let ghost pre0 = pre@;
    let stats = sort_stats(pre);
    proof {
        stats@.lemma_multiset_has_no_duplicates_conv();
        assert forall|i: int|
            0 <= i < stats@.len() implies stats_correct_for(
            #[trigger] stats@[i],
            results@,
        ) && group_of(results@, stats_key(stats@[i])).len() >= 1 by {
            assert(stats@.to_multiset().count(stats@[i]) > 0) by {
                assert(stats@.contains(stats@[i]));
            }
            assert(pre0.contains(stats@[i]));
            let k = choose|k: int| 0 <= k < pre0.len() && pre0[k] == stats@[i];
            assert(stats_correct_for(pre0[k], results@));
            lemma_success_rate_unit_interval(stats@[i], results@);
        }
        assert forall|i: int, j: int|
            0 <= i < j < stats@.len() implies stats_key(stats@[i]) != stats_key(
            stats@[j],
        ) by {
            assert(stats@[i] != stats@[j]);
            assert(stats@.to_multiset().count(stats@[i]) > 0) by {
                assert(stats@.contains(stats@[i]));
            }
            assert(stats@.to_multiset().count(stats@[j]) > 0) by {
                assert(stats@.contains(stats@[j]));
            }
            assert(pre0.contains(stats@[i]));
            assert(pre0.contains(stats@[j]));
            let ki = choose|k: int| 0 <= k < pre0.len() && pre0[k] == stats@[i];
            let kj = choose|k: int| 0 <= k < pre0.len() && pre0[k] == stats@[j];
            assert(ki != kj);
            assert(stats_key(pre0[ki]) != stats_key(pre0[kj]));
        }
        assert forall|k: int|
            0 <= k < results@.len() implies stats_cover(
            stats@,
            result_key(#[trigger] results@[k]),
        ) by {
            let w = choose|w: int|
                0 <= w < groups0.len() && (#[trigger] groups0[w]).key() == result_key(
                    results@[k],
                );
            assert(stats_key(pre0[w]) == result_key(results@[k]));
            assert(pre0.to_multiset().count(pre0[w]) > 0) by {
                assert(pre0.contains(pre0[w]));
            }
            assert(stats@.contains(pre0[w]));
            let v = choose|v: int| 0 <= v < stats@.len() && stats@[v] == pre0[w];
            assert(stats_key(stats@[v]) == result_key(results@[k]));
        }
    }
    stats
}

/// Every reported success rate lies in the unit interval: a summary's
/// success count never exceeds its call count, and the call count of a
/// reported group is positive, so `success_count / call_count` is a
/// well-defined ratio between zero and one.
pub proof fn lemma_success_rate_unit_interval(s: MethodStats, results: Seq<RpcResult>)
    requires
        stats_correct_for(s, results),
        group_of(results, stats_key(s)).len() >= 1,
    ensures
        1 <= s.call_count,
        s.success_count <= s.call_count,
{
    lemma_success_latencies_len(group_of(results, stats_key(s)));
}

/// A group whose attempts all failed reports exactly zero for every latency
/// field.
pub proof fn lemma_all_failed_zero_latencies(s: MethodStats, results: Seq<RpcResult>)
    requires
        stats_correct_for(s, results),
        s.success_count == 0,
    ensures
        s.min_latency == 0,
        s.max_latency == 0,
        s.avg_latency == 0,
        s.median_latency == 0,
        s.p95_latency == 0,
{
}

impl MethodStats {
    /// The success rate in hundredths of a percent: exactly
    /// `success_count * 10000 / call_count`, rounded down. Never more than
    /// 10000, the whole-interval rate.
    pub fn success_rate_basis_points(&self) -> (r: u64)
        requires
            1 <= self.call_count,
            self.success_count <= self.call_count,
        ensures
            r == (self.success_count as int) * 10000 / (self.call_count as int),
            r <= 10000,
    {
        proof {
            vstd::arithmetic::mul::lemma_mul_inequality(
                self.success_count as int,
                self.call_count as int,
                10000,
            );
            vstd::arithmetic::div_mod::lemma_div_is_ordered(
                (self.success_count as int) * 10000,
                (self.call_count as int) * 10000,
                self.call_count as int,
            );
            vstd::arithmetic::div_mod::lemma_div_multiples_vanish(
                10000,
                self.call_count as int,
            );
            assert((self.call_count as int) * 10000 == (self.call_count as int) * 10000);
            assert(((self.call_count as int) * 10000) / (self.call_count as int) == 10000);
        }
        let n = (self.success_count as u128) * 10000;
        let d = self.call_count as u128;
        (n / d) as u64
    }
}

/// A count of hundredths rendered with two decimal places: the whole part
/// in decimal, a point, and exactly two digits.
pub open spec fn two_dec_text(hundredths: int) -> Seq<char> {
    dec_digits(hundredths / 100) + seq!['.', digit_char((hundredths / 10) % 10), digit_char(
        hundredths % 10,
    )]
}

/// A latency in microseconds rendered as milliseconds with two decimal
/// places, rounded half up to the nearest hundredth.
pub open spec fn latency_ms_text(us: u64) -> Seq<char> {
    two_dec_text((us + 5) / 10)
}

fn format_hundredths(h: u64) -> (r: String)
    ensures
        r@ == two_dec_text(h as int),
{
    let mut out = u64_to_dec(h / 100);
    push_char(&mut out, '.');
    push_char(&mut out, exec_digit_char_u64((h / 10) % 10));
    push_char(&mut out, exec_digit_char_u64(h % 10));
    assert(out@ =~= two_dec_text(h as int));
    out
}

fn exec_digit_char_u64(d: u64) -> (c: char)
    requires
        d < 10,
    ensures
        c == digit_char(d as int),
{
    if d == 0 {
        '0'
    } else if d == 1 {
        '1'
    } else if d == 2 {
        '2'
    } else if d == 3 {
        '3'
    } else if d == 4 {
        '4'
    } else if d == 5 {
        '5'
    } else if d == 6 {
        '6'
    } else if d == 7 {
        '7'
    } else if d == 8 {
        '8'
    } else {
        '9'
    }
}

/// Renders a latency in microseconds as milliseconds with two decimals.
pub fn format_latency_ms(us: u64) -> (r: String)
    ensures
        r@ == latency_ms_text(us),
{
    let h = (((us as u128) + 5) / 10) as u64;
    format_hundredths(h)
}

/// The column names of the persisted report, in order.
pub fn csv_header() -> (row: Vec<String>)
    ensures
        row@.len() == 11,
        row@[0]@ == "chain"@,
        row@[1]@ == "endpoint"@,
        row@[2]@ == "method"@,
        row@[3]@ == "call_count"@,
        row@[4]@ == "success_count"@,
        row@[5]@ == "min_latency_ms"@,
        row@[6]@ == "max_latency_ms"@,
        row@[7]@ == "avg_latency_ms"@,
        row@[8]@ == "median_latency_ms"@,
        row@[9]@ == "p95_latency_ms"@,
        row@[10]@ == "success_rate_percent"@,
{
    let mut row: Vec<String> = Vec::new();
    row.push("chain".to_owned());
    row.push("endpoint".to_owned());
    row.push("method".to_owned());
    row.push("call_count".to_owned());
    row.push("success_count".to_owned());
    row.push("min_latency_ms".to_owned());
    row.push("max_latency_ms".to_owned());
    row.push("avg_latency_ms".to_owned());
    row.push("median_latency_ms".to_owned());
    row.push("p95_latency_ms".to_owned());
    row.push("success_rate_percent".to_owned());
    row
}

/// One row of the persisted report: the key fields as they are, the counts
/// in decimal, each latency in milliseconds with two decimals, and the
/// success rate as a percentage with two decimals.
pub fn csv_row(s: &MethodStats) -> (row: Vec<String>)
    requires
        1 <= s.call_count,
        s.success_count <= s.call_count,
    ensures
        row@.len() == 11,
        row@[0]@ == s.chain@,
        row@[1]@ == s.endpoint@,
        row@[2]@ == s.method@,
        row@[3]@ == dec_digits(s.call_count as int),
        row@[4]@ == dec_digits(s.success_count as int),
        row@[5]@ == latency_ms_text(s.min_latency),
        row@[6]@ == latency_ms_text(s.max_latency),
        row@[7]@ == latency_ms_text(s.avg_latency),
        row@[8]@ == latency_ms_text(s.median_latency),
        row@[9]@ == latency_ms_text(s.p95_latency),
        row@[10]@ == two_dec_text(
            (s.success_count as int) * 10000 / (s.call_count as int),
        ),
{
    let mut row: Vec<String> = Vec::new();
    row.push(s.chain.clone());
    row.push(s.endpoint.clone());
    row.push(s.method.clone());
    row.push(usize_to_dec(s.call_count));
    row.push(usize_to_dec(s.success_count));
    row.push(format_latency_ms(s.min_latency));
    row.push(format_latency_ms(s.max_latency));
    row.push(format_latency_ms(s.avg_latency));
    row.push(format_latency_ms(s.median_latency));
    row.push(format_latency_ms(s.p95_latency));
    let bp = s.success_rate_basis_points();
    row.push(format_hundredths(bp));
    row
}

fn usize_to_dec(n: usize) -> (r: String)
    ensures
        r@ == dec_digits(n as int),
{
    u64_to_dec(n as u64)
}

proof fn lemma_to_multiset_of_empty()
    ensures
        Seq::<MethodStats>::empty().to_multiset() =~= Multiset::<MethodStats>::empty(),
{
    broadcast use vstd::seq_lib::group_to_multiset_ensures;

    assert forall|a: MethodStats|
        Seq::<MethodStats>::empty().to_multiset().count(a) == 0 by {
        assert(!Seq::<MethodStats>::empty().contains(a));
    }
}

} // verus!
