//! One search pass: all queries, at one thread count and one search list size.

use crate::plan::RunError;
use crate::recall::id_lists;
use vstd::prelude::*;

verus! {

/// What one query found.
#[derive(Debug)]
pub struct QueryReply {
    /// The ids that were found, the closest first.
    pub ids: Vec<u32>,
    /// The number of distances that were computed.
    pub comparisons: u32,
}

impl QueryReply {
    /// The reply of a search that answered with `items`, of which only the first
    /// `result_count` were found: those behind them are room that was left unfilled.
    pub fn of_answer(items: Vec<u32>, result_count: u32, comparisons: u32) -> (reply: QueryReply)
        ensures
            reply.ids@ == items@.take(
                if result_count < items@.len() {
                    result_count as int
                } else {
                    items@.len() as int
                },
            ),
            reply.comparisons == comparisons,
    {
        let mut ids: Vec<u32> = items;
        ids.truncate(result_count as usize);
        assert(ids@ =~= items@.take(
            if result_count < items@.len() {
                result_count as int
            } else {
                items@.len() as int
            },
        ));
        QueryReply { ids, comparisons }
    }
}

/// What was measured in one pass, in whole units.
///
/// The rates that a report shows follow from it: queries per second are `num_queries` by
/// `elapsed_ns`, and the two means are the totals by `num_queries`.
#[derive(Debug, Clone, Copy, PartialEq, Eq, Structural)]
pub struct PassResult {
    /// The number of queries.
    pub num_queries: usize,
    /// How long the pass took, in nanoseconds.
    pub elapsed_ns: u128,
    /// How long the queries took together, in microseconds.
    pub total_latency_us: u128,
    /// The number of distances that were computed.
    pub total_comparisons: u128,
}

/// The sum of the numbers in `s`.
pub open spec fn total(s: Seq<int>) -> int
    decreases s.len(),
{
    if s.len() == 0 {
        0
    } else {
        total(s.drop_last()) + s.last()
    }
}

/// The sum of latencies.
pub open spec fn total_of_latencies(latencies: Seq<u64>) -> int {
    total(latencies.map_values(|t: u64| t as int))
}

/// The number of distances that were computed for the query with the given reply.
pub open spec fn comparisons_of(reply: Option<QueryReply>) -> int {
    match reply {
        Some(found) => found.comparisons as int,
        None => 0,
    }
}

/// The number of distances that were computed for all queries.
pub open spec fn total_of_comparisons(replies: Seq<Option<QueryReply>>) -> int {
    total(replies.map_values(|r: Option<QueryReply>| comparisons_of(r)))
}

/// The ids that a query found, as far as they were asked for: the first `k`, or all of them
/// where there are fewer.
pub open spec fn found_by(reply: QueryReply, k: int) -> Seq<u32> {
    reply.ids@.take(if k < reply.ids@.len() { k } else { reply.ids@.len() as int })
}

/// The ids that each query found, as far as they were asked for.
pub open spec fn found_by_all(replies: Seq<Option<QueryReply>>, k: int) -> Seq<Seq<u32>> {
    replies.map_values(|r: Option<QueryReply>| found_by(r->0, k))
}

/// The sum of `latencies`.
pub fn sum_latencies(latencies: &[u64]) -> (sum: u128)
    ensures
        sum == total_of_latencies(latencies@),
{
    let ghost all = latencies@.map_values(|t: u64| t as int);
    let len: usize = latencies.len();
    let mut sum: u128 = 0;
    let mut i: usize = 0;
    while i < len
        invariant
            i <= len == latencies@.len(),
            all == latencies@.map_values(|t: u64| t as int),
            sum == total(all.take(i as int)),
            sum <= i * u64::MAX,
        decreases len - i,
    {
        assert(all.take(i + 1).drop_last() =~= all.take(i as int));
        assert(i * u64::MAX + u64::MAX <= u128::MAX) by (nonlinear_arith)
            requires
                i < u64::MAX,
        ;
        assert(i * u64::MAX + u64::MAX == (i + 1) * u64::MAX) by (nonlinear_arith);
        sum += latencies[i] as u128;
        i += 1;
    }
    assert(all.take(i as int) =~= all);
    sum
}

/// The number of distances that were computed for all queries.
pub fn sum_comparisons(replies: &Vec<Option<QueryReply>>) -> (sum: u128)
    ensures
        sum == total_of_comparisons(replies@),
{
    let ghost all = replies@.map_values(|r: Option<QueryReply>| comparisons_of(r));
    let len: usize = replies.len();
    let mut sum: u128 = 0;
    let mut i: usize = 0;
    while i < len
        invariant
            i <= len == replies@.len(),
            all == replies@.map_values(|r: Option<QueryReply>| comparisons_of(r)),
            sum == total(all.take(i as int)),
            sum <= i * u32::MAX,
        decreases len - i,
    {
        assert(all.take(i + 1).drop_last() =~= all.take(i as int));
        assert(i * u32::MAX + u32::MAX <= u128::MAX) by (nonlinear_arith)
            requires
                i < u64::MAX,
        ;
        assert(i * u32::MAX + u32::MAX == (i + 1) * u32::MAX) by (nonlinear_arith);
        if let Some(found) = &replies[i] {
            sum += found.comparisons as u128;
        }
        i += 1;
    }
    assert(all.take(i as int) =~= all);
    sum
}

/// The ids that a query found, as far as they were asked for.
fn first_ids(reply: &QueryReply, k: usize) -> (ids: Vec<u32>)
    ensures
        ids@ == found_by(*reply, k as int),
{
    let take: usize = if k < reply.ids.len() {
        k
    } else {
        reply.ids.len()
    };
    let ids = vstd::slice::slice_to_vec(
        vstd::slice::slice_subrange(reply.ids.as_slice(), 0, take),
    );
    assert(ids@ =~= found_by(*reply, k as int));
    ids
}

/// Sums up a pass with search list size `l`, given the reply of each query, or `None` for a
/// query that failed. A pass in which a query failed has no result. Any other pass has its
/// measurements, and the ids that each query found, at most `k` of them.
pub fn finish_pass(
    replies: &Vec<Option<QueryReply>>,
    latencies_us: &[u64],
    elapsed_ns: u128,
    k: u32,
    l: u32,
) -> (r: Result<(PassResult, Vec<Vec<u32>>), RunError>)
    requires
        k > 0,
        replies@.len() * k <= usize::MAX,
    ensures
        match r {
            Ok((pass, found)) => {
                &&& forall|q: int| 0 <= q < replies@.len() ==> #[trigger] replies@[q] is Some
                &&& pass.num_queries == replies@.len()
                &&& pass.elapsed_ns == elapsed_ns
                &&& pass.total_latency_us == total_of_latencies(latencies_us@)
                &&& pass.total_comparisons == total_of_comparisons(replies@)
                &&& id_lists(found@) == found_by_all(replies@, k as int)
                &&& found@.len() == replies@.len()
            },
            Err(e) => {
                &&& e == RunError::QueriesFailed { l }
                &&& exists|q: int| 0 <= q < replies@.len() && #[trigger] replies@[q] is None
            },
        },
{
    let mut found: Vec<Vec<u32>> = Vec::new();
    let mut i: usize = 0;
    while i < replies.len()
        invariant
            i <= replies@.len(),
            forall|q: int| 0 <= q < i ==> #[trigger] replies@[q] is Some,
            found@.len() == i,
            forall|q: int|
                0 <= q < i ==> (#[trigger] found@[q])@ == found_by(replies@[q]->0, k as int),
        decreases replies@.len() - i,
    {
        match &replies[i] {
            Some(reply) => {
                found.push(first_ids(reply, k as usize));
            },
            None => {
                assert(replies@[i as int] is None);
                return Err(RunError::QueriesFailed { l });
            },
        }
        i += 1;
    }
    assert(id_lists(found@) =~= found_by_all(replies@, k as int));
    let pass = PassResult {
        num_queries: replies.len(),
        elapsed_ns,
        total_latency_us: sum_latencies(latencies_us),
        total_comparisons: sum_comparisons(replies),
    };
    Ok((pass, found))
}

/// What a query found is what its reply says, cut off behind the first `k` ids: nothing is
/// put in place of ids that were not found.
pub proof fn law_found_ids_come_from_the_reply(reply: QueryReply, k: nat)
    ensures
        found_by(reply, k as int).len() <= k,
        found_by(reply, k as int).is_prefix_of(reply.ids@),
        reply.ids@.len() <= k ==> found_by(reply, k as int) == reply.ids@,
{
    assert(found_by(reply, k as int) =~= reply.ids@.take(
        found_by(reply, k as int).len() as int,
    ));
}

/// Totals add up: no query takes no time and computes no distance, and one more query adds
/// its latency and its comparisons.
pub proof fn law_totals_add_up(
    latencies: Seq<u64>,
    latency: u64,
    replies: Seq<Option<QueryReply>>,
    reply: QueryReply,
)
    ensures
        total_of_latencies(Seq::empty()) == 0,
        total_of_latencies(latencies.push(latency)) == total_of_latencies(latencies) + latency,
        total_of_comparisons(Seq::empty()) == 0,
        total_of_comparisons(replies.push(Some(reply))) == total_of_comparisons(replies)
            + reply.comparisons,
        total_of_comparisons(replies.push(None)) == total_of_comparisons(replies),
{
    let t = |t: u64| t as int;
    let c = |r: Option<QueryReply>| comparisons_of(r);
    assert(Seq::<u64>::empty().map_values(t) =~= Seq::empty());
    assert(Seq::<Option<QueryReply>>::empty().map_values(c) =~= Seq::empty());
    assert(latencies.push(latency).map_values(t).drop_last() =~= latencies.map_values(t));
    assert(replies.push(Some(reply)).map_values(c).drop_last() =~= replies.map_values(c));
    assert(replies.push(None).map_values(c).drop_last() =~= replies.map_values(c));
}

/// What the `q`th query found are the first ids of the `q`th reply: as many as `k`, or all of
/// them where there are fewer.
pub proof fn law_found_ids_of_each_query(replies: Seq<Option<QueryReply>>, k: nat, q: int)
    requires
        0 <= q < replies.len(),
        replies[q] is Some,
    ensures
        found_by_all(replies, k as int).len() == replies.len(),
        ({
            let ids = replies[q]->0.ids@;
            let found = found_by_all(replies, k as int)[q];
            &&& found.len() <= k && found.len() <= ids.len()
            &&& found.len() == k || found.len() == ids.len()
            &&& forall|j: int| 0 <= j < found.len() ==> #[trigger] found[j] == ids[j]
        }),
{
}

} // verus!
