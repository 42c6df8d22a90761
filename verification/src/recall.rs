//! Recall of a search pass against the ground truth.

use crate::ground_truth::{truth_rows, truth_width, GroundTruth};
use vstd::prelude::*;

verus! {

/// Recall as an exact fraction: `hits` of the `slots` ids that were asked for were found.
#[derive(Debug, Clone, Copy, PartialEq, Eq, Structural)]
pub struct Recall {
    pub hits: usize,
    pub slots: usize,
}

/// The `k` nearest ids of a ground truth row, as a set; all ids of a row with fewer.
pub open spec fn nearest(row: Seq<u32>, k: int) -> Set<u32> {
    row.take(if k < row.len() { k } else { row.len() as int }).to_set()
}

/// How many of the ids that a query found are among its `k` nearest. An id that was found
/// several times counts once.
pub open spec fn query_hits(found: Seq<u32>, row: Seq<u32>, k: int) -> nat {
    found.to_set().intersect(nearest(row, k)).len()
}

/// How many ids all queries together found among their `k` nearest. The `q`th list is what
/// the `q`th query found, and the `q`th row is its ground truth.
pub open spec fn total_hits(found: Seq<Seq<u32>>, rows: Seq<Seq<u32>>, k: int) -> nat
    decreases found.len(),
{
    if found.len() == 0 {
        0
    } else {
        total_hits(found.drop_last(), rows, k) + query_hits(
            found.last(),
            rows[found.len() - 1],
            k,
        )
    }
}

/// The lists of ids that `found` holds, one for each query.
pub open spec fn id_lists(found: Seq<Vec<u32>>) -> Seq<Seq<u32>> {
    found.map_values(|ids: Vec<u32>| ids@)
}

/// The ids of `n` queries that fill `k` slots each, one query after the other.
pub open spec fn slot_lists(result_ids: Seq<u32>, n: nat, k: int) -> Seq<Seq<u32>> {
    Seq::new(n, |q: int| result_ids.subrange(q * k, q * k + k))
}

/// Adding one element to the end of a sequence adds it to the sequence's set.
proof fn lemma_take_next_to_set(s: Seq<u32>, j: int)
    requires
        0 <= j < s.len(),
    ensures
        s.take(j + 1).to_set() == s.take(j).to_set().insert(s[j]),
{
    let longer = s.take(j + 1);
    let shorter = s.take(j);
    assert forall|x: u32| longer.contains(x) <==> (shorter.contains(x) || x == s[j]) by {
        if longer.contains(x) {
            let i = choose|i: int| 0 <= i < longer.len() && longer[i] == x;
            if i < j {
                assert(shorter[i] == x);
            }
        }
        if shorter.contains(x) {
            let i = choose|i: int| 0 <= i < shorter.len() && shorter[i] == x;
            assert(longer[i] == x);
        }
        if x == s[j] {
            assert(longer[j] == x);
        }
    }
    assert(longer.to_set() =~= shorter.to_set().insert(s[j]));
}

/// A query has at most `k` hits.
proof fn lemma_query_hits_bound(found: Seq<u32>, row: Seq<u32>, k: int)
    requires
        0 <= k,
    ensures
        query_hits(found, row, k) <= k,
{
    let near = nearest(row, k);
    row.take(if k < row.len() { k } else { row.len() as int }).lemma_cardinality_of_set();
    vstd::set_lib::lemma_len_intersect(near, found.to_set());
    assert(near.intersect(found.to_set()) =~= found.to_set().intersect(near));
}

/// Whether `id` is among the first `n` elements of `ids`.
fn contains_before(ids: &[u32], n: usize, id: u32) -> (b: bool)
    requires
        n <= ids@.len(),
    ensures
        b == ids@.take(n as int).contains(id),
{
    let mut i: usize = 0;
    while i < n
        invariant
            i <= n <= ids@.len(),
            forall|j: int| 0 <= j < i ==> ids@[j] != id,
        decreases n - i,
    {
        if ids[i] == id {
            assert(ids@.take(n as int)[i as int] == id);
            return true;
        }
        i += 1;
    }
    false
}

/// The hits of one query: how many different ids of `ids` are among the first `take` of
/// `truth`.
fn hits_of_query(ids: &[u32], truth: &[u32], take: usize) -> (hits: usize)
    requires
        take <= truth@.len(),
    ensures
        hits == ids@.to_set().intersect(truth@.take(take as int).to_set()).len(),
{
    let len: usize = ids.len();
    let ghost near = truth@.take(take as int).to_set();
    let mut hits: usize = 0;
    let mut j: usize = 0;
    proof {
        assert(ids@.take(0).to_set().intersect(near) =~= Set::<u32>::empty());
    }
    while j < len
        invariant
            j <= len == ids@.len(),
            take <= truth@.len(),
            near == truth@.take(take as int).to_set(),
            hits <= j,
            ids@.take(j as int).to_set().intersect(near).finite(),
            hits == ids@.take(j as int).to_set().intersect(near).len(),
        decreases len - j,
    {
        let id: u32 = ids[j];
        let seen = contains_before(ids, j, id);
        let near_by = contains_before(truth, take, id);
        proof {
            let before = ids@.take(j as int).to_set().intersect(near);
            let after = ids@.take(j + 1).to_set().intersect(near);
            lemma_take_next_to_set(ids@, j as int);
            if near.contains(id) {
                assert(after =~= before.insert(id));
            } else {
                assert(after =~= before);
            }
            assert(seen == ids@.take(j as int).to_set().contains(id));
            assert(near_by == near.contains(id));
        }
        if !seen && near_by {
            hits += 1;
        }
        j += 1;
    }
    assert(ids@.take(len as int) =~= ids@);
    hits
}

/// How many columns of the ground truth hold the `k` nearest.
fn nearest_columns(gt: &GroundTruth, k: usize) -> (take: usize)
    ensures
        take == (if k < truth_width(*gt) { k as int } else { truth_width(*gt) as int }),
{
    let width: usize = gt.ncols();
    if k < width {
        k
    } else {
        width
    }
}

/// recall@k: the mean over queries of `|found ∩ truth[..k]| / k`.
///
/// `found` holds the ids that each query found, and no others: a query that found fewer than
/// `k` ids has a shorter list. The mean is `hits / slots` of the result.
pub fn recall_of_found(found: &Vec<Vec<u32>>, gt: &GroundTruth, k: u32) -> (r: Recall)
    requires
        found@.len() * k <= usize::MAX,
        found@.len() <= truth_rows(*gt).len(),
    ensures
        r.hits == total_hits(id_lists(found@), truth_rows(*gt), k as int),
        r.slots == found@.len() * k,
        r.hits <= r.slots,
{
    let ghost lists = id_lists(found@);
    let k: usize = k as usize;
    let n: usize = found.len();
    let take: usize = nearest_columns(gt, k);
    let mut hits: usize = 0;
    let mut slots: usize = 0;
    let mut q: usize = 0;
    assert(0 * k == 0) by (nonlinear_arith);
    while q < n
        invariant
            q <= n == found@.len(),
            n <= truth_rows(*gt).len(),
            n * k <= usize::MAX,
            lists == id_lists(found@),
            take == (if k < truth_width(*gt) { k as int } else { truth_width(*gt) as int }),
            slots == q * k,
            hits <= slots,
            hits == total_hits(lists.take(q as int), truth_rows(*gt), k as int),
        decreases n - q,
    {
        assert(q * k + k == (q + 1) * k && (q + 1) * k <= n * k) by (nonlinear_arith)
            requires
                q < n,
                k >= 0,
        ;
        assert(lists.take(q + 1).drop_last() =~= lists.take(q as int));
        let here: usize = hits_of_query(found[q].as_slice(), gt.row(q), take);
        proof {
            lemma_query_hits_bound(lists[q as int], truth_rows(*gt)[q as int], k as int);
        }
        hits += here;
        slots += k;
        q += 1;
    }
    assert(lists.take(n as int) =~= lists);
    Recall { hits, slots }
}

/// recall@k, where every query found `k` ids: `result_ids` holds the `k` ids of each query,
/// one query after the other. The mean is `hits / slots` of the result.
pub fn recall_at_k(result_ids: &[u32], gt: &GroundTruth, num_queries: usize, k: u32) -> (r: Recall)
    requires
        num_queries * k <= result_ids@.len(),
        num_queries <= truth_rows(*gt).len(),
    ensures
        r.hits == total_hits(
            slot_lists(result_ids@, num_queries as nat, k as int),
            truth_rows(*gt),
            k as int,
        ),
        r.slots == num_queries * k,
        r.hits <= r.slots,
{
    let ghost lists = slot_lists(result_ids@, num_queries as nat, k as int);
    let k: usize = k as usize;
    let len: usize = result_ids.len();
    let take: usize = nearest_columns(gt, k);
    let mut hits: usize = 0;
    let mut slots: usize = 0;
    let mut q: usize = 0;
    assert(0 * k == 0) by (nonlinear_arith);
    while q < num_queries
        invariant
            q <= num_queries <= truth_rows(*gt).len(),
            num_queries * k <= len == result_ids@.len(),
            lists == slot_lists(result_ids@, num_queries as nat, k as int),
            take == (if k < truth_width(*gt) { k as int } else { truth_width(*gt) as int }),
            slots == q * k,
            hits <= slots,
            hits == total_hits(lists.take(q as int), truth_rows(*gt), k as int),
        decreases num_queries - q,
    {
        assert(q * k + k == (q + 1) * k && (q + 1) * k <= num_queries * k) by (nonlinear_arith)
            requires
                q < num_queries,
                k >= 0,
        ;
        assert(lists.take(q + 1).drop_last() =~= lists.take(q as int));
        let ids = vstd::slice::slice_subrange(result_ids, slots, slots + k);
        let here: usize = hits_of_query(ids, gt.row(q), take);
        proof {
            lemma_query_hits_bound(lists[q as int], truth_rows(*gt)[q as int], k as int);
        }
        hits += here;
        slots += k;
        q += 1;
    }
    assert(lists.take(num_queries as int) =~= lists);
    Recall { hits, slots }
}

/// Where every query fills its `k` slots, the slots and the lists of found ids have the same
/// recall.
pub proof fn law_full_slots_have_recall_of_found(
    found: Seq<Seq<u32>>,
    result_ids: Seq<u32>,
    rows: Seq<Seq<u32>>,
    k: nat,
)
    requires
        found.len() * k <= result_ids.len(),
        forall|q: int| 0 <= q < found.len() ==> (#[trigger] found[q]).len() == k,
        forall|q: int, j: int|
            0 <= q < found.len() && 0 <= j < k ==> #[trigger] found[q][j] == result_ids[q * k + j],
    ensures
        slot_lists(result_ids, found.len(), k as int) == found,
        total_hits(slot_lists(result_ids, found.len(), k as int), rows, k as int) == total_hits(
            found,
            rows,
            k as int,
        ),
{
    let n = found.len() as int;
    let lists = slot_lists(result_ids, found.len(), k as int);
    assert forall|q: int| 0 <= q < n implies #[trigger] lists[q] == found[q] by {
        assert(0 <= q * k && q * k + k <= n * k) by (nonlinear_arith)
            requires
                0 <= q < n,
                k >= 0,
        ;
        assert(lists[q] =~= found[q]);
    }
    assert(lists =~= found);
}

/// Only ids that were found are hits: a query has no more hits than it found ids.
pub proof fn law_no_more_hits_than_found_ids(found: Seq<u32>, row: Seq<u32>, k: int)
    ensures
        query_hits(found, row, k) <= found.len(),
{
    found.lemma_cardinality_of_set();
    vstd::set_lib::lemma_len_intersect(found.to_set(), nearest(row, k));
}

/// Recall is at most one: there are no more than `k` hits for each query.
pub proof fn law_recall_at_most_one(found: Seq<Seq<u32>>, rows: Seq<Seq<u32>>, k: nat)
    ensures
        total_hits(found, rows, k as int) <= found.len() * k,
    decreases found.len(),
{
    let n = found.len() as int;
    if n > 0 {
        law_recall_at_most_one(found.drop_last(), rows, k);
        lemma_query_hits_bound(found.last(), rows[n - 1], k as int);
        assert((n - 1) * k + k == n * k) by (nonlinear_arith);
    } else {
        assert(n * k == 0) by (nonlinear_arith)
            requires
                n == 0,
        ;
    }
}

/// The order in which a query's ids stand, and how often each of them stands there, does not
/// matter: recall depends only on which ids each query found.
pub proof fn law_recall_depends_on_found_sets(
    a: Seq<Seq<u32>>,
    b: Seq<Seq<u32>>,
    rows: Seq<Seq<u32>>,
    k: nat,
)
    requires
        a.len() == b.len(),
        forall|q: int| 0 <= q < a.len() ==> (#[trigger] a[q]).to_set() == b[q].to_set(),
    ensures
        total_hits(a, rows, k as int) == total_hits(b, rows, k as int),
    decreases a.len(),
{
    if a.len() > 0 {
        law_recall_depends_on_found_sets(a.drop_last(), b.drop_last(), rows, k);
        assert(a[a.len() - 1].to_set() == b[a.len() - 1].to_set());
    }
}

/// A query found exactly its `k` nearest, which are `k` different ids.
pub open spec fn fully_found(found: Seq<u32>, row: Seq<u32>, k: int) -> bool {
    &&& k <= row.len()
    &&& row.take(k).no_duplicates()
    &&& found.to_set() == nearest(row, k)
}

/// Where every query found its `k` nearest, recall is one.
pub proof fn law_full_recall(found: Seq<Seq<u32>>, rows: Seq<Seq<u32>>, k: nat)
    requires
        forall|q: int|
            0 <= q < found.len() ==> fully_found(#[trigger] found[q], rows[q], k as int),
    ensures
        total_hits(found, rows, k as int) == found.len() * k,
    decreases found.len(),
{
    let n = found.len() as int;
    if n > 0 {
        law_full_recall(found.drop_last(), rows, k);
        assert((n - 1) * k + k == n * k) by (nonlinear_arith);
        let near = nearest(rows[n - 1], k as int);
        assert(fully_found(found[n - 1], rows[n - 1], k as int));
        rows[n - 1].take(k as int).unique_seq_to_set();
        assert(near.intersect(near) =~= near);
    } else {
        assert(n * k == 0) by (nonlinear_arith)
            requires
                n == 0,
        ;
    }
}

/// Where no query found one of its `k` nearest, recall is zero.
pub proof fn law_no_recall(found: Seq<Seq<u32>>, rows: Seq<Seq<u32>>, k: nat)
    requires
        forall|q: int|
            0 <= q < found.len() ==> (#[trigger] found[q]).to_set().disjoint(
                nearest(rows[q], k as int),
            ),
    ensures
        total_hits(found, rows, k as int) == 0,
    decreases found.len(),
{
    if found.len() > 0 {
        let n = found.len() as int;
        law_no_recall(found.drop_last(), rows, k);
        let ids = found[n - 1].to_set();
        assert(ids.intersect(nearest(rows[n - 1], k as int)) =~= Set::<u32>::empty());
    }
}

/// Where a query found different ids, its hits are those that stand among its `k` nearest.
pub proof fn law_hits_of_distinct_ids(found: Seq<u32>, row: Seq<u32>, k: int)
    requires
        found.no_duplicates(),
    ensures
        query_hits(found, row, k) == found.filter(|id: u32| nearest(row, k).contains(id)).len(),
{
    let near = nearest(row, k);
    lemma_filter_of_distinct(found, near);
    found.filter(|id: u32| near.contains(id)).unique_seq_to_set();
}

/// Filtering different elements by a set leaves different elements: those in the set.
proof fn lemma_filter_of_distinct(ids: Seq<u32>, near: Set<u32>)
    requires
        ids.no_duplicates(),
    ensures
        ids.filter(|id: u32| near.contains(id)).no_duplicates(),
        ids.filter(|id: u32| near.contains(id)).to_set() == ids.to_set().intersect(near),
    decreases ids.len(),
{
    let pred = |id: u32| near.contains(id);
    let kept = ids.filter(pred);
    reveal(Seq::filter);
    if ids.len() > 0 {
        let init = ids.drop_last();
        lemma_filter_of_distinct(init, near);
        let kept_init = init.filter(pred);
        lemma_take_next_to_set(ids, ids.len() - 1);
        assert(ids.take(ids.len() as int) =~= ids);
        assert(ids.take(ids.len() - 1) =~= init);
        if pred(ids.last()) {
            assert(kept == kept_init.push(ids.last()));
            lemma_take_next_to_set(kept, kept.len() - 1);
            assert(kept.take(kept.len() as int) =~= kept);
            assert(kept.take(kept.len() - 1) =~= kept_init);
            assert(!init.contains(ids.last()));
            assert(!kept_init.to_set().contains(ids.last()));
            assert(kept.to_set() =~= ids.to_set().intersect(near));
        } else {
            assert(kept == kept_init);
            assert(kept.to_set() =~= ids.to_set().intersect(near));
        }
    } else {
        assert(kept.to_set() =~= ids.to_set().intersect(near));
    }
}

/// The right ones of the ids that a query found: those that stand in the first `k` cells of
/// its ground truth row, or in any cell of a row with fewer.
pub open spec fn right_ids(found: Seq<u32>, row: Seq<u32>, k: nat) -> Set<u32> {
    Set::new(
        |id: u32|
            found.contains(id) && exists|j: int|
                0 <= j < k && j < row.len() && #[trigger] row[j] == id,
    )
}

/// The hits of a query are its right ids.
proof fn lemma_query_hits_are_right_ids(found: Seq<u32>, row: Seq<u32>, k: nat)
    ensures
        query_hits(found, row, k as int) == right_ids(found, row, k).len(),
{
    let take = if k < row.len() {
        k as int
    } else {
        row.len() as int
    };
    let front = row.take(take);
    assert forall|id: u32|
        nearest(row, k as int).contains(id) <==> exists|j: int|
            0 <= j < k && j < row.len() && #[trigger] row[j] == id by {
        if front.contains(id) {
            let j = choose|j: int| 0 <= j < front.len() && front[j] == id;
            assert(row[j] == id);
        }
        if exists|j: int| 0 <= j < k && j < row.len() && #[trigger] row[j] == id {
            let j = choose|j: int| 0 <= j < k && j < row.len() && #[trigger] row[j] == id;
            assert(front[j] == id);
        }
    }
    assert(found.to_set().intersect(nearest(row, k as int)) =~= right_ids(found, row, k));
}

/// Hits add up: no queries have no hits, and one more query adds as many hits as it found
/// right ids, however many it missed.
pub proof fn law_hits_add_up(found: Seq<Seq<u32>>, ids: Seq<u32>, rows: Seq<Seq<u32>>, k: nat)
    requires
        found.len() < rows.len(),
    ensures
        total_hits(Seq::empty(), rows, k as int) == 0,
        total_hits(found.push(ids), rows, k as int) == total_hits(found, rows, k as int)
            + right_ids(ids, rows[found.len() as int], k).len(),
{
    lemma_query_hits_are_right_ids(ids, rows[found.len() as int], k);
    assert(found.push(ids).drop_last() =~= found);
}

/// Where each of `n` queries found `m` right ids, there are `n * m` hits, also where that is
/// neither none nor all.
pub proof fn law_partial_recall(found: Seq<Seq<u32>>, rows: Seq<Seq<u32>>, k: nat, m: nat)
    requires
        found.len() <= rows.len(),
        forall|q: int|
            0 <= q < found.len() ==> right_ids(#[trigger] found[q], rows[q], k).len() == m,
    ensures
        total_hits(found, rows, k as int) == found.len() * m,
    decreases found.len(),
{
    let n = found.len() as int;
    if n > 0 {
        let init = found.drop_last();
        law_partial_recall(init, rows, k, m);
        law_hits_add_up(init, found.last(), rows, k);
        assert(init.push(found.last()) =~= found);
        assert(right_ids(found[n - 1], rows[n - 1], k).len() == m);
        assert((n - 1) * m + m == n * m) by (nonlinear_arith);
    } else {
        assert(n * m == 0) by (nonlinear_arith)
            requires
                n == 0,
        ;
    }
}

/// Finding one more right id makes one more hit, and finding any other id makes none.
pub proof fn law_one_more_id(found: Seq<u32>, id: u32, row: Seq<u32>, k: nat)
    requires
        !found.contains(id),
    ensures
        query_hits(found.push(id), row, k as int) == query_hits(found, row, k as int) + (
        if exists|j: int| 0 <= j < k && j < row.len() && #[trigger] row[j] == id {
            1nat
        } else {
            0nat
        }),
{
    let longer = found.push(id);
    lemma_query_hits_are_right_ids(found, row, k);
    lemma_query_hits_are_right_ids(longer, row, k);
    lemma_take_next_to_set(longer, found.len() as int);
    assert(longer.take(found.len() as int) =~= found);
    assert(longer.take(found.len() as int + 1) =~= longer);
    let before = right_ids(found, row, k);
    let after = right_ids(longer, row, k);
    assert(found.to_set().contains(id) == found.contains(id));
    assert forall|x: u32| longer.contains(x) <==> (found.contains(x) || x == id) by {
        assert(longer.to_set().contains(x) == longer.contains(x));
        assert(found.to_set().contains(x) == found.contains(x));
    }
    assert(before =~= found.to_set().intersect(before));
    assert(before.finite());
    if exists|j: int| 0 <= j < k && j < row.len() && #[trigger] row[j] == id {
        assert(after =~= before.insert(id));
    } else {
        assert(after =~= before);
    }
}

/// The lists of found ids are those that the queries are given with, one for each of them.
pub proof fn law_id_lists_are_given_lists(found: Seq<Vec<u32>>, q: int)
    requires
        0 <= q < found.len(),
    ensures
        id_lists(found).len() == found.len(),
        id_lists(found)[q] == found[q]@,
{
}

} // verus!
