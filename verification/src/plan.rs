//! What a job asks of the index searcher.

use crate::inputs::{DiskIndexLoad, DiskSearchPhase};
use crate::storage::{law_index_files_are_distinct, IndexFiles};
use crate::text::{append_decimal, decimal, law_decimal_is_unambiguous};
use diskann_disk::data_model::CachingStrategy;
use diskann_vector::distance::Metric;
use vstd::prelude::*;
use vstd::std_specs::convert::FromSpec;
use vstd::string::StringExecFns;

verus! {

/// The caching strategies of `diskann_disk`, an enum whose one field is a number: the
/// verifier reads its variants, and nothing is claimed of it.
#[verifier::external_type_specification]
pub struct ExCachingStrategy(CachingStrategy);

/// Why a sweep did not run to its end.
#[derive(Debug, Clone, Copy, PartialEq, Eq, Structural)]
pub enum RunError {
    /// There is no thread count to search with.
    NoThreadCounts,
    /// A query failed in the pass with search list size `l`.
    QueriesFailed { l: u32 },
}

impl RunError {
    /// The message that tells of the error.
    pub open spec fn text(self) -> Seq<char> {
        match self {
            RunError::NoThreadCounts => "thread_counts must not be empty"@,
            RunError::QueriesFailed { l } => "one or more queries failed at L="@ + decimal(
                l as nat,
            ),
        }
    }

    /// The message that tells of the error.
    pub fn message(&self) -> (s: String)
        ensures
            s@ == self.text(),
    {
        match self {
            RunError::NoThreadCounts => String::from_str("thread_counts must not be empty"),
            RunError::QueriesFailed { l } => {
                let mut s = String::from_str("one or more queries failed at L=");
                append_decimal(&mut s, *l as u64);
                s
            },
        }
    }
}

/// How the index is opened and searched.
pub struct SearchPlan {
    /// The files of the index.
    pub files: IndexFiles,
    /// The number of threads that the searcher has to be ready for.
    pub max_threads: usize,
    /// The number of reads that one query may make.
    pub io_limit: usize,
    /// Which nodes of the graph are kept in memory.
    pub caching: CachingStrategy,
    /// How distances are measured.
    pub metric: Metric,
}

/// `max` is the largest of `counts`, or 1 if that is larger or there is none.
pub open spec fn is_max_threads(max: usize, counts: Seq<usize>) -> bool {
    &&& max >= 1
    &&& forall|i: int| 0 <= i < counts.len() ==> #[trigger] counts[i] <= max
    &&& max == 1 || counts.contains(max)
}

/// The largest of `counts`, or 1 if that is larger or there is none.
pub fn max_threads(counts: &[usize]) -> (max: usize)
    ensures
        is_max_threads(max, counts@),
{
    let mut max: usize = 1;
    let mut i: usize = 0;
    while i < counts.len()
        invariant
            i <= counts@.len(),
            max >= 1,
            forall|j: int| 0 <= j < i ==> #[trigger] counts@[j] <= max,
            max == 1 || counts@.contains(max),
        decreases counts@.len() - i,
    {
        if counts[i] > max {
            max = counts[i];
        }
        i += 1;
    }
    max
}

impl SearchPlan {
    /// The plan does what the job asks for at each of `thread_counts`.
    pub open spec fn serves(
        self,
        load: DiskIndexLoad,
        search: DiskSearchPhase,
        thread_counts: Seq<usize>,
    ) -> bool {
        &&& self.files.belong_to(load.load_path@)
        &&& is_max_threads(self.max_threads, thread_counts)
        &&& self.io_limit == (match search.search_io_limit {
            Some(limit) => limit,
            None => usize::MAX,
        })
        &&& self.caching == (match search.num_nodes_to_cache {
            Some(n) => CachingStrategy::StaticCacheWithBfsNodes(n),
            None => CachingStrategy::None,
        })
        &&& self.metric == <Metric as FromSpec<_>>::from_spec(search.distance)
    }

    /// Plans the search of an index at each of `thread_counts`, of which there has to be one.
    pub fn new(load: &DiskIndexLoad, search: &DiskSearchPhase, thread_counts: &[usize]) -> (r:
        Result<SearchPlan, RunError>)
        ensures
            thread_counts@.len() == 0 <==> r == Err::<SearchPlan, RunError>(
                RunError::NoThreadCounts,
            ),
            thread_counts@.len() > 0 <==> r is Ok,
            r matches Ok(plan) ==> plan.serves(*load, *search, thread_counts@),
    {
        if thread_counts.len() == 0 {
            return Err(RunError::NoThreadCounts);
        }
        let caching = match search.num_nodes_to_cache {
            Some(n) => CachingStrategy::StaticCacheWithBfsNodes(n),
            None => CachingStrategy::None,
        };
        let io_limit: usize = match search.search_io_limit {
            Some(limit) => limit,
            None => usize::MAX,
        };
        Ok(
            SearchPlan {
                files: load.files(),
                max_threads: max_threads(thread_counts),
                io_limit,
                caching,
                metric: Metric::from(search.distance),
            },
        )
    }
}

/// A plan opens the index of the job and follows each of the job's settings.
pub proof fn law_plan_follows_the_job(
    plan: SearchPlan,
    load: DiskIndexLoad,
    search: DiskSearchPhase,
    thread_counts: Seq<usize>,
)
    requires
        plan.serves(load, search, thread_counts),
    ensures
        plan.files.pq_pivot@ == load.load_path@ + "_pq_pivots.bin"@,
        plan.files.compressed_pq@ == load.load_path@ + "_pq_compressed.bin"@,
        plan.files.disk_index@ == load.load_path@ + "_disk.index"@,
        plan.metric is L2 <==> search.distance is SquaredL2,
        plan.metric is InnerProduct <==> search.distance is InnerProduct,
        plan.metric is Cosine <==> search.distance is Cosine,
        plan.metric is CosineNormalized <==> search.distance is CosineNormalized,
        search.search_io_limit matches Some(limit) ==> plan.io_limit == limit,
        search.search_io_limit is None ==> plan.io_limit == usize::MAX,
        search.num_nodes_to_cache matches Some(n) ==> (plan.caching
            matches CachingStrategy::StaticCacheWithBfsNodes(cached) && cached == n),
        search.num_nodes_to_cache is None ==> plan.caching is None,
{
}

/// Plans of jobs that differ in a setting of the search differ too: no two measures, caches
/// or limits become the same, except for a limit that limits nothing.
pub proof fn law_different_jobs_have_different_plans(
    a: SearchPlan,
    b: SearchPlan,
    load_a: DiskIndexLoad,
    load_b: DiskIndexLoad,
    search_a: DiskSearchPhase,
    search_b: DiskSearchPhase,
    thread_counts: Seq<usize>,
)
    requires
        a.serves(load_a, search_a, thread_counts),
        b.serves(load_b, search_b, thread_counts),
    ensures
        a.metric == b.metric <==> search_a.distance == search_b.distance,
        a.caching == b.caching <==> search_a.num_nodes_to_cache == search_b.num_nodes_to_cache,
        search_a.search_io_limit is Some && search_b.search_io_limit is Some ==> (a.io_limit
            == b.io_limit <==> search_a.search_io_limit == search_b.search_io_limit),
        a.files.disk_index@ == b.files.disk_index@ <==> load_a.load_path@ == load_b.load_path@,
        a.files.pq_pivot@ == b.files.pq_pivot@ <==> load_a.load_path@ == load_b.load_path@,
        a.files.compressed_pq@ == b.files.compressed_pq@ <==> load_a.load_path@
            == load_b.load_path@,
        a.max_threads == b.max_threads,
{
    law_index_files_are_distinct(load_a.load_path@, load_b.load_path@);
    law_max_threads_is_the_largest(a.max_threads, b.max_threads, thread_counts);
}

/// The number of threads that a plan is ready for is at least one and enough for each thread
/// count, and no smaller number is.
pub proof fn law_max_threads_is_the_largest(max: usize, other: usize, counts: Seq<usize>)
    requires
        is_max_threads(max, counts),
    ensures
        max >= 1,
        forall|i: int| 0 <= i < counts.len() ==> #[trigger] counts[i] <= max,
        1 <= other && (forall|i: int| 0 <= i < counts.len() ==> #[trigger] counts[i] <= other)
            ==> max <= other,
        is_max_threads(other, counts) ==> other == max,
{
    if max != 1 {
        let i = choose|i: int| 0 <= i < counts.len() && counts[i] == max;
        assert(counts[i] == max);
    }
    if is_max_threads(other, counts) && other != 1 {
        let i = choose|i: int| 0 <= i < counts.len() && counts[i] == other;
        assert(counts[i] == other);
    }
}

/// The message of a failed pass ends with the search list size of that pass, and so tells
/// passes apart.
pub proof fn law_failed_pass_is_named(a: u32, b: u32)
    ensures
        decimal(a as nat).is_suffix_of((RunError::QueriesFailed { l: a }).text()),
        "one or more queries failed at L="@.is_prefix_of((RunError::QueriesFailed { l: a }).text()),
        (RunError::QueriesFailed { l: a }).text() == (RunError::QueriesFailed { l: b }).text()
            <==> a == b,
{
    let start = "one or more queries failed at L="@;
    let text_a = (RunError::QueriesFailed { l: a }).text();
    let text_b = (RunError::QueriesFailed { l: b }).text();
    assert(text_a.skip(start.len() as int) =~= decimal(a as nat));
    assert(text_b.skip(start.len() as int) =~= decimal(b as nat));
    assert(text_a.take(start.len() as int) =~= start);
    law_decimal_is_unambiguous(a as nat, b as nat);
}

} // verus!
