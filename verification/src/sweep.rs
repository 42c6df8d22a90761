//! The sweep: one row of passes for each thread count, one pass for each search list size.
//!
//! A [`Sweep`] says what has to be done next and is told what came of it. The thread pools
//! and the searches themselves are the caller's.

use crate::ground_truth::{truth_rows, GroundTruth};
use crate::inputs::DiskSearchPhase;
use crate::pass::PassResult;
use crate::plan::RunError;
use crate::recall::{
    id_lists, law_hits_add_up, law_partial_recall, law_recall_at_most_one, recall_of_found, right_ids,
    total_hits, Recall,
};
use vstd::prelude::*;

verus! {

/// The passes at one thread count, one for each search list size.
#[derive(Debug)]
pub struct ThreadSweepRow {
    pub num_threads: usize,
    pub passes: Vec<PassResult>,
}

/// What a whole sweep came to.
#[derive(Debug)]
pub struct SweepStats {
    pub recall_at: u32,
    pub beam_width: usize,
    pub search_list: Vec<u32>,
    /// One for each search list size: recall does not depend on the number of threads.
    pub recalls: Vec<Option<Recall>>,
    /// One for each thread count.
    pub rows: Vec<ThreadSweepRow>,
}

/// A row, as a mathematical value.
pub struct RowModel {
    pub num_threads: usize,
    pub passes: Seq<PassResult>,
}

/// A sweep in progress, as a mathematical value.
pub struct SweepModel {
    pub recall_at: u32,
    pub beam_width: usize,
    pub search_list: Seq<u32>,
    pub thread_counts: Seq<usize>,
    /// The rows that are complete.
    pub rows: Seq<RowModel>,
    /// The passes of the row that is being filled, once its thread pool has been built.
    pub open: Option<Seq<PassResult>>,
    /// The recall for each search list size, as far as it is known.
    pub recalls: Seq<Option<Recall>>,
}

/// What has to be done next in a sweep.
#[derive(Debug, Clone, Copy, PartialEq, Eq, Structural)]
pub enum SweepAction {
    /// Build a thread pool of this size.
    BuildPool { num_threads: usize },
    /// Run all queries in the current thread pool with search list size `l`.
    RunPass { l: u32 },
    /// All passes at this thread count are done: the row is complete.
    CloseRow { num_threads: usize },
    /// The sweep is done.
    Finish,
}

impl View for ThreadSweepRow {
    type V = RowModel;

    open spec fn view(&self) -> RowModel {
        RowModel { num_threads: self.num_threads, passes: self.passes@ }
    }
}

/// The recall of a pass in which the queries found the given ids, where there is a ground
/// truth.
pub open spec fn recall_of(
    found: Seq<Seq<u32>>,
    truth: Option<GroundTruth>,
    k: u32,
) -> Option<Recall> {
    match truth {
        Some(gt) => Some(
            Recall {
                hits: total_hits(found, truth_rows(gt), k as int) as usize,
                slots: (found.len() * k) as usize,
            },
        ),
        None => None,
    }
}

impl SweepStats {
    /// The complete rows, as mathematical values.
    pub open spec fn row_models(self) -> Seq<RowModel> {
        self.rows@.map_values(|r: ThreadSweepRow| r@)
    }

    /// There is a row for each of `thread_counts`, in their order, with a pass for each search
    /// list size, and a recall for each search list size.
    pub open spec fn complete(self, thread_counts: Seq<usize>) -> bool {
        &&& self.rows@.len() == thread_counts.len()
        &&& forall|i: int|
            0 <= i < self.rows@.len() ==> (#[trigger] self.rows@[i]).num_threads
                == thread_counts[i] && self.rows@[i].passes@.len() == self.search_list@.len()
        &&& self.recalls@.len() == self.search_list@.len()
    }
}

impl SweepModel {
    /// The sweep before anything was done.
    pub open spec fn start(search: DiskSearchPhase, thread_counts: Seq<usize>) -> SweepModel {
        SweepModel {
            recall_at: search.recall_at,
            beam_width: search.beam_width,
            search_list: search.search_list@,
            thread_counts,
            rows: Seq::empty(),
            open: None,
            recalls: Seq::empty(),
        }
    }

    /// What has to be done next.
    pub open spec fn next(self) -> SweepAction {
        if self.rows.len() >= self.thread_counts.len() {
            SweepAction::Finish
        } else {
            let num_threads = self.thread_counts[self.rows.len() as int];
            match self.open {
                None => SweepAction::BuildPool { num_threads },
                Some(passes) => if passes.len() < self.search_list.len() {
                    SweepAction::RunPass { l: self.search_list[passes.len() as int] }
                } else {
                    SweepAction::CloseRow { num_threads }
                },
            }
        }
    }

    /// The sweep after its next thread pool was built.
    pub open spec fn with_pool(self) -> SweepModel {
        SweepModel { open: Some(Seq::empty()), ..self }
    }

    /// The sweep after its next pass was run. Recall is taken from the first row.
    pub open spec fn with_pass(self, pass: PassResult, recall: Option<Recall>) -> SweepModel {
        SweepModel {
            open: Some(self.open->0.push(pass)),
            recalls: if self.rows.len() == 0 {
                self.recalls.push(recall)
            } else {
                self.recalls
            },
            ..self
        }
    }

    /// The sweep after its next row was closed.
    pub open spec fn with_row(self) -> SweepModel {
        let row = RowModel {
            num_threads: self.thread_counts[self.rows.len() as int],
            passes: self.open->0,
        };
        SweepModel { open: None, rows: self.rows.push(row), ..self }
    }

    /// What holds of every sweep in progress. The rows that are complete belong to the first
    /// thread counts and have a pass for each search list size, and there is a recall for
    /// each search list size of the first row that has been reached.
    pub open spec fn valid(self) -> bool {
        &&& self.thread_counts.len() > 0
        &&& self.rows.len() <= self.thread_counts.len()
        &&& self.rows.len() == self.thread_counts.len() ==> self.open is None
        &&& forall|i: int|
            0 <= i < self.rows.len() ==> (#[trigger] self.rows[i]).num_threads
                == self.thread_counts[i] && self.rows[i].passes.len() == self.search_list.len()
        &&& self.open matches Some(passes) ==> passes.len() <= self.search_list.len()
        &&& self.recalls.len() == (if self.rows.len() > 0 {
            self.search_list.len()
        } else {
            match self.open {
                Some(passes) => passes.len(),
                None => 0,
            }
        })
    }

    /// The number of steps to the end.
    pub open spec fn steps_left(self) -> int {
        (self.thread_counts.len() - self.rows.len()) * (self.search_list.len() + 2) - (
        match self.open {
            Some(passes) => passes.len() + 1,
            None => 0,
        })
    }
}

/// A sweep in progress.
#[derive(Debug)]
pub struct Sweep {
    recall_at: u32,
    beam_width: usize,
    search_list: Vec<u32>,
    thread_counts: Vec<usize>,
    rows: Vec<ThreadSweepRow>,
    open: Option<Vec<PassResult>>,
    recalls: Vec<Option<Recall>>,
}

impl View for Sweep {
    type V = SweepModel;

    closed spec fn view(&self) -> SweepModel {
        SweepModel {
            recall_at: self.recall_at,
            beam_width: self.beam_width,
            search_list: self.search_list@,
            thread_counts: self.thread_counts@,
            rows: self.rows@.map_values(|r: ThreadSweepRow| r@),
            open: match self.open {
                Some(passes) => Some(passes@),
                None => None,
            },
            recalls: self.recalls@,
        }
    }
}

impl Sweep {
    /// Starts a sweep of `search` over `thread_counts`, of which there has to be one.
    pub fn new(search: &DiskSearchPhase, thread_counts: &[usize]) -> (r: Result<Sweep, RunError>)
        ensures
            thread_counts@.len() == 0 <==> r == Err::<Sweep, RunError>(RunError::NoThreadCounts),
            thread_counts@.len() > 0 <==> r is Ok,
            r matches Ok(sweep) ==> sweep@ == SweepModel::start(*search, thread_counts@)
                && sweep@.valid(),
    {
        if thread_counts.len() == 0 {
            return Err(RunError::NoThreadCounts);
        }
        let sweep = Sweep {
            recall_at: search.recall_at,
            beam_width: search.beam_width,
            search_list: search.search_list.clone(),
            thread_counts: vstd::slice::slice_to_vec(thread_counts),
            rows: Vec::new(),
            open: None,
            recalls: Vec::new(),
        };
        proof {
            assert(sweep.search_list@ =~= search.search_list@);
            assert(sweep@.rows =~= Seq::empty());
        }
        Ok(sweep)
    }

    /// What has to be done next.
    pub fn next_action(&self) -> (action: SweepAction)
        ensures
            action == self@.next(),
    {
        if self.rows.len() >= self.thread_counts.len() {
            return SweepAction::Finish;
        }
        let num_threads: usize = self.thread_counts[self.rows.len()];
        match &self.open {
            None => SweepAction::BuildPool { num_threads },
            Some(passes) => if passes.len() < self.search_list.len() {
                SweepAction::RunPass { l: self.search_list[passes.len()] }
            } else {
                SweepAction::CloseRow { num_threads }
            },
        }
    }

    /// Takes note that the thread pool was built.
    pub fn pool_built(&mut self)
        requires
            old(self)@.valid(),
            old(self)@.next() is BuildPool,
        ensures
            final(self)@ == old(self)@.with_pool(),
            final(self)@.valid(),
    {
        self.open = Some(Vec::new());
        assert(self@.open->0 =~= Seq::empty());
    }

    /// Takes note of a pass that was run and of the ids that each query found. In the first
    /// row, recall is measured against the ground truth, if there is one.
    pub fn pass_done(
        &mut self,
        pass: PassResult,
        found: &Vec<Vec<u32>>,
        truth: &Option<GroundTruth>,
    )
        requires
            old(self)@.valid(),
            old(self)@.next() is RunPass,
            old(self)@.rows.len() == 0 ==> (*truth matches Some(gt) ==> found@.len()
                * old(self)@.recall_at <= usize::MAX && found@.len() <= truth_rows(gt).len()),
        ensures
            final(self)@ == old(self)@.with_pass(
                pass,
                recall_of(id_lists(found@), *truth, old(self)@.recall_at),
            ),
            final(self)@.valid(),
    {
        if self.rows.len() == 0 {
            let recall: Option<Recall> = match truth {
                Some(gt) => Some(recall_of_found(found, gt, self.recall_at)),
                None => None,
            };
            self.recalls.push(recall);
        }
        let mut passes: Vec<PassResult> = match self.open.take() {
            Some(passes) => passes,
            None => Vec::new(),
        };
        passes.push(pass);
        self.open = Some(passes);
        assert(self@.rows =~= old(self)@.rows);
    }

    /// Takes note that the row is complete.
    pub fn row_closed(&mut self)
        requires
            old(self)@.valid(),
            old(self)@.next() is CloseRow,
        ensures
            final(self)@ == old(self)@.with_row(),
            final(self)@.valid(),
    {
        let passes: Vec<PassResult> = match self.open.take() {
            Some(passes) => passes,
            None => Vec::new(),
        };
        let num_threads: usize = self.thread_counts[self.rows.len()];
        self.rows.push(ThreadSweepRow { num_threads, passes });
        assert(self@.rows =~= old(self)@.with_row().rows);
    }

    /// What the sweep came to, once it is done.
    pub fn finish(self) -> (stats: SweepStats)
        requires
            self@.valid(),
            self@.next() is Finish,
        ensures
            stats.recall_at == self@.recall_at,
            stats.beam_width == self@.beam_width,
            stats.search_list@ == self@.search_list,
            stats.recalls@ == self@.recalls,
            stats.row_models() == self@.rows,
            stats.complete(self@.thread_counts),
    {
        let stats = SweepStats {
            recall_at: self.recall_at,
            beam_width: self.beam_width,
            search_list: self.search_list,
            recalls: self.recalls,
            rows: self.rows,
        };
        assert forall|i: int| 0 <= i < stats.rows@.len() implies (
        #[trigger] stats.rows@[i]).num_threads == self@.thread_counts[i]
            && stats.rows@[i].passes@.len() == stats.search_list@.len() by {
            assert(self@.rows[i] == stats.rows@[i]@);
        }
        stats
    }
}

/// A sweep comes to its end: every step leads to a valid sweep that is one step closer to the
/// end, and the end is reached when no step is left.
pub proof fn law_sweep_ends(m: SweepModel, pass: PassResult, recall: Option<Recall>)
    requires
        m.valid(),
    ensures
        m.steps_left() >= 0,
        m.steps_left() == 0 <==> m.next() is Finish,
        m.next() is BuildPool ==> m.with_pool().valid() && m.with_pool().steps_left()
            == m.steps_left() - 1,
        m.next() is RunPass ==> m.with_pass(pass, recall).valid() && m.with_pass(
            pass,
            recall,
        ).steps_left() == m.steps_left() - 1,
        m.next() is CloseRow ==> m.with_row().valid() && m.with_row().steps_left()
            == m.steps_left() - 1,
{
    let rows_left = m.thread_counts.len() - m.rows.len();
    let per_row = m.search_list.len() + 2;
    assert(rows_left * per_row >= 0 && (rows_left > 0 ==> rows_left * per_row >= per_row) && (
    rows_left == 0 ==> rows_left * per_row == 0) && (rows_left - 1) * per_row == rows_left
        * per_row - per_row) by (nonlinear_arith)
        requires
            rows_left >= 0,
            per_row >= 2,
    ;
}

/// The passes that a whole sweep is fed with, in the order in which they are run: each with
/// the recall of what its queries found.
pub type Feed = Seq<(PassResult, Option<Recall>)>;

/// The passes at the `i`th thread count, up to the `j`th search list size.
pub open spec fn grid_row(start: SweepModel, feed: Feed, i: int, j: int) -> Seq<PassResult> {
    Seq::new(j as nat, |c: int| feed[i * start.search_list.len() + c].0)
}

/// The sweep after `i` complete rows; where `j` is given, also after the pool and `j` passes
/// of the next row.
pub open spec fn grid_state(start: SweepModel, feed: Feed, i: int, j: Option<int>) -> SweepModel {
    let width = start.search_list.len() as int;
    SweepModel {
        rows: Seq::new(
            i as nat,
            |r: int|
                RowModel {
                    num_threads: start.thread_counts[r],
                    passes: grid_row(start, feed, r, width),
                },
        ),
        open: match j {
            Some(done) => Some(grid_row(start, feed, i, done)),
            None => None,
        },
        recalls: Seq::new(
            (if i > 0 {
                width
            } else {
                match j {
                    Some(done) => done,
                    None => 0,
                }
            }) as nat,
            |c: int| feed[c].1,
        ),
        ..start
    }
}

/// A sweep runs every thread count with every search list size, once and in order: thread
/// count by thread count, and within it search list size by search list size. Each result
/// lands in the row of its thread count and the column of its search list size, and the
/// recalls are those of the first row.
pub proof fn law_sweep_covers_grid(
    search: DiskSearchPhase,
    thread_counts: Seq<usize>,
    feed: Feed,
    i: int,
    j: int,
)
    requires
        0 <= i < thread_counts.len(),
        0 <= j <= search.search_list@.len(),
    ensures
        ({
            let start = SweepModel::start(search, thread_counts);
            let width = search.search_list@.len() as int;
            let n = thread_counts.len() as int;
            &&& grid_state(start, feed, 0, None) == start
            &&& grid_state(start, feed, i, None).next() == (SweepAction::BuildPool {
                num_threads: thread_counts[i],
            })
            &&& grid_state(start, feed, i, None).with_pool() == grid_state(
                start,
                feed,
                i,
                Some(0),
            )
            &&& j < width ==> grid_state(start, feed, i, Some(j)).next() == (SweepAction::RunPass {
                l: search.search_list@[j],
            })
            &&& j < width ==> grid_state(start, feed, i, Some(j)).with_pass(
                feed[i * width + j].0,
                feed[i * width + j].1,
            ) == grid_state(start, feed, i, Some(j + 1))
            &&& grid_state(start, feed, i, Some(width)).next() == (SweepAction::CloseRow {
                num_threads: thread_counts[i],
            })
            &&& grid_state(start, feed, i, Some(width)).with_row() == grid_state(
                start,
                feed,
                i + 1,
                None,
            )
            &&& grid_state(start, feed, n, None).next() == SweepAction::Finish
        }),
{
    let start = SweepModel::start(search, thread_counts);
    let width = search.search_list@.len() as int;
    let before = grid_state(start, feed, 0, None);
    assert(before.rows =~= start.rows);
    assert(before.recalls =~= start.recalls);
    let pooled = grid_state(start, feed, i, Some(0));
    assert(pooled.open->0 =~= Seq::<PassResult>::empty());
    assert(pooled.recalls =~= grid_state(start, feed, i, None).recalls);
    let passed = grid_state(start, feed, i, Some(j)).with_pass(
        feed[i * width + j].0,
        feed[i * width + j].1,
    );
    let next = grid_state(start, feed, i, Some(j + 1));
    assert(passed.open->0 =~= next.open->0);
    if i == 0 {
        assert(i * width == 0) by (nonlinear_arith)
            requires
                i == 0,
        ;
    }
    assert(j < width ==> passed.recalls =~= next.recalls);
    let closed = grid_state(start, feed, i, Some(width)).with_row();
    let after = grid_state(start, feed, i + 1, None);
    assert(closed.rows =~= after.rows);
    assert(closed.recalls =~= after.recalls);
}

/// From `before`, a sweep goes on to `after`: it does what is next, and if that is a pass, the
/// pass comes to `pass` and `recall`.
pub open spec fn is_step(
    before: SweepModel,
    after: SweepModel,
    pass: PassResult,
    recall: Option<Recall>,
) -> bool {
    match before.next() {
        SweepAction::BuildPool { .. } => after == before.with_pool(),
        SweepAction::RunPass { .. } => after == before.with_pass(pass, recall),
        SweepAction::CloseRow { .. } => after == before.with_row(),
        SweepAction::Finish => false,
    }
}

/// `trace` is a whole sweep of `search` over `thread_counts`, from its start to its end. If
/// the `t`th step is a pass, it comes to the `t`th of `passes` and `recalls`.
pub open spec fn is_whole_sweep(
    search: DiskSearchPhase,
    thread_counts: Seq<usize>,
    trace: Seq<SweepModel>,
    passes: Seq<PassResult>,
    recalls: Seq<Option<Recall>>,
) -> bool {
    &&& trace.len() > 0
    &&& trace[0] == SweepModel::start(search, thread_counts)
    &&& trace.last().next() is Finish
    &&& forall|t: int|
        #![trigger trace[t]]
        0 <= t < trace.len() - 1 ==> is_step(trace[t], trace[t + 1], passes[t], recalls[t])
}

/// What holds of a sweep after `i` complete rows and, if `open` is not negative, after the
/// pool and `open` passes of the next row.
spec fn progress(
    m: SweepModel,
    search: DiskSearchPhase,
    thread_counts: Seq<usize>,
    passes: Seq<PassResult>,
    recalls: Seq<Option<Recall>>,
    i: int,
    open: int,
) -> bool {
    let width = search.search_list@.len() as int;
    &&& m.recall_at == search.recall_at
    &&& m.beam_width == search.beam_width
    &&& m.search_list == search.search_list@
    &&& m.thread_counts == thread_counts
    &&& m.rows.len() == i
    &&& forall|r: int|
        0 <= r < i ==> (#[trigger] m.rows[r]).num_threads == thread_counts[r]
            && m.rows[r].passes.len() == width
    &&& forall|r: int, c: int|
        0 <= r < i && 0 <= c < width ==> #[trigger] m.rows[r].passes[c] == passes[r * (width + 2)
            + 1 + c]
    &&& m.open is Some <==> open >= 0
    &&& open >= 0 ==> m.open->0.len() == open
    &&& forall|c: int|
        0 <= c < open ==> #[trigger] m.open->0[c] == passes[i * (width + 2) + 1 + c]
    &&& m.recalls.len() == (if i > 0 {
        width
    } else if open >= 0 {
        open
    } else {
        0
    })
    &&& forall|c: int| 0 <= c < m.recalls.len() ==> #[trigger] m.recalls[c] == recalls[1 + c]
}

/// A whole sweep reaches the end of every row.
proof fn lemma_progress_of_row(
    search: DiskSearchPhase,
    thread_counts: Seq<usize>,
    trace: Seq<SweepModel>,
    passes: Seq<PassResult>,
    recalls: Seq<Option<Recall>>,
    i: int,
)
    requires
        is_whole_sweep(search, thread_counts, trace, passes, recalls),
        0 <= i <= thread_counts.len(),
    ensures
        0 <= i * (search.search_list@.len() + 2) < trace.len(),
        progress(
            trace[i * (search.search_list@.len() + 2)],
            search,
            thread_counts,
            passes,
            recalls,
            i,
            -1,
        ),
    decreases i, 0int,
{
    let width = search.search_list@.len() as int;
    if i == 0 {
        assert(i * (width + 2) == 0) by (nonlinear_arith)
            requires
                i == 0,
        ;
    } else {
        lemma_progress_in_row(search, thread_counts, trace, passes, recalls, i - 1, width);
        let t = (i - 1) * (width + 2) + 1 + width;
        assert(t + 1 == i * (width + 2)) by (nonlinear_arith)
            requires
                t == (i - 1) * (width + 2) + 1 + width,
        ;
        let before = trace[t];
        assert(before.next() is CloseRow);
        assert(t < trace.len() - 1);
        assert(is_step(trace[t], trace[t + 1], passes[t], recalls[t]));
        let after = trace[t + 1];
        assert forall|r: int| 0 <= r < i implies (#[trigger] after.rows[r]).num_threads
            == thread_counts[r] && after.rows[r].passes.len() == width by {
            if r < i - 1 {
                assert(after.rows[r] == before.rows[r]);
            }
        }
        assert forall|r: int, c: int|
            0 <= r < i && 0 <= c < width implies #[trigger] after.rows[r].passes[c] == passes[r * (
        width + 2) + 1 + c] by {
            if r < i - 1 {
                assert(after.rows[r] == before.rows[r]);
                assert(before.rows[r].passes[c] == passes[r * (width + 2) + 1 + c]);
            } else {
                assert(after.rows[r].passes[c] == before.open->0[c]);
            }
        }
    }
}

/// A whole sweep reaches every pass of every row.
proof fn lemma_progress_in_row(
    search: DiskSearchPhase,
    thread_counts: Seq<usize>,
    trace: Seq<SweepModel>,
    passes: Seq<PassResult>,
    recalls: Seq<Option<Recall>>,
    i: int,
    j: int,
)
    requires
        is_whole_sweep(search, thread_counts, trace, passes, recalls),
        0 <= i < thread_counts.len(),
        0 <= j <= search.search_list@.len(),
    ensures
        0 <= i * (search.search_list@.len() + 2) + 1 + j < trace.len(),
        progress(
            trace[i * (search.search_list@.len() + 2) + 1 + j],
            search,
            thread_counts,
            passes,
            recalls,
            i,
            j,
        ),
    decreases i, j + 1,
{
    let width = search.search_list@.len() as int;
    if j == 0 {
        lemma_progress_of_row(search, thread_counts, trace, passes, recalls, i);
        let t = i * (width + 2);
        let before = trace[t];
        assert(before.next() is BuildPool);
        assert(t < trace.len() - 1);
        assert(is_step(trace[t], trace[t + 1], passes[t], recalls[t]));
        let after = trace[t + 1];
        assert(after.rows == before.rows);
    } else {
        lemma_progress_in_row(search, thread_counts, trace, passes, recalls, i, j - 1);
        let t = i * (width + 2) + 1 + (j - 1);
        let before = trace[t];
        assert(before.next() is RunPass);
        assert(t < trace.len() - 1);
        assert(is_step(trace[t], trace[t + 1], passes[t], recalls[t]));
        let after = trace[t + 1];
        assert(after.rows == before.rows);
        assert forall|c: int| 0 <= c < j implies #[trigger] after.open->0[c] == passes[i * (width
            + 2) + 1 + c] by {
            if c < j - 1 {
                assert(after.open->0[c] == before.open->0[c]);
            }
        }
        assert forall|c: int| 0 <= c < after.recalls.len() implies #[trigger] after.recalls[c]
            == recalls[1 + c] by {
            if c < before.recalls.len() {
                assert(after.recalls[c] == before.recalls[c]);
            } else {
                assert(i == 0);
                assert(i * (width + 2) == 0) by (nonlinear_arith)
                    requires
                        i == 0,
                ;
            }
        }
    }
}

/// What a whole sweep comes to. It takes a pool, a pass for each search list size and a
/// closing step for each thread count, in that order. At its end, the result of the pass at
/// the `i`th thread count and the `j`th search list size stands in the `i`th row and the
/// `j`th column, the recall of the `j`th search list size is that of the first thread count,
/// and the settings are those of the search phase.
pub proof fn law_whole_sweep(
    search: DiskSearchPhase,
    thread_counts: Seq<usize>,
    trace: Seq<SweepModel>,
    passes: Seq<PassResult>,
    recalls: Seq<Option<Recall>>,
    i: int,
    j: int,
)
    requires
        is_whole_sweep(search, thread_counts, trace, passes, recalls),
        0 <= i < thread_counts.len(),
        0 <= j <= search.search_list@.len(),
    ensures
        ({
            let width = search.search_list@.len() as int;
            let first = i * (width + 2);
            let end = trace.last();
            &&& trace.len() == thread_counts.len() * (width + 2) + 1
            &&& trace[first].next() == (SweepAction::BuildPool { num_threads: thread_counts[i] })
            &&& j < width ==> trace[first + 1 + j].next() == (SweepAction::RunPass {
                l: search.search_list@[j],
            })
            &&& trace[first + 1 + width].next() == (SweepAction::CloseRow {
                num_threads: thread_counts[i],
            })
            &&& end.recall_at == search.recall_at
            &&& end.beam_width == search.beam_width
            &&& end.search_list == search.search_list@
            &&& end.rows.len() == thread_counts.len()
            &&& end.rows[i].num_threads == thread_counts[i]
            &&& end.rows[i].passes.len() == width
            &&& j < width ==> end.rows[i].passes[j] == passes[first + 1 + j]
            &&& end.recalls.len() == width
            &&& j < width ==> end.recalls[j] == recalls[1 + j]
        }),
{
    let width = search.search_list@.len() as int;
    let n = thread_counts.len() as int;
    lemma_progress_of_row(search, thread_counts, trace, passes, recalls, i);
    lemma_progress_in_row(search, thread_counts, trace, passes, recalls, i, j);
    lemma_progress_in_row(search, thread_counts, trace, passes, recalls, i, width);
    lemma_progress_of_row(search, thread_counts, trace, passes, recalls, n);
    let t = n * (width + 2);
    assert(trace[t].next() is Finish);
    if t < trace.len() - 1 {
        assert(is_step(trace[t], trace[t + 1], passes[t], recalls[t]));
    }
    assert(trace[t].rows[i].num_threads == thread_counts[i]);
    if j < width {
        assert(trace[t].rows[i].passes[j] == passes[i * (width + 2) + 1 + j]);
        assert(trace[t].recalls[j] == recalls[1 + j]);
    }
}

/// A whole sweep measures recall at the number of results that the search phase asks for. Where
/// each pass is taken note of with what its queries found, the recall of the `j`th search list
/// size is out of that many ids for each query, and where each query found `m` right ids among
/// that many nearest, `m` hits for each query.
pub proof fn law_sweep_measures_recall(
    search: DiskSearchPhase,
    thread_counts: Seq<usize>,
    trace: Seq<SweepModel>,
    passes: Seq<PassResult>,
    recalls: Seq<Option<Recall>>,
    found: Seq<Seq<Seq<u32>>>,
    truth: Option<GroundTruth>,
    j: int,
    m: nat,
)
    requires
        thread_counts.len() > 0,
        is_whole_sweep(search, thread_counts, trace, passes, recalls),
        0 <= j < search.search_list@.len(),
        recalls[1 + j] == recall_of(found[1 + j], truth, trace[1 + j].recall_at),
        found[1 + j].len() * search.recall_at <= usize::MAX,
        truth matches Some(gt) ==> found[1 + j].len() <= truth_rows(gt).len() && (forall|q: int|
            0 <= q < found[1 + j].len() ==> right_ids(
                #[trigger] found[1 + j][q],
                truth_rows(gt)[q],
                search.recall_at as nat,
            ).len() == m),
    ensures
        trace.last().recall_at == search.recall_at,
        truth is None ==> trace.last().recalls[j] is None,
        truth is Some ==> {
            let recall = trace.last().recalls[j];
            &&& recall is Some
            &&& recall->0.slots == found[1 + j].len() * search.recall_at
            &&& recall->0.hits == found[1 + j].len() * m
        },
{
    law_whole_sweep(search, thread_counts, trace, passes, recalls, 0, j);
    lemma_progress_in_row(search, thread_counts, trace, passes, recalls, 0, j);
    assert(0 * (search.search_list@.len() + 2) == 0);
    if let Some(gt) = truth {
        law_partial_recall(found[1 + j], truth_rows(gt), search.recall_at as nat, m);
        law_recall_at_most_one(found[1 + j], truth_rows(gt), search.recall_at as nat);
    }
}

/// Recall is measured where there is a ground truth, out of `k` ids for each query. One more
/// query adds its right ids to the hits.
pub proof fn law_recall_of_pass(found: Seq<Seq<u32>>, ids: Seq<u32>, gt: GroundTruth, k: u32)
    requires
        (found.len() + 1) * k <= usize::MAX,
        found.len() < truth_rows(gt).len(),
    ensures
        recall_of(found, None, k) is None,
        recall_of(Seq::empty(), Some(gt), k) == Some(Recall { hits: 0, slots: 0 }),
        ({
            let before = recall_of(found, Some(gt), k);
            let after = recall_of(found.push(ids), Some(gt), k);
            &&& before is Some && after is Some
            &&& after->0.slots == (found.len() + 1) * k
            &&& after->0.hits == before->0.hits + right_ids(
                ids,
                truth_rows(gt)[found.len() as int],
                k as nat,
            ).len()
        }),
{
    let rows = truth_rows(gt);
    let n = found.len() as int;
    law_hits_add_up(found, ids, rows, k as nat);
    law_recall_at_most_one(found, rows, k as nat);
    law_recall_at_most_one(found.push(ids), rows, k as nat);
    assert(0 * k == 0) by (nonlinear_arith);
    assert(0 <= n * k && n * k + k == (n + 1) * k) by (nonlinear_arith)
        requires
            n >= 0,
            k >= 0,
    ;
}

/// The rows of the statistics are the rows that a sweep is described by.
pub proof fn law_rows_of_statistics(stats: SweepStats, i: int)
    requires
        0 <= i < stats.rows@.len(),
    ensures
        stats.row_models().len() == stats.rows@.len(),
        stats.row_models()[i].num_threads == stats.rows@[i].num_threads,
        stats.row_models()[i].passes == stats.rows@[i].passes@,
{
}

} // verus!
