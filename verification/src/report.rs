//! The report of a sweep: one table for each search list size.

use crate::sweep::SweepStats;
use crate::text::{
    append_decimal, append_right_aligned, decimal, law_right_aligned_shows_cell, right_aligned, shows,
};
use vstd::prelude::*;
use vstd::string::StringExecFns;

verus! {

/// What a row of a table shows beside the number of threads, rounded for display.
#[derive(Debug)]
pub struct RowCells {
    /// Queries per second.
    pub qps: String,
    /// Queries per second, by those of the first row.
    pub speedup: String,
    /// The mean latency of a query, in microseconds.
    pub mean_latency_us: String,
    /// The mean number of distances that were computed for a query.
    pub mean_comparisons: String,
    /// The row before it had queries per second, and this one has less than 1.15 times as
    /// many.
    pub levels_off: bool,
}

/// The mark behind a row. The first row has nothing to level off from, and one thread cannot
/// saturate anything.
pub open spec fn mark_text(first: bool, num_threads: usize, levels_off: bool) -> Seq<char> {
    if !first && num_threads > 1 && levels_off {
        "   <- saturating"@
    } else {
        ""@
    }
}

/// A row of a table.
pub open spec fn row_text(first: bool, num_threads: usize, cells: RowCells) -> Seq<char> {
    "  "@ + right_aligned(decimal(num_threads as nat), 8) + "  "@ + right_aligned(cells.qps@, 12)
        + "  "@ + right_aligned(cells.speedup@, 8) + "x  "@ + right_aligned(
        cells.mean_latency_us@,
        13,
    ) + "  "@ + right_aligned(cells.mean_comparisons@, 12) + mark_text(
        first,
        num_threads,
        cells.levels_off,
    ) + "\n"@
}

/// The line that names the columns of a table.
pub open spec fn columns_text() -> Seq<char> {
    "  "@ + right_aligned("threads"@, 8) + "  "@ + right_aligned("QPS"@, 12) + "  "@
        + right_aligned("speedup"@, 9) + "  "@ + right_aligned("mean_lat_us"@, 13) + "  "@
        + right_aligned("mean_comps"@, 12) + "\n"@
}

/// The recall that the heading of the `li`th table shows.
pub open spec fn recall_text(stats: SweepStats, recall_cells: Seq<String>, li: int) -> Seq<char> {
    if li < stats.recalls@.len() && stats.recalls@[li] is Some {
        recall_cells[li]@
    } else {
        "n/a"@
    }
}

/// The heading of the `li`th table.
pub open spec fn heading_text(stats: SweepStats, recall_cells: Seq<String>, li: int) -> Seq<char> {
    "L = "@ + decimal(stats.search_list@[li] as nat) + "  (recall@"@ + decimal(
        stats.recall_at as nat,
    ) + " = "@ + recall_text(stats, recall_cells, li) + ", beam = "@ + decimal(
        stats.beam_width as nat,
    ) + ")\n"@
}

/// The first `n` rows of a table.
pub open spec fn rows_text(stats: SweepStats, cells: Seq<RowCells>, n: nat) -> Seq<char>
    decreases n,
{
    if n == 0 {
        Seq::empty()
    } else {
        rows_text(stats, cells, (n - 1) as nat) + row_text(
            n == 1,
            stats.rows@[n - 1].num_threads,
            cells[n - 1],
        )
    }
}

/// The `li`th table, which an empty line follows.
pub open spec fn table_text(
    stats: SweepStats,
    recall_cells: Seq<String>,
    cells: Seq<RowCells>,
    li: int,
) -> Seq<char> {
    heading_text(stats, recall_cells, li) + columns_text() + rows_text(
        stats,
        cells,
        stats.rows@.len(),
    ) + "\n"@
}

/// The first `n` tables.
pub open spec fn tables_text(
    stats: SweepStats,
    recall_cells: Seq<String>,
    cells: Seq<Vec<RowCells>>,
    n: nat,
) -> Seq<char>
    decreases n,
{
    if n == 0 {
        Seq::empty()
    } else {
        tables_text(stats, recall_cells, cells, (n - 1) as nat) + table_text(
            stats,
            recall_cells,
            cells[n - 1]@,
            n - 1,
        )
    }
}

/// Writes a number behind `out`, right-aligned in `width` characters.
fn append_aligned_decimal(out: &mut String, n: usize, width: usize)
    ensures
        final(out)@ == old(out)@ + right_aligned(decimal(n as nat), width as nat),
{
    let mut number = String::new();
    append_decimal(&mut number, n as u64);
    assert(number@ =~= decimal(n as nat));
    append_right_aligned(out, number.as_str(), width);
}

/// A row of a table.
fn render_row(first: bool, num_threads: usize, cells: &RowCells) -> (s: String)
    ensures
        s@ == row_text(first, num_threads, *cells),
{
    let mut s = String::from_str("  ");
    append_aligned_decimal(&mut s, num_threads, 8);
    s.append("  ");
    append_right_aligned(&mut s, cells.qps.as_str(), 12);
    s.append("  ");
    append_right_aligned(&mut s, cells.speedup.as_str(), 8);
    s.append("x  ");
    append_right_aligned(&mut s, cells.mean_latency_us.as_str(), 13);
    s.append("  ");
    append_right_aligned(&mut s, cells.mean_comparisons.as_str(), 12);
    let mark = if !first && num_threads > 1 && cells.levels_off {
        "   <- saturating"
    } else {
        ""
    };
    s.append(mark);
    s.append("\n");
    s
}

/// The line that names the columns of a table.
fn render_columns() -> (s: String)
    ensures
        s@ == columns_text(),
{
    let mut s = String::from_str("  ");
    append_right_aligned(&mut s, "threads", 8);
    s.append("  ");
    append_right_aligned(&mut s, "QPS", 12);
    s.append("  ");
    append_right_aligned(&mut s, "speedup", 9);
    s.append("  ");
    append_right_aligned(&mut s, "mean_lat_us", 13);
    s.append("  ");
    append_right_aligned(&mut s, "mean_comps", 12);
    s.append("\n");
    s
}

/// The heading of the `li`th table.
fn render_heading(stats: &SweepStats, recall_cells: &Vec<String>, li: usize) -> (s: String)
    requires
        li < stats.search_list@.len(),
        recall_cells@.len() == stats.recalls@.len(),
    ensures
        s@ == heading_text(*stats, recall_cells@, li as int),
{
    let mut s = String::from_str("L = ");
    append_decimal(&mut s, stats.search_list[li] as u64);
    s.append("  (recall@");
    append_decimal(&mut s, stats.recall_at as u64);
    s.append(" = ");
    if li < stats.recalls.len() && stats.recalls[li].is_some() {
        s.append(recall_cells[li].as_str());
    } else {
        s.append("n/a");
    }
    s.append(", beam = ");
    append_decimal(&mut s, stats.beam_width as u64);
    s.append(")\n");
    s
}

/// The `li`th table, which an empty line follows.
fn render_table(
    stats: &SweepStats,
    recall_cells: &Vec<String>,
    cells: &Vec<RowCells>,
    li: usize,
) -> (s: String)
    requires
        li < stats.search_list@.len(),
        recall_cells@.len() == stats.recalls@.len(),
        cells@.len() == stats.rows@.len(),
    ensures
        s@ == table_text(*stats, recall_cells@, cells@, li as int),
{
    let mut rows = String::new();
    let mut i: usize = 0;
    assert(rows@ =~= Seq::empty());
    while i < stats.rows.len()
        invariant
            i <= stats.rows@.len() == cells@.len(),
            rows@ == rows_text(*stats, cells@, i as nat),
        decreases stats.rows@.len() - i,
    {
        let row = render_row(i == 0, stats.rows[i].num_threads, &cells[i]);
        rows.append(row.as_str());
        i += 1;
    }
    let mut s = render_heading(stats, recall_cells, li);
    let columns = render_columns();
    s.append(columns.as_str());
    s.append(rows.as_str());
    s.append("\n");
    s
}

/// The report of a sweep: a table for each search list size, with a row for each thread
/// count. `recall_cells` and `cells` are the numbers to show: the recall for each search list
/// size, where it was measured, and what each row of each table shows.
pub fn render(stats: &SweepStats, recall_cells: &Vec<String>, cells: &Vec<Vec<RowCells>>) -> (s:
    String)
    requires
        recall_cells@.len() == stats.recalls@.len(),
        cells@.len() == stats.search_list@.len(),
        forall|li: int|
            0 <= li < cells@.len() ==> (#[trigger] cells@[li])@.len() == stats.rows@.len(),
    ensures
        s@ == tables_text(*stats, recall_cells@, cells@, stats.search_list@.len()),
{
    let mut s = String::new();
    let mut li: usize = 0;
    assert(s@ =~= Seq::empty());
    while li < stats.search_list.len()
        invariant
            recall_cells@.len() == stats.recalls@.len(),
            li <= cells@.len() == stats.search_list@.len(),
            forall|i: int|
                0 <= i < cells@.len() ==> (#[trigger] cells@[i])@.len() == stats.rows@.len(),
            s@ == tables_text(*stats, recall_cells@, cells@, li as nat),
        decreases stats.search_list@.len() - li,
    {
        let table = render_table(stats, recall_cells, &cells[li], li);
        s.append(table.as_str());
        li += 1;
    }
    s
}

/// The line above the report.
pub open spec fn title_text(stats: SweepStats) -> Seq<char> {
    "Search results (recall@"@ + decimal(stats.recall_at as nat) + ", beam="@ + decimal(
        stats.beam_width as nat,
    ) + "):"@
}

/// The line above the report.
pub fn title(stats: &SweepStats) -> (s: String)
    ensures
        s@ == title_text(*stats),
{
    let mut s = String::from_str("Search results (recall@");
    append_decimal(&mut s, stats.recall_at as u64);
    s.append(", beam=");
    append_decimal(&mut s, stats.beam_width as u64);
    s.append("):");
    s
}

/// The columns line up: a row whose cells fit their columns is as long as the line that
/// names the columns, apart from the mark behind it.
pub proof fn law_columns_line_up(first: bool, num_threads: usize, cells: RowCells)
    requires
        decimal(num_threads as nat).len() <= 8,
        cells.qps@.len() <= 12,
        cells.speedup@.len() <= 8,
        cells.mean_latency_us@.len() <= 13,
        cells.mean_comparisons@.len() <= 12,
    ensures
        row_text(first, num_threads, cells).len() == columns_text().len() + mark_text(
            first,
            num_threads,
            cells.levels_off,
        ).len(),
{
    reveal_strlit("  ");
    reveal_strlit("x  ");
    reveal_strlit("threads");
    reveal_strlit("QPS");
    reveal_strlit("speedup");
    reveal_strlit("mean_lat_us");
    reveal_strlit("mean_comps");
}

/// The larger of a column's width and the length of its cell.
pub open spec fn cell_width(cell: Seq<char>, width: int) -> int {
    if cell.len() < width {
        width
    } else {
        cell.len() as int
    }
}

/// A row shows the number of threads and its four cells, each of them whole and right-aligned
/// in its column, two characters apart from the next. An `x` stands behind the speedup. The
/// row is marked exactly where a row before it, more than one thread and no gain come
/// together, and it ends its line.
pub proof fn law_row_shows_its_cells(first: bool, num_threads: usize, cells: RowCells)
    ensures
        ({
            let text = row_text(first, num_threads, cells);
            let threads = decimal(num_threads as nat);
            let a = 2 + cell_width(threads, 8);
            let b = a + 2 + cell_width(cells.qps@, 12);
            let c = b + 2 + cell_width(cells.speedup@, 8);
            let d = c + 3 + cell_width(cells.mean_latency_us@, 13);
            let e = d + 2 + cell_width(cells.mean_comparisons@, 12);
            &&& shows(text, threads, 0, a)
            &&& shows(text, cells.qps@, a, b)
            &&& shows(text, cells.speedup@, b, c)
            &&& text[c] == 'x'
            &&& shows(text, cells.mean_latency_us@, c + 1, d)
            &&& shows(text, cells.mean_comparisons@, d, e)
            &&& !first && num_threads > 1 && cells.levels_off ==> text.skip(e)
                == "   <- saturating"@ + "\n"@
            &&& first || num_threads <= 1 || !cells.levels_off ==> text.skip(e) == "\n"@
        }),
{
    reveal_strlit("  ");
    reveal_strlit("x  ");
    reveal_strlit("");
    reveal_strlit("\n");
    let text = row_text(first, num_threads, cells);
    let threads = decimal(num_threads as nat);
    let a = 2 + cell_width(threads, 8);
    let b = a + 2 + cell_width(cells.qps@, 12);
    let c = b + 2 + cell_width(cells.speedup@, 8);
    let d = c + 3 + cell_width(cells.mean_latency_us@, 13);
    let e = d + 2 + cell_width(cells.mean_comparisons@, 12);
    let upto_a = "  "@ + right_aligned(threads, 8);
    let upto_b = upto_a + "  "@ + right_aligned(cells.qps@, 12);
    let upto_c = upto_b + "  "@ + right_aligned(cells.speedup@, 8);
    let upto_d = upto_c + "x  "@ + right_aligned(cells.mean_latency_us@, 13);
    let upto_e = upto_d + "  "@ + right_aligned(cells.mean_comparisons@, 12);
    let mark = mark_text(first, num_threads, cells.levels_off);
    assert(text == upto_e + mark + "\n"@);
    lemma_aligned_behind(Seq::empty(), "  "@, threads, 8);
    assert(Seq::<char>::empty() + "  "@ =~= "  "@);
    lemma_aligned_behind(upto_a, "  "@, cells.qps@, 12);
    lemma_aligned_behind(upto_b, "  "@, cells.speedup@, 8);
    lemma_aligned_behind(upto_c + "x"@, "  "@, cells.mean_latency_us@, 13);
    reveal_strlit("x");
    assert(upto_c + "x  "@ =~= upto_c + "x"@ + "  "@);
    lemma_aligned_behind(upto_d, "  "@, cells.mean_comparisons@, 12);
    lemma_shows_in_longer(upto_a, text, threads, 0, a);
    lemma_shows_in_longer(upto_b, text, cells.qps@, a, b);
    lemma_shows_in_longer(upto_c, text, cells.speedup@, b, c);
    lemma_shows_in_longer(upto_d, text, cells.mean_latency_us@, c + 1, d);
    lemma_shows_in_longer(upto_e, text, cells.mean_comparisons@, d, e);
    assert(text[c] == 'x');
    assert(text.skip(e) =~= mark + "\n"@);
    assert(mark.len() == 0 ==> mark + "\n"@ =~= "\n"@);
}

/// A right-aligned cell behind `text` and a gap of spaces is shown there.
proof fn lemma_aligned_behind(text: Seq<char>, gap: Seq<char>, cell: Seq<char>, width: nat)
    requires
        forall|i: int| 0 <= i < gap.len() ==> gap[i] == ' ',
    ensures
        ({
            let all = text + gap + right_aligned(cell, width);
            &&& all.len() == text.len() + gap.len() + cell_width(cell, width as int)
            &&& shows(all, cell, text.len() as int, all.len() as int)
        }),
{
    let aligned = right_aligned(cell, width);
    let all = text + gap + aligned;
    law_right_aligned_shows_cell(cell, width);
    let to = all.len() as int;
    assert(all.subrange(to - cell.len(), to) =~= cell) by {
        let n = aligned.len() as int;
        assert(aligned.subrange(n - cell.len(), n) == cell);
        assert(all.subrange(to - cell.len(), to) =~= aligned.subrange(n - cell.len(), n));
    }
    assert forall|i: int| text.len() <= i < to - cell.len() implies #[trigger] all[i] == ' ' by {
        if i < text.len() + gap.len() {
            assert(all[i] == gap[i - text.len()]);
        } else {
            assert(all[i] == aligned[i - text.len() - gap.len()]);
        }
    }
}

/// What a text shows, every text shows that starts with it.
proof fn lemma_shows_in_longer(
    short: Seq<char>,
    long: Seq<char>,
    cell: Seq<char>,
    from: int,
    to: int,
)
    requires
        shows(short, cell, from, to),
        short.len() <= long.len(),
        forall|i: int| 0 <= i < short.len() ==> short[i] == long[i],
    ensures
        shows(long, cell, from, to),
{
    assert(long.subrange(to - cell.len(), to) =~= short.subrange(to - cell.len(), to));
    assert forall|i: int| from <= i < to - cell.len() implies #[trigger] long[i] == ' ' by {
        assert(short[i] == ' ');
    }
}

/// The line that names the columns.
pub proof fn law_columns_are_named()
    ensures
        columns_text()
            == "   threads           QPS    speedup    mean_lat_us    mean_comps\n"@,
{
    reveal_strlit("  ");
    reveal_strlit("threads");
    reveal_strlit("QPS");
    reveal_strlit("speedup");
    reveal_strlit("mean_lat_us");
    reveal_strlit("mean_comps");
    reveal_strlit("\n");
    reveal_strlit(
        "   threads           QPS    speedup    mean_lat_us    mean_comps\n",
    );
    assert(columns_text()
        =~= "   threads           QPS    speedup    mean_lat_us    mean_comps\n"@);
}

/// A heading names its own search list size, the number of results and the beam, and shows
/// its own recall cell, or that there is none, in between.
pub proof fn law_heading_shows_its_recall(stats: SweepStats, recall_cells: Seq<String>, li: int)
    requires
        0 <= li < stats.search_list@.len(),
        recall_cells.len() == stats.recalls@.len(),
    ensures
        ({
            let text = heading_text(stats, recall_cells, li);
            let measured = li < stats.recalls@.len() && stats.recalls@[li] is Some;
            let shown = if measured {
                recall_cells[li]@
            } else {
                seq!['n', '/', 'a']
            };
            let start = "L = "@ + decimal(stats.search_list@[li] as nat) + "  (recall@"@
                + decimal(stats.recall_at as nat) + " = "@;
            let end = ", beam = "@ + decimal(stats.beam_width as nat) + ")\n"@;
            &&& start.is_prefix_of(text)
            &&& end.is_suffix_of(text)
            &&& text.subrange(start.len() as int, text.len() - end.len()) == shown
        }),
{
    reveal_strlit("n/a");
    let text = heading_text(stats, recall_cells, li);
    let start = "L = "@ + decimal(stats.search_list@[li] as nat) + "  (recall@"@ + decimal(
        stats.recall_at as nat,
    ) + " = "@;
    let end = ", beam = "@ + decimal(stats.beam_width as nat) + ")\n"@;
    let shown = recall_text(stats, recall_cells, li);
    assert("n/a"@ =~= seq!['n', '/', 'a']);
    assert(text =~= start + shown + end);
    assert(text.subrange(0, start.len() as int) =~= start);
    assert(text.subrange(text.len() - end.len(), text.len() as int) =~= end);
    assert(text.subrange(start.len() as int, text.len() - end.len()) =~= shown);
}

/// A recall cell shows in its own table alone: where two reports differ only in the cell of
/// a recall that was measured, the headings of that table differ, and no other table does.
pub proof fn law_recall_cell_shows_in_its_table(
    stats: SweepStats,
    a: Seq<String>,
    b: Seq<String>,
    cells: Seq<RowCells>,
    li: int,
    other: int,
)
    requires
        0 <= li < stats.search_list@.len(),
        0 <= other < stats.search_list@.len(),
        a.len() == stats.recalls@.len(),
        b.len() == a.len(),
        forall|i: int| 0 <= i < a.len() && i != li ==> #[trigger] a[i] == b[i],
        li < a.len() && stats.recalls@[li] is Some,
    ensures
        heading_text(stats, a, li) == heading_text(stats, b, li) <==> a[li]@ == b[li]@,
        other != li ==> table_text(stats, a, cells, other) == table_text(stats, b, cells, other),
{
    law_heading_shows_its_recall(stats, a, li);
    law_heading_shows_its_recall(stats, b, li);
    if other != li && other < a.len() {
        assert(a[other] == b[other]);
    }
}

/// The statistics of a sweep with the same rows, results and beam, that has one more search
/// list size.
pub open spec fn one_size_more(stats: SweepStats, more: SweepStats) -> bool {
    &&& more.recall_at == stats.recall_at
    &&& more.beam_width == stats.beam_width
    &&& more.rows@ == stats.rows@
    &&& stats.recalls@.len() == stats.search_list@.len()
    &&& more.recalls@.len() == more.search_list@.len()
    &&& more.search_list@.len() == stats.search_list@.len() + 1
    &&& more.search_list@.drop_last() == stats.search_list@
    &&& more.recalls@.drop_last() == stats.recalls@
}

/// One more search list size appends its table to the report, and leaves the rest as it is:
/// its heading, the names of the columns, its rows and an empty line.
pub proof fn law_one_more_size_appends_its_table(
    stats: SweepStats,
    more: SweepStats,
    recall_cells: Seq<String>,
    recall_cell: String,
    cells: Seq<Vec<RowCells>>,
    table: Vec<RowCells>,
)
    requires
        one_size_more(stats, more),
        recall_cells.len() == stats.search_list@.len(),
        cells.len() == stats.search_list@.len(),
    ensures
        ({
            let n = stats.search_list@.len();
            let all_recalls = recall_cells.push(recall_cell);
            tables_text(more, all_recalls, cells.push(table), n + 1) == tables_text(
                stats,
                recall_cells,
                cells,
                n,
            ) + heading_text(more, all_recalls, n as int) + columns_text() + rows_text(
                more,
                table@,
                more.rows@.len(),
            ) + "\n"@
        }),
        tables_text(stats, recall_cells, cells, 0) == Seq::<char>::empty(),
{
    let n = stats.search_list@.len();
    let all_recalls = recall_cells.push(recall_cell);
    lemma_first_tables(stats, more, recall_cells, recall_cell, cells, table, n);
    let before = tables_text(stats, recall_cells, cells, n);
    let last = table_text(more, all_recalls, table@, n as int);
    assert(tables_text(more, all_recalls, cells.push(table), n + 1) == before + last);
    assert(before + last =~= before + heading_text(more, all_recalls, n as int) + columns_text()
        + rows_text(more, table@, more.rows@.len()) + "\n"@);
}

/// The first tables do not change when a search list size is added.
proof fn lemma_first_tables(
    stats: SweepStats,
    more: SweepStats,
    recall_cells: Seq<String>,
    recall_cell: String,
    cells: Seq<Vec<RowCells>>,
    table: Vec<RowCells>,
    n: nat,
)
    requires
        one_size_more(stats, more),
        recall_cells.len() == stats.search_list@.len(),
        cells.len() == stats.search_list@.len(),
        n <= stats.search_list@.len(),
    ensures
        tables_text(more, recall_cells.push(recall_cell), cells.push(table), n) == tables_text(
            stats,
            recall_cells,
            cells,
            n,
        ),
    decreases n,
{
    if n > 0 {
        let m = (n - 1) as nat;
        lemma_first_tables(stats, more, recall_cells, recall_cell, cells, table, m);
        assert(more.search_list@.drop_last()[m as int] == more.search_list@[m as int]);
        assert(more.recalls@.drop_last()[m as int] == more.recalls@[m as int]);
        lemma_same_rows(stats, more, cells[m as int]@, cells[m as int]@, stats.rows@.len());
    }
}

/// The first rows of a table depend only on the first thread counts and cells.
proof fn lemma_same_rows(
    a: SweepStats,
    b: SweepStats,
    cells_a: Seq<RowCells>,
    cells_b: Seq<RowCells>,
    n: nat,
)
    requires
        forall|i: int| 0 <= i < n ==> (#[trigger] a.rows@[i]).num_threads == b.rows@[i].num_threads,
        forall|i: int| 0 <= i < n ==> #[trigger] cells_a[i] == cells_b[i],
    ensures
        rows_text(a, cells_a, n) == rows_text(b, cells_b, n),
    decreases n,
{
    if n > 0 {
        lemma_same_rows(a, b, cells_a, cells_b, (n - 1) as nat);
        assert(a.rows@[n - 1].num_threads == b.rows@[n - 1].num_threads);
        assert(cells_a[n - 1] == cells_b[n - 1]);
    }
}

/// One more thread count appends its row to each table: its number of threads and its cells.
/// It is the first row of the table exactly where there was none.
pub proof fn law_one_more_thread_count_appends_its_row(
    stats: SweepStats,
    more: SweepStats,
    cells: Seq<RowCells>,
    row: RowCells,
)
    requires
        more.rows@.len() == stats.rows@.len() + 1,
        more.rows@.drop_last() == stats.rows@,
        cells.len() == stats.rows@.len(),
    ensures
        rows_text(more, cells.push(row), more.rows@.len()) == rows_text(
            stats,
            cells,
            stats.rows@.len(),
        ) + row_text(stats.rows@.len() == 0, more.rows@.last().num_threads, row),
        rows_text(stats, cells, 0) == Seq::<char>::empty(),
{
    let n = stats.rows@.len();
    assert forall|i: int| 0 <= i < n implies (#[trigger] more.rows@[i]).num_threads
        == stats.rows@[i].num_threads by {
        assert(more.rows@.drop_last()[i] == more.rows@[i]);
    }
    lemma_same_rows(more, stats, cells.push(row), cells, n);
}

/// The line above the report names the number of results and the beam.
pub proof fn law_title_names_the_search(stats: SweepStats)
    ensures
        ({
            let start = "Search results (recall@"@ + decimal(stats.recall_at as nat);
            let end = ", beam="@ + decimal(stats.beam_width as nat) + "):"@;
            &&& start.is_prefix_of(title_text(stats))
            &&& end.is_suffix_of(title_text(stats))
            &&& title_text(stats).len() == start.len() + end.len()
        }),
{
    let start = "Search results (recall@"@ + decimal(stats.recall_at as nat);
    let end = ", beam="@ + decimal(stats.beam_width as nat) + "):"@;
    assert(title_text(stats) =~= start + end);
    let text = title_text(stats);
    assert(text.subrange(0, start.len() as int) =~= start);
    assert(text.subrange(text.len() - end.len(), text.len() as int) =~= end);
}

} // verus!
