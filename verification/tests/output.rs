use diskann3_bench::args::{parse_args, usage, Command};
use diskann3_bench::recall::Recall;
use diskann3_bench::report::{render, title, RowCells};
use diskann3_bench::sweep::{SweepStats, ThreadSweepRow};
use diskann3_bench::text::{append_decimal, append_right_aligned};

fn cells(qps: &str, speedup: &str, levels_off: bool) -> RowCells {
    RowCells {
        qps: qps.to_string(),
        speedup: speedup.to_string(),
        mean_latency_us: "812.5".to_string(),
        mean_comparisons: "1234.0".to_string(),
        levels_off,
    }
}

fn row(num_threads: usize) -> ThreadSweepRow {
    ThreadSweepRow { num_threads, passes: vec![] }
}

fn args(list: &[&str]) -> Vec<String> {
    list.iter().map(|a| a.to_string()).collect()
}

#[test]
fn decimals() {
    for n in [0, 7, 10, 99, 100, 1_000_000, u64::MAX] {
        let mut s = String::from("n=");
        append_decimal(&mut s, n);
        assert_eq!(s, format!("n={n}"));
    }
}

#[test]
fn right_alignment_counts_characters() {
    for cell in ["", "x", "é×", "exactly8", "more than eight"] {
        let mut s = String::from("|");
        append_right_aligned(&mut s, cell, 8);
        assert_eq!(s, format!("|{cell:>8}"));
    }
}

#[test]
fn report_has_a_table_for_each_search_list_size() {
    let stats = SweepStats {
        recall_at: 10,
        beam_width: 4,
        search_list: vec![64, 128],
        recalls: vec![Some(Recall { hits: 9, slots: 10 }), None],
        rows: vec![row(1), row(8), row(16)],
    };
    let recall_cells = vec!["0.9000".to_string(), String::new()];
    let tables = vec![
        vec![
            cells("1000.0", "1.00", true),
            cells("7000.0", "7.00", false),
            cells("7100.0", "7.10", true),
        ],
        vec![
            cells("500.0", "1.00", false),
            cells("3000.0", "6.00", false),
            cells("5000.0", "10.00", false),
        ],
    ];
    assert_eq!(
        render(&stats, &recall_cells, &tables),
        "L = 64  (recall@10 = 0.9000, beam = 4)\n\
         \x20  threads           QPS    speedup    mean_lat_us    mean_comps\n\
         \x20        1        1000.0      1.00x          812.5        1234.0\n\
         \x20        8        7000.0      7.00x          812.5        1234.0\n\
         \x20       16        7100.0      7.10x          812.5        1234.0   <- saturating\n\
         \n\
         L = 128  (recall@10 = n/a, beam = 4)\n\
         \x20  threads           QPS    speedup    mean_lat_us    mean_comps\n\
         \x20        1         500.0      1.00x          812.5        1234.0\n\
         \x20        8        3000.0      6.00x          812.5        1234.0\n\
         \x20       16        5000.0     10.00x          812.5        1234.0\n\
         \n"
    );
}

#[test]
fn report_lines_are_those_of_format() {
    let stats = SweepStats {
        recall_at: 1,
        beam_width: 2,
        search_list: vec![5],
        recalls: vec![],
        rows: vec![row(3)],
    };
    let tables = vec![vec![cells("0.5", "1.00", false)]];
    let mut expected = format!("L = {}  (recall@{} = {}, beam = {})\n", 5, 1, "n/a", 2);
    expected += &format!(
        "  {:>8}  {:>12}  {:>9}  {:>13}  {:>12}\n",
        "threads", "QPS", "speedup", "mean_lat_us", "mean_comps"
    );
    expected += &format!(
        "  {:>8}  {:>12.1}  {:>8.2}x  {:>13.1}  {:>12.1}{}\n\n",
        3, 0.5f32, 1.0f32, 812.5f64, 1234.0f64, ""
    );
    assert_eq!(render(&stats, &vec![], &tables), expected);
}

#[test]
fn one_thread_is_never_marked() {
    let stats = SweepStats {
        recall_at: 1,
        beam_width: 2,
        search_list: vec![5],
        recalls: vec![],
        rows: vec![row(2), row(1)],
    };
    let tables = vec![vec![cells("2.0", "1.00", true), cells("1.0", "0.50", true)]];
    assert!(!render(&stats, &vec![], &tables).ends_with("saturating\n\n"));
}

#[test]
fn first_row_is_never_marked() {
    let stats = SweepStats {
        recall_at: 1,
        beam_width: 2,
        search_list: vec![5],
        recalls: vec![],
        rows: vec![row(8)],
    };
    let tables = vec![vec![cells("2.0", "1.00", true)]];
    assert!(!render(&stats, &vec![], &tables).ends_with("saturating\n\n"));
}

#[test]
fn empty_report() {
    let stats = SweepStats {
        recall_at: 10,
        beam_width: 4,
        search_list: vec![],
        recalls: vec![],
        rows: vec![row(8)],
    };
    assert_eq!(render(&stats, &vec![], &vec![]), "");
    assert_eq!(title(&stats), "Search results (recall@10, beam=4):");
}

#[test]
fn first_argument_is_the_job() {
    assert_eq!(
        parse_args(&args(&["bench", "job.json", "more"])),
        Command::Run { spec_path: "job.json".to_string() }
    );
}

#[test]
fn example_flag_counts_anywhere() {
    assert_eq!(parse_args(&args(&["bench", "--print-example"])), Command::PrintExample);
    assert_eq!(
        parse_args(&args(&["bench", "job.json", "--print-example"])),
        Command::PrintExample
    );
}

#[test]
fn no_argument_asks_for_help() {
    assert_eq!(
        parse_args(&args(&["bench"])),
        Command::Usage { program: "bench".to_string() }
    );
    assert_eq!(usage(&"bench".to_string()), "usage: bench <job.json> | --print-example");
}
