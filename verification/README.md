# diskann3_bench

Measures KNN searches over a DiskANN disk index: how many queries per second it answers at
several thread counts, and with which recall.

A disk index is a set of files that share a path prefix:

- `<prefix>_disk.index`: the graph and the full-precision vectors
- `<prefix>_pq_pivots.bin`: the PQ pivot table
- `<prefix>_pq_compressed.bin`: the PQ-compressed vectors

## Layout

- `src/` is the library, verified with Verus. `inputs` and `storage` hold the job specification
  and its checks, `plan` what a job asks of the searcher, `pass` and `sweep` the bookkeeping of
  a sweep, `ground_truth` and `recall` the measurement of recall, `report` and `text` the
  tables, `args` the command line. Functions named `law_..` are theorems about the library.
- `app/` is the program: it reads the files, runs the searches in thread pools, and rounds the
  numbers that the report shows.
- `tests/` holds the tests of the library.

## Usage

```
diskann3-bench-style <job.json>
diskann3-bench-style --print-example
```
