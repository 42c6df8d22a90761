//! The files of an index, and what is known of which files exist.

use diskann_providers::storage::{get_compressed_pq_file, get_disk_index_file, get_pq_pivot_file};
use vstd::prelude::*;

verus! {

/// `get_pq_pivot_file` of `diskann_providers`: the prefix followed by `_pq_pivots.bin`.
pub assume_specification[ diskann_providers::storage::get_pq_pivot_file ](
    index_path_prefix: &str,
) -> (path: String)
    ensures
        path@ == index_path_prefix@ + "_pq_pivots.bin"@,
;

/// `get_compressed_pq_file` of `diskann_providers`: the prefix followed by
/// `_pq_compressed.bin`.
pub assume_specification[ diskann_providers::storage::get_compressed_pq_file ](
    index_path_prefix: &str,
) -> (path: String)
    ensures
        path@ == index_path_prefix@ + "_pq_compressed.bin"@,
;

/// `get_disk_index_file` of `diskann_providers`: the prefix followed by `_disk.index`.
pub assume_specification[ diskann_providers::storage::get_disk_index_file ](
    index_path_prefix: &str,
) -> (path: String)
    ensures
        path@ == index_path_prefix@ + "_disk.index"@,
;

/// The PQ pivot file of the index with the given path prefix.
pub open spec fn pq_pivot_path(prefix: Seq<char>) -> Seq<char> {
    prefix + "_pq_pivots.bin"@
}

/// The file of PQ-compressed vectors of the index with the given path prefix.
pub open spec fn compressed_pq_path(prefix: Seq<char>) -> Seq<char> {
    prefix + "_pq_compressed.bin"@
}

/// The file of the graph of the index with the given path prefix.
pub open spec fn disk_index_path(prefix: Seq<char>) -> Seq<char> {
    prefix + "_disk.index"@
}

/// The paths of the three files that make up an index.
#[derive(Debug, Clone, PartialEq, Eq)]
pub struct IndexFiles {
    pub pq_pivot: String,
    pub compressed_pq: String,
    pub disk_index: String,
}

impl IndexFiles {
    /// These are the files of the index with the given path prefix.
    pub open spec fn belong_to(self, prefix: Seq<char>) -> bool {
        &&& self.pq_pivot@ == pq_pivot_path(prefix)
        &&& self.compressed_pq@ == compressed_pq_path(prefix)
        &&& self.disk_index@ == disk_index_path(prefix)
    }

    /// The files of the index with the given path prefix.
    pub fn of_prefix(prefix: &str) -> (files: IndexFiles)
        ensures
            files.belong_to(prefix@),
    {
        IndexFiles {
            pq_pivot: get_pq_pivot_file(prefix),
            compressed_pq: get_compressed_pq_file(prefix),
            disk_index: get_disk_index_file(prefix),
        }
    }
}

/// No file plays two roles or belongs to two indexes: the path of a file settles its role
/// and the prefix of its index.
pub proof fn law_index_files_are_distinct(prefix: Seq<char>, other: Seq<char>)
    ensures
        pq_pivot_path(prefix) != compressed_pq_path(other),
        pq_pivot_path(prefix) != disk_index_path(other),
        compressed_pq_path(prefix) != disk_index_path(other),
        pq_pivot_path(prefix) == pq_pivot_path(other) ==> prefix == other,
        compressed_pq_path(prefix) == compressed_pq_path(other) ==> prefix == other,
        disk_index_path(prefix) == disk_index_path(other) ==> prefix == other,
{
    reveal_strlit("_pq_pivots.bin");
    reveal_strlit("_pq_compressed.bin");
    reveal_strlit("_disk.index");
    lemma_same_suffix(prefix, other, "_pq_pivots.bin"@);
    lemma_same_suffix(prefix, other, "_pq_compressed.bin"@);
    lemma_same_suffix(prefix, other, "_disk.index"@);
    let pivots = pq_pivot_path(prefix);
    let compressed = compressed_pq_path(prefix);
    let other_compressed = compressed_pq_path(other);
    let other_index = disk_index_path(other);
    assert(pivots[pivots.len() - 5] == 's');
    assert(other_compressed[other_compressed.len() - 5] == 'd');
    assert(pivots.last() == 'n');
    assert(compressed.last() == 'n');
    assert(other_index.last() == 'x');
}

/// Texts that are the same behind the same suffix are the same.
proof fn lemma_same_suffix(a: Seq<char>, b: Seq<char>, suffix: Seq<char>)
    ensures
        a + suffix == b + suffix ==> a == b,
{
    if a + suffix == b + suffix {
        assert((a + suffix).len() == (b + suffix).len());
        assert(a =~= (a + suffix).take(a.len() as int));
        assert(b =~= (b + suffix).take(b.len() as int));
    }
}

/// A file that a job needs.
#[derive(Debug, Clone, Copy, PartialEq, Eq, Structural)]
pub enum JobFile {
    /// The PQ pivots of the index.
    PqPivot,
    /// The PQ-compressed vectors of the index.
    CompressedPq,
    /// The graph and the full-precision vectors of the index.
    DiskIndex,
    /// The query vectors.
    Queries,
    /// The true nearest neighbours of the queries.
    Groundtruth,
}

impl JobFile {
    /// What the file is called in messages.
    pub open spec fn name(self) -> Seq<char> {
        match self {
            JobFile::PqPivot => "pq pivot file"@,
            JobFile::CompressedPq => "compressed pq file"@,
            JobFile::DiskIndex => "disk index file"@,
            JobFile::Queries => "queries file"@,
            JobFile::Groundtruth => "groundtruth file"@,
        }
    }

    /// What the file is called in messages.
    pub fn label(&self) -> (s: &'static str)
        ensures
            s@ == self.name(),
    {
        match self {
            JobFile::PqPivot => "pq pivot file",
            JobFile::CompressedPq => "compressed pq file",
            JobFile::DiskIndex => "disk index file",
            JobFile::Queries => "queries file",
            JobFile::Groundtruth => "groundtruth file",
        }
    }
}

/// The paths that were found in a storage.
#[derive(Debug, Clone)]
pub struct FileListing {
    paths: Vec<String>,
}

impl View for FileListing {
    type V = Set<Seq<char>>;

    closed spec fn view(&self) -> Set<Seq<char>> {
        self.paths@.map_values(|p: String| p@).to_set()
    }
}

impl FileListing {
    /// A listing without any path.
    pub fn new() -> (listing: FileListing)
        ensures
            listing@ == Set::<Seq<char>>::empty(),
    {
        let listing = FileListing { paths: Vec::new() };
        assert(listing@ =~= Set::<Seq<char>>::empty());
        listing
    }

    /// Adds a path that was found.
    pub fn insert(&mut self, path: String)
        ensures
            final(self)@ == old(self)@.insert(path@),
    {
        let ghost before = self.paths@.map_values(|p: String| p@);
        self.paths.push(path);
        proof {
            let after = self.paths@.map_values(|p: String| p@);
            assert(after =~= before.push(path@));
            assert forall|x: Seq<char>| after.contains(x) <==> (before.contains(x) || x == path@) by {
                if before.contains(x) {
                    let i = choose|i: int| 0 <= i < before.len() && before[i] == x;
                    assert(after[i] == x);
                }
                assert(after[before.len() as int] == path@);
            }
            assert(self@ =~= old(self)@.insert(path@));
        }
    }

    /// Whether `path` was found.
    pub fn contains(&self, path: &String) -> (b: bool)
        ensures
            b == self@.contains(path@),
    {
        let ghost all = self.paths@.map_values(|p: String| p@);
        let mut i: usize = 0;
        while i < self.paths.len()
            invariant
                i <= self.paths@.len(),
                all == self.paths@.map_values(|p: String| p@),
                forall|j: int| 0 <= j < i ==> #[trigger] all[j] != path@,
            decreases self.paths@.len() - i,
        {
            if self.paths[i] == *path {
                assert(all[i as int] == path@);
                return true;
            }
            i += 1;
        }
        false
    }
}

} // verus!
