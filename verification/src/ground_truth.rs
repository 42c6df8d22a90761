//! The true nearest neighbours of every query, as read from an `.ibin` file.

use crate::text::{append_decimal, decimal};
use diskann_utils::io::{read_bin, ReadBinError};
use diskann_utils::views::Matrix;
use vstd::prelude::*;
use vstd::string::StringExecFns;

verus! {

/// The ids of the true nearest neighbours: one row per query, the closest id first.
///
/// It holds a [`Matrix`] of `diskann_utils`, whose contents the verifier does not see.
/// [`truth_rows`] and [`truth_width`] name what the matrix holds.
#[verifier::external_body]
pub struct GroundTruth {
    matrix: Matrix<u32>,
}

/// The rows that the matrix of `gt` holds, from the first to the last.
pub uninterp spec fn truth_rows(gt: GroundTruth) -> Seq<Seq<u32>>;

/// The number of columns of the matrix of `gt`.
pub uninterp spec fn truth_width(gt: GroundTruth) -> nat;

/// Why a ground truth file could not be read.
#[derive(Debug, Clone, Copy, PartialEq, Eq, Structural)]
pub enum GroundTruthError {
    /// The file ends inside its eight-byte header.
    TruncatedHeader,
    /// The size that the header declares does not fit in `usize`.
    Overflow { npoints: u32, ndims: u32, type_size: usize },
    /// The file is shorter than its header declares.
    SizeMismatch { expected: u64, available: u64, npoints: u32, ndims: u32, type_size: usize },
}

/// The shape that a header declares, as it is put in messages.
pub open spec fn shape_text(npoints: u32, ndims: u32, type_size: usize) -> Seq<char> {
    decimal(npoints as nat) + " points × "@ + decimal(ndims as nat) + " dims × "@ + decimal(
        type_size as nat,
    ) + " bytes"@
}

impl GroundTruthError {
    /// The message that tells of the error.
    pub open spec fn text(self) -> Seq<char> {
        match self {
            GroundTruthError::TruncatedHeader => "failed to fill whole buffer"@,
            GroundTruthError::Overflow { npoints, ndims, type_size } => {
                "header dimensions overflow: "@ + shape_text(npoints, ndims, type_size)
                    + " overflows"@
            },
            GroundTruthError::SizeMismatch { expected, available, npoints, ndims, type_size } => {
                "binary data too short: header declares "@ + shape_text(npoints, ndims, type_size)
                    + " = "@ + decimal(expected as nat) + " bytes, but only "@ + decimal(
                    available as nat,
                ) + " bytes available"@
            },
        }
    }

    /// The message that tells of the error.
    pub fn message(&self) -> (s: String)
        ensures
            s@ == self.text(),
    {
        match self {
            GroundTruthError::TruncatedHeader => String::from_str("failed to fill whole buffer"),
            GroundTruthError::Overflow { npoints, ndims, type_size } => {
                let mut s = String::from_str("header dimensions overflow: ");
                append_shape(&mut s, *npoints, *ndims, *type_size);
                s.append(" overflows");
                s
            },
            GroundTruthError::SizeMismatch { expected, available, npoints, ndims, type_size } => {
                let mut s = String::from_str("binary data too short: header declares ");
                append_shape(&mut s, *npoints, *ndims, *type_size);
                s.append(" = ");
                append_decimal(&mut s, *expected);
                s.append(" bytes, but only ");
                append_decimal(&mut s, *available);
                s.append(" bytes available");
                s
            },
        }
    }
}

/// Writes the shape that a header declares behind `out`.
fn append_shape(out: &mut String, npoints: u32, ndims: u32, type_size: usize)
    ensures
        final(out)@ == old(out)@ + shape_text(npoints, ndims, type_size),
{
    let mut s = String::new();
    append_decimal(&mut s, npoints as u64);
    assert(s@ =~= decimal(npoints as nat));
    s.append(" points × ");
    append_decimal(&mut s, ndims as u64);
    s.append(" dims × ");
    append_decimal(&mut s, type_size as u64);
    s.append(" bytes");
    out.append(s.as_str());
}

/// The four bytes of `bytes` that start at `at`, the least significant one first.
pub open spec fn le32(bytes: Seq<u8>, at: int) -> int {
    bytes[at] + 0x100 * bytes[at + 1] + 0x1_0000 * bytes[at + 2] + 0x100_0000 * bytes[at + 3]
}

/// The four bytes of `bytes` that start at `at`, the most significant one first.
pub open spec fn be32(bytes: Seq<u8>, at: int) -> int {
    bytes[at + 3] + 0x100 * bytes[at + 2] + 0x1_0000 * bytes[at + 1] + 0x100_0000 * bytes[at]
}

/// The number of rows that the header of an `.ibin` file declares.
pub open spec fn declared_rows(bytes: Seq<u8>) -> int {
    le32(bytes, 0)
}

/// The number of columns that the header of an `.ibin` file declares.
pub open spec fn declared_width(bytes: Seq<u8>) -> int {
    le32(bytes, 4)
}

/// The number of bytes that have to follow the header of an `.ibin` file.
pub open spec fn declared_size(bytes: Seq<u8>) -> int {
    declared_rows(bytes) * declared_width(bytes) * 4
}

/// Where the cell in row `q` and column `j` starts in an `.ibin` file.
pub open spec fn cell_offset(bytes: Seq<u8>, q: int, j: int) -> int {
    8 + 4 * (q * declared_width(bytes) + j)
}

/// What is wrong with an `.ibin` file, if anything is.
pub open spec fn ibin_problem(bytes: Seq<u8>) -> Option<GroundTruthError> {
    if bytes.len() < 8 {
        Some(GroundTruthError::TruncatedHeader)
    } else if declared_size(bytes) > usize::MAX {
        Some(
            GroundTruthError::Overflow {
                npoints: declared_rows(bytes) as u32,
                ndims: declared_width(bytes) as u32,
                type_size: 4,
            },
        )
    } else if declared_size(bytes) > bytes.len() - 8 {
        Some(
            GroundTruthError::SizeMismatch {
                expected: declared_size(bytes) as u64,
                available: (bytes.len() - 8) as u64,
                npoints: declared_rows(bytes) as u32,
                ndims: declared_width(bytes) as u32,
                type_size: 4,
            },
        )
    } else {
        None
    }
}

/// `gt` has the shape that the header of `bytes` declares.
pub open spec fn has_declared_shape(gt: GroundTruth, bytes: Seq<u8>) -> bool {
    &&& truth_rows(gt).len() == declared_rows(bytes)
    &&& truth_width(gt) == declared_width(bytes)
    &&& forall|q: int|
        0 <= q < truth_rows(gt).len() ==> (#[trigger] truth_rows(gt)[q]).len() == truth_width(gt)
}

/// `gt` holds the cells that follow the header of `bytes`, row by row. Each cell has the
/// byte order of the machine, which is the same for all of them.
pub open spec fn has_cells(gt: GroundTruth, bytes: Seq<u8>) -> bool {
    ||| forall|q: int, j: int|
        0 <= q < truth_rows(gt).len() && 0 <= j < truth_width(gt) ==> (
        #[trigger] truth_rows(gt)[q][j]) == le32(bytes, cell_offset(bytes, q, j))
    ||| forall|q: int, j: int|
        0 <= q < truth_rows(gt).len() && 0 <= j < truth_width(gt) ==> (
        #[trigger] truth_rows(gt)[q][j]) == be32(bytes, cell_offset(bytes, q, j))
}

impl GroundTruth {
    /// `MatrixBase::nrows` of `diskann_utils`: the number of rows.
    #[verifier::external_body]
    fn nrows(&self) -> (n: usize)
        ensures
            n == truth_rows(*self).len(),
    {
        self.matrix.nrows()
    }

    /// `MatrixBase::ncols` of `diskann_utils`: the number of columns.
    #[verifier::external_body]
    pub(crate) fn ncols(&self) -> (n: usize)
        ensures
            n == truth_width(*self),
    {
        self.matrix.ncols()
    }

    /// `MatrixBase::row` of `diskann_utils`: the cells of row `q`, one for each column. It
    /// panics on a row that the matrix does not have.
    #[verifier::external_body]
    pub(crate) fn row(&self, q: usize) -> (cells: &[u32])
        requires
            q < truth_rows(*self).len(),
        ensures
            cells@ == truth_rows(*self)[q as int],
            cells@.len() == truth_width(*self),
    {
        self.matrix.row(q)
    }

    /// `read_bin` of `diskann_utils`, on bytes in memory: two little-endian `u32` give the
    /// number of rows and of columns, and the cells follow row by row in the machine's byte
    /// order. Bytes behind the last cell are ignored. It fails only on a header that is cut
    /// short or declares more cells than follow.
    #[verifier::external_body]
    fn read(bytes: &[u8]) -> (r: Result<GroundTruth, GroundTruthError>)
        ensures
            r matches Err(e) ==> ibin_problem(bytes@) == Some(e),
            r matches Ok(gt) ==> ibin_problem(bytes@) is None && has_declared_shape(gt, bytes@)
                && has_cells(gt, bytes@),
    {
        match read_bin::<u32>(&mut std::io::Cursor::new(bytes)) {
            Ok(matrix) => Ok(GroundTruth { matrix }),
            Err(ReadBinError::Io(_)) => Err(GroundTruthError::TruncatedHeader),
            Err(ReadBinError::Overflow { npoints, ndims, type_size }) => Err(
                GroundTruthError::Overflow { npoints, ndims, type_size },
            ),
            Err(ReadBinError::SizeMismatch { expected, available, npoints, ndims, type_size }) => Err(
                GroundTruthError::SizeMismatch { expected, available, npoints, ndims, type_size },
            ),
        }
    }
}

impl GroundTruth {
    /// Whether there is a row for each of `num_queries` queries.
    pub fn covers(&self, num_queries: usize) -> (b: bool)
        ensures
            b == (num_queries <= truth_rows(*self).len()),
    {
        num_queries <= self.nrows()
    }
}

/// Reads the ground truth of a search phase, if it names any: `file` is what the ground
/// truth file holds, or `None` where the search phase has no ground truth.
pub fn load_ground_truth(file: &Option<Vec<u8>>) -> (r: Result<
    Option<GroundTruth>,
    GroundTruthError,
>)
    ensures
        *file is None ==> r == Ok::<Option<GroundTruth>, GroundTruthError>(None),
        (*file matches Some(bytes) ==> match r {
            Err(e) => ibin_problem(bytes@) == Some(e),
            Ok(loaded) => ibin_problem(bytes@) is None && loaded is Some && has_declared_shape(
                loaded->0,
                bytes@,
            ) && has_cells(loaded->0, bytes@),
        }),
{
    match file {
        None => Ok(None),
        Some(bytes) => match GroundTruth::read(bytes.as_slice()) {
            Ok(gt) => Ok(Some(gt)),
            Err(e) => Err(e),
        },
    }
}

/// Four bytes are a number to the base of 256: read from the front or, in the other order,
/// from the back.
pub proof fn law_byte_orders(bytes: Seq<u8>, at: int)
    requires
        0 <= at,
        at + 4 <= bytes.len(),
    ensures
        le32(bytes, at) == bytes[at] + 256 * (bytes[at + 1] + 256 * (bytes[at + 2] + 256
            * bytes[at + 3])),
        be32(bytes, at) == le32(bytes.subrange(at, at + 4).reverse(), 0),
        0 <= le32(bytes, at) <= u32::MAX,
        0 <= be32(bytes, at) <= u32::MAX,
{
}

/// A file is read exactly where it has a header and the cells that the header declares: four
/// bytes for each column of each row. Anything behind them does not matter, and a file that
/// is cut short is refused.
pub proof fn law_files_that_are_read(bytes: Seq<u8>, behind: Seq<u8>, rows: int, width: int)
    requires
        bytes.len() >= 8,
        bytes.len() + behind.len() <= usize::MAX,
        rows == bytes[0] + 256 * (bytes[1] + 256 * (bytes[2] + 256 * bytes[3])),
        width == bytes[4] + 256 * (bytes[5] + 256 * (bytes[6] + 256 * bytes[7])),
    ensures
        declared_rows(bytes) == rows,
        declared_width(bytes) == width,
        ibin_problem(bytes) is None <==> 8 + rows * width * 4 <= bytes.len(),
        ibin_problem(bytes) is None ==> ibin_problem(bytes + behind) is None,
        ibin_problem(bytes) is Some ==> !(ibin_problem(bytes)->0 is TruncatedHeader),
        ibin_problem(bytes) matches Some(
            GroundTruthError::SizeMismatch { expected, available, npoints, ndims, type_size },
        ) ==> expected == rows * width * 4 && available == bytes.len() - 8 && npoints == rows
            && ndims == width && type_size == 4,
        ibin_problem(bytes) matches Some(
            GroundTruthError::Overflow { npoints, ndims, type_size },
        ) ==> rows * width * 4 > usize::MAX && npoints == rows && ndims == width && type_size == 4,
        ibin_problem(bytes) matches Some(GroundTruthError::SizeMismatch { .. }) ==> rows * width
            * 4 <= usize::MAX,
{
    law_byte_orders(bytes, 0);
    law_byte_orders(bytes, 4);
    assert(rows * width * 4 >= 0) by (nonlinear_arith)
        requires
            rows >= 0,
            width >= 0,
    ;
    let longer = bytes + behind;
    assert(declared_size(longer) == declared_size(bytes)) by {
        assert(declared_rows(longer) == declared_rows(bytes));
        assert(declared_width(longer) == declared_width(bytes));
    }
}

/// A file that ends inside its header is refused for that.
pub proof fn law_truncated_files(bytes: Seq<u8>)
    ensures
        ibin_problem(bytes) == Some(GroundTruthError::TruncatedHeader) <==> bytes.len() < 8,
{
}

/// The cells of a file follow one another: the columns of a row side by side, the rows one
/// behind the other, and the first cell behind the header.
pub proof fn law_cells_follow_one_another(bytes: Seq<u8>, q: int, j: int)
    ensures
        cell_offset(bytes, 0, 0) == 8,
        cell_offset(bytes, q, j + 1) == cell_offset(bytes, q, j) + 4,
        cell_offset(bytes, q + 1, 0) == cell_offset(bytes, q, declared_width(bytes)),
{
    let w = declared_width(bytes);
    assert((q + 1) * w == q * w + w && 0 * w == 0) by (nonlinear_arith);
}

/// What a ground truth holds that was read from a file: as many rows and columns as the file
/// declares, and in each cell the four bytes of its place, all in the same order.
pub proof fn law_ground_truth_of_file(gt: GroundTruth, bytes: Seq<u8>, q: int, j: int)
    requires
        has_declared_shape(gt, bytes),
        has_cells(gt, bytes),
        0 <= q < le32(bytes, 0),
        0 <= j < le32(bytes, 4),
    ensures
        truth_rows(gt).len() == le32(bytes, 0),
        truth_width(gt) == le32(bytes, 4),
        truth_rows(gt)[q].len() == le32(bytes, 4),
        truth_rows(gt)[q][j] == le32(bytes, 8 + 4 * (q * le32(bytes, 4) + j))
            || truth_rows(gt)[q][j] == be32(bytes, 8 + 4 * (q * le32(bytes, 4) + j)),
{
}

/// The messages show the numbers of the error, each in its place.
pub proof fn law_messages_show_the_numbers(
    expected: u64,
    available: u64,
    npoints: u32,
    ndims: u32,
    type_size: usize,
)
    ensures
        ({
            let shape = decimal(npoints as nat) + " points × "@ + decimal(ndims as nat)
                + " dims × "@ + decimal(type_size as nat) + " bytes"@;
            let overflow = (GroundTruthError::Overflow { npoints, ndims, type_size }).text();
            let short = (GroundTruthError::SizeMismatch {
                expected,
                available,
                npoints,
                ndims,
                type_size,
            }).text();
            &&& ("header dimensions overflow: "@ + shape).is_prefix_of(overflow)
            &&& (shape + " overflows"@).is_suffix_of(overflow)
            &&& ("binary data too short: header declares "@ + shape + " = "@ + decimal(
                expected as nat,
            )).is_prefix_of(short)
            &&& (" bytes, but only "@ + decimal(available as nat)
                + " bytes available"@).is_suffix_of(short)
        }),
{
    let shape = decimal(npoints as nat) + " points × "@ + decimal(ndims as nat) + " dims × "@
        + decimal(type_size as nat) + " bytes"@;
    let overflow = (GroundTruthError::Overflow { npoints, ndims, type_size }).text();
    let short = (GroundTruthError::SizeMismatch {
        expected,
        available,
        npoints,
        ndims,
        type_size,
    }).text();
    let a = "header dimensions overflow: "@ + shape;
    let b = shape + " overflows"@;
    let c = "binary data too short: header declares "@ + shape + " = "@ + decimal(expected as nat);
    let d = " bytes, but only "@ + decimal(available as nat) + " bytes available"@;
    assert(overflow.subrange(0, a.len() as int) =~= a);
    assert(overflow.subrange(overflow.len() - b.len(), overflow.len() as int) =~= b);
    assert(short =~= c + d);
    assert(short.subrange(0, c.len() as int) =~= c);
    assert(short.subrange(short.len() - d.len(), short.len() as int) =~= d);
}

} // verus!
