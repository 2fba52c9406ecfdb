use vstd::prelude::*;

verus! {

/// Why a blueprint could not be decoded.
#[derive(Debug, Clone, Copy, PartialEq, Eq, Structural)]
pub enum FormatError {
    /// The input ends before the 20 bytes of the header.
    TruncatedHeader,
    /// Between 1 and 11 bytes remain where a block's 12-byte prefix should start.
    TruncatedBlock { offset: usize },
    /// A block's payload could not be decompressed, or gave fewer bytes than declared.
    DecompressionError { block_index: usize, expected_len: u32, obtained_len: usize },
    /// A payload holds fewer bytes than the grid's cells need, four per cell.
    GridSizeMismatch { expected: u128, actual: usize },
    /// A grid was asked of a block that the container does not have.
    MissingBlock { block_index: usize, count: usize },
}

} // verus!
