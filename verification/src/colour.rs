//! The value types that flow through the pipeline: a colour, a column of
//! colours (one sampled frame reduced to per-row averages), and a column
//! tagged with the decode-order index of its source frame.

use vstd::prelude::*;

verus! {

/// An 8-bit RGB colour.
#[derive(Clone, Copy, PartialEq, Eq, Structural, Debug)]
pub struct Colour {
    pub r: u8,
    pub g: u8,
    pub b: u8,
}

/// A column of colours paired with the decode-order index of the frame it was
/// reduced from. The index counts every decoded frame (selected or not) and is
/// the sort key used to restore temporal order after out-of-order completion.
pub struct IndexedColumn {
    pub index: u64,
    pub column: Vec<Colour>,
}

impl Colour {
    /// Builds a colour from its three channel values.
    pub fn new(r: u8, g: u8, b: u8) -> (c: Colour)
        ensures
            c == (Colour { r, g, b }),
    {
        Colour { r, g, b }
    }
}

impl IndexedColumn {
    /// Tags a column with the decode-order index of its source frame.
    pub fn new(index: u64, column: Vec<Colour>) -> (ic: IndexedColumn)
        ensures
            ic.index == index,
            ic.column@ == column@,
    {
        IndexedColumn { index, column }
    }
}

} // verus!
