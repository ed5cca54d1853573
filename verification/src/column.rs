//! The fixed set of named fields of a record, and their positional indices.

use vstd::prelude::*;

verus! {

/// Number of fields in a record.
pub const SIZE: usize = 6;

/// One of the six named fields of a record, in file order.
#[derive(Clone, Copy, PartialEq, Eq, Structural, Debug)]
pub enum Column {
    Date,
    Number,
    People,
    Signature,
    Flags,
    ID,
}

impl Column {
    /// The zero-based position of this column within a record.
    pub open spec fn as_index(self) -> int {
        match self {
            Column::Date => 0,
            Column::Number => 1,
            Column::People => 2,
            Column::Signature => 3,
            Column::Flags => 4,
            Column::ID => 5,
        }
    }

    /// Converts the column to its zero-based position.
    pub fn index(self) -> (i: usize)
        ensures
            i == self.as_index(),
            i < SIZE,
    {
        match self {
            Column::Date => 0,
            Column::Number => 1,
            Column::People => 2,
            Column::Signature => 3,
            Column::Flags => 4,
            Column::ID => 5,
        }
    }

    /// Converts a zero-based position back to the column it addresses.
    /// Positions outside the record are an internal-invariant violation,
    /// so they are excluded rather than handled.
    pub fn from_index(i: usize) -> (c: Column)
        requires
            i < SIZE,
        ensures
            c.as_index() == i,
    {
        if i == 0 {
            Column::Date
        } else if i == 1 {
            Column::Number
        } else if i == 2 {
            Column::People
        } else if i == 3 {
            Column::Signature
        } else if i == 4 {
            Column::Flags
        } else {
            Column::ID
        }
    }
}

} // verus!
