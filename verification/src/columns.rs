//! Typed column handles and row rotations.
//!
//! Columns are allocated once at configuration time and are immutable
//! thereafter; a handle is comparable only by kind and index.

use vstd::prelude::*;

verus! {

/// The three column kinds of the constraint system.
#[derive(Clone, Copy, Debug, PartialEq, Eq, Structural)]
pub enum ColumnKind {
    /// Private witness values, supplied per instance.
    Advice,
    /// Circuit-defined constants, including selectors.
    Fixed,
    /// Externally supplied public values.
    Instance,
}

/// A column handle: a kind plus a per-kind index.
#[derive(Clone, Copy, Debug, PartialEq, Eq, Structural)]
pub struct Column {
    pub kind: ColumnKind,
    pub index: usize,
}

/// A row offset relative to the row a gate is evaluated at.
#[derive(Clone, Copy, Debug, PartialEq, Eq, Structural)]
pub struct Rotation {
    pub offset: i32,
}

impl Rotation {
    /// The row being evaluated.
    pub fn cur() -> (r: Rotation)
        ensures
            r.offset == 0,
    {
        Rotation { offset: 0 }
    }

    /// The row before the one being evaluated.
    pub fn prev() -> (r: Rotation)
        ensures
            r.offset == -1,
    {
        Rotation { offset: -1 }
    }

    /// The row after the one being evaluated.
    pub fn next() -> (r: Rotation)
        ensures
            r.offset == 1,
    {
        Rotation { offset: 1 }
    }
}

} // verus!
