//! The addressable geometry of a circuit: columns, selectors, cells and
//! rotations.  These are plain handles; allocating them is the constraint
//! system builder's job.

use vstd::prelude::*;

verus! {

/// What a column holds: private witness values, public inputs, or
/// circuit-defined constants.
#[derive(Clone, Copy, Debug, PartialEq, Eq, Structural)]
pub enum ColumnKind {
    Advice,
    Instance,
    Fixed,
}

/// A handle to a declared column: its kind and its index among the declared
/// columns of that kind.
#[derive(Clone, Copy, Debug, PartialEq, Eq, Structural)]
pub struct Column {
    pub kind: ColumnKind,
    pub index: usize,
}

/// A handle to a declared per-row boolean flag that guards a gate.
#[derive(Clone, Copy, Debug, PartialEq, Eq, Structural)]
pub struct Selector {
    pub index: usize,
}

/// The atomic addressable unit of the grid: a column at an absolute row.
#[derive(Clone, Copy, Debug, PartialEq, Eq, Structural)]
pub struct Cell {
    pub column: Column,
    pub row: usize,
}

/// A signed row offset, applied to a gate's anchor row when that gate
/// references a neighbouring row.
#[derive(Clone, Copy, Debug, PartialEq, Eq, Structural)]
pub struct Rotation {
    pub offset: i32,
}

impl Rotation {
    /// The anchor row itself.
    pub fn cur() -> (r: Rotation)
        ensures
            r.offset == 0,
    {
        Rotation { offset: 0 }
    }

    /// The row before the anchor row.
    pub fn prev() -> (r: Rotation)
        ensures
            r.offset == -1,
    {
        Rotation { offset: -1 }
    }

    /// The row after the anchor row.
    pub fn next() -> (r: Rotation)
        ensures
            r.offset == 1,
    {
        Rotation { offset: 1 }
    }
}

} // verus!
