//! Error taxonomy and the checker's report.
//!
//! A malformed constraint system is a `ConfigurationError`; invalid use of
//! the layouter during witness assignment is a `SynthesisError`; both abort a
//! check immediately.  Constraint violations, by contrast, are collected
//! exhaustively: the report lists every violation across the whole table.

use vstd::prelude::*;
use crate::grid::{Cell, Column};

verus! {

/// A malformed constraint system, detected while a gate is registered.
#[derive(Clone, Copy, Debug, PartialEq, Eq, Structural)]
pub enum ConfigurationError {
    /// A gate queries a column that was never declared.
    UndeclaredColumn,
    /// A gate is guarded by a selector that was never declared.
    UndeclaredSelector,
}

/// Invalid use of the layouter during the witness pass.
#[derive(Clone, Copy, Debug, PartialEq, Eq, Structural)]
pub enum SynthesisError {
    /// A write was addressed past the table's row bound.
    OutOfRows,
    /// A cell was re-entered with a value inconsistent with the one it holds.
    Inconsistent(Cell),
    /// An equality constraint targets a column without equality enabled.
    EqualityNotEnabled(Column),
}

/// One recorded constraint violation.
#[derive(Debug)]
pub enum Violation {
    /// A gate's expression evaluated to a nonzero value at a row where the
    /// gate's selector is active.
    Gate { gate: usize, row: usize, value: pasta_curves::Fp },
    /// A declared equality constraint between two witness cells does not
    /// hold.
    Copy { left: Cell, right: Cell },
    /// A cell bound by equality to a public input differs from the
    /// caller-supplied instance value at that position.
    PublicInput { column: usize, row: usize },
}

/// What a failed check reports.
#[derive(Debug)]
pub enum Report {
    /// The witness pass itself was invalid; checking never ran.
    Synthesis(SynthesisError),
    /// The constraint system was malformed; checking never ran.
    Configuration(ConfigurationError),
    /// The table was populated, and these violations were found.
    Unsatisfied(Vec<Violation>),
}

} // verus!
