//! A minimal declarative framework for arithmetic constraint circuits.
//!
//! A circuit lays witness values out in a grid of columns and rows and states
//! polynomial identities ("gates") that the values must satisfy wherever a
//! per-row selector is active.  A circuit description is split into two
//! phases: `configure` builds an immutable [`cs::ConstraintSystem`] (columns,
//! selectors, gates, equality flags), and `synthesize` writes concrete values
//! into a [`layout::Table`] through a [`layout::Layouter`].  The checker then
//! re-evaluates every gate at every row and validates the declared equality
//! constraints against the caller-supplied public inputs, collecting every
//! violation into a single report.
//!
//! Field arithmetic itself is an opaque capability: elements of the Pallas
//! base field are consumed through the narrow trusted boundary in [`field`],
//! and everything downstream of a valid assignment (proof generation,
//! commitments, transcripts) is outside this crate.

pub mod checker;
pub mod cs;
pub mod expr;
pub mod field;
pub mod grid;
pub mod layout;
pub mod report;
pub mod square;
pub mod value;
