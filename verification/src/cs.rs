//! The constraint system builder.
//!
//! During the one-time configure phase a circuit declares columns, selectors
//! and gates here.  Allocation returns stable handles, and registration of a
//! gate validates that every query references a declared column, so a
//! well-formed builder only ever holds well-formed gates.  After configure
//! returns, the constraint system is read-only.

use vstd::prelude::*;
use crate::expr::{check_declared, column_declared, expr_declared, Expression};
use crate::grid::{Column, ColumnKind, Selector};
use crate::report::ConfigurationError;

verus! {

/// A named, selector-guarded list of polynomial identities.  Wherever the
/// selector is active, each polynomial must evaluate to the additive
/// identity; where it is off, that gate is vacuously satisfied.
pub struct Gate {
    pub name: &'static str,
    pub selector: Selector,
    pub polys: Vec<Expression>,
}

/// The aggregate of all declared columns, selectors, gates and
/// equality-enabled column flags.
pub struct ConstraintSystem {
    /// One flag per declared advice column: whether equality constraints may
    /// target it.
    pub advice_eq: Vec<bool>,
    /// One flag per declared instance column.
    pub instance_eq: Vec<bool>,
    /// One flag per declared fixed column.
    pub fixed_eq: Vec<bool>,
    /// How many selectors have been declared.
    pub num_selectors: usize,
    /// The registered gates.
    pub gates: Vec<Gate>,
}

impl ConstraintSystem {
    pub open spec fn num_advice(self) -> int {
        self.advice_eq@.len() as int
    }

    pub open spec fn num_instance(self) -> int {
        self.instance_eq@.len() as int
    }

    pub open spec fn num_fixed(self) -> int {
        self.fixed_eq@.len() as int
    }

    /// A gate is well formed when its selector and all its queried columns
    /// are declared.
    pub open spec fn gate_wf(self, g: Gate) -> bool {
        &&& g.selector.index < self.num_selectors
        &&& forall|j: int|
            0 <= j < g.polys@.len() ==> expr_declared(
                #[trigger] g.polys@[j],
                self.num_advice(),
                self.num_instance(),
                self.num_fixed(),
            )
    }

    pub open spec fn wf(self) -> bool {
        forall|i: int| 0 <= i < self.gates@.len() ==> self.gate_wf(#[trigger] self.gates@[i])
    }

    pub fn new() -> (cs: ConstraintSystem)
        ensures
            cs.advice_eq@.len() == 0,
            cs.instance_eq@.len() == 0,
            cs.fixed_eq@.len() == 0,
            cs.num_selectors == 0,
            cs.gates@.len() == 0,
            cs.wf(),
    {
        ConstraintSystem {
            advice_eq: Vec::new(),
            instance_eq: Vec::new(),
            fixed_eq: Vec::new(),
            num_selectors: 0,
            gates: Vec::new(),
        }
    }

    /// Declare a fresh advice column and return its handle.
    pub fn advice_column(&mut self) -> (c: Column)
        ensures
            final(self).advice_eq@ == old(self).advice_eq@.push(false),
            final(self).instance_eq == old(self).instance_eq,
            final(self).fixed_eq == old(self).fixed_eq,
            final(self).num_selectors == old(self).num_selectors,
            final(self).gates == old(self).gates,
            c.kind is Advice,
            c.index == old(self).num_advice(),
    {
        let index = self.advice_eq.len();
        self.advice_eq.push(false);
        Column { kind: ColumnKind::Advice, index }
    }

    /// Declare a fresh instance column and return its handle.
    pub fn instance_column(&mut self) -> (c: Column)
        ensures
            final(self).instance_eq@ == old(self).instance_eq@.push(false),
            final(self).advice_eq == old(self).advice_eq,
            final(self).fixed_eq == old(self).fixed_eq,
            final(self).num_selectors == old(self).num_selectors,
            final(self).gates == old(self).gates,
            c.kind is Instance,
            c.index == old(self).num_instance(),
    {
        let index = self.instance_eq.len();
        self.instance_eq.push(false);
        Column { kind: ColumnKind::Instance, index }
    }

    /// Declare a fresh fixed column and return its handle.
    pub fn fixed_column(&mut self) -> (c: Column)
        ensures
            final(self).fixed_eq@ == old(self).fixed_eq@.push(false),
            final(self).advice_eq == old(self).advice_eq,
            final(self).instance_eq == old(self).instance_eq,
            final(self).num_selectors == old(self).num_selectors,
            final(self).gates == old(self).gates,
            c.kind is Fixed,
            c.index == old(self).num_fixed(),
    {
        let index = self.fixed_eq.len();
        self.fixed_eq.push(false);
        Column { kind: ColumnKind::Fixed, index }
    }

    /// Declare a fresh selector and return its handle.
    pub fn selector(&mut self) -> (s: Selector)
        requires
            old(self).num_selectors < usize::MAX,
        ensures
            final(self).num_selectors == old(self).num_selectors + 1,
            final(self).advice_eq == old(self).advice_eq,
            final(self).instance_eq == old(self).instance_eq,
            final(self).fixed_eq == old(self).fixed_eq,
            final(self).gates == old(self).gates,
            s.index == old(self).num_selectors,
    {
        let index = self.num_selectors;
        self.num_selectors = self.num_selectors + 1;
        Selector { index }
    }

    /// Allow cells of `c` to be targets of equality constraints.
    pub fn enable_equality(&mut self, c: Column)
        requires
            column_declared(
                c,
                old(self).num_advice(),
                old(self).num_instance(),
                old(self).num_fixed(),
            ),
        ensures
            c.kind is Advice ==> final(self).advice_eq@ == old(self).advice_eq@.update(
                c.index as int,
                true,
            ) && final(self).instance_eq == old(self).instance_eq && final(self).fixed_eq == old(self).fixed_eq,
            c.kind is Instance ==> final(self).instance_eq@ == old(self).instance_eq@.update(
                c.index as int,
                true,
            ) && final(self).advice_eq == old(self).advice_eq && final(self).fixed_eq == old(self).fixed_eq,
            c.kind is Fixed ==> final(self).fixed_eq@ == old(self).fixed_eq@.update(
                c.index as int,
                true,
            ) && final(self).advice_eq == old(self).advice_eq && final(self).instance_eq == old(self).instance_eq,
            final(self).num_selectors == old(self).num_selectors,
            final(self).gates == old(self).gates,
    {
        match c.kind {
            ColumnKind::Advice => {
                self.advice_eq[c.index] = true;
            },
            ColumnKind::Instance => {
                self.instance_eq[c.index] = true;
            },
            ColumnKind::Fixed => {
                self.fixed_eq[c.index] = true;
            },
        }
    }

    /// Register a gate: its polynomials, guarded by `selector`.  Fails with a
    /// `ConfigurationError` if the selector or any queried column was never
    /// declared; on success it is appended and nothing else changes.
    pub fn create_gate(
        &mut self,
        name: &'static str,
        selector: Selector,
        polys: Vec<Expression>,
    ) -> (r: Result<(), ConfigurationError>)
        ensures
            r is Ok <==> (selector.index < old(self).num_selectors && (forall|j: int|
                0 <= j < polys@.len() ==> expr_declared(
                    #[trigger] polys@[j],
                    old(self).num_advice(),
                    old(self).num_instance(),
                    old(self).num_fixed(),
                ))),
            r is Ok ==> final(self).gates@ == old(self).gates@.push(
                (Gate { name, selector, polys }),
            ) && final(self).advice_eq == old(self).advice_eq && final(self).instance_eq == old(self).instance_eq && final(self).fixed_eq == old(self).fixed_eq && final(self).num_selectors == old(self).num_selectors,
            r is Err ==> *final(self) == *old(self),
            r matches Err(e) ==> (selector.index >= old(self).num_selectors ==> e
                == ConfigurationError::UndeclaredSelector) && (selector.index < old(self).num_selectors ==> e == ConfigurationError::UndeclaredColumn),
    {
        if selector.index >= self.num_selectors {
            return Err(ConfigurationError::UndeclaredSelector);
        }
        if !all_declared(&polys, self.advice_eq.len(), self.instance_eq.len(), self.fixed_eq.len())
        {
            return Err(ConfigurationError::UndeclaredColumn);
        }
        self.gates.push(Gate { name, selector, polys });
        Ok(())
    }
}

/// Whether every expression in `polys` queries only declared columns.
fn all_declared(polys: &Vec<Expression>, na: usize, ni: usize, nf: usize) -> (r: bool)
    ensures
        r == (forall|j: int|
            0 <= j < polys@.len() ==> expr_declared(
                #[trigger] polys@[j],
                na as int,
                ni as int,
                nf as int,
            )),
{
    let mut i: usize = 0;
    while i < polys.len()
        invariant
            i <= polys@.len(),
            forall|j: int|
                0 <= j < i ==> expr_declared(#[trigger] polys@[j], na as int, ni as int, nf as int),
        decreases polys@.len() - i,
    {
        if !check_declared(&polys[i], na, ni, nf) {
            return false;
        }
        i = i + 1;
    }
    true
}

} // verus!
