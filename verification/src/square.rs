//! The square circuit and the check entry point.
//!
//! The circuit holds one private witness `a`.  Its configure phase declares
//! two advice columns, one instance column and one selector, enables
//! equality on all three columns, and registers one gate, "square": wherever
//! the selector is active, `lhs·lhs − rhs` must vanish, where `lhs` is the
//! first advice column and `rhs` the public input.  Its synthesize phase
//! writes `a` and `a·a` at row zero of one region, activates the selector
//! there, and binds the squared cell to the public input by equality.
//!
//! `check` drives both phases — once with a blank variant of the circuit,
//! once with the witness-bearing one — and then runs the checker passes.
//! Its contract pins the outcome entirely by the witness and the public
//! inputs: the table size `k` does not appear in the acceptance condition,
//! so growing the table beyond the one row the region needs cannot change
//! the verdict.

use vstd::prelude::*;
use vstd::arithmetic::div_mod::lemma_small_mod;
use vstd::arithmetic::power2::{
    lemma2_to64, lemma_pow2_pos, lemma_pow2_strictly_increases, lemma_pow2_unfold, pow2,
};
use crate::checker::{
    all_copy_viols, all_gate_viols, copies_pass, copy_viol, copy_viols_upto, eval_spec,
    first_viol_poly, gate_row_viol, gate_viols_rows, gates_pass, gates_viols,
    lemma_gate_rows_silent, rho,
};
use crate::cs::ConstraintSystem;
use crate::expr::{expr_declared, Expression};
use crate::field::{
    fadd, fe_val, fmul, fneg, fp_order, lemma_fadd_fneg, lemma_fmul_bound, lemma_fsub_eq_zero,
};
use crate::grid::{Cell, Column, ColumnKind, Rotation, Selector};
use crate::layout::{cell_val, inst_vals, sel_on, Layouter, Table};
use crate::report::{Report, SynthesisError, Violation};
use crate::value::{lift_add, lift_mul, lift_neg, val_mul, Val};

verus! {

/// The handles returned by the square circuit's configure phase.
#[derive(Clone, Copy, Debug)]
pub struct SquareConfig {
    pub advice: [Column; 2],
    pub instance: Column,
    pub s_mul: Selector,
}

/// The square circuit: one private witness value `a`, constrained so that
/// `a·a` equals the public input.
pub struct SquareCircuit {
    pub a: Val,
}

impl Default for SquareCircuit {
    /// The value-free variant of the circuit.
    fn default() -> (r: SquareCircuit)
        ensures
            r.a@ is None,
    {
        SquareCircuit { a: Val::Unknown }
    }
}

/// The config handles are exactly the columns and selector that configure
/// allocates, in allocation order.
pub open spec fn square_config_ok(c: SquareConfig) -> bool {
    &&& c.advice@.len() == 2
    &&& c.advice@[0] == (Column { kind: ColumnKind::Advice, index: 0 })
    &&& c.advice@[1] == (Column { kind: ColumnKind::Advice, index: 1 })
    &&& c.instance == (Column { kind: ColumnKind::Instance, index: 0 })
    &&& c.s_mul == (Selector { index: 0 })
}

/// The "square" polynomial of the circuit: `lhs·lhs − rhs`, with `lhs`
/// the first advice column and `rhs` the instance column, both at the
/// anchor row.
pub open spec fn is_square_poly(e: Expression) -> bool {
    &&& e matches Expression::Sum(l, r)
    &&& (*l) matches Expression::Product(x, y)
    &&& (*x) == (Expression::Query(
        (Column { kind: ColumnKind::Advice, index: 0 }),
        (Rotation { offset: 0 }),
    ))
    &&& (*y) == (Expression::Query(
        (Column { kind: ColumnKind::Advice, index: 0 }),
        (Rotation { offset: 0 }),
    ))
    &&& (*r) matches Expression::Negate(q)
    &&& (*q) == (Expression::Query(
        (Column { kind: ColumnKind::Instance, index: 0 }),
        (Rotation { offset: 0 }),
    ))
}

/// The constraint system the square circuit configures, pinned exactly:
/// witness values can play no part in it.
pub open spec fn is_square_cs(cs: ConstraintSystem) -> bool {
    &&& cs.advice_eq@.len() == 2
    &&& cs.advice_eq@[0]
    &&& cs.advice_eq@[1]
    &&& cs.instance_eq@.len() == 1
    &&& cs.instance_eq@[0]
    &&& cs.fixed_eq@.len() == 0
    &&& cs.num_selectors == 1
    &&& cs.gates@.len() == 1
    &&& cs.gates@[0].name@ == "square"@
    &&& cs.gates@[0].selector == (Selector { index: 0 })
    &&& cs.gates@[0].polys@.len() == 1
    &&& is_square_poly(cs.gates@[0].polys@[0])
}

/// What the square circuit's synthesize phase leaves behind: `a` and `a·a`
/// at row zero of the two advice columns, the selector active there and
/// nowhere else, one equality constraint binding the squared cell to the
/// first public input, and everything else untouched.
pub open spec fn square_synthesized(l: Layouter, a: Option<int>, l0: Layouter) -> bool {
    let t = l.table;
    &&& t.advice@.len() == 2
    &&& t.advice@[0]@[0]@ == a
    &&& t.advice@[1]@[0]@ == lift_mul(a, a)
    &&& forall|rr: int| 1 <= rr < t.n ==> (#[trigger] t.advice@[0]@[rr])@ is None
    &&& forall|rr: int| 1 <= rr < t.n ==> (#[trigger] t.advice@[1]@[rr])@ is None
    &&& t.instance == l0.table.instance
    &&& t.fixed == l0.table.fixed
    &&& t.selectors@.len() == 1
    &&& t.selectors@[0]@[0]
    &&& forall|rr: int| 1 <= rr < t.n ==> !(#[trigger] t.selectors@[0]@[rr])
    &&& l.copies@.len() == 1
    &&& l.copies@[0] == (
    (Cell { column: (Column { kind: ColumnKind::Advice, index: 1 }), row: 0 }),
    (Cell { column: (Column { kind: ColumnKind::Instance, index: 0 }), row: 0 }),
    )
    &&& l.next_row == 1
}

impl SquareCircuit {
    /// The value-free variant used for structural passes.
    pub fn without_witnesses(&self) -> (r: SquareCircuit)
        ensures
            r.a@ is None,
    {
        SquareCircuit { a: Val::Unknown }
    }

    /// Build the constraint system of the square circuit.  This reads no
    /// witness: it is a function of the builder alone, so the structure it
    /// produces is one fixed thing, `is_square_cs`.
    pub fn configure(meta: &mut ConstraintSystem) -> (config: SquareConfig)
        requires
            old(meta).advice_eq@.len() == 0,
            old(meta).instance_eq@.len() == 0,
            old(meta).fixed_eq@.len() == 0,
            old(meta).num_selectors == 0,
            old(meta).gates@.len() == 0,
        ensures
            final(meta).wf(),
            is_square_cs(*final(meta)),
            square_config_ok(config),
    {
        let a0 = meta.advice_column();
        let a1 = meta.advice_column();
        let advice = [a0, a1];
        let instance = meta.instance_column();
        let s_mul = meta.selector();

        meta.enable_equality(a0);
        meta.enable_equality(a1);
        meta.enable_equality(instance);

        // Constraint: a * a = b, with b the public input
        let lhs = Expression::query(a0, Rotation::cur());
        let lhs_again = Expression::query(a0, Rotation::cur());
        let rhs = Expression::query(instance, Rotation::cur());
        proof {
            assert(expr_declared(lhs, 2, 1, 0));
            assert(expr_declared(rhs, 2, 1, 0));
        }
        let prod = lhs.times(lhs_again);
        proof {
            assert(expr_declared(prod, 2, 1, 0));
        }
        let neg = rhs.negated();
        proof {
            assert(expr_declared(neg, 2, 1, 0));
        }
        let poly = prod.plus(neg);
        let mut polys: Vec<Expression> = Vec::new();
        polys.push(poly);
        proof {
            assert(polys@[0] == poly);
            assert(expr_declared(poly, 2, 1, 0));
        }
        let registered = meta.create_gate("square", s_mul, polys);
        match registered {
            Ok(()) => {},
            Err(_) => {
                proof {
                    assert(false);
                }
            },
        }
        SquareConfig { advice, instance, s_mul }
    }

    /// Write the witness into a fresh table: one region of one row.
    pub fn synthesize(&self, config: &SquareConfig, layouter: &mut Layouter<'_>) -> (r: Result<
        (),
        SynthesisError,
    >)
        requires
            old(layouter).wf(),
            is_square_cs(*old(layouter).cs),
            square_config_ok(*config),
            !old(layouter).in_region,
            old(layouter).next_row == 0,
            old(layouter).copies@.len() == 0,
            forall|c: int, rr: int|
                0 <= c < old(layouter).table.advice@.len() && 0 <= rr < old(layouter).table.n
                    ==> (#[trigger] old(layouter).table.advice@[c]@[rr])@ is None,
            forall|s: int, rr: int|
                0 <= s < old(layouter).table.selectors@.len() && 0 <= rr < old(layouter).table.n
                    ==> !(#[trigger] old(layouter).table.selectors@[s]@[rr]),
        ensures
            r is Ok,
            final(layouter).wf(),
            final(layouter).cs == old(layouter).cs,
            final(layouter).table.n == old(layouter).table.n,
            !final(layouter).in_region,
            square_synthesized(*final(layouter), self.a@, *old(layouter)),
    {
        layouter.enter_region("square");
        match layouter.enable_selector(config.s_mul, 0) {
            Ok(()) => {},
            Err(e) => {
                proof {
                    assert(false);
                }
                return Err(e);
            },
        }
        match layouter.assign_advice(config.advice[0], 0, &self.a) {
            Ok(_) => {},
            Err(e) => {
                proof {
                    assert(false);
                }
                return Err(e);
            },
        }
        let sq = val_mul(&self.a, &self.a);
        let c_sq: Cell;
        match layouter.assign_advice(config.advice[1], 0, &sq) {
            Ok(c) => {
                c_sq = c;
            },
            Err(e) => {
                proof {
                    assert(false);
                }
                return Err(e);
            },
        }
        let icell = Cell { column: config.instance, row: 0 };
        match layouter.constrain_equal(c_sq, icell) {
            Ok(()) => {},
            Err(e) => {
                proof {
                    assert(false);
                }
                return Err(e);
            },
        }
        layouter.exit_region();
        Ok(())
    }
}

/// The acceptance condition of the square circuit: whenever the witness is
/// known and a public input is supplied, the input must be the square of
/// the witness.  The table size plays no part in it.
pub open spec fn square_accepts(a: Option<int>, iv: Seq<int>) -> bool {
    a matches Some(v) ==> iv.len() >= 1 ==> iv[0] == fmul(v, v)
}

/// The shape of a failing report: the "square" gate fires at row zero with
/// the computed difference wherever it is nonzero, and the public-input
/// binding of the squared cell is recorded as mismatched.
pub open spec fn square_report(rep: Report, a: Option<int>, iv: Seq<int>) -> bool {
    &&& rep matches Report::Unsatisfied(vs)
    &&& (rep matches Report::Unsatisfied(vs) ==> ({
        let gate_fires = a matches Some(v) && iv.len() >= 1 && fadd(fmul(v, v), fneg(iv[0]))
            != 0;
        &&& (gate_fires ==> vs@.len() == 2 && (a matches Some(v) ==> (vs@[0] matches
            Violation::Gate { gate, row, value } && gate == 0 && row == 0 && fe_val(value) == fadd(
            fmul(v, v),
            fneg(iv[0]),
        ))) && vs@[1] == (Violation::PublicInput { column: 0, row: 0 }))
        &&& (!gate_fires ==> vs@.len() == 1 && vs@[0] == (Violation::PublicInput {
            column: 0,
            row: 0,
        }))
    }))
}

/// The number of table rows for a given `k`: `2^k`.
pub fn table_rows(k: u32) -> (n: usize)
    requires
        pow2(k as nat) <= usize::MAX as nat,
    ensures
        n as nat == pow2(k as nat),
        n >= 1,
{
    let mut n: usize = 1;
    let mut i: u32 = 0;
    proof {
        lemma2_to64();
    }
    while i < k
        invariant
            i <= k,
            n as nat == pow2(i as nat),
            pow2(k as nat) <= usize::MAX as nat,
        decreases k - i,
    {
        proof {
            lemma_pow2_unfold((i + 1) as nat);
            if ((i + 1) as nat) < (k as nat) {
                lemma_pow2_strictly_increases((i + 1) as nat, k as nat);
            }
        }
        n = n * 2;
        i = i + 1;
    }
    proof {
        lemma_pow2_pos(k as nat);
    }
    n
}

/// On the synthesized square table, gate violations are at most the
/// single triple at the "square" gate and row zero: rows past the region
/// have the selector off, and an unknown witness or an absent public input
/// leaves its computed value unknown.
proof fn lemma_square_gate_viols(cs: ConstraintSystem, t: Table, a: Option<int>, iv0: Seq<int>)
    requires
        is_square_cs(cs),
        t.wf(),
        t.matches_cs(cs),
        t.advice@[0]@[0]@ == a,
        t.instance@[0]@[0]@ == (if iv0.len() >= 1 {
            Some(iv0[0])
        } else {
            None::<int>
        }),
        t.selectors@[0]@[0],
        forall|rr: int| 1 <= rr < t.n ==> !(#[trigger] t.selectors@[0]@[rr]),
    ensures
        a matches Some(v) ==> iv0.len() >= 1 ==> all_gate_viols(cs, t) == (if fadd(
            fmul(v, v),
            fneg(iv0[0]),
        ) != 0 {
            seq![(0int, 0int, fadd(fmul(v, v), fneg(iv0[0])))]
        } else {
            Seq::<(int, int, int)>::empty()
        }),
        (a is None || iv0.len() == 0) ==> all_gate_viols(cs, t) == Seq::<(int, int, int)>::empty(),
{
    let g = cs.gates@[0];
    let n = t.n as int;
    assert(sel_on(t, g.selector, 0));
    assert forall|r: int| 1 <= r < n implies gate_row_viol(g, t, r) is None by {
        assert(!sel_on(t, g.selector, r));
    }
    lemma_gate_rows_silent(g, 0, t, 1, n);
    let e = g.polys@[0];
    lemma_small_mod(0, t.n as nat);
    assert(rho(0, 0, n) == 0);
    let acol = Column { kind: ColumnKind::Advice, index: 0 };
    let icol = Column { kind: ColumnKind::Instance, index: 0 };
    let iv = if iv0.len() >= 1 {
        Some(iv0[0])
    } else {
        None::<int>
    };
    assert(cell_val(t, acol, 0) == a);
    assert(cell_val(t, icol, 0) == iv);
    match e {
        Expression::Sum(l, r) => {
            match *l {
                Expression::Product(x, y) => {
                    assert(eval_spec(*x, t, 0) == a);
                    assert(eval_spec(*y, t, 0) == a);
                    assert(eval_spec(*l, t, 0) == lift_mul(a, a));
                },
                _ => {
                    assert(false);
                },
            }
            match *r {
                Expression::Negate(q) => {
                    assert(eval_spec(*q, t, 0) == iv);
                    assert(eval_spec(*r, t, 0) == lift_neg(iv));
                },
                _ => {
                    assert(false);
                },
            }
            assert(eval_spec(e, t, 0) == lift_add(lift_mul(a, a), lift_neg(iv)));
        },
        _ => {
            assert(false);
        },
    }
    assert(gates_viols(cs, t, 0) =~= Seq::<(int, int, int)>::empty());
    assert(gate_viols_rows(g, 0, t, 0) =~= Seq::<(int, int, int)>::empty());
    assert(all_gate_viols(cs, t) == gates_viols(cs, t, 0) + gate_viols_rows(g, 0, t, n));
    match a {
        Some(v) => {
            if iv0.len() >= 1 {
                let value = fadd(fmul(v, v), fneg(iv0[0]));
                assert(eval_spec(e, t, 0) == Some(value));
                assert(first_viol_poly(g, t, 0, 1) is None);
                if value != 0 {
                    assert(gate_row_viol(g, t, 0) == Some(value));
                    assert(gate_viols_rows(g, 0, t, 1) =~= seq![(0int, 0int, value)]);
                    assert(all_gate_viols(cs, t) =~= seq![(0int, 0int, value)]);
                } else {
                    assert(gate_row_viol(g, t, 0) is None);
                    assert(gate_viols_rows(g, 0, t, 1) =~= Seq::<(int, int, int)>::empty());
                    assert(all_gate_viols(cs, t) =~= Seq::<(int, int, int)>::empty());
                }
            } else {
                assert(eval_spec(e, t, 0) is None);
                assert(first_viol_poly(g, t, 0, 1) is None);
                assert(gate_row_viol(g, t, 0) is None);
                assert(all_gate_viols(cs, t) =~= Seq::<(int, int, int)>::empty());
            }
        },
        None => {
            assert(eval_spec(e, t, 0) is None);
            assert(first_viol_poly(g, t, 0, 1) is None);
            assert(gate_row_viol(g, t, 0) is None);
            assert(all_gate_viols(cs, t) =~= Seq::<(int, int, int)>::empty());
        },
    }
}

/// Validate a concrete assignment of the square circuit against public
/// inputs.  Configure runs once — the structural pass reads no witness —
/// then the blank variant and the witness-bearing circuit are each
/// synthesized, and every gate row and equality binding is checked.
///
/// The result is `Ok` exactly when the circuit accepts: whenever the witness
/// is known and a public input is supplied, the input equals the square of
/// the witness.  That condition does not mention `k`, so any table large
/// enough for the one-row region gives the same verdict.  On rejection the
/// report lists every violation: the "square" gate at row zero with its
/// computed value wherever that value is nonzero, and the mismatched
/// public-input binding.
pub fn check(circuit: &SquareCircuit, k: u32, instances: &Vec<Vec<pasta_curves::Fp>>) -> (r:
    Result<(), Report>)
    requires
        pow2(k as nat) <= usize::MAX as nat,
        instances@.len() == 1,
        instances@[0]@.len() <= pow2(k as nat),
    ensures
        r is Ok <==> square_accepts(circuit.a@, inst_vals(instances@)[0]),
        r matches Err(rep) ==> square_report(rep, circuit.a@, inst_vals(instances@)[0]),
{
    let n = table_rows(k);
    let mut meta = ConstraintSystem::new();
    let config = SquareCircuit::configure(&mut meta);
    proof {
        assert(inst_vals(instances@).len() == 1);
        assert(inst_vals(instances@)[0] == crate::layout::fp_vals(instances@[0]@));
    }
    let blank = circuit.without_witnesses();
    let mut structural = Layouter::new(&meta, n, instances);
    match blank.synthesize(&config, &mut structural) {
        Ok(()) => {},
        Err(e) => {
            proof {
                assert(false);
            }
            return Err(Report::Synthesis(e));
        },
    }
    let mut layouter = Layouter::new(&meta, n, instances);
    match circuit.synthesize(&config, &mut layouter) {
        Ok(()) => {},
        Err(e) => {
            proof {
                assert(false);
            }
            return Err(Report::Synthesis(e));
        },
    }
    let table = layouter.table;
    let copies = layouter.copies;
    let mut vs = gates_pass(&meta, &table);
    let mut cvs = copies_pass(&table, &copies);
    proof {
        let a = circuit.a@;
        let ivs = inst_vals(instances@);
        let iv0 = ivs[0];
        assert(iv0.len() == instances@[0]@.len());
        assert(table.instance@[0]@[0]@ == (if iv0.len() >= 1 {
            Some(iv0[0])
        } else {
            None::<int>
        }));
        lemma_square_gate_viols(meta, table, a, iv0);
        // the one declared equality pair binds the squared cell to the input
        let acell = Cell { column: (Column { kind: ColumnKind::Advice, index: 1 }), row: 0 };
        let icell = Cell { column: (Column { kind: ColumnKind::Instance, index: 0 }), row: 0 };
        assert(copies@ =~= seq![(acell, icell)]);
        assert(cell_val(table, acell.column, 0) == lift_mul(a, a));
        assert(cell_val(table, icell.column, 0) == (if iv0.len() >= 1 {
            Some(iv0[0])
        } else {
            None::<int>
        }));
        assert(copy_viols_upto(table, copies@, 0) =~= Seq::<Violation>::empty());
        assert(all_copy_viols(table, copies@) == copy_viols_upto(table, copies@, 0) + (
        match copy_viol(table, copies@[0]) {
            Some(v) => seq![v],
            None => Seq::<Violation>::empty(),
        }));
        match a {
            Some(v) => {
                if iv0.len() >= 1 {
                    let sq = fmul(v, v);
                    let b = iv0[0];
                    if sq == b {
                        // its computed value vanishes: a - a is zero in the field
                        lemma_fadd_fneg(sq, b);
                        assert(fadd(sq, fneg(b)) == (0int) % fp_order());
                        lemma_small_mod(0, fp_order() as nat);
                        assert(fadd(sq, fneg(b)) == 0);
                        assert(copy_viol(table, copies@[0]) is None);
                        assert(all_copy_viols(table, copies@) =~= Seq::<Violation>::empty());
                    } else {
                        assert(copy_viol(table, copies@[0]) == Some(
                            (Violation::PublicInput { column: 0, row: 0 }),
                        ));
                        assert(all_copy_viols(table, copies@) =~= seq![
                            (Violation::PublicInput { column: 0, row: 0 }),
                        ]);
                    }
                } else {
                    assert(copy_viol(table, copies@[0]) is None);
                    assert(all_copy_viols(table, copies@) =~= Seq::<Violation>::empty());
                }
            },
            None => {
                assert(copy_viol(table, copies@[0]) is None);
                assert(all_copy_viols(table, copies@) =~= Seq::<Violation>::empty());
            },
        }
    }
    vs.append(&mut cvs);
    if vs.len() == 0 {
        Ok(())
    } else {
        Err(Report::Unsatisfied(vs))
    }
}

/// For every field element `a`, the layout that assigns `a` and `a·a` and
/// supplies `a·a` as the public input is accepted — whatever the table
/// size, since the acceptance condition never mentions it.
pub proof fn lemma_square_witness_accepted(a: int, iv: Seq<int>)
    requires
        iv.len() >= 1,
        iv[0] == fmul(a, a),
    ensures
        square_accepts(Some(a), iv),
{
}

/// For every witness `a` and every canonical field value `b` other than
/// `a·a`, the same layout with public input `b` is rejected; the "square"
/// gate fires at row zero with the field difference `a·a − b`, and the
/// public-input binding of the squared cell is mismatched as well.
pub proof fn lemma_wrong_instance_rejected(a: int, b: int)
    requires
        0 <= b < fp_order(),
        b != fmul(a, a),
    ensures
        !square_accepts(Some(a), seq![b]),
        fadd(fmul(a, a), fneg(b)) != 0,
        fmul(a, a) != b,
{
    let sq = fmul(a, a);
    lemma_fmul_bound(a, a);
    lemma_fadd_fneg(sq, b);
    lemma_fsub_eq_zero(sq, b);
    assert(seq![b][0] == b);
}

/// The constraint system's structure is independent of the witness: any two
/// systems the circuit configures — through `without_witnesses` or with the
/// real witness — have the same columns, the same equality flags, the same
/// selectors, and the same gate with the same polynomial.
pub proof fn lemma_structure_witness_independent(cs1: ConstraintSystem, cs2: ConstraintSystem)
    requires
        is_square_cs(cs1),
        is_square_cs(cs2),
    ensures
        cs1.advice_eq@ == cs2.advice_eq@,
        cs1.instance_eq@ == cs2.instance_eq@,
        cs1.fixed_eq@ == cs2.fixed_eq@,
        cs1.num_selectors == cs2.num_selectors,
        cs1.gates@.len() == cs2.gates@.len(),
        cs1.gates@[0].name@ == cs2.gates@[0].name@,
        cs1.gates@[0].selector == cs2.gates@[0].selector,
        cs1.gates@[0].polys@ == cs2.gates@[0].polys@,
{
    assert(cs1.advice_eq@ =~= cs2.advice_eq@);
    assert(cs1.instance_eq@ =~= cs2.instance_eq@);
    assert(cs1.fixed_eq@ =~= cs2.fixed_eq@);
    let e1 = cs1.gates@[0].polys@[0];
    let e2 = cs2.gates@[0].polys@[0];
    match e1 {
        Expression::Sum(l1, r1) => {
            match e2 {
                Expression::Sum(l2, r2) => {
                    match *l1 {
                        Expression::Product(x1, y1) => {
                            match *l2 {
                                Expression::Product(x2, y2) => {
                                    assert(*x1 == *x2 && *y1 == *y2);
                                    assert(*l1 == *l2);
                                },
                                _ => {
                                    assert(false);
                                },
                            }
                        },
                        _ => {
                            assert(false);
                        },
                    }
                    match *r1 {
                        Expression::Negate(q1) => {
                            match *r2 {
                                Expression::Negate(q2) => {
                                    assert(*q1 == *q2);
                                    assert(*r1 == *r2);
                                },
                                _ => {
                                    assert(false);
                                },
                            }
                        },
                        _ => {
                            assert(false);
                        },
                    }
                    assert(e1 == e2);
                },
                _ => {
                    assert(false);
                },
            }
        },
        _ => {
            assert(false);
        },
    }
    assert(cs1.gates@[0].polys@ =~= cs2.gates@[0].polys@);
}

} // verus!
