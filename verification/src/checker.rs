//! The constraint satisfaction engine.
//!
//! Given an immutable constraint system and a fully populated table, the
//! checker re-evaluates every gate at every row where its selector is active
//! and validates every declared equality constraint, collecting all
//! violations rather than stopping at the first.  An expression with any
//! `Unknown` operand evaluates to `Unknown` and never counts as a violation.
//!
//! A recorded violation carries the first of a gate's polynomials that is
//! known and nonzero at that row, together with its value.  A rotation is
//! resolved by wrapping around the row bound.

use vstd::prelude::*;
use vstd::arithmetic::div_mod::{
    lemma_add_mod_noop_right, lemma_fundamental_div_mod, lemma_fundamental_div_mod_converse_mod,
    lemma_mod_bound, lemma_small_mod,
};
use crate::cs::{ConstraintSystem, Gate};
use crate::expr::{expr_declared, Expression};
use crate::field::{fe_clone, fe_is_zero, fe_val};
use crate::grid::{Cell, ColumnKind};
use crate::layout::{cell_val, col_cells, copies_wf, sel_on, Table};
use crate::report::Violation;
use crate::value::{lift_add, lift_mul, lift_neg, val_add, val_clone, val_mul, val_neg, Val};

verus! {

/// The absolute row a rotation refers to, wrapping around the row bound.
pub open spec fn rho(row: int, off: int, n: int) -> int {
    (row + off) % n
}

/// Resolve a rotation against the row bound `n`.
pub fn resolve_row(row: usize, off: i32, n: usize) -> (r: usize)
    requires
        row < n,
    ensures
        r < n,
        r as int == rho(row as int, off as int, n as int),
{
    let shift: usize = if off >= 0 {
        (off as usize) % n
    } else {
        let neg = (-(off as i64)) as usize;
        let m = neg % n;
        if m == 0 {
            0
        } else {
            n - m
        }
    };
    proof {
        let ni = n as int;
        let oi = off as int;
        if off >= 0 {
            assert(shift as int == oi % ni);
        } else {
            let a = -oi;
            lemma_fundamental_div_mod(a, ni);
            lemma_mod_bound(a, ni);
            let m = a % ni;
            let q = a / ni;
            if m == 0 {
                assert(oi == (-q) * ni + 0) by (nonlinear_arith)
                    requires
                        a == ni * q + m,
                        m == 0,
                        oi == -a,
                ;
                lemma_fundamental_div_mod_converse_mod(oi, ni, -q, 0);
            } else {
                assert(oi == (-q - 1) * ni + (ni - m)) by (nonlinear_arith)
                    requires
                        a == ni * q + m,
                        oi == -a,
                ;
                lemma_fundamental_div_mod_converse_mod(oi, ni, -q - 1, ni - m);
            }
            assert(shift as int == oi % ni);
        }
        lemma_mod_bound(oi, ni);
    }
    let r = if shift == 0 {
        row
    } else if row >= n - shift {
        row - (n - shift)
    } else {
        row + shift
    };
    proof {
        let ni = n as int;
        let oi = off as int;
        let s = shift as int;
        if shift == 0 {
            lemma_small_mod(row as nat, n as nat);
        } else if row >= n - shift {
            lemma_fundamental_div_mod_converse_mod(row as int + s, ni, 1, row as int + s - ni);
        } else {
            lemma_small_mod((row + shift) as nat, n as nat);
        }
        lemma_add_mod_noop_right(row as int, oi, ni);
        assert((row as int + s) % ni == rho(row as int, oi, ni));
    }
    r
}

/// The value of an expression at a row of the table: the recursive fold of
/// the tree, strict in `Unknown`.
pub open spec fn eval_spec(e: Expression, t: Table, row: int) -> Option<int>
    decreases e,
{
    match e {
        Expression::Constant(f) => Some(fe_val(f)),
        Expression::Query(c, at) => cell_val(t, c, rho(row, at.offset as int, t.n as int)),
        Expression::Negate(a) => lift_neg(eval_spec(*a, t, row)),
        Expression::Sum(a, b) => lift_add(eval_spec(*a, t, row), eval_spec(*b, t, row)),
        Expression::Product(a, b) => lift_mul(eval_spec(*a, t, row), eval_spec(*b, t, row)),
        Expression::ScaledBy(a, f) => lift_mul(eval_spec(*a, t, row), Some(fe_val(f))),
    }
}

/// Evaluate an expression at a row of the table.
pub fn eval(e: &Expression, t: &Table, row: usize) -> (r: Val)
    requires
        t.wf(),
        row < t.n,
        expr_declared(
            *e,
            t.advice@.len() as int,
            t.instance@.len() as int,
            t.fixed@.len() as int,
        ),
    ensures
        r@ == eval_spec(*e, *t, row as int),
    decreases *e,
{
    match e {
        Expression::Constant(f) => Val::Known(fe_clone(f)),
        Expression::Query(c, at) => {
            let rr = resolve_row(row, at.offset, t.n);
            let cellv = match c.kind {
                ColumnKind::Advice => &t.advice[c.index][rr],
                ColumnKind::Instance => &t.instance[c.index][rr],
                ColumnKind::Fixed => &t.fixed[c.index][rr],
            };
            val_clone(cellv)
        },
        Expression::Negate(a) => {
            let va = eval(&**a, t, row);
            val_neg(&va)
        },
        Expression::Sum(a, b) => {
            let va = eval(&**a, t, row);
            let vb = eval(&**b, t, row);
            val_add(&va, &vb)
        },
        Expression::Product(a, b) => {
            let va = eval(&**a, t, row);
            let vb = eval(&**b, t, row);
            val_mul(&va, &vb)
        },
        Expression::ScaledBy(a, f) => {
            let va = eval(&**a, t, row);
            let vf = Val::Known(fe_clone(f));
            val_mul(&va, &vf)
        },
    }
}

/// The value of the first polynomial of gate `g`, at index `from` or
/// later, that is known and nonzero at this row.
pub open spec fn first_viol_poly(g: Gate, t: Table, row: int, from: int) -> Option<int>
    decreases g.polys@.len() - from,
{
    if from < 0 || from >= g.polys@.len() {
        None
    } else {
        match eval_spec(g.polys@[from], t, row) {
            Some(v) => if v != 0 {
                Some(v)
            } else {
                first_viol_poly(g, t, row, from + 1)
            },
            None => first_viol_poly(g, t, row, from + 1),
        }
    }
}

/// Whether gate `g` is violated at this row, and with what value: `None`
/// where its selector is off or every polynomial is zero or unknown.
pub open spec fn gate_row_viol(g: Gate, t: Table, row: int) -> Option<int> {
    if sel_on(t, g.selector, row) {
        first_viol_poly(g, t, row, 0)
    } else {
        None
    }
}

/// The (gate, row, value) triples of gate `g`'s violations over rows
/// `[0, rows)`, in row order.
pub open spec fn gate_viols_rows(g: Gate, gi: int, t: Table, rows: int) -> Seq<(int, int, int)>
    decreases rows,
{
    if rows <= 0 {
        Seq::empty()
    } else {
        gate_viols_rows(g, gi, t, rows - 1) + (match gate_row_viol(g, t, rows - 1) {
            Some(v) => seq![(gi, rows - 1, v)],
            None => Seq::empty(),
        })
    }
}

/// The violation triples of the first `gates` gates, in gate order.
pub open spec fn gates_viols(cs: ConstraintSystem, t: Table, gates: int) -> Seq<(int, int, int)>
    decreases gates,
{
    if gates <= 0 {
        Seq::empty()
    } else {
        gates_viols(cs, t, gates - 1) + gate_viols_rows(
            cs.gates@[gates - 1],
            gates - 1,
            t,
            t.n as int,
        )
    }
}

/// Every gate violation in the table, in (gate, row) order.
pub open spec fn all_gate_viols(cs: ConstraintSystem, t: Table) -> Seq<(int, int, int)> {
    gates_viols(cs, t, cs.gates@.len() as int)
}

/// A recorded violation carries exactly the data of a triple; the value is
/// related through `fe_val` because a field element cannot be conjured in a
/// specification.
pub open spec fn viol_matches(v: Violation, tr: (int, int, int)) -> bool {
    v matches Violation::Gate { gate, row, value } && gate == tr.0 && row == tr.1 && fe_val(value)
        == tr.2
}

pub open spec fn triples_match(vs: Seq<Violation>, ts: Seq<(int, int, int)>) -> bool {
    vs.len() == ts.len() && forall|j: int| 0 <= j < vs.len() ==> viol_matches(#[trigger] vs[j], ts[j])
}

/// If a gate is silent on every row of `[from, rows)`, those rows contribute
/// nothing.
pub proof fn lemma_gate_rows_silent(g: Gate, gi: int, t: Table, from: int, rows: int)
    requires
        0 <= from <= rows,
        forall|r: int| from <= r < rows ==> gate_row_viol(g, t, r) is None,
    ensures
        gate_viols_rows(g, gi, t, rows) == gate_viols_rows(g, gi, t, from),
    decreases rows - from,
{
    if rows > from {
        lemma_gate_rows_silent(g, gi, t, from, rows - 1);
        assert(gate_viols_rows(g, gi, t, rows) =~= gate_viols_rows(g, gi, t, rows - 1));
    }
}

/// Whether every query in the expression is anchored: a rotation of zero.
pub open spec fn expr_anchored(e: Expression) -> bool
    decreases e,
{
    match e {
        Expression::Constant(_) => true,
        Expression::Query(_, at) => at.offset == 0,
        Expression::Negate(a) => expr_anchored(*a),
        Expression::Sum(a, b) => expr_anchored(*a) && expr_anchored(*b),
        Expression::Product(a, b) => expr_anchored(*a) && expr_anchored(*b),
        Expression::ScaledBy(a, _) => expr_anchored(*a),
    }
}

/// Two tables with the same columns whose cells agree on every row below
/// `rows`.
pub open spec fn tables_agree_below(t1: Table, t2: Table, rows: int) -> bool {
    &&& t1.advice@.len() == t2.advice@.len()
    &&& t1.instance@.len() == t2.instance@.len()
    &&& t1.fixed@.len() == t2.fixed@.len()
    &&& forall|c: int, r: int|
        0 <= c < t1.advice@.len() && 0 <= r < rows ==> (#[trigger] t1.advice@[c]@[r])@
            == t2.advice@[c]@[r]@
    &&& forall|c: int, r: int|
        0 <= c < t1.instance@.len() && 0 <= r < rows ==> (#[trigger] t1.instance@[c]@[r])@
            == t2.instance@[c]@[r]@
    &&& forall|c: int, r: int|
        0 <= c < t1.fixed@.len() && 0 <= r < rows ==> (#[trigger] t1.fixed@[c]@[r])@
            == t2.fixed@[c]@[r]@
}

/// An anchored expression evaluates alike in two tables that agree below
/// the smaller row bound.
pub proof fn lemma_eval_agrees(e: Expression, t1: Table, t2: Table, row: int)
    requires
        expr_anchored(e),
        expr_declared(e, t1.advice@.len() as int, t1.instance@.len() as int, t1.fixed@.len() as int),
        tables_agree_below(t1, t2, t1.n as int),
        t1.n <= t2.n,
        t1.n >= 1,
        0 <= row < t1.n,
    ensures
        eval_spec(e, t1, row) == eval_spec(e, t2, row),
    decreases e,
{
    match e {
        Expression::Constant(_) => {},
        Expression::Query(c, at) => {
            lemma_small_mod(row as nat, t1.n as nat);
            lemma_small_mod(row as nat, t2.n as nat);
            assert(rho(row, 0, t1.n as int) == row);
            assert(rho(row, 0, t2.n as int) == row);
        },
        Expression::Negate(a) => {
            lemma_eval_agrees(*a, t1, t2, row);
        },
        Expression::Sum(a, b) => {
            lemma_eval_agrees(*a, t1, t2, row);
            lemma_eval_agrees(*b, t1, t2, row);
        },
        Expression::Product(a, b) => {
            lemma_eval_agrees(*a, t1, t2, row);
            lemma_eval_agrees(*b, t1, t2, row);
        },
        Expression::ScaledBy(a, _) => {
            lemma_eval_agrees(*a, t1, t2, row);
        },
    }
}

/// The violation triples over `[0, rows)` coincide wherever the per-row
/// verdicts do.
pub proof fn lemma_gate_viols_rows_agree(g: Gate, gi: int, t1: Table, t2: Table, rows: int)
    requires
        0 <= rows,
        forall|r: int| 0 <= r < rows ==> gate_row_viol(g, t1, r) == gate_row_viol(g, t2, r),
    ensures
        gate_viols_rows(g, gi, t1, rows) == gate_viols_rows(g, gi, t2, rows),
    decreases rows,
{
    if rows > 0 {
        lemma_gate_viols_rows_agree(g, gi, t1, t2, rows - 1);
    }
}

/// Enlarging a table with rows on which the selector stays off does not
/// change a gate's violations, as long as its queries are anchored: the
/// verdict is monotone with respect to the table size.
pub proof fn lemma_padding_preserves_gate_viols(g: Gate, gi: int, t1: Table, t2: Table)
    requires
        t1.n >= 1,
        t1.n <= t2.n,
        tables_agree_below(t1, t2, t1.n as int),
        g.selector.index < t1.selectors@.len(),
        g.selector.index < t2.selectors@.len(),
        forall|r: int|
            0 <= r < t1.n ==> sel_on(t1, g.selector, r) == sel_on(t2, g.selector, r),
        forall|r: int| t1.n <= r < t2.n ==> !sel_on(t2, g.selector, r),
        forall|j: int| 0 <= j < g.polys@.len() ==> expr_anchored(#[trigger] g.polys@[j]),
        forall|j: int|
            0 <= j < g.polys@.len() ==> expr_declared(
                #[trigger] g.polys@[j],
                t1.advice@.len() as int,
                t1.instance@.len() as int,
                t1.fixed@.len() as int,
            ),
    ensures
        gate_viols_rows(g, gi, t2, t2.n as int) == gate_viols_rows(g, gi, t1, t1.n as int),
{
    assert forall|r: int| t1.n <= r < t2.n implies gate_row_viol(g, t2, r) is None by {
        assert(!sel_on(t2, g.selector, r));
    }
    lemma_gate_rows_silent(g, gi, t2, t1.n as int, t2.n as int);
    assert forall|r: int| 0 <= r < t1.n implies gate_row_viol(g, t1, r) == gate_row_viol(
        g,
        t2,
        r,
    ) by {
        lemma_first_viol_agrees(g, t1, t2, r, 0);
    }
    lemma_gate_viols_rows_agree(g, gi, t1, t2, t1.n as int);
}

/// The first violated polynomial coincides in two tables that agree below
/// the smaller bound.
proof fn lemma_first_viol_agrees(g: Gate, t1: Table, t2: Table, row: int, from: int)
    requires
        0 <= from,
        tables_agree_below(t1, t2, t1.n as int),
        t1.n >= 1,
        t1.n <= t2.n,
        0 <= row < t1.n,
        forall|j: int| 0 <= j < g.polys@.len() ==> expr_anchored(#[trigger] g.polys@[j]),
        forall|j: int|
            0 <= j < g.polys@.len() ==> expr_declared(
                #[trigger] g.polys@[j],
                t1.advice@.len() as int,
                t1.instance@.len() as int,
                t1.fixed@.len() as int,
            ),
    ensures
        first_viol_poly(g, t1, row, from) == first_viol_poly(g, t2, row, from),
    decreases g.polys@.len() - from,
{
    if from < g.polys@.len() {
        lemma_eval_agrees(g.polys@[from], t1, t2, row);
        lemma_first_viol_agrees(g, t1, t2, row, from + 1);
    }
}

/// Evaluate one gate at one row: the first known nonzero polynomial value,
/// or `None` if the selector is off or none is violated.
fn eval_first_viol(g: &Gate, t: &Table, row: usize) -> (r: Option<pasta_curves::Fp>)
    requires
        t.wf(),
        row < t.n,
        g.selector.index < t.selectors@.len(),
        forall|j: int|
            0 <= j < g.polys@.len() ==> expr_declared(
                #[trigger] g.polys@[j],
                t.advice@.len() as int,
                t.instance@.len() as int,
                t.fixed@.len() as int,
            ),
    ensures
        r is Some <==> gate_row_viol(*g, *t, row as int) is Some,
        r matches Some(f) ==> gate_row_viol(*g, *t, row as int) == Some(fe_val(f)),
{
    if !t.selectors[g.selector.index][row] {
        return None;
    }
    let mut i: usize = 0;
    while i < g.polys.len()
        invariant
            t.wf(),
            row < t.n,
            sel_on(*t, g.selector, row as int),
            i <= g.polys@.len(),
            forall|j: int|
                0 <= j < g.polys@.len() ==> expr_declared(
                    #[trigger] g.polys@[j],
                    t.advice@.len() as int,
                    t.instance@.len() as int,
                    t.fixed@.len() as int,
                ),
            first_viol_poly(*g, *t, row as int, 0) == first_viol_poly(*g, *t, row as int, i as int),
        decreases g.polys@.len() - i,
    {
        let v = eval(&g.polys[i], t, row);
        match v {
            Val::Known(f) => {
                if !fe_is_zero(&f) {
                    return Some(f);
                }
            },
            Val::Unknown => {},
        }
        i = i + 1;
    }
    None
}

/// Evaluate every gate at every row and record every violation, in
/// (gate, row) order.
pub fn gates_pass(cs: &ConstraintSystem, t: &Table) -> (vs: Vec<Violation>)
    requires
        cs.wf(),
        t.wf(),
        t.matches_cs(*cs),
    ensures
        triples_match(vs@, all_gate_viols(*cs, *t)),
{
    let mut vs: Vec<Violation> = Vec::new();
    let mut g: usize = 0;
    while g < cs.gates.len()
        invariant
            cs.wf(),
            t.wf(),
            t.matches_cs(*cs),
            g <= cs.gates@.len(),
            triples_match(vs@, gates_viols(*cs, *t, g as int)),
        decreases cs.gates@.len() - g,
    {
        let gate = &cs.gates[g];
        let mut row: usize = 0;
        while row < t.n
            invariant
                cs.wf(),
                t.wf(),
                t.matches_cs(*cs),
                g < cs.gates@.len(),
                *gate == cs.gates@[g as int],
                row <= t.n,
                triples_match(
                    vs@,
                    gates_viols(*cs, *t, g as int) + gate_viols_rows(
                        cs.gates@[g as int],
                        g as int,
                        *t,
                        row as int,
                    ),
                ),
            decreases t.n - row,
        {
            match eval_first_viol(gate, t, row) {
                Some(value) => {
                    vs.push(Violation::Gate { gate: g, row, value });
                },
                None => {},
            }
            row = row + 1;
        }
        g = g + 1;
    }
    vs
}

/// Whether a declared equality pair is violated, and how it is tagged: a
/// pair that touches an instance column is the binding of a public input, so
/// its failure is a public-input mismatch; any other failing pair is a copy
/// failure.  A pair with an unknown side never counts.
pub open spec fn copy_viol(t: Table, pr: (Cell, Cell)) -> Option<Violation> {
    let va = cell_val(t, pr.0.column, pr.0.row as int);
    let vb = cell_val(t, pr.1.column, pr.1.row as int);
    if va is Some && vb is Some && va != vb {
        if pr.1.column.kind is Instance {
            Some(Violation::PublicInput { column: pr.1.column.index, row: pr.1.row })
        } else if pr.0.column.kind is Instance {
            Some(Violation::PublicInput { column: pr.0.column.index, row: pr.0.row })
        } else {
            Some(Violation::Copy { left: pr.0, right: pr.1 })
        }
    } else {
        None
    }
}

/// The violations of the first `k` declared equality pairs, in order.
pub open spec fn copy_viols_upto(t: Table, ps: Seq<(Cell, Cell)>, k: int) -> Seq<Violation>
    decreases k,
{
    if k <= 0 {
        Seq::empty()
    } else {
        copy_viols_upto(t, ps, k - 1) + (match copy_viol(t, ps[k - 1]) {
            Some(v) => seq![v],
            None => Seq::empty(),
        })
    }
}

/// Every violated equality pair, in declaration order.
pub open spec fn all_copy_viols(t: Table, ps: Seq<(Cell, Cell)>) -> Seq<Violation> {
    copy_viols_upto(t, ps, ps.len() as int)
}

/// Read one cell of the table.
fn read_cell<'x>(t: &'x Table, c: Cell) -> (v: &'x Val)
    requires
        t.wf(),
        crate::expr::column_declared(
            c.column,
            t.advice@.len() as int,
            t.instance@.len() as int,
            t.fixed@.len() as int,
        ),
        c.row < t.n,
    ensures
        *v == col_cells(*t, c.column)[c.row as int],
{
    match c.column.kind {
        ColumnKind::Advice => &t.advice[c.column.index][c.row],
        ColumnKind::Instance => &t.instance[c.column.index][c.row],
        ColumnKind::Fixed => &t.fixed[c.column.index][c.row],
    }
}

/// Validate every declared equality pair against the table and record every
/// mismatch, in declaration order.
pub fn copies_pass(t: &Table, copies: &Vec<(Cell, Cell)>) -> (vs: Vec<Violation>)
    requires
        t.wf(),
        copies_wf(copies@, *t),
    ensures
        vs@ == all_copy_viols(*t, copies@),
{
    let mut vs: Vec<Violation> = Vec::new();
    let mut i: usize = 0;
    while i < copies.len()
        invariant
            t.wf(),
            copies_wf(copies@, *t),
            i <= copies@.len(),
            vs@ == copy_viols_upto(*t, copies@, i as int),
        decreases copies@.len() - i,
    {
        let (left, right) = (copies[i].0, copies[i].1);
        let lv = read_cell(t, left);
        let rv = read_cell(t, right);
        match (lv, rv) {
            (Val::Known(x), Val::Known(y)) => {
                if !crate::field::fe_eq(x, y) {
                    let v = tag_mismatch(left, right);
                    vs.push(v);
                }
            },
            _ => {},
        }
        proof {
            assert(vs@ =~= copy_viols_upto(*t, copies@, i as int + 1));
        }
        i = i + 1;
    }
    vs
}

/// Tag a failed equality pair as `copy_viol` does.
fn tag_mismatch(left: Cell, right: Cell) -> (v: Violation)
    ensures
        v == (if right.column.kind is Instance {
            (Violation::PublicInput { column: right.column.index, row: right.row })
        } else if left.column.kind is Instance {
            (Violation::PublicInput { column: left.column.index, row: left.row })
        } else {
            (Violation::Copy { left, right })
        }),
{
    match right.column.kind {
        ColumnKind::Instance => Violation::PublicInput { column: right.column.index, row: right.row },
        _ => match left.column.kind {
            ColumnKind::Instance => Violation::PublicInput {
                column: left.column.index,
                row: left.row,
            },
            _ => Violation::Copy { left, right },
        },
    }
}

} // verus!
