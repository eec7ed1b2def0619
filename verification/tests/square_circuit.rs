use circuit_core::checker::{copies_pass, eval, gates_pass};
use circuit_core::cs::ConstraintSystem;
use circuit_core::expr::Expression;
use circuit_core::grid::{Cell, Column, ColumnKind, Rotation, Selector};
use circuit_core::layout::{Layouter, Table};
use circuit_core::report::{ConfigurationError, Report, SynthesisError, Violation};
use circuit_core::square::{check, SquareCircuit};
use circuit_core::value::Val;
use pasta_curves::Fp;

fn square_circuit(a: Fp) -> SquareCircuit {
    SquareCircuit { a: Val::Known(a) }
}

#[test]
fn test_square_circuit() {
    let k = 4;
    let a = Fp::from(5);
    let b = a * a; // 25

    let circuit = square_circuit(a);

    let public_input = vec![b];
    assert!(check(&circuit, k, &vec![public_input]).is_ok());
}

#[test]
fn test_different_values() {
    let k = 4;
    let a = Fp::from(3);
    let b = a * a; // 9

    let circuit = square_circuit(a);

    let public_input = vec![b];
    assert!(check(&circuit, k, &vec![public_input]).is_ok());
}

#[test]
fn test_zero_witness() {
    // identity-element edge case: a = 0, instance = [0]
    let circuit = square_circuit(Fp::from(0));
    assert!(check(&circuit, 4, &vec![vec![Fp::from(0)]]).is_ok());
}

#[test]
fn test_wrong_instance_report() {
    // a = 5, instance = [24]: one gate violation at "square", row 0, with
    // computed value 25 - 24 = 1, plus the mismatched public-input binding.
    let circuit = square_circuit(Fp::from(5));
    let r = check(&circuit, 4, &vec![vec![Fp::from(24)]]);
    match r {
        Err(Report::Unsatisfied(vs)) => {
            assert_eq!(vs.len(), 2);
            match &vs[0] {
                Violation::Gate { gate, row, value } => {
                    assert_eq!(*gate, 0);
                    assert_eq!(*row, 0);
                    assert_eq!(*value, Fp::from(1));
                }
                other => panic!("expected a gate violation, got {:?}", other),
            }
            match &vs[1] {
                Violation::PublicInput { column, row } => {
                    assert_eq!(*column, 0);
                    assert_eq!(*row, 0);
                }
                other => panic!("expected a public-input violation, got {:?}", other),
            }
        }
        other => panic!("expected an unsatisfied report, got {:?}", other),
    }
}

#[test]
fn test_violated_gate_is_named_square() {
    let mut meta = ConstraintSystem::new();
    let _config = SquareCircuit::configure(&mut meta);
    let circuit = square_circuit(Fp::from(5));
    match check(&circuit, 4, &vec![vec![Fp::from(24)]]) {
        Err(Report::Unsatisfied(vs)) => match &vs[0] {
            Violation::Gate { gate, .. } => assert_eq!(meta.gates[*gate].name, "square"),
            other => panic!("expected a gate violation, got {:?}", other),
        },
        other => panic!("expected an unsatisfied report, got {:?}", other),
    }
}

#[test]
fn test_without_witnesses_accepts_vacuously() {
    // the blank variant has no known value, so nothing can be violated
    let circuit = square_circuit(Fp::from(7)).without_witnesses();
    assert!(check(&circuit, 2, &vec![vec![Fp::from(42)]]).is_ok());
}

#[test]
fn test_empty_instance_vector_accepts() {
    // with no public input supplied, nothing is bound at row zero
    let circuit = square_circuit(Fp::from(5));
    assert!(check(&circuit, 3, &vec![vec![]]).is_ok());
}

#[test]
fn test_outcome_independent_of_k() {
    // growing the table beyond the one row the region needs changes nothing
    let good = square_circuit(Fp::from(5));
    for k in [0, 1, 4, 6] {
        assert!(check(&good, k, &vec![vec![Fp::from(25)]]).is_ok());
    }
    let bad = square_circuit(Fp::from(5));
    for k in [0, 1, 4, 6] {
        assert!(check(&bad, k, &vec![vec![Fp::from(24)]]).is_err());
    }
}

#[test]
fn test_structure_is_witness_free() {
    // configure twice, as the structural and witness passes do: the two
    // constraint systems are structurally identical
    let mut m1 = ConstraintSystem::new();
    let c1 = SquareCircuit::configure(&mut m1);
    let mut m2 = ConstraintSystem::new();
    let c2 = SquareCircuit::configure(&mut m2);

    assert_eq!(m1.advice_eq, m2.advice_eq);
    assert_eq!(m1.instance_eq, m2.instance_eq);
    assert_eq!(m1.fixed_eq, m2.fixed_eq);
    assert_eq!(m1.num_selectors, m2.num_selectors);
    assert_eq!(m1.gates.len(), m2.gates.len());
    assert_eq!(m1.gates[0].name, m2.gates[0].name);
    assert_eq!(m1.gates[0].selector, m2.gates[0].selector);
    assert_eq!(m1.gates[0].polys.len(), m2.gates[0].polys.len());
    assert_eq!(c1.advice, c2.advice);
    assert_eq!(c1.instance, c2.instance);
    assert_eq!(c1.s_mul, c2.s_mul);

    // and its one polynomial has the expected shape in both
    for m in [&m1, &m2] {
        match &m.gates[0].polys[0] {
            Expression::Sum(l, r) => {
                match &**l {
                    Expression::Product(x, y) => {
                        for q in [&**x, &**y] {
                            match q {
                                Expression::Query(c, at) => {
                                    assert_eq!(c.kind, ColumnKind::Advice);
                                    assert_eq!(c.index, 0);
                                    assert_eq!(at.offset, 0);
                                }
                                other => panic!("expected a query, got {:?}", other),
                            }
                        }
                    }
                    other => panic!("expected a product, got {:?}", other),
                }
                match &**r {
                    Expression::Negate(q) => match &**q {
                        Expression::Query(c, at) => {
                            assert_eq!(c.kind, ColumnKind::Instance);
                            assert_eq!(c.index, 0);
                            assert_eq!(at.offset, 0);
                        }
                        other => panic!("expected a query, got {:?}", other),
                    },
                    other => panic!("expected a negation, got {:?}", other),
                }
            }
            other => panic!("expected a sum, got {:?}", other),
        }
    }
}

#[test]
fn test_create_gate_rejects_undeclared_column() {
    let mut meta = ConstraintSystem::new();
    let a0 = meta.advice_column();
    let s = meta.selector();
    let bogus = Column {
        kind: ColumnKind::Advice,
        index: 7,
    };
    let polys = vec![Expression::query(a0, Rotation::cur())
        .plus(Expression::query(bogus, Rotation::cur()))];
    assert_eq!(
        meta.create_gate("bad", s, polys),
        Err(ConfigurationError::UndeclaredColumn)
    );
    assert_eq!(meta.gates.len(), 0);
}

#[test]
fn test_create_gate_rejects_undeclared_selector() {
    let mut meta = ConstraintSystem::new();
    let a0 = meta.advice_column();
    let polys = vec![Expression::query(a0, Rotation::cur())];
    assert_eq!(
        meta.create_gate("bad", Selector { index: 3 }, polys),
        Err(ConfigurationError::UndeclaredSelector)
    );
}

#[test]
fn test_assign_past_row_bound() {
    let mut meta = ConstraintSystem::new();
    let a0 = meta.advice_column();
    let instances: Vec<Vec<Fp>> = vec![];
    let mut layouter = Layouter::new(&meta, 1, &instances);
    layouter.enter_region("tiny");
    let v = Val::Known(Fp::from(1));
    assert!(layouter.assign_advice(a0, 0, &v).is_ok());
    assert_eq!(
        layouter.assign_advice(a0, 1, &v),
        Err(SynthesisError::OutOfRows)
    );
}

#[test]
fn test_conflicting_reassignment() {
    let mut meta = ConstraintSystem::new();
    let a0 = meta.advice_column();
    let instances: Vec<Vec<Fp>> = vec![];
    let mut layouter = Layouter::new(&meta, 4, &instances);
    layouter.enter_region("r");
    assert!(layouter
        .assign_advice(a0, 0, &Val::Known(Fp::from(1)))
        .is_ok());
    // the same value again is idempotent
    assert!(layouter
        .assign_advice(a0, 0, &Val::Known(Fp::from(1)))
        .is_ok());
    // a different value is a synthesis error
    let expected = Cell {
        column: a0,
        row: 0,
    };
    assert_eq!(
        layouter.assign_advice(a0, 0, &Val::Known(Fp::from(2))),
        Err(SynthesisError::Inconsistent(expected))
    );
}

#[test]
fn test_equality_requires_enabling() {
    let mut meta = ConstraintSystem::new();
    let a0 = meta.advice_column();
    let a1 = meta.advice_column();
    meta.enable_equality(a1);
    let instances: Vec<Vec<Fp>> = vec![];
    let mut layouter = Layouter::new(&meta, 2, &instances);
    let left = Cell { column: a0, row: 0 };
    let right = Cell { column: a1, row: 0 };
    assert_eq!(
        layouter.constrain_equal(left, right),
        Err(SynthesisError::EqualityNotEnabled(a0))
    );
}

#[test]
fn test_copy_violation_between_advice_cells() {
    let mut meta = ConstraintSystem::new();
    let a0 = meta.advice_column();
    let a1 = meta.advice_column();
    meta.enable_equality(a0);
    meta.enable_equality(a1);
    let instances: Vec<Vec<Fp>> = vec![];
    let mut layouter = Layouter::new(&meta, 2, &instances);
    layouter.enter_region("pair");
    let c0 = layouter
        .assign_advice(a0, 0, &Val::Known(Fp::from(1)))
        .unwrap();
    let c1 = layouter
        .assign_advice(a1, 0, &Val::Known(Fp::from(2)))
        .unwrap();
    layouter.constrain_equal(c0, c1).unwrap();
    layouter.exit_region();
    let vs = copies_pass(&layouter.table, &layouter.copies);
    assert_eq!(vs.len(), 1);
    match &vs[0] {
        Violation::Copy { left, right } => {
            assert_eq!(*left, c0);
            assert_eq!(*right, c1);
        }
        other => panic!("expected a copy violation, got {:?}", other),
    }
    // equal values satisfy the constraint
    let mut l2 = Layouter::new(&meta, 2, &instances);
    l2.enter_region("pair");
    let d0 = l2.assign_advice(a0, 0, &Val::Known(Fp::from(3))).unwrap();
    let d1 = l2.assign_advice(a1, 0, &Val::Known(Fp::from(3))).unwrap();
    l2.constrain_equal(d0, d1).unwrap();
    l2.exit_region();
    assert_eq!(copies_pass(&l2.table, &l2.copies).len(), 0);
}

#[test]
fn test_expression_evaluation() {
    // (q·q + (−q))·2 at q = 3 is (9 − 3)·2 = 12
    let t = Table {
        n: 1,
        advice: vec![vec![Val::Known(Fp::from(3))]],
        instance: vec![],
        fixed: vec![],
        selectors: vec![],
    };
    let col = Column {
        kind: ColumnKind::Advice,
        index: 0,
    };
    let q = || Expression::query(col, Rotation::cur());
    let e = q().times(q()).plus(q().negated()).scaled_by(Fp::from(2));
    match eval(&e, &t, 0) {
        Val::Known(v) => assert_eq!(v, Fp::from(12)),
        Val::Unknown => panic!("expected a known value"),
    }
    // an unknown operand propagates
    let t2 = Table {
        n: 1,
        advice: vec![vec![Val::Unknown]],
        instance: vec![],
        fixed: vec![],
        selectors: vec![],
    };
    let e2 = q().plus(Expression::constant(Fp::from(1)));
    assert!(matches!(eval(&e2, &t2, 0), Val::Unknown));
}

#[test]
fn test_rotation_wraps_around_row_bound() {
    let t = Table {
        n: 2,
        advice: vec![vec![Val::Known(Fp::from(10)), Val::Known(Fp::from(20))]],
        instance: vec![],
        fixed: vec![],
        selectors: vec![],
    };
    let col = Column {
        kind: ColumnKind::Advice,
        index: 0,
    };
    let next = Expression::query(col, Rotation::next());
    match eval(&next, &t, 1) {
        Val::Known(v) => assert_eq!(v, Fp::from(10)),
        Val::Unknown => panic!("expected a known value"),
    }
    let prev = Expression::query(col, Rotation::prev());
    match eval(&prev, &t, 0) {
        Val::Known(v) => assert_eq!(v, Fp::from(20)),
        Val::Unknown => panic!("expected a known value"),
    }
}

#[test]
fn test_gates_pass_skips_inactive_rows() {
    // a gate that can never hold is still vacuous where its selector is off
    let mut meta = ConstraintSystem::new();
    let a0 = meta.advice_column();
    let s = meta.selector();
    let one = Expression::constant(Fp::from(1));
    meta.create_gate("never", s, vec![one]).unwrap();
    let _ = a0;
    let instances: Vec<Vec<Fp>> = vec![];
    let mut layouter = Layouter::new(&meta, 4, &instances);
    layouter.enter_region("r");
    layouter.enable_selector(s, 2).unwrap();
    layouter.exit_region();
    let vs = gates_pass(&meta, &layouter.table);
    assert_eq!(vs.len(), 1);
    match &vs[0] {
        Violation::Gate { gate, row, value } => {
            assert_eq!(*gate, 0);
            assert_eq!(*row, 2);
            assert_eq!(*value, Fp::from(1));
        }
        other => panic!("expected a gate violation, got {:?}", other),
    }
}
