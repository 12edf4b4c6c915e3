use ark_ff::{BigInteger, Field, PrimeField};
use circuit_writer::ast::{CellVar, Compiler, GateKind, Value, Var, CellVars};
use circuit_writer::constants::{ROWS, ROUNDS_PER_ROW, SPONGE_WIDTH, TOTAL_ROUNDS, Span};
use circuit_writer::error::{ErrorKind, Fault};
use circuit_writer::field::FieldElem;
use circuit_writer::stdlib::crypto::{poseidon, SpongeParams};
use circuit_writer::witness::WitnessEnv;

fn sp(start: usize, len: usize) -> Span {
    Span { start, len }
}

/// A small but non-degenerate parameter set: every constant distinct,
/// a mixing matrix with no zero entry.
fn test_params() -> SpongeParams {
    let mut round_constants = Vec::new();
    for r in 0..TOTAL_ROUNDS {
        let mut row = Vec::new();
        for c in 0..SPONGE_WIDTH {
            row.push(FieldElem::from_u64((r * SPONGE_WIDTH + c + 1) as u64));
        }
        round_constants.push(row);
    }
    let mds_vals: [[u64; 3]; 3] = [[1, 2, 3], [4, 5, 6], [7, 8, 10]];
    let mds = mds_vals
        .iter()
        .map(|row| row.iter().map(|&n| FieldElem::from_u64(n)).collect())
        .collect();
    SpongeParams { round_constants, mds }
}

/// A compiler holding two external input cells, and the operand list
/// the permutation builder expects.
fn two_input_compiler() -> (Compiler, Vec<Var>) {
    let mut c = Compiler::new();
    let a = c.new_internal_var(Value::External(0));
    let b = c.new_internal_var(Value::External(1));
    let vars = vec![Var::CircuitVar(CellVars { vars: vec![a, b], span: sp(0, 0) })];
    (c, vars)
}

#[test]
fn poseidon_row_and_cell_counts_are_fixed() {
    let params = test_params();
    let (mut c, vars) = two_input_compiler();
    let out = poseidon(&mut c, &params, &vars, sp(1, 1)).unwrap().unwrap();
    // exactly ROWS permutation rows plus one finalization row
    assert_eq!(c.gates.len(), ROWS + 1);
    for r in 0..ROWS {
        assert_eq!(c.gates[r].typ, GateKind::Poseidon);
        assert_eq!(c.gates[r].vars.len(), 15);
        assert_eq!(c.gates[r].coeffs.len(), 15);
    }
    assert_eq!(c.gates[ROWS].typ, GateKind::DoubleGeneric);
    assert_eq!(c.gates[ROWS].coeffs.len(), 0);
    // cell count: 2 inputs, 1 zero constant, 3 per round
    assert_eq!(c.cells.len(), 2 + 1 + SPONGE_WIDTH * TOTAL_ROUNDS);
    match out {
        Var::CircuitVar(cv) => {
            assert_eq!(cv.vars.len(), 3);
            assert_eq!(cv.vars[0].index, 3 + (TOTAL_ROUNDS - 1) * 3);
            assert_eq!(cv.vars[1].index, 3 + (TOTAL_ROUNDS - 1) * 3 + 1);
            assert_eq!(cv.vars[2].index, 3 + (TOTAL_ROUNDS - 1) * 3 + 2);
        },
        Var::Constant(_) => panic!("the permutation returns a circuit value"),
    }
}

#[test]
fn poseidon_first_row_wiring_is_interleaved() {
    let params = test_params();
    let (mut c, vars) = two_input_compiler();
    poseidon(&mut c, &params, &vars, sp(0, 0)).unwrap();
    // base of the hint cells is 3: inputs at 0 and 1, zero constant at 2
    let idx = |s: usize, col: usize| -> Option<CellVar> {
        if s == 0 {
            Some(CellVar { index: [0, 1, 2][col] })
        } else {
            Some(CellVar { index: 3 + (s - 1) * 3 + col })
        }
    };
    let g = &c.gates[0];
    let expected = vec![
        idx(0, 0), idx(0, 1), idx(0, 2),
        idx(4, 0), idx(4, 1), idx(4, 2),
        idx(1, 0), idx(1, 1), idx(1, 2),
        idx(2, 0), idx(2, 1), idx(2, 2),
        idx(3, 0), idx(3, 1), idx(3, 2),
    ];
    assert_eq!(g.vars, expected);
    // coefficients: the five rounds' constants, flattened row-major
    for i in 0..15 {
        assert_eq!(g.coeffs[i].bytes, params.round_constants[i / 3][i % 3].bytes);
    }
    // second row starts from the constants of round 5
    let g1 = &c.gates[1];
    for i in 0..15 {
        assert_eq!(g1.coeffs[i].bytes, params.round_constants[5 + i / 3][i % 3].bytes);
    }
}

#[test]
fn poseidon_is_deterministic_byte_for_byte() {
    let params = test_params();
    let (mut c1, vars1) = two_input_compiler();
    let (mut c2, vars2) = two_input_compiler();
    poseidon(&mut c1, &params, &vars1, sp(5, 5)).unwrap();
    poseidon(&mut c2, &params, &vars2, sp(5, 5)).unwrap();
    assert_eq!(c1.gates.len(), c2.gates.len());
    assert_eq!(c1.cells.len(), c2.cells.len());
    for (g1, g2) in c1.gates.iter().zip(c2.gates.iter()) {
        assert_eq!(g1.typ, g2.typ);
        assert_eq!(g1.vars, g2.vars);
        assert_eq!(g1.span, g2.span);
        assert_eq!(g1.coeffs.len(), g2.coeffs.len());
        for (a, b) in g1.coeffs.iter().zip(g2.coeffs.iter()) {
            assert_eq!(a.bytes, b.bytes);
        }
    }
}

#[test]
fn witness_resolution_is_memoized() {
    let params = test_params();
    let (mut c, vars) = two_input_compiler();
    let out = poseidon(&mut c, &params, &vars, sp(0, 0)).unwrap().unwrap();
    let out0 = match &out {
        Var::CircuitVar(cv) => cv.vars[0],
        Var::Constant(_) => unreachable!(),
    };
    let inputs = vec![FieldElem::from_u64(3), FieldElem::from_u64(5)];
    let mut env = WitnessEnv::new(inputs, c.cells.len());
    let first = c.compute_var(&mut env, out0).unwrap();
    let evals_after_first = env.hint_evals;
    assert!(evals_after_first > 0);
    // the same cell again: the cached value, no new hint evaluation
    let second = c.compute_var(&mut env, out0).unwrap();
    assert_eq!(second.bytes, first.bytes);
    assert_eq!(env.hint_evals, evals_after_first);
    // a sibling cell of the last round: its prefix is fully cached,
    // so exactly one more hint runs
    let sibling = CellVar { index: out0.index + 1 };
    c.compute_var(&mut env, sibling).unwrap();
    assert_eq!(env.hint_evals, evals_after_first + 1);
}

/// The reference permutation, computed independently with the outside
/// field library: S-box x^7, the mixing matrix, this round's constants.
fn reference_digest(x: u64, y: u64, params: &SpongeParams) -> Vec<Vec<u8>> {
    let fe = |e: &FieldElem| ark_pallas::Fq::from_le_bytes_mod_order(&e.bytes);
    let mut st = [
        ark_pallas::Fq::from(x),
        ark_pallas::Fq::from(y),
        ark_pallas::Fq::from(0u64),
    ];
    for r in 0..TOTAL_ROUNDS {
        let sb: Vec<ark_pallas::Fq> = st.iter().map(|v| v.pow([7u64])).collect();
        let mut new_st = [st[0]; 3];
        for c in 0..3 {
            new_st[c] = fe(&params.mds[c][0]) * sb[0]
                + fe(&params.mds[c][1]) * sb[1]
                + fe(&params.mds[c][2]) * sb[2]
                + fe(&params.round_constants[r][c]);
        }
        st = new_st;
    }
    st.iter().map(|v| v.into_bigint().to_bytes_le()).collect()
}

#[test]
fn witness_matches_reference_permutation() {
    let params = test_params();
    let (mut c, vars) = two_input_compiler();
    let out = poseidon(&mut c, &params, &vars, sp(0, 0)).unwrap().unwrap();
    let out_cells = match &out {
        Var::CircuitVar(cv) => cv.vars.clone(),
        Var::Constant(_) => unreachable!(),
    };
    let inputs = vec![FieldElem::from_u64(3), FieldElem::from_u64(5)];
    let mut env = WitnessEnv::new(inputs, c.cells.len());
    let expected = reference_digest(3, 5, &params);
    for col in 0..3 {
        let got = c.compute_var(&mut env, out_cells[col]).unwrap();
        assert_eq!(got.bytes, expected[col], "digest component {} differs", col);
    }
}

#[test]
fn poseidon_rejects_bad_operands() {
    let params = test_params();
    let mut c = Compiler::new();
    let res = poseidon(&mut c, &params, &vec![], sp(0, 0));
    assert_eq!(res.unwrap_err().kind, ErrorKind::InternalFault(Fault::WrongArity));

    let konst = Var::Constant(circuit_writer::ast::Constant {
        value: FieldElem::from_u64(1),
        span: sp(0, 0),
    });
    let res = poseidon(&mut c, &params, &vec![konst], sp(0, 0));
    assert_eq!(res.unwrap_err().kind, ErrorKind::InternalFault(Fault::NotCircuitVar));

    let a = c.new_internal_var(Value::External(0));
    let wide = Var::CircuitVar(CellVars { vars: vec![a, a, a], span: sp(0, 0) });
    let res = poseidon(&mut c, &params, &vec![wide], sp(0, 0));
    assert_eq!(res.unwrap_err().kind, ErrorKind::InternalFault(Fault::WrongArity));
    assert_eq!(c.gates.len(), 0);
}

#[test]
fn field_ops_have_exact_values() {
    let three = FieldElem::from_u64(3);
    let five = FieldElem::from_u64(5);
    assert_eq!(three.add(&five).bytes, FieldElem::from_u64(8).bytes);
    assert_eq!(three.mul(&five).bytes, FieldElem::from_u64(15).bytes);
    // x + (-x) == 0
    let neg_three = three.neg();
    assert_ne!(neg_three.bytes, three.bytes);
    assert_eq!(three.add(&neg_three).bytes, FieldElem::zero().bytes);
    assert!(FieldElem::from_u64(9).equals(&FieldElem::from_u64(9)));
    assert!(!FieldElem::from_u64(9).equals(&FieldElem::from_u64(10)));
    assert_eq!(ROUNDS_PER_ROW, 5);
    assert_eq!(ROWS * ROUNDS_PER_ROW, TOTAL_ROUNDS);
}
