use circuit_writer::ast::{CellVar, Compiler, Constant, GateKind, Value, Var, CellVars};
use circuit_writer::constants::Span;
use circuit_writer::error::{ErrorKind, Fault, StdImportError};
use circuit_writer::field::FieldElem;
use circuit_writer::stdlib::{
    assert_eq_builtin, builtin_fns, crypto_fns, parse_fn_sigs, parse_std_import, Ident, NativeFn,
};
use circuit_writer::witness::WitnessEnv;

fn sp(start: usize, len: usize) -> Span {
    Span { start, len }
}

fn cvar(value: u64) -> Var {
    Var::Constant(Constant { value: FieldElem::from_u64(value), span: sp(0, 0) })
}

fn circuit(cells: Vec<usize>) -> Var {
    Var::CircuitVar(CellVars {
        vars: cells.into_iter().map(|index| CellVar { index }).collect(),
        span: sp(0, 0),
    })
}

#[test]
fn equal_constants_emit_no_gate() {
    let mut c = Compiler::new();
    let res = assert_eq_builtin(&mut c, &vec![cvar(42), cvar(42)], sp(1, 2));
    assert!(matches!(res, Ok(None)));
    assert_eq!(c.gates.len(), 0);
    assert_eq!(c.cells.len(), 0);
}

#[test]
fn unequal_constants_abort_without_gate() {
    let mut c = Compiler::new();
    let res = assert_eq_builtin(&mut c, &vec![cvar(1), cvar(2)], sp(1, 2));
    let e = res.unwrap_err();
    assert_eq!(e.kind, ErrorKind::InternalFault(Fault::ConstantMismatch));
    assert_eq!(e.span, sp(1, 2));
    assert_eq!(c.gates.len(), 0);
    assert_eq!(c.cells.len(), 0);
}

#[test]
fn constant_circuit_emits_one_generic_gate() {
    let mut c = Compiler::new();
    let cell = c.new_internal_var(Value::External(0));
    assert_eq!(cell.index, 0);
    let res = assert_eq_builtin(&mut c, &vec![cvar(7), circuit(vec![0])], sp(3, 4));
    assert!(matches!(res, Ok(None)));
    assert_eq!(c.gates.len(), 1);
    let g = &c.gates[0];
    assert_eq!(g.typ, GateKind::DoubleGeneric);
    assert_eq!(g.vars, vec![Some(CellVar { index: 1 }), Some(CellVar { index: 0 })]);
    assert_eq!(g.coeffs.len(), 2);
    assert_eq!(g.coeffs[0].bytes, FieldElem::one().bytes);
    assert_eq!(g.coeffs[1].bytes, FieldElem::one().neg().bytes);
    assert_eq!(g.span, sp(3, 4));
    // the interned constant is a new cell holding 7
    assert_eq!(c.cells.len(), 2);

    // witness-checking the row: the two wired cells agree exactly
    // when the environment supplies 7
    let mut env = WitnessEnv::new(vec![FieldElem::from_u64(7)], c.cells.len());
    let a = c.compute_var(&mut env, CellVar { index: 1 }).unwrap();
    let v = c.compute_var(&mut env, CellVar { index: 0 }).unwrap();
    assert_eq!(a.bytes, v.bytes);

    let mut env2 = WitnessEnv::new(vec![FieldElem::from_u64(8)], c.cells.len());
    let a2 = c.compute_var(&mut env2, CellVar { index: 1 }).unwrap();
    let v2 = c.compute_var(&mut env2, CellVar { index: 0 }).unwrap();
    assert_ne!(a2.bytes, v2.bytes);
}

#[test]
fn circuit_circuit_emits_one_generic_gate() {
    let mut c = Compiler::new();
    c.new_internal_var(Value::External(0));
    c.new_internal_var(Value::External(1));
    let res = assert_eq_builtin(&mut c, &vec![circuit(vec![0]), circuit(vec![1])], sp(9, 1));
    assert!(matches!(res, Ok(None)));
    assert_eq!(c.gates.len(), 1);
    let g = &c.gates[0];
    assert_eq!(g.typ, GateKind::DoubleGeneric);
    assert_eq!(g.vars, vec![Some(CellVar { index: 0 }), Some(CellVar { index: 1 })]);
    assert_eq!(g.coeffs[0].bytes, FieldElem::one().bytes);
    assert_eq!(g.coeffs[1].bytes, FieldElem::one().neg().bytes);
    assert_eq!(c.cells.len(), 2);
}

#[test]
fn constant_interning_reuses_the_cell() {
    let mut c = Compiler::new();
    c.new_internal_var(Value::External(0));
    c.new_internal_var(Value::External(1));
    assert_eq_builtin(&mut c, &vec![cvar(7), circuit(vec![0])], sp(0, 0)).unwrap();
    assert_eq!(c.cells.len(), 3);
    // the same constant again: no new cell
    assert_eq_builtin(&mut c, &vec![cvar(7), circuit(vec![1])], sp(0, 0)).unwrap();
    assert_eq!(c.cells.len(), 3);
    assert_eq!(c.gates.len(), 2);
    assert_eq!(c.gates[1].vars[0], Some(CellVar { index: 2 }));
}

#[test]
fn assert_eq_wrong_arity() {
    let mut c = Compiler::new();
    let res = assert_eq_builtin(&mut c, &vec![cvar(1)], sp(0, 0));
    assert_eq!(res.unwrap_err().kind, ErrorKind::InternalFault(Fault::WrongArity));
    assert_eq!(c.gates.len(), 0);
}

#[test]
fn assert_eq_rejects_composite_operand() {
    let mut c = Compiler::new();
    c.new_internal_var(Value::External(0));
    c.new_internal_var(Value::External(1));
    let res = assert_eq_builtin(&mut c, &vec![cvar(5), circuit(vec![0, 1])], sp(0, 0));
    assert_eq!(res.unwrap_err().kind, ErrorKind::InternalFault(Fault::NotScalar));
    assert_eq!(c.gates.len(), 0);
    assert_eq!(c.cells.len(), 2);
}

#[test]
fn unknown_module_import_fails_with_its_span() {
    let rest = vec![Ident { value: "bogus".to_string(), span: sp(7, 5) }];
    let res = parse_std_import(sp(0, 12), &rest);
    let e = res.unwrap_err();
    assert_eq!(e.kind, ErrorKind::StdImport(StdImportError::UnknownModule));
    assert_eq!(e.span, sp(7, 5));
}

#[test]
fn empty_import_path_fails() {
    let res = parse_std_import(sp(2, 3), &vec![]);
    let e = res.unwrap_err();
    assert_eq!(e.kind, ErrorKind::StdImport(StdImportError::NoModuleName));
    assert_eq!(e.span, sp(2, 3));
}

#[test]
fn crypto_module_imports_poseidon() {
    let rest = vec![Ident { value: "crypto".to_string(), span: sp(4, 6) }];
    let m = parse_std_import(sp(0, 12), &rest).unwrap();
    assert_eq!(m.name, "crypto");
    assert_eq!(m.span, sp(4, 6));
    assert_eq!(m.functions.len(), 1);
    assert_eq!(m.functions[0].0.name, "poseidon");
    assert_eq!(m.functions[0].0.signature, "poseidon(input: [Field; 2]) -> [Field; 3]");
    assert_eq!(m.functions[0].1, NativeFn::Poseidon);
}

#[test]
fn parse_fn_sigs_keeps_names_and_impls() {
    let parsed = parse_fn_sigs(&builtin_fns());
    assert_eq!(parsed.len(), 1);
    assert_eq!(parsed[0].0.name, "assert_eq");
    assert_eq!(parsed[0].1, NativeFn::AssertEq);
    let parsed = parse_fn_sigs(&crypto_fns());
    assert_eq!(parsed[0].0.name, "poseidon");
    assert_eq!(parsed[0].1, NativeFn::Poseidon);
}

#[test]
fn missing_witness_input_is_reported() {
    let mut c = Compiler::new();
    let cell = c.new_internal_var(Value::External(3));
    let mut env = WitnessEnv::new(vec![FieldElem::from_u64(1)], c.cells.len());
    let res = c.compute_var(&mut env, cell);
    assert_eq!(res.unwrap_err().kind, ErrorKind::MissingInput);
}
