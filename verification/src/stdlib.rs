//! The standard library the language exposes: the module catalogue,
//! import resolution, and the builtin equality assertion.

use vstd::prelude::*;
use crate::ast::{
    find_const_val, lemma_find_const_val_agree, vars_wf, CellVars, Compiler, Constant, Gate,
    GateKind, Var,
};
use crate::constants::Span;
use crate::error::{Error, ErrorKind, Fault, StdImportError};
use crate::field::{f_neg, FieldElem, lemma_bytes_val_injective};
use crate::stdlib::crypto::ocv;

pub mod crypto;

verus! {

/// A native implementation the catalogue can hand out.
#[derive(Clone, Copy, PartialEq, Eq, Structural, Debug)]
pub enum NativeFn {
    /// the sponge permutation builder
    Poseidon,
    /// the equality assertion builtin
    AssertEq,
}

/// A function signature as the front end records it: the callable
/// name, and the signature's full text. Splitting the text into
/// arguments and result belongs to the front end's parser; the
/// catalogue carries both parts ready-made.
#[derive(Clone, Debug)]
pub struct FunctionSig {
    pub name: String,
    pub signature: String,
}

/// A resolved `use std::...` import: the module's name, the
/// functions it brings into scope, and where it was requested.
#[derive(Clone, Debug)]
pub struct ImportedModule {
    pub name: String,
    pub functions: Vec<(FunctionSig, NativeFn)>,
    pub span: Span,
}

/// The signature table of the crypto module.
pub fn crypto_fns() -> (r: Vec<(String, String, NativeFn)>)
    ensures
        r@.len() == 1,
        r@[0].0@ == "poseidon"@,
        r@[0].2 == NativeFn::Poseidon,
{
    let mut r: Vec<(String, String, NativeFn)> = Vec::new();
    r.push(
        (
            "poseidon".to_owned(),
            "poseidon(input: [Field; 2]) -> [Field; 3]".to_owned(),
            NativeFn::Poseidon,
        ),
    );
    r
}

/// The signature table of the builtins every scope sees.
pub fn builtin_fns() -> (r: Vec<(String, String, NativeFn)>)
    ensures
        r@.len() == 1,
        r@[0].0@ == "assert_eq"@,
        r@[0].2 == NativeFn::AssertEq,
{
    let mut r: Vec<(String, String, NativeFn)> = Vec::new();
    r.push(("assert_eq".to_owned(), "assert_eq(a: Field, b: Field)".to_owned(), NativeFn::AssertEq));
    r
}

/// Takes a table of signatures and their native implementations, and
/// returns the same list as structured signatures, in order.
pub fn parse_fn_sigs(fn_sigs: &Vec<(String, String, NativeFn)>) -> (res: Vec<(FunctionSig, NativeFn)>)
    ensures
        res@.len() == fn_sigs@.len(),
        forall|k: int|
            0 <= k < res@.len() ==> {
                &&& (#[trigger] res@[k]).0.name@ == fn_sigs@[k].0@
                &&& res@[k].0.signature@ == fn_sigs@[k].1@
                &&& res@[k].1 == fn_sigs@[k].2
            },
{
    let mut res: Vec<(FunctionSig, NativeFn)> = Vec::new();
    let n = fn_sigs.len();
    let mut i: usize = 0;
    while i < n
        invariant
            i <= n,
            n == fn_sigs@.len(),
            res@.len() == i,
            forall|k: int|
                0 <= k < i ==> {
                    &&& (#[trigger] res@[k]).0.name@ == fn_sigs@[k].0@
                    &&& res@[k].0.signature@ == fn_sigs@[k].1@
                    &&& res@[k].1 == fn_sigs@[k].2
                },
        decreases n - i,
    {
        let sig = FunctionSig { name: fn_sigs[i].0.clone(), signature: fn_sigs[i].1.clone() };
        res.push((sig, fn_sigs[i].2));
        i += 1;
    }
    res
}

/// One segment of a `use` path.
#[derive(Clone, Debug)]
pub struct Ident {
    pub value: String,
    pub span: Span,
}

/// Parses the rest of a `use std::...` statement, after `std`:
/// resolves the module name against the catalogue and returns the
/// functions to bring into scope. An empty rest or an unknown module
/// is the user's error; nothing is allocated either way.
pub fn parse_std_import(path_span: Span, rest: &Vec<Ident>) -> (res: Result<ImportedModule, Error>)
    ensures
        rest@.len() == 0 ==> (res matches Err(e) && e.kind == ErrorKind::StdImport(
            StdImportError::NoModuleName,
        ) && e.span == path_span),
        rest@.len() > 0 && rest@[0].value@ == "crypto"@ ==> (res matches Ok(m) && {
            &&& m.name@ == "crypto"@
            &&& m.span == rest@[0].span
            &&& m.functions@.len() == 1
            &&& m.functions@[0].0.name@ == "poseidon"@
            &&& m.functions@[0].1 == NativeFn::Poseidon
        }),
        rest@.len() > 0 && rest@[0].value@ != "crypto"@ ==> (res matches Err(e) && e.kind
            == ErrorKind::StdImport(StdImportError::UnknownModule) && e.span == rest@[0].span),
{
    if rest.len() == 0 {
        return Err(
            Error { kind: ErrorKind::StdImport(StdImportError::NoModuleName), span: path_span },
        );
    }
    let module = &rest[0];
    if module.value == "crypto".to_owned() {
        let functions = parse_fn_sigs(&crypto_fns());
        Ok(ImportedModule { name: module.value.clone(), functions, span: module.span })
    } else {
        Err(Error { kind: ErrorKind::StdImport(StdImportError::UnknownModule), span: module.span })
    }
}

/// The operands the equality builtin accepts: exactly two, each a
/// constant or a scalar circuit value.
pub open spec fn assert_eq_shape_ok(vars: Seq<Var>) -> bool {
    vars.len() == 2 && match (vars[0], vars[1]) {
        (Var::Constant(_), Var::Constant(_)) => true,
        (Var::Constant(_), Var::CircuitVar(cv)) => cv.vars@.len() == 1,
        (Var::CircuitVar(cv), Var::Constant(_)) => cv.vars@.len() == 1,
        (Var::CircuitVar(l), Var::CircuitVar(r)) => l.vars@.len() == 1 && r.vars@.len() == 1,
    }
}

/// When the builtin succeeds: well-shaped operands, and two
/// constants only when they hold the same value.
pub open spec fn assert_eq_accepts(vars: Seq<Var>) -> bool {
    assert_eq_shape_ok(vars) && match (vars[0], vars[1]) {
        (Var::Constant(a), Var::Constant(b)) => a.value.val() == b.value.val(),
        _ => true,
    }
}

/// The fault the builtin reports when it refuses.
pub open spec fn assert_eq_fault(vars: Seq<Var>) -> Fault {
    if vars.len() != 2 {
        Fault::WrongArity
    } else {
        match (vars[0], vars[1]) {
            (Var::Constant(_), Var::Constant(_)) => Fault::ConstantMismatch,
            _ => Fault::NotScalar,
        }
    }
}

/// The one gate row the builtin emits: the generic linear gate over
/// the two cells, with coefficients one and minus one, encoding
/// "first minus second equals zero".
pub open spec fn eq_gate_ok(g: Gate, a: int, b: int, span: Span) -> bool {
    &&& g.typ == GateKind::DoubleGeneric
    &&& g.vars@ == seq![ocv(a), ocv(b)]
    &&& g.coeffs@.len() == 2
    &&& g.coeffs@[0].wf() && g.coeffs@[0].val() == 1
    &&& g.coeffs@[1].wf() && g.coeffs@[1].val() == f_neg(1)
    &&& g.span == span
}

/// What the builtin does to the compiler for a constant operand and
/// a scalar circuit operand: the constant is interned (a fresh cell
/// only when its value was never cached), and one equality gate
/// wires the constant's cell to the circuit cell.
pub open spec fn const_circuit_post(
    c0: Compiler,
    c1: Compiler,
    cst: Constant,
    cv: CellVars,
    span: Span,
) -> bool {
    let cc: int = match find_const_val(c0.cached_constants@, cst.value.val()) {
        Some(c) => c.index as int,
        None => c0.cells@.len() as int,
    };
    &&& (find_const_val(c0.cached_constants@, cst.value.val()) is Some ==> c1.cells == c0.cells
        && c1.cached_constants == c0.cached_constants)
    &&& (find_const_val(c0.cached_constants@, cst.value.val()) is None ==> {
        &&& c1.cells@.len() == c0.cells@.len() + 1
        &&& c1.cells@.drop_last() == c0.cells@
        &&& match c1.cells@.last() {
            crate::ast::Value::Constant(c) => c.bytes@ == cst.value.bytes@,
            _ => false,
        }
        &&& c1.cached_constants@.len() == c0.cached_constants@.len() + 1
        &&& c1.cached_constants@.drop_last() == c0.cached_constants@
        &&& c1.cached_constants@.last().0.bytes@ == cst.value.bytes@
        &&& c1.cached_constants@.last().1.index == cc
    })
    &&& 0 <= cc < c1.cells@.len()
    &&& match c1.cells@[cc] {
        crate::ast::Value::Constant(c) => c.bytes@ == cst.value.bytes@,
        _ => false,
    }
    &&& c1.gates@.len() == c0.gates@.len() + 1
    &&& c1.gates@.drop_last() == c0.gates@
    &&& eq_gate_ok(c1.gates@.last(), cc, cv.vars@[0].index as int, span)
}

/// The cell the builtin wires for a constant operand: the cached
/// cell when the value was interned before, the fresh one otherwise.
pub open spec fn const_cell_of(c0: Compiler, cst: Constant) -> int {
    match find_const_val(c0.cached_constants@, cst.value.val()) {
        Some(c) => c.index as int,
        None => c0.cells@.len() as int,
    }
}

/// Witness-checking the equality row: the constant operand's wired
/// cell always resolves to the constant's value, under every
/// environment. The row's two cells therefore hold equal values
/// exactly when the circuit cell resolves to that value.
pub proof fn lemma_eq_gate_witness(
    c0: Compiler,
    c1: Compiler,
    cst: Constant,
    cv: CellVars,
    span: Span,
    inputs: Seq<nat>,
)
    requires
        const_circuit_post(c0, c1, cst, cv, span),
    ensures
        crate::witness::cell_value(c1.cells@, inputs, const_cell_of(c0, cst)) == Some(
            cst.value.val(),
        ),
{
}

/// Everything the builtin does on success, by operand kind: two
/// equal constants leave the compiler untouched; otherwise exactly
/// one equality gate row is appended.
pub open spec fn assert_eq_post(c0: Compiler, c1: Compiler, vars: Seq<Var>, span: Span) -> bool {
    match (vars[0], vars[1]) {
        (Var::Constant(a), Var::Constant(b)) => c1 == c0 && a.value.val() == b.value.val(),
        (Var::Constant(cst), Var::CircuitVar(cv)) => const_circuit_post(c0, c1, cst, cv, span),
        (Var::CircuitVar(cv), Var::Constant(cst)) => const_circuit_post(c0, c1, cst, cv, span),
        (Var::CircuitVar(l), Var::CircuitVar(r)) => {
            &&& c1.cells == c0.cells
            &&& c1.cached_constants == c0.cached_constants
            &&& c1.gates@.len() == c0.gates@.len() + 1
            &&& c1.gates@.drop_last() == c0.gates@
            &&& eq_gate_ok(
                c1.gates@.last(),
                l.vars@[0].index as int,
                r.vars@[0].index as int,
                span,
            )
        },
    }
}

/// Emits the equality gate for one constant and one scalar circuit
/// operand, interning the constant first.
fn assert_eq_mixed(compiler: &mut Compiler, cst: &Constant, cvar: &CellVars, span: Span) -> (res:
    Result<Option<Var>, Error>)
    requires
        old(compiler).wf(),
        cst.value.wf(),
        forall|j: int|
            0 <= j < cvar.vars@.len() ==> (#[trigger] cvar.vars@[j]).index < old(
                compiler,
            ).cells@.len(),
    ensures
        final(compiler).wf(),
        cvar.vars@.len() == 1 ==> (res matches Ok(o) && o is None && const_circuit_post(
            *old(compiler),
            *final(compiler),
            *cst,
            *cvar,
            span,
        )),
        cvar.vars@.len() != 1 ==> (res matches Err(e) && e.kind == ErrorKind::InternalFault(
            Fault::NotScalar,
        ) && e.span == span && *final(compiler) == *old(compiler)),
{
    if cvar.vars.len() != 1 {
        return Err(Error { kind: ErrorKind::InternalFault(Fault::NotScalar), span });
    }
    let cell = cvar.vars[0];
    let ghost t0 = compiler.cached_constants@;
    let cval = cst.value.duplicate();
    let ghost gcval = cval;
    let cst_var = compiler.constant(cval, cst.span);
    proof {
        lemma_find_const_val_agree(t0, gcval);
    }
    let one = FieldElem::one();
    let mone = one.neg();
    let mut coeffs: Vec<FieldElem> = Vec::new();
    coeffs.push(one);
    coeffs.push(mone);
    let mut gvars: Vec<Option<crate::ast::CellVar>> = Vec::new();
    gvars.push(Some(cst_var));
    gvars.push(Some(cell));
    proof {
        assert(gvars@ =~= seq![ocv(cst_var.index as int), ocv(cell.index as int)]);
    }
    compiler.gates(GateKind::DoubleGeneric, gvars, coeffs, span);
    proof {
        assert(compiler.gates@.drop_last() =~= old(compiler).gates@);
        assert(compiler.cells@.len() > old(compiler).cells@.len() ==> compiler.cells@.drop_last()
            =~= old(compiler).cells@);
    }
    Ok(None)
}

/// The equality assertion builtin. Two compile-time constants are
/// compared right here: equal ones need no gate, unequal ones are a
/// fatal internal fault and nothing is emitted. Every other accepted
/// shape appends exactly one generic gate enforcing equality of the
/// two cells. It produces no value.
pub fn assert_eq_builtin(compiler: &mut Compiler, vars: &Vec<Var>, span: Span) -> (res: Result<
    Option<Var>,
    Error,
>)
    requires
        old(compiler).wf(),
        vars_wf(vars@, old(compiler).cells@.len() as int),
    ensures
        final(compiler).wf(),
        res is Ok <==> assert_eq_accepts(vars@),
        match res {
            Ok(o) => o is None && assert_eq_post(*old(compiler), *final(compiler), vars@, span),
            Err(e) => {
                &&& *final(compiler) == *old(compiler)
                &&& e.span == span
                &&& e.kind == ErrorKind::InternalFault(assert_eq_fault(vars@))
            },
        },
{
    if vars.len() != 2 {
        return Err(Error { kind: ErrorKind::InternalFault(Fault::WrongArity), span });
    }
    match (&vars[0], &vars[1]) {
        (Var::Constant(a), Var::Constant(b)) => {
            if a.value.equals(&b.value) {
                Ok(None)
            } else {
                proof {
                    if a.value.val() == b.value.val() {
                        lemma_bytes_val_injective(a.value.bytes@, b.value.bytes@);
                    }
                }
                Err(Error { kind: ErrorKind::InternalFault(Fault::ConstantMismatch), span })
            }
        },
        (Var::Constant(cst), Var::CircuitVar(cvar)) => assert_eq_mixed(compiler, cst, cvar, span),
        (Var::CircuitVar(cvar), Var::Constant(cst)) => assert_eq_mixed(compiler, cst, cvar, span),
        (Var::CircuitVar(lhs), Var::CircuitVar(rhs)) => {
            if lhs.vars.len() != 1 {
                return Err(Error { kind: ErrorKind::InternalFault(Fault::NotScalar), span });
            }
            if rhs.vars.len() != 1 {
                return Err(Error { kind: ErrorKind::InternalFault(Fault::NotScalar), span });
            }
            let l = lhs.vars[0];
            let r = rhs.vars[0];
            let one = FieldElem::one();
            let mone = one.neg();
            let mut coeffs: Vec<FieldElem> = Vec::new();
            coeffs.push(one);
            coeffs.push(mone);
            let mut gvars: Vec<Option<crate::ast::CellVar>> = Vec::new();
            gvars.push(Some(l));
            gvars.push(Some(r));
            proof {
                assert(gvars@ =~= seq![ocv(l.index as int), ocv(r.index as int)]);
            }
            compiler.gates(GateKind::DoubleGeneric, gvars, coeffs, span);
            proof {
                assert(compiler.gates@.drop_last() =~= old(compiler).gates@);
            }
            Ok(None)
        },
    }
}

} // verus!
