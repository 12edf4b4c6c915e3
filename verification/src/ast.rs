//! The variable and gate model: cells of the witness table, the
//! values that define them, the append-only gate table, and the
//! compiler state that owns both.

use vstd::prelude::*;
use crate::constants::{Span, NUM_REGISTERS, SPONGE_WIDTH};
use crate::field::FieldElem;

verus! {

/// Index of one slot of the witness assignment table. Cells are
/// created once, in increasing order, and never reused.
#[derive(Clone, Copy, PartialEq, Eq, Structural, Debug)]
pub struct CellVar {
    pub index: usize,
}

/// The deferred computation attached to a cell allocated by the
/// permutation builder: apply one full round of the permutation to
/// the three previous state cells and keep one component.
pub struct Hint {
    /// the cells holding the previous round's state
    pub prev: Vec<CellVar>,
    /// the mixing matrix of the permutation
    pub mds: Vec<Vec<FieldElem>>,
    /// the constants of this round, one per state position
    pub rc: Vec<FieldElem>,
    /// which component of the new state this cell holds
    pub col: usize,
}

/// How a cell's witness value is obtained.
pub enum Value {
    /// known at compile time
    Constant(FieldElem),
    /// supplied by the witness environment, by input position
    External(usize),
    /// computed lazily from earlier cells, at most once per run
    Hint(Hint),
}

/// A row of field elements all in canonical form, of a fixed width.
pub open spec fn row_fe_wf(r: Seq<FieldElem>, width: int) -> bool {
    r.len() == width && forall|i: int| 0 <= i < r.len() ==> (#[trigger] r[i]).wf()
}

/// A square mixing matrix of canonical field elements.
pub open spec fn matrix_fe_wf(m: Seq<Vec<FieldElem>>) -> bool {
    m.len() == SPONGE_WIDTH && forall|i: int|
        0 <= i < m.len() ==> row_fe_wf((#[trigger] m[i])@, SPONGE_WIDTH as int)
}

/// What must hold of the value defining the cell at index `i`: a
/// hint may only reach back to cells created before it.
pub open spec fn value_wf(v: Value, i: int) -> bool {
    match v {
        Value::Constant(c) => c.wf(),
        Value::External(_) => true,
        Value::Hint(h) => {
            &&& h.prev@.len() == SPONGE_WIDTH
            &&& forall|j: int| 0 <= j < h.prev@.len() ==> (#[trigger] h.prev@[j]).index < i
            &&& h.col < SPONGE_WIDTH
            &&& matrix_fe_wf(h.mds@)
            &&& row_fe_wf(h.rc@, SPONGE_WIDTH as int)
        },
    }
}

/// Operands handed to a builtin are type-checked upstream: every
/// constant is canonical and every referenced cell exists.
pub open spec fn vars_wf(vars: Seq<Var>, ncells: int) -> bool {
    forall|i: int|
        0 <= i < vars.len() ==> match #[trigger] vars[i] {
            Var::Constant(c) => c.value.wf(),
            Var::CircuitVar(cv) => forall|j: int|
                0 <= j < cv.vars@.len() ==> (#[trigger] cv.vars@[j]).index < ncells,
        }
}

/// A compile-time constant operand.
#[derive(Debug)]
pub struct Constant {
    pub value: FieldElem,
    pub span: Span,
}

/// An ordered, non-empty list of cells: a runtime value, possibly of
/// several limbs.
#[derive(Debug)]
pub struct CellVars {
    pub vars: Vec<CellVar>,
    pub span: Span,
}

/// The value the language layer sees: a compile-time constant or a
/// circuit-backed value.
#[derive(Debug)]
pub enum Var {
    Constant(Constant),
    CircuitVar(CellVars),
}

impl Var {
    /// The circuit value behind this operand, if it is one.
    pub fn circuit_var(&self) -> (r: Option<&CellVars>)
        ensures
            match self {
                Var::CircuitVar(cv) => r == Some(cv),
                Var::Constant(_) => r is None,
            },
    {
        match self {
            Var::CircuitVar(cv) => Some(cv),
            Var::Constant(_) => None,
        }
    }
}

/// Which polynomial identity a gate row enforces.
#[derive(Clone, Copy, PartialEq, Eq, Structural, Debug)]
pub enum GateKind {
    /// the generic linear gate
    DoubleGeneric,
    /// the custom permutation gate
    Poseidon,
}

/// One row of the constraint table.
pub struct Gate {
    pub typ: GateKind,
    pub vars: Vec<Option<CellVar>>,
    pub coeffs: Vec<FieldElem>,
    pub span: Span,
}

/// A gate row may only wire cells that exist, its width never goes
/// past the register count, and its coefficients are canonical.
pub open spec fn gate_wf(g: Gate, ncells: int) -> bool {
    &&& g.vars@.len() <= NUM_REGISTERS
    &&& g.coeffs@.len() <= NUM_REGISTERS
    &&& forall|k: int|
        0 <= k < g.vars@.len() ==> match #[trigger] g.vars@[k] {
            Some(c) => c.index < ncells,
            None => true,
        }
    &&& forall|k: int| 0 <= k < g.coeffs@.len() ==> (#[trigger] g.coeffs@[k]).wf()
}

/// The first cached constant with the given canonical bytes, if any.
pub open spec fn find_const(t: Seq<(FieldElem, CellVar)>, b: Seq<u8>) -> Option<CellVar>
    decreases t.len(),
{
    if t.len() == 0 {
        None
    } else if t[0].0.bytes@ == b {
        Some(t[0].1)
    } else {
        find_const(t.drop_first(), b)
    }
}

/// The first cached constant with the given value, if any.
pub open spec fn find_const_val(t: Seq<(FieldElem, CellVar)>, v: nat) -> Option<CellVar>
    decreases t.len(),
{
    if t.len() == 0 {
        None
    } else if t[0].0.val() == v {
        Some(t[0].1)
    } else {
        find_const_val(t.drop_first(), v)
    }
}

/// On a table of canonical elements, looking a canonical element up
/// by bytes and looking it up by value agree.
pub proof fn lemma_find_const_val_agree(t: Seq<(FieldElem, CellVar)>, e: FieldElem)
    requires
        e.wf(),
        forall|k: int| 0 <= k < t.len() ==> (#[trigger] t[k]).0.wf(),
    ensures
        find_const(t, e.bytes@) == find_const_val(t, e.val()),
    decreases t.len(),
{
    if t.len() > 0 {
        if t[0].0.val() == e.val() {
            crate::field::lemma_bytes_val_injective(t[0].0.bytes@, e.bytes@);
        }
        assert(forall|k: int|
            0 <= k < t.drop_first().len() ==> (#[trigger] t.drop_first()[k]).0.wf());
        lemma_find_const_val_agree(t.drop_first(), e);
    }
}

proof fn lemma_find_const_at(t: Seq<(FieldElem, CellVar)>, b: Seq<u8>, i: int)
    requires
        0 <= i < t.len(),
        t[i].0.bytes@ == b,
        forall|j: int| 0 <= j < i ==> (#[trigger] t[j]).0.bytes@ != b,
    ensures
        find_const(t, b) == Some(t[i].1),
    decreases i,
{
    if i > 0 {
        lemma_find_const_at(t.drop_first(), b, i - 1);
    }
}

proof fn lemma_find_const_none(t: Seq<(FieldElem, CellVar)>, b: Seq<u8>)
    requires
        forall|j: int| 0 <= j < t.len() ==> (#[trigger] t[j]).0.bytes@ != b,
    ensures
        find_const(t, b) is None,
    decreases t.len(),
{
    if t.len() > 0 {
        lemma_find_const_none(t.drop_first(), b);
    }
}

/// The compiler state this core touches: the cell definitions, the
/// gate table, and the cache that interns compile-time constants.
pub struct Compiler {
    /// the defining value of each cell, indexed by cell
    pub cells: Vec<Value>,
    /// the constraint rows, append-only
    pub gates: Vec<Gate>,
    /// constants already materialized as cells
    pub cached_constants: Vec<(FieldElem, CellVar)>,
}

impl Compiler {
    /// Every cell reaches only backwards, every gate wires only
    /// existing cells, and the constant cache points at constant
    /// cells holding the cached bytes.
    pub open spec fn wf(&self) -> bool {
        &&& forall|i: int| 0 <= i < self.cells@.len() ==> value_wf(#[trigger] self.cells@[i], i)
        &&& forall|k: int|
            0 <= k < self.gates@.len() ==> gate_wf(
                #[trigger] self.gates@[k],
                self.cells@.len() as int,
            )
        &&& forall|k: int|
            0 <= k < self.cached_constants@.len() ==> {
                let e = #[trigger] self.cached_constants@[k];
                &&& e.0.wf()
                &&& e.1.index < self.cells@.len()
                &&& match self.cells@[e.1.index as int] {
                    Value::Constant(c) => c.bytes@ == e.0.bytes@,
                    _ => false,
                }
            }
    }

    /// A fresh compiler: no cells, no gates, nothing cached.
    pub fn new() -> (r: Compiler)
        ensures
            r.wf(),
            r.cells@.len() == 0,
            r.gates@.len() == 0,
            r.cached_constants@.len() == 0,
    {
        Compiler { cells: Vec::new(), gates: Vec::new(), cached_constants: Vec::new() }
    }

    /// Allocates a fresh cell bound permanently to `value`. The new
    /// cell's index is the table's previous length; nothing else
    /// changes.
    pub fn new_internal_var(&mut self, value: Value) -> (r: CellVar)
        requires
            old(self).wf(),
            value_wf(value, old(self).cells@.len() as int),
        ensures
            final(self).wf(),
            r.index == old(self).cells@.len(),
            final(self).cells@ == old(self).cells@.push(value),
            final(self).gates == old(self).gates,
            final(self).cached_constants == old(self).cached_constants,
    {
        let index = self.cells.len();
        self.cells.push(value);
        CellVar { index }
    }

    /// Returns the cell representing a compile-time constant,
    /// creating it only when the value was never cached: the same
    /// value always resolves to the same cell.
    pub fn constant(&mut self, value: FieldElem, span: Span) -> (r: CellVar)
        requires
            old(self).wf(),
            value.wf(),
        ensures
            final(self).wf(),
            r.index < final(self).cells@.len(),
            (match final(self).cells@[r.index as int] {
                Value::Constant(c) => c.bytes@ == value.bytes@,
                _ => false,
            }),
            match find_const(old(self).cached_constants@, value.bytes@) {
                Some(c) => r == c && *final(self) == *old(self),
                None => {
                    &&& r.index == old(self).cells@.len()
                    &&& final(self).cells@ == old(self).cells@.push(Value::Constant(value))
                    &&& final(self).gates == old(self).gates
                    &&& final(self).cached_constants@.len() == old(self).cached_constants@.len()
                        + 1
                    &&& final(self).cached_constants@.drop_last() == old(self).cached_constants@
                    &&& final(self).cached_constants@.last().0.bytes@ == value.bytes@
                    &&& final(self).cached_constants@.last().1 == r
                },
            },
    {
        let n = self.cached_constants.len();
        let mut i: usize = 0;
        while i < n
            invariant
                i <= n,
                n == self.cached_constants@.len(),
                self.wf(),
                value.wf(),
                forall|j: int|
                    0 <= j < i ==> (#[trigger] self.cached_constants@[j]).0.bytes@
                        != value.bytes@,
            decreases n - i,
        {
            if self.cached_constants[i].0.equals(&value) {
                proof {
                    lemma_find_const_at(self.cached_constants@, value.bytes@, i as int);
                }
                return self.cached_constants[i].1;
            }
            i += 1;
        }
        proof {
            lemma_find_const_none(self.cached_constants@, value.bytes@);
        }
        let index = self.cells.len();
        let cached = value.duplicate();
        self.cells.push(Value::Constant(value));
        let r = CellVar { index };
        self.cached_constants.push((cached, r));
        assert(self.cached_constants@.drop_last() =~= old(self).cached_constants@);
        r
    }

    /// Appends one gate row. The row's width and coefficient count
    /// never go past the register count, and the permutation gate
    /// fills both exactly; the table only grows, and row order is the
    /// externally observable effect.
    pub fn gates(
        &mut self,
        typ: GateKind,
        vars: Vec<Option<CellVar>>,
        coeffs: Vec<FieldElem>,
        span: Span,
    )
        requires
            old(self).wf(),
            vars@.len() <= NUM_REGISTERS,
            coeffs@.len() <= NUM_REGISTERS,
            typ == GateKind::Poseidon ==> vars@.len() == NUM_REGISTERS && coeffs@.len()
                == NUM_REGISTERS,
            forall|k: int|
                0 <= k < vars@.len() ==> match #[trigger] vars@[k] {
                    Some(c) => c.index < old(self).cells@.len(),
                    None => true,
                },
            forall|k: int| 0 <= k < coeffs@.len() ==> (#[trigger] coeffs@[k]).wf(),
        ensures
            final(self).wf(),
            final(self).cells == old(self).cells,
            final(self).cached_constants == old(self).cached_constants,
            final(self).gates@ == old(self).gates@.push((Gate { typ, vars, coeffs, span })),
    {
        self.gates.push(Gate { typ, vars, coeffs, span });
    }
}

} // verus!
