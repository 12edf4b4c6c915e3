//! Witness generation: resolving a cell's concrete value from a
//! frozen build, lazily and memoized.

use vstd::prelude::*;
use vstd::pervasive::VecAdditionalExecFns;
use crate::ast::{CellVar, Compiler, Value};
use crate::constants::{Span, SPONGE_WIDTH};
use crate::error::{Error, ErrorKind};
use crate::field::FieldElem;
use crate::stdlib::crypto::{full_round, matrix_vals, round_out, row_vals};

verus! {

/// The value of the cell at index `i`, as a mathematical function of
/// the cell definitions and the environment's inputs. `None` when an
/// input the definition asks for is missing, or a definition is
/// malformed; on a well-formed build only a missing input yields
/// `None`.
pub open spec fn cell_value(cells: Seq<Value>, inputs: Seq<nat>, i: int) -> Option<nat>
    decreases i,
{
    if i < 0 || i >= cells.len() {
        None
    } else {
        match cells[i] {
            Value::Constant(c) => Some(c.val()),
            Value::External(k) => if (k as int) < inputs.len() {
                Some(inputs[k as int])
            } else {
                None
            },
            Value::Hint(h) => {
                if h.prev@.len() == SPONGE_WIDTH && h.col < SPONGE_WIDTH && h.prev@[0].index < i
                    && h.prev@[1].index < i && h.prev@[2].index < i {
                    match (
                        cell_value(cells, inputs, h.prev@[0].index as int),
                        cell_value(cells, inputs, h.prev@[1].index as int),
                        cell_value(cells, inputs, h.prev@[2].index as int),
                    ) {
                        (Some(v0), Some(v1), Some(v2)) => Some(
                            round_out(matrix_vals(h.mds@), row_vals(h.rc@), seq![v0, v1, v2])[
                                h.col as int],
                        ),
                        _ => None,
                    }
                } else {
                    None
                }
            },
        }
    }
}

/// A cell's value only looks at the cells before it: extending the
/// table does not change it.
pub proof fn lemma_cell_value_prefix(cells1: Seq<Value>, cells2: Seq<Value>, inputs: Seq<nat>, i: int)
    requires
        cells1.len() <= cells2.len(),
        forall|j: int| 0 <= j < cells1.len() ==> cells2[j] == cells1[j],
        i < cells1.len(),
    ensures
        cell_value(cells2, inputs, i) == cell_value(cells1, inputs, i),
    decreases i,
{
    if 0 <= i {
        match cells1[i] {
            Value::Hint(h) => {
                if h.prev@.len() == SPONGE_WIDTH && h.col < SPONGE_WIDTH && h.prev@[0].index < i
                    && h.prev@[1].index < i && h.prev@[2].index < i {
                    lemma_cell_value_prefix(cells1, cells2, inputs, h.prev@[0].index as int);
                    lemma_cell_value_prefix(cells1, cells2, inputs, h.prev@[1].index as int);
                    lemma_cell_value_prefix(cells1, cells2, inputs, h.prev@[2].index as int);
                }
            },
            _ => {},
        }
    }
}

/// One witness run: the circuit's input values, the per-run cache of
/// resolved cells, and a count of how many hint evaluations ran.
pub struct WitnessEnv {
    pub inputs: Vec<FieldElem>,
    pub cache: Vec<Option<FieldElem>>,
    pub hint_evals: u64,
}

impl WitnessEnv {
    /// The cache matches the build: one slot per cell, and every
    /// cached element is the cell's value, in canonical form.
    pub open spec fn wf_for(&self, cells: Seq<Value>) -> bool {
        &&& self.cache@.len() == cells.len()
        &&& forall|i: int| 0 <= i < self.inputs@.len() ==> (#[trigger] self.inputs@[i]).wf()
        &&& forall|i: int|
            0 <= i < self.cache@.len() ==> match #[trigger] self.cache@[i] {
                Some(e) => e.wf() && cell_value(cells, row_vals(self.inputs@), i) == Some(e.val()),
                None => true,
            }
    }

    /// A fresh run against a build of `ncells` cells: nothing
    /// resolved yet, no hint evaluated yet.
    pub fn new(inputs: Vec<FieldElem>, ncells: usize) -> (r: WitnessEnv)
        ensures
            r.inputs == inputs,
            r.cache@.len() == ncells,
            forall|i: int| 0 <= i < ncells ==> (#[trigger] r.cache@[i]) is None,
            r.hint_evals == 0,
    {
        let mut cache: Vec<Option<FieldElem>> = Vec::new();
        let mut i: usize = 0;
        while i < ncells
            invariant
                i <= ncells,
                cache@.len() == i,
                forall|j: int| 0 <= j < i ==> (#[trigger] cache@[j]) is None,
            decreases ncells - i,
        {
            cache.push(None);
            i += 1;
        }
        WitnessEnv { inputs, cache, hint_evals: 0 }
    }
}

impl Compiler {
    /// Resolves one cell against a witness environment. A cached
    /// cell comes straight back, with the run untouched; otherwise
    /// the cell's definition is evaluated — for a hint, after its
    /// dependencies — and the result cached, so a hint runs at most
    /// once per environment.
    pub fn compute_var(&self, env: &mut WitnessEnv, var: CellVar) -> (res: Result<
        FieldElem,
        Error,
    >)
        requires
            self.wf(),
            var.index < self.cells@.len(),
            old(env).wf_for(self.cells@),
        ensures
            final(env).wf_for(self.cells@),
            final(env).inputs == old(env).inputs,
            forall|i: int|
                0 <= i < old(env).cache@.len() && (#[trigger] old(env).cache@[i]) is Some
                    ==> final(env).cache@[i] == old(env).cache@[i],
            old(env).cache@[var.index as int] is Some ==> *final(env) == *old(env),
            match res {
                Ok(r) => {
                    &&& r.wf()
                    &&& cell_value(self.cells@, row_vals(old(env).inputs@), var.index as int)
                        == Some(r.val())
                    &&& final(env).cache@[var.index as int] is Some
                },
                Err(e) => {
                    &&& cell_value(self.cells@, row_vals(old(env).inputs@), var.index as int)
                        is None
                    &&& e.kind == ErrorKind::MissingInput
                },
            },
        decreases var.index,
    {
        let idx = var.index;
        match &env.cache[idx] {
            Some(e) => {
                let r = e.duplicate();
                return Ok(r);
            },
            None => {},
        }
        match &self.cells[idx] {
            Value::Constant(c) => {
                let r = c.duplicate();
                env.cache.set(idx, Some(r.duplicate()));
                Ok(r)
            },
            Value::External(k) => {
                if *k < env.inputs.len() {
                    let r = env.inputs[*k].duplicate();
                    env.cache.set(idx, Some(r.duplicate()));
                    Ok(r)
                } else {
                    Err(Error { kind: ErrorKind::MissingInput, span: Span { start: 0, len: 0 } })
                }
            },
            Value::Hint(h) => {
                let v0 = match self.compute_var(env, h.prev[0]) {
                    Ok(v) => v,
                    Err(e) => {
                        return Err(e);
                    },
                };
                let v1 = match self.compute_var(env, h.prev[1]) {
                    Ok(v) => v,
                    Err(e) => {
                        return Err(e);
                    },
                };
                let v2 = match self.compute_var(env, h.prev[2]) {
                    Ok(v) => v,
                    Err(e) => {
                        return Err(e);
                    },
                };
                let out = full_round(&h.mds, &h.rc, &v0, &v1, &v2);
                if env.hint_evals < u64::MAX {
                    env.hint_evals = env.hint_evals + 1;
                }
                let r = out[h.col].duplicate();
                env.cache.set(idx, Some(r.duplicate()));
                Ok(r)
            },
        }
    }
}

} // verus!
