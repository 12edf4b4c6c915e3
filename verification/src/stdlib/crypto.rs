//! The sponge permutation: its parameters, one full round as a
//! mathematical function and as executable code, and the builder
//! that unrolls the whole permutation into gate rows.

use vstd::prelude::*;
use crate::ast::{
    find_const_val, lemma_find_const_val_agree, matrix_fe_wf, row_fe_wf, vars_wf, CellVar,
    CellVars, Compiler, Gate, GateKind, Hint, Value, Var,
};
use crate::constants::{Span, NUM_REGISTERS, ROUNDS_PER_ROW, ROWS, SPONGE_WIDTH, TOTAL_ROUNDS};
use crate::error::{Error, ErrorKind, Fault};
use crate::field::{f_add, f_mul, FieldElem};

verus! {

/// The values of a row of field elements.
pub open spec fn row_vals(r: Seq<FieldElem>) -> Seq<nat> {
    r.map_values(|e: FieldElem| e.val())
}

/// The canonical bytes of a row of field elements.
pub open spec fn row_bytes(r: Seq<FieldElem>) -> Seq<Seq<u8>> {
    r.map_values(|e: FieldElem| e.bytes@)
}

/// The values of a matrix of field elements.
pub open spec fn matrix_vals(m: Seq<Vec<FieldElem>>) -> Seq<Seq<nat>> {
    m.map_values(|row: Vec<FieldElem>| row_vals(row@))
}

/// The canonical bytes of a matrix of field elements.
pub open spec fn matrix_bytes(m: Seq<Vec<FieldElem>>) -> Seq<Seq<Seq<u8>>> {
    m.map_values(|row: Vec<FieldElem>| row_bytes(row@))
}

/// The S-box of the permutation: the seventh power, computed by
/// squaring as the executable code does.
pub open spec fn sbox(x: nat) -> nat {
    let x2 = f_mul(x, x);
    let x4 = f_mul(x2, x2);
    let x6 = f_mul(x4, x2);
    f_mul(x6, x)
}

/// One full round of the permutation on a state of three values:
/// the S-box on each component, the mixing matrix, then this round's
/// constants.
pub open spec fn round_out(mds: Seq<Seq<nat>>, rc: Seq<nat>, st: Seq<nat>) -> Seq<nat> {
    Seq::new(
        SPONGE_WIDTH as nat,
        |col: int|
            f_add(
                f_add(
                    f_add(
                        f_mul(mds[col][0], sbox(st[0])),
                        f_mul(mds[col][1], sbox(st[1])),
                    ),
                    f_mul(mds[col][2], sbox(st[2])),
                ),
                rc[col],
            ),
    )
}

/// The parameter set of the permutation, consumed as given: one row
/// of constants per round, and the square mixing matrix.
pub struct SpongeParams {
    pub round_constants: Vec<Vec<FieldElem>>,
    pub mds: Vec<Vec<FieldElem>>,
}

impl SpongeParams {
    /// A full constant table and a square canonical matrix.
    pub open spec fn wf(&self) -> bool {
        &&& self.round_constants@.len() == TOTAL_ROUNDS
        &&& forall|r: int|
            0 <= r < self.round_constants@.len() ==> row_fe_wf(
                (#[trigger] self.round_constants@[r])@,
                SPONGE_WIDTH as int,
            )
        &&& matrix_fe_wf(self.mds@)
    }
}

/// The S-box on a field element.
fn sbox_exec(x: &FieldElem) -> (r: FieldElem)
    requires
        x.wf(),
    ensures
        r.wf(),
        r.val() == sbox(x.val()),
{
    let x2 = x.mul(x);
    let x4 = x2.mul(&x2);
    let x6 = x4.mul(&x2);
    x6.mul(x)
}

/// One full round of the permutation, executably: exactly the
/// transformation `round_out` states.
pub fn full_round(
    mds: &Vec<Vec<FieldElem>>,
    rc: &Vec<FieldElem>,
    s0: &FieldElem,
    s1: &FieldElem,
    s2: &FieldElem,
) -> (out: Vec<FieldElem>)
    requires
        matrix_fe_wf(mds@),
        row_fe_wf(rc@, SPONGE_WIDTH as int),
        s0.wf(),
        s1.wf(),
        s2.wf(),
    ensures
        row_fe_wf(out@, SPONGE_WIDTH as int),
        row_vals(out@) == round_out(matrix_vals(mds@), row_vals(rc@), seq![s0.val(), s1.val(), s2.val()]),
{
    let sb0 = sbox_exec(s0);
    let sb1 = sbox_exec(s1);
    let sb2 = sbox_exec(s2);
    let mut out: Vec<FieldElem> = Vec::new();
    let r0 = mds[0][0].mul(&sb0).add(&mds[0][1].mul(&sb1)).add(&mds[0][2].mul(&sb2)).add(&rc[0]);
    let r1 = mds[1][0].mul(&sb0).add(&mds[1][1].mul(&sb1)).add(&mds[1][2].mul(&sb2)).add(&rc[1]);
    let r2 = mds[2][0].mul(&sb0).add(&mds[2][1].mul(&sb1)).add(&mds[2][2].mul(&sb2)).add(&rc[2]);
    out.push(r0);
    out.push(r1);
    out.push(r2);
    assert(row_vals(out@) =~= round_out(
        matrix_vals(mds@),
        row_vals(rc@),
        seq![s0.val(), s1.val(), s2.val()],
    ));
    out
}

/// A deep copy of a row of field elements, byte for byte.
pub fn copy_row(r: &Vec<FieldElem>) -> (out: Vec<FieldElem>)
    ensures
        out@.len() == r@.len(),
        forall|i: int| 0 <= i < r@.len() ==> (#[trigger] out@[i]).bytes@ == r@[i].bytes@,
{
    let mut out: Vec<FieldElem> = Vec::new();
    let n = r.len();
    let mut i: usize = 0;
    while i < n
        invariant
            i <= n,
            n == r@.len(),
            out@.len() == i,
            forall|j: int| 0 <= j < i ==> (#[trigger] out@[j]).bytes@ == r@[j].bytes@,
        decreases n - i,
    {
        out.push(r[i].duplicate());
        i += 1;
    }
    out
}

/// A deep copy of a matrix of field elements, byte for byte.
pub fn copy_matrix(m: &Vec<Vec<FieldElem>>) -> (out: Vec<Vec<FieldElem>>)
    ensures
        out@.len() == m@.len(),
        forall|i: int| 0 <= i < m@.len() ==> (#[trigger] out@[i])@.len() == m@[i]@.len(),
        forall|i: int, j: int|
            0 <= i < m@.len() && 0 <= j < m@[i]@.len() ==> (#[trigger] out@[i]@[j]).bytes@
                == m@[i]@[j].bytes@,
{
    let mut out: Vec<Vec<FieldElem>> = Vec::new();
    let n = m.len();
    let mut i: usize = 0;
    while i < n
        invariant
            i <= n,
            n == m@.len(),
            out@.len() == i,
            forall|j: int| 0 <= j < i ==> (#[trigger] out@[j])@.len() == m@[j]@.len(),
            forall|j: int, k: int|
                0 <= j < i && 0 <= k < m@[j]@.len() ==> (#[trigger] out@[j]@[k]).bytes@
                    == m@[j]@[k].bytes@,
        decreases n - i,
    {
        out.push(copy_row(&m[i]));
        i += 1;
    }
    out
}

/// The cell index holding component `col` of the permutation state
/// after `s` rounds. State 0 is the two inputs and the zero padding
/// cell; every later state is three freshly allocated cells, in
/// round order.
pub open spec fn state_cell(in0: int, in1: int, zc: int, base: int, s: int, col: int) -> int {
    if s == 0 {
        if col == 0 {
            in0
        } else if col == 1 {
            in1
        } else {
            zc
        }
    } else {
        base + (s - 1) * (SPONGE_WIDTH as int) + col
    }
}

/// A filled wire slot.
pub open spec fn ocv(i: int) -> Option<CellVar> {
    Some(CellVar { index: i as usize })
}

/// The 15 wire slots of the permutation gate row `r`: the state at
/// the row's start, then the states at round offsets +4, +1, +2, +3,
/// in the interleaved order the proof system's gate expects.
pub open spec fn pos_row_vars(in0: int, in1: int, zc: int, base: int, r: int) -> Seq<
    Option<CellVar>,
> {
    let off = r * (ROUNDS_PER_ROW as int);
    seq![
        ocv(state_cell(in0, in1, zc, base, off, 0)),
        ocv(state_cell(in0, in1, zc, base, off, 1)),
        ocv(state_cell(in0, in1, zc, base, off, 2)),
        ocv(state_cell(in0, in1, zc, base, off + 4, 0)),
        ocv(state_cell(in0, in1, zc, base, off + 4, 1)),
        ocv(state_cell(in0, in1, zc, base, off + 4, 2)),
        ocv(state_cell(in0, in1, zc, base, off + 1, 0)),
        ocv(state_cell(in0, in1, zc, base, off + 1, 1)),
        ocv(state_cell(in0, in1, zc, base, off + 1, 2)),
        ocv(state_cell(in0, in1, zc, base, off + 2, 0)),
        ocv(state_cell(in0, in1, zc, base, off + 2, 1)),
        ocv(state_cell(in0, in1, zc, base, off + 2, 2)),
        ocv(state_cell(in0, in1, zc, base, off + 3, 0)),
        ocv(state_cell(in0, in1, zc, base, off + 3, 1)),
        ocv(state_cell(in0, in1, zc, base, off + 3, 2)),
    ]
}

/// The 15 coefficients of the permutation gate row `r`: the constant
/// sub-table for its five rounds, flattened row-major.
pub open spec fn pos_row_coeff_bytes(params: SpongeParams, r: int) -> Seq<Seq<u8>> {
    let off = r * (ROUNDS_PER_ROW as int);
    Seq::new(
        NUM_REGISTERS as nat,
        |i: int|
            params.round_constants@[off + i / (SPONGE_WIDTH as int)]@[i % (SPONGE_WIDTH as int)].bytes@,
    )
}

/// The cell `(s, col)` of the unrolled permutation is a hint reading
/// the three cells of state `s - 1`, carrying the mixing matrix and
/// the constants of round `s - 1`, and keeping component `col`.
pub open spec fn hint_cell_ok(
    cells: Seq<Value>,
    params: SpongeParams,
    in0: int,
    in1: int,
    zc: int,
    base: int,
    s: int,
    col: int,
) -> bool {
    let i = base + (s - 1) * (SPONGE_WIDTH as int) + col;
    &&& 0 <= i < cells.len()
    &&& match cells[i] {
        Value::Hint(h) => {
            &&& h.prev@.len() == SPONGE_WIDTH
            &&& h.prev@[0].index == state_cell(in0, in1, zc, base, s - 1, 0)
            &&& h.prev@[1].index == state_cell(in0, in1, zc, base, s - 1, 1)
            &&& h.prev@[2].index == state_cell(in0, in1, zc, base, s - 1, 2)
            &&& h.col == col
            &&& matrix_bytes(h.mds@) == matrix_bytes(params.mds@)
            &&& row_bytes(h.rc@) == row_bytes(params.round_constants@[s - 1]@)
        },
        _ => false,
    }
}

/// The cell table after the builder ran its first `steps` rounds: the
/// old cells untouched, the zero padding cell a constant zero, and
/// one hint cell per new state component.
pub open spec fn poseidon_cells_done(
    c0cells: Seq<Value>,
    cells: Seq<Value>,
    params: SpongeParams,
    in0: int,
    in1: int,
    zc: int,
    base: int,
    steps: int,
) -> bool {
    &&& cells.len() == base + (SPONGE_WIDTH as int) * steps
    &&& forall|j: int| 0 <= j < c0cells.len() ==> cells[j] == c0cells[j]
    &&& 0 <= zc < base
    &&& c0cells.len() <= base
    &&& match cells[zc] {
        Value::Constant(c) => c.wf() && c.val() == 0,
        _ => false,
    }
    &&& forall|s: int, col: int|
        1 <= s <= steps && 0 <= col < SPONGE_WIDTH ==> hint_cell_ok(
            cells,
            params,
            in0,
            in1,
            zc,
            base,
            s,
            col,
        )
}

/// What the row table satisfies after `steps` batches: the old
/// rows keep their places, then one permutation row per batch with
/// the interleaved wiring and the flattened constants.
pub open spec fn poseidon_gates_done(
    g0: Seq<Gate>,
    gates: Seq<Gate>,
    params: SpongeParams,
    in0: int,
    in1: int,
    zc: int,
    base: int,
    span: Span,
    steps: int,
) -> bool {
    &&& gates.len() == g0.len() + steps
    &&& forall|k: int| 0 <= k < g0.len() ==> gates[k] == g0[k]
    &&& forall|r: int|
        0 <= r < steps ==> {
            let g = #[trigger] gates[g0.len() + r];
            &&& g.typ == GateKind::Poseidon
            &&& g.vars@ == pos_row_vars(in0, in1, zc, base, r)
            &&& row_bytes(g.coeffs@) == pos_row_coeff_bytes(params, r)
            &&& g.span == span
        }
}

/// The constant cache after the builder interned its zero: either
/// zero was already cached and nothing moved, or exactly the zero
/// entry was added.
pub open spec fn poseidon_cached_done(
    t0: Seq<(FieldElem, CellVar)>,
    cached: Seq<(FieldElem, CellVar)>,
    zc: int,
) -> bool {
    match find_const_val(t0, 0) {
        Some(_) => cached == t0,
        None => {
            &&& cached.len() == t0.len() + 1
            &&& cached.drop_last() == t0
            &&& cached.last().1.index == zc
            &&& cached.last().0.val() == 0
        },
    }
}

/// The builder's operand list: one operand, a circuit value of
/// exactly two cells.
pub open spec fn poseidon_ok_shape(vars: Seq<Var>) -> bool {
    vars.len() == 1 && match vars[0] {
        Var::CircuitVar(cv) => cv.vars@.len() == 2,
        Var::Constant(_) => false,
    }
}

/// The input cells of a well-shaped operand list.
pub open spec fn input_cells(vars: Seq<Var>) -> Seq<CellVar> {
    match vars[0] {
        Var::CircuitVar(cv) => cv.vars@,
        Var::Constant(_) => Seq::empty(),
    }
}

/// Everything the permutation builder does to the compiler, and the
/// value it returns: the padding cell, `SPONGE_WIDTH * TOTAL_ROUNDS`
/// hint cells, `ROWS` permutation gate rows, one anchoring generic
/// row wiring the final state, and a three-cell circuit value naming
/// that state.
pub open spec fn poseidon_post(
    c0: Compiler,
    c1: Compiler,
    params: SpongeParams,
    in0: int,
    in1: int,
    span: Span,
    out: Var,
) -> bool {
    let zc: int = match find_const_val(c0.cached_constants@, 0) {
        Some(c) => c.index as int,
        None => c0.cells@.len() as int,
    };
    let base: int = if find_const_val(c0.cached_constants@, 0) is Some {
        c0.cells@.len() as int
    } else {
        c0.cells@.len() + 1int
    };
    &&& poseidon_cells_done(
        c0.cells@,
        c1.cells@,
        params,
        in0,
        in1,
        zc,
        base,
        TOTAL_ROUNDS as int,
    )
    &&& poseidon_gates_done(
        c0.gates@,
        c1.gates@.drop_last(),
        params,
        in0,
        in1,
        zc,
        base,
        span,
        ROWS as int,
    )
    &&& c1.gates@.len() == c0.gates@.len() + ROWS + 1
    &&& {
        let g = c1.gates@.last();
        &&& g.typ == GateKind::DoubleGeneric
        &&& g.vars@ == seq![
            ocv(state_cell(in0, in1, zc, base, TOTAL_ROUNDS as int, 0)),
            ocv(state_cell(in0, in1, zc, base, TOTAL_ROUNDS as int, 1)),
            ocv(state_cell(in0, in1, zc, base, TOTAL_ROUNDS as int, 2)),
        ]
        &&& g.coeffs@.len() == 0
        &&& g.span == span
    }
    &&& poseidon_cached_done(c0.cached_constants@, c1.cached_constants@, zc)
    &&& match out {
        Var::CircuitVar(cv) => {
            &&& cv.vars@.len() == SPONGE_WIDTH
            &&& cv.vars@[0].index == state_cell(in0, in1, zc, base, TOTAL_ROUNDS as int, 0)
            &&& cv.vars@[1].index == state_cell(in0, in1, zc, base, TOTAL_ROUNDS as int, 1)
            &&& cv.vars@[2].index == state_cell(in0, in1, zc, base, TOTAL_ROUNDS as int, 2)
            &&& cv.span == span
        },
        Var::Constant(_) => false,
    }
}

/// The states the builder has walked so far, as cell indices.
pub open spec fn states_ok(
    states: Seq<Vec<CellVar>>,
    in0: int,
    in1: int,
    zc: int,
    base: int,
    steps: int,
) -> bool {
    &&& states.len() == steps + 1
    &&& forall|t: int| 0 <= t <= steps ==> (#[trigger] states[t])@.len() == SPONGE_WIDTH
    &&& forall|t: int, col: int|
        0 <= t <= steps && 0 <= col < SPONGE_WIDTH ==> (#[trigger] states[t]@[col]).index
            == state_cell(in0, in1, zc, base, t, col)
}

/// The permutation builder: unrolls the full-round permutation of
/// the two input cells (padded with a constant zero) into `ROWS`
/// custom gate rows with the round constants as coefficients, one
/// lazily computed cell per state component, and one final generic
/// row anchoring the three output cells it returns.
#[verifier::rlimit(100)]
pub fn poseidon(compiler: &mut Compiler, params: &SpongeParams, vars: &Vec<Var>, span: Span) -> (res:
    Result<Option<Var>, Error>)
    requires
        old(compiler).wf(),
        params.wf(),
        vars_wf(vars@, old(compiler).cells@.len() as int),
    ensures
        final(compiler).wf(),
        match res {
            Ok(out) => {
                &&& poseidon_ok_shape(vars@)
                &&& out matches Some(v) && poseidon_post(
                    *old(compiler),
                    *final(compiler),
                    *params,
                    input_cells(vars@)[0].index as int,
                    input_cells(vars@)[1].index as int,
                    span,
                    v,
                )
            },
            Err(e) => {
                &&& !poseidon_ok_shape(vars@)
                &&& *final(compiler) == *old(compiler)
                &&& e.span == span
                &&& e.kind == ErrorKind::InternalFault(
                    if vars@.len() != 1 {
                        Fault::WrongArity
                    } else if vars@[0] is Constant {
                        Fault::NotCircuitVar
                    } else {
                        Fault::WrongArity
                    },
                )
            },
        },
{
    if vars.len() != 1 {
        return Err(Error { kind: ErrorKind::InternalFault(Fault::WrongArity), span });
    }
    let cvars = match &vars[0] {
        Var::CircuitVar(cv) => cv,
        Var::Constant(_) => {
            return Err(Error { kind: ErrorKind::InternalFault(Fault::NotCircuitVar), span });
        },
    };
    if cvars.vars.len() != 2 {
        return Err(Error { kind: ErrorKind::InternalFault(Fault::WrongArity), span });
    }
    let in0 = cvars.vars[0];
    let in1 = cvars.vars[1];

    let ghost c0 = *old(compiler);
    let ghost t0 = compiler.cached_constants@;

    // pad the input with the constant zero for the capacity slot
    let zero = FieldElem::zero();
    let ghost gzero = zero;
    let zc = compiler.constant(zero, span);
    proof {
        lemma_find_const_val_agree(t0, gzero);
    }
    let base = compiler.cells.len();
    let ghost in0i = in0.index as int;
    let ghost in1i = in1.index as int;
    let ghost zci = zc.index as int;
    let ghost basei = base as int;
    let ghost cells_a = compiler.cells@;
    let ghost cached_a = compiler.cached_constants;
    let ghost gates_a = compiler.gates;

    assert(poseidon_cells_done(c0.cells@, compiler.cells@, *params, in0i, in1i, zci, basei, 0));
    assert(poseidon_cached_done(t0, compiler.cached_constants@, zci));

    let mut states: Vec<Vec<CellVar>> = Vec::new();
    states.push(vec![in0, in1, zc]);

    // allocate one hint cell per state component of every round
    let mut s: usize = 0;
    while s < TOTAL_ROUNDS
        invariant
            compiler.wf(),
            params.wf(),
            s <= TOTAL_ROUNDS,
            in0i == in0.index as int,
            in1i == in1.index as int,
            zci == zc.index as int,
            in0.index < basei,
            in1.index < basei,
            basei == cells_a.len(),
            states_ok(states@, in0i, in1i, zci, basei, s as int),
            poseidon_cells_done(
                c0.cells@,
                compiler.cells@,
                *params,
                in0i,
                in1i,
                zci,
                basei,
                s as int,
            ),
            compiler.gates == gates_a,
            compiler.cached_constants == cached_a,
        decreases TOTAL_ROUNDS - s,
    {
        let p0 = states[s][0];
        let p1 = states[s][1];
        let p2 = states[s][2];
        proof {
            assert(p0.index == state_cell(in0i, in1i, zci, basei, s as int, 0));
            assert(p1.index == state_cell(in0i, in1i, zci, basei, s as int, 1));
            assert(p2.index == state_cell(in0i, in1i, zci, basei, s as int, 2));
        }
        let ghost cells_pre = compiler.cells@;
        let hint0 = Hint {
            prev: vec![p0, p1, p2],
            mds: copy_matrix(&params.mds),
            rc: copy_row(&params.round_constants[s]),
            col: 0,
        };
        let hint1 = Hint {
            prev: vec![p0, p1, p2],
            mds: copy_matrix(&params.mds),
            rc: copy_row(&params.round_constants[s]),
            col: 1,
        };
        let hint2 = Hint {
            prev: vec![p0, p1, p2],
            mds: copy_matrix(&params.mds),
            rc: copy_row(&params.round_constants[s]),
            col: 2,
        };
        proof {
            assert(matrix_bytes(hint0.mds@) =~~= matrix_bytes(params.mds@));
            assert(row_bytes(hint0.rc@) =~~= row_bytes(params.round_constants@[s as int]@));
            assert(matrix_bytes(hint1.mds@) =~~= matrix_bytes(params.mds@));
            assert(row_bytes(hint1.rc@) =~~= row_bytes(params.round_constants@[s as int]@));
            assert(matrix_bytes(hint2.mds@) =~~= matrix_bytes(params.mds@));
            assert(row_bytes(hint2.rc@) =~~= row_bytes(params.round_constants@[s as int]@));
            assert(matrix_fe_wf(hint0.mds@));
            assert(matrix_fe_wf(hint1.mds@));
            assert(matrix_fe_wf(hint2.mds@));
        }
        let ghost gh0 = hint0;
        let ghost gh1 = hint1;
        let ghost gh2 = hint2;
        let h0 = compiler.new_internal_var(Value::Hint(hint0));
        let h1 = compiler.new_internal_var(Value::Hint(hint1));
        let h2 = compiler.new_internal_var(Value::Hint(hint2));
        states.push(vec![h0, h1, h2]);
        proof {
            let si = s as int;
            assert(compiler.cells@.len() == basei + 3 * si + 3);
            assert(compiler.cells@[basei + 3 * si + 0] == Value::Hint(gh0));
            assert(compiler.cells@[basei + 3 * si + 1] == Value::Hint(gh1));
            assert(compiler.cells@[basei + 3 * si + 2] == Value::Hint(gh2));
            assert(hint_cell_ok(compiler.cells@, *params, in0i, in1i, zci, basei, si + 1, 0));
            assert(hint_cell_ok(compiler.cells@, *params, in0i, in1i, zci, basei, si + 1, 1));
            assert(hint_cell_ok(compiler.cells@, *params, in0i, in1i, zci, basei, si + 1, 2));
            assert forall|t: int, col: int|
                1 <= t <= si + 1 && 0 <= col < SPONGE_WIDTH implies hint_cell_ok(
                compiler.cells@,
                *params,
                in0i,
                in1i,
                zci,
                basei,
                t,
                col,
            ) by {
                if t <= si {
                    assert(hint_cell_ok(cells_pre, *params, in0i, in1i, zci, basei, t, col));
                    assert(basei + (t - 1) * (SPONGE_WIDTH as int) + col < cells_pre.len());
                }
            };
        }
        s += 1;
    }

    let ghost cells_b = compiler.cells;
    let ghost g0 = gates_a@;

    // one custom gate row per batch of five rounds
    let mut row: usize = 0;
    while row < ROWS
        invariant
            compiler.wf(),
            params.wf(),
            row <= ROWS,
            in0i == in0.index as int,
            in1i == in1.index as int,
            zci == zc.index as int,
            in0.index < basei,
            in1.index < basei,
            basei == cells_a.len(),
            g0 == gates_a@,
            states_ok(states@, in0i, in1i, zci, basei, TOTAL_ROUNDS as int),
            poseidon_cells_done(
                c0.cells@,
                compiler.cells@,
                *params,
                in0i,
                in1i,
                zci,
                basei,
                TOTAL_ROUNDS as int,
            ),
            compiler.cells == cells_b,
            compiler.cached_constants == cached_a,
            poseidon_gates_done(
                g0,
                compiler.gates@,
                *params,
                in0i,
                in1i,
                zci,
                basei,
                span,
                row as int,
            ),
        decreases ROWS - row,
    {
        let offset = row * ROUNDS_PER_ROW;
        let ncells = compiler.cells.len();
        proof {
            assert(ncells as int == basei + (SPONGE_WIDTH as int) * (TOTAL_ROUNDS as int));
            assert forall|t: int, col: int|
                0 <= t <= TOTAL_ROUNDS && 0 <= col < SPONGE_WIDTH implies (#[trigger] states@[t]@[
                col]).index < ncells by {
                assert(states@[t]@[col].index == state_cell(in0i, in1i, zci, basei, t, col));
            };
        }
        let mut gvars: Vec<Option<CellVar>> = Vec::new();
        gvars.push(Some(states[offset][0]));
        gvars.push(Some(states[offset][1]));
        gvars.push(Some(states[offset][2]));
        gvars.push(Some(states[offset + 4][0]));
        gvars.push(Some(states[offset + 4][1]));
        gvars.push(Some(states[offset + 4][2]));
        gvars.push(Some(states[offset + 1][0]));
        gvars.push(Some(states[offset + 1][1]));
        gvars.push(Some(states[offset + 1][2]));
        gvars.push(Some(states[offset + 2][0]));
        gvars.push(Some(states[offset + 2][1]));
        gvars.push(Some(states[offset + 2][2]));
        gvars.push(Some(states[offset + 3][0]));
        gvars.push(Some(states[offset + 3][1]));
        gvars.push(Some(states[offset + 3][2]));
        proof {
            let rv = pos_row_vars(in0i, in1i, zci, basei, row as int);
            assert forall|k: int| 0 <= k < 15 implies gvars@[k] == rv[k] by {
                assert(states@[row as int * 5 + 0]@.len() == 3);
                assert(states@[row as int * 5 + 1]@.len() == 3);
                assert(states@[row as int * 5 + 2]@.len() == 3);
                assert(states@[row as int * 5 + 3]@.len() == 3);
                assert(states@[row as int * 5 + 4]@.len() == 3);
            };
            assert(gvars@ =~= pos_row_vars(in0i, in1i, zci, basei, row as int));
            assert forall|k: int|
                0 <= k < gvars@.len() implies (match #[trigger] gvars@[k] {
                Some(c) => c.index < compiler.cells@.len(),
                None => true,
            }) by {
                assert(states@[row as int * 5 + 0]@.len() == 3);
                assert(states@[row as int * 5 + 1]@.len() == 3);
                assert(states@[row as int * 5 + 2]@.len() == 3);
                assert(states@[row as int * 5 + 3]@.len() == 3);
                assert(states@[row as int * 5 + 4]@.len() == 3);
            };
        }
        let mut coeffs: Vec<FieldElem> = Vec::new();
        let mut ci: usize = 0;
        while ci < NUM_REGISTERS
            invariant
                ci <= NUM_REGISTERS,
                params.wf(),
                row < ROWS,
                offset == row * ROUNDS_PER_ROW,
                coeffs@.len() == ci,
                forall|j: int|
                    0 <= j < ci ==> (#[trigger] coeffs@[j]).bytes@ == params.round_constants@[
                        offset + j / (SPONGE_WIDTH as int)]@[j % (SPONGE_WIDTH as int)].bytes@,
            decreases NUM_REGISTERS - ci,
        {
            coeffs.push(params.round_constants[offset + ci / SPONGE_WIDTH][ci % SPONGE_WIDTH].duplicate());
            ci += 1;
        }
        proof {
            assert(row_bytes(coeffs@) =~= pos_row_coeff_bytes(*params, row as int));
        }
        compiler.gates(GateKind::Poseidon, gvars, coeffs, span);
        row += 1;
    }

    // the anchoring generic row wiring the final state
    let f0 = states[TOTAL_ROUNDS][0];
    let f1 = states[TOTAL_ROUNDS][1];
    let f2 = states[TOTAL_ROUNDS][2];
    let final_row = vec![Some(f0), Some(f1), Some(f2)];
    compiler.gates(GateKind::DoubleGeneric, final_row, Vec::new(), span);

    let out = Var::CircuitVar(CellVars { vars: vec![f0, f1, f2], span });
    Ok(Some(out))
}

/// The reference permutation: the state after `s` full rounds on the
/// initial state `[x, y, 0]`.
pub open spec fn perm_state(params: SpongeParams, x: nat, y: nat, s: int) -> Seq<nat>
    decreases s,
{
    if s <= 0 {
        seq![x, y, 0nat]
    } else {
        round_out(
            matrix_vals(params.mds@),
            row_vals(params.round_constants@[s - 1]@),
            perm_state(params, x, y, s - 1),
        )
    }
}

/// Equal canonical bytes mean equal values, elementwise.
proof fn lemma_row_bytes_vals(a: Seq<FieldElem>, b: Seq<FieldElem>)
    requires
        row_bytes(a) == row_bytes(b),
    ensures
        row_vals(a) == row_vals(b),
{
    assert(row_bytes(a).len() == a.len());
    assert(row_bytes(b).len() == b.len());
    assert(a.len() == b.len());
    assert forall|i: int| 0 <= i < a.len() implies row_vals(a)[i] == row_vals(b)[i] by {
        assert(row_bytes(a)[i] == row_bytes(b)[i]);
        assert(a[i].bytes@ == b[i].bytes@);
    };
    assert(row_vals(a) =~= row_vals(b));
}

/// Equal canonical bytes mean equal values, for whole matrices.
proof fn lemma_matrix_bytes_vals(a: Seq<Vec<FieldElem>>, b: Seq<Vec<FieldElem>>)
    requires
        matrix_bytes(a) == matrix_bytes(b),
    ensures
        matrix_vals(a) == matrix_vals(b),
{
    assert(matrix_bytes(a).len() == a.len());
    assert(matrix_bytes(b).len() == b.len());
    assert(a.len() == b.len());
    assert forall|i: int| 0 <= i < a.len() implies matrix_vals(a)[i] == matrix_vals(b)[i] by {
        assert(matrix_bytes(a)[i] == matrix_bytes(b)[i]);
        lemma_row_bytes_vals(a[i]@, b[i]@);
    };
    assert(matrix_vals(a) =~= matrix_vals(b));
}

/// After the builder ran, the cells of state `s` resolve to the
/// reference permutation's state `s`, whenever the two input cells
/// resolve to `x` and `y`.
#[verifier::rlimit(100)]
proof fn lemma_state_values(
    cells: Seq<Value>,
    c0cells: Seq<Value>,
    params: SpongeParams,
    in0: int,
    in1: int,
    zc: int,
    base: int,
    inputs: Seq<nat>,
    x: nat,
    y: nat,
    s: int,
)
    requires
        poseidon_cells_done(c0cells, cells, params, in0, in1, zc, base, TOTAL_ROUNDS as int),
        0 <= in0 < base,
        0 <= in1 < base,
        0 <= s <= TOTAL_ROUNDS,
        crate::witness::cell_value(cells, inputs, in0) == Some(x),
        crate::witness::cell_value(cells, inputs, in1) == Some(y),
    ensures
        forall|col: int|
            0 <= col < SPONGE_WIDTH ==> crate::witness::cell_value(
                cells,
                inputs,
                state_cell(in0, in1, zc, base, s, col),
            ) == Some(perm_state(params, x, y, s)[col]),
    decreases s,
{
    if s == 0 {
        assert(crate::witness::cell_value(cells, inputs, zc) == Some(0nat));
    } else {
        lemma_state_values(cells, c0cells, params, in0, in1, zc, base, inputs, x, y, s - 1);
        assert forall|col: int|
            0 <= col < SPONGE_WIDTH implies crate::witness::cell_value(
            cells,
            inputs,
            state_cell(in0, in1, zc, base, s, col),
        ) == Some(perm_state(params, x, y, s)[col]) by {
            let i = base + (s - 1) * (SPONGE_WIDTH as int) + col;
            assert(hint_cell_ok(cells, params, in0, in1, zc, base, s, col));
            match cells[i] {
                Value::Hint(h) => {
                    lemma_matrix_bytes_vals(h.mds@, params.mds@);
                    lemma_row_bytes_vals(h.rc@, params.round_constants@[s - 1]@);
                    assert(h.prev@[0].index < i && h.prev@[1].index < i && h.prev@[2].index < i);
                    assert(seq![
                        perm_state(params, x, y, s - 1)[0],
                        perm_state(params, x, y, s - 1)[1],
                        perm_state(params, x, y, s - 1)[2],
                    ] =~= perm_state(params, x, y, s - 1));
                },
                _ => {
                    assert(false);
                },
            }
        };
    }
}

/// The core correctness law: resolving the three output cells of the
/// permutation builder under an environment in which the two input
/// cells resolve to `x` and `y` yields exactly the reference
/// permutation of `[x, y, 0]` over the full round count.
pub proof fn lemma_poseidon_witness(
    c0: Compiler,
    c1: Compiler,
    params: SpongeParams,
    in0: int,
    in1: int,
    span: Span,
    out: Var,
    inputs: Seq<nat>,
    x: nat,
    y: nat,
)
    requires
        poseidon_post(c0, c1, params, in0, in1, span, out),
        0 <= in0 < c0.cells@.len(),
        0 <= in1 < c0.cells@.len(),
        crate::witness::cell_value(c1.cells@, inputs, in0) == Some(x),
        crate::witness::cell_value(c1.cells@, inputs, in1) == Some(y),
    ensures
        out matches Var::CircuitVar(cv) && forall|col: int|
            0 <= col < SPONGE_WIDTH ==> crate::witness::cell_value(
                c1.cells@,
                inputs,
                cv.vars@[col].index as int,
            ) == Some(perm_state(params, x, y, TOTAL_ROUNDS as int)[col]),
{
    let zc: int = match find_const_val(c0.cached_constants@, 0) {
        Some(c) => c.index as int,
        None => c0.cells@.len() as int,
    };
    let base: int = if find_const_val(c0.cached_constants@, 0) is Some {
        c0.cells@.len() as int
    } else {
        c0.cells@.len() + 1int
    };
    lemma_state_values(
        c1.cells@,
        c0.cells@,
        params,
        in0,
        in1,
        zc,
        base,
        inputs,
        x,
        y,
        TOTAL_ROUNDS as int,
    );
}

/// Determinism: building the permutation twice, from the same
/// compiler state, with the same parameters, inputs and span, yields
/// cell tables of the same length and gate tables that agree row by
/// row — same kind, same wiring, byte-identical coefficients, same
/// span — and the same output cells.
pub proof fn lemma_poseidon_deterministic(
    c0: Compiler,
    c1a: Compiler,
    c1b: Compiler,
    params: SpongeParams,
    in0: int,
    in1: int,
    span: Span,
    outa: Var,
    outb: Var,
)
    requires
        poseidon_post(c0, c1a, params, in0, in1, span, outa),
        poseidon_post(c0, c1b, params, in0, in1, span, outb),
    ensures
        c1a.cells@.len() == c1b.cells@.len(),
        c1a.gates@.len() == c1b.gates@.len(),
        forall|k: int|
            0 <= k < c1a.gates@.len() ==> {
                let ga = #[trigger] c1a.gates@[k];
                let gb = c1b.gates@[k];
                &&& ga.typ == gb.typ
                &&& ga.vars@ == gb.vars@
                &&& row_bytes(ga.coeffs@) == row_bytes(gb.coeffs@)
                &&& ga.span == gb.span
            },
        outa matches Var::CircuitVar(cva) && outb matches Var::CircuitVar(cvb)
            && cva.vars@ =~= cvb.vars@ && cva.span == cvb.span,
{
    assert forall|k: int| 0 <= k < c1a.gates@.len() implies {
        let ga = #[trigger] c1a.gates@[k];
        let gb = c1b.gates@[k];
        &&& ga.typ == gb.typ
        &&& ga.vars@ == gb.vars@
        &&& row_bytes(ga.coeffs@) == row_bytes(gb.coeffs@)
        &&& ga.span == gb.span
    } by {
        let n0 = c0.gates@.len() as int;
        let na = c1a.gates@.len() as int;
        if k < n0 {
            assert(c1a.gates@[k] == c1a.gates@.drop_last()[k]);
            assert(c1b.gates@[k] == c1b.gates@.drop_last()[k]);
            assert(c1a.gates@[k] == c0.gates@[k]);
            assert(c1b.gates@[k] == c0.gates@[k]);
        } else if k < n0 + ROWS {
            let r = k - n0;
            assert(c1a.gates@[k] == c1a.gates@.drop_last()[c0.gates@.len() + r]);
            assert(c1b.gates@[k] == c1b.gates@.drop_last()[c0.gates@.len() + r]);
        } else {
            assert(k == na - 1);
            assert(c1a.gates@[k] == c1a.gates@.last());
            assert(c1b.gates@[k] == c1b.gates@.last());
            assert(row_bytes(c1a.gates@[k].coeffs@) =~= row_bytes(c1b.gates@[k].coeffs@));
        }
    };
    match (outa, outb) {
        (Var::CircuitVar(cva), Var::CircuitVar(cvb)) => {
            assert(cva.vars@ =~= cvb.vars@) by {
                assert(cva.vars@.len() == 3 && cvb.vars@.len() == 3);
                assert(forall|col: int|
                    0 <= col < 3 ==> (#[trigger] cva.vars@[col]).index == cvb.vars@[col].index);
            };
        },
        _ => {},
    }
}

} // verus!
