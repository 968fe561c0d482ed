//! The satisfaction checker: evaluates every gate at every row of the grid.
//!
//! A polynomial identity holds at a row exactly when it comes out as the
//! zero of the field; a row whose selector cell reads zero is exempt.  The
//! instance vector must cover every instance row a live gate queries within
//! the assigned rows; that requirement is checked first, in either mode,
//! before any gate is reported.  Beyond the assigned rows a missing instance
//! entry reads as zero, like any blank cell.  Strict mode then stops at the
//! first failing gate and row; diagnostic mode collects every violation.

use crate::columns::ColumnKind;
use crate::config::{ConstraintSystem, Gate};
use crate::expr::Expr;
use crate::field::{add_f, mul_f, sub_f, Felt};
use crate::grid::Grid;
use vstd::prelude::*;

verus! {

/// One failing gate at one row.
#[derive(Clone, Copy, Debug, PartialEq, Eq, Structural)]
pub struct Violation {
    pub gate: usize,
    pub row: usize,
}

/// How the checker reports: fail on the first problem, or collect them all.
#[derive(Clone, Copy, Debug, PartialEq, Eq, Structural)]
pub enum CheckMode {
    Strict,
    Diagnostic,
}

/// Why a check run rejected the grid.
#[derive(Clone, Debug, PartialEq, Eq)]
pub enum CheckError {
    /// The gates query instance rows the vector does not cover: it must hold
    /// at least `needed` entries but only `got` were supplied.
    InstanceLengthMismatch { needed: usize, got: usize },
    /// Strict mode: the first failing gate and row in evaluation order.
    ConstraintNotSatisfied { gate: usize, row: usize },
    /// Diagnostic mode: every failing gate and row, in evaluation order.
    ConstraintsNotSatisfied { violations: Vec<Violation> },
}

/// Every element of the instance vector is a reduced residue.
pub open spec fn inst_wf(inst: Seq<Felt>) -> bool {
    forall|i: int| 0 <= i < inst.len() ==> (#[trigger] inst[i]).inv()
}

/// The larger of two integers.
pub open spec fn imax(a: int, b: int) -> int {
    if a < b {
        b
    } else {
        a
    }
}

/// The value of a polynomial at `row`, over the grid and the instance
/// vector, or `Err(j)` for the first instance query (in evaluation order)
/// that referenced an uncovered row `j` within the assigned rows.  Advice
/// and fixed queries read unassigned or out-of-range cells as zero; so do
/// instance queries before row zero or at rows the cursor never reached.
pub open spec fn eval_expr(e: Expr, g: Grid, inst: Seq<Felt>, row: int) -> Result<nat, int>
    decreases e,
{
    match e {
        Expr::Constant(f) => Ok(f@),
        Expr::Query(col, rot) => {
            let j = row + rot.offset as int;
            match col.kind {
                ColumnKind::Advice => Ok(g.advice_val(col.index as int, j)),
                ColumnKind::Fixed => Ok(g.fixed_val(col.index as int, j)),
                ColumnKind::Instance => if j < 0 {
                    Ok(0)
                } else if j < inst.len() {
                    Ok(inst[j]@)
                } else if j < g.used as int {
                    Err(j)
                } else {
                    Ok(0)
                },
            }
        },
        Expr::Add(l, r) => match (eval_expr(*l, g, inst, row), eval_expr(*r, g, inst, row)) {
            (Ok(x), Ok(y)) => Ok(add_f(x, y)),
            (Err(j), _) => Err(j),
            (_, Err(j)) => Err(j),
        },
        Expr::Sub(l, r) => match (eval_expr(*l, g, inst, row), eval_expr(*r, g, inst, row)) {
            (Ok(x), Ok(y)) => Ok(sub_f(x, y)),
            (Err(j), _) => Err(j),
            (_, Err(j)) => Err(j),
        },
        Expr::Mul(l, r) => match (eval_expr(*l, g, inst, row), eval_expr(*r, g, inst, row)) {
            (Ok(x), Ok(y)) => Ok(mul_f(x, y)),
            (Err(j), _) => Err(j),
            (_, Err(j)) => Err(j),
        },
    }
}

/// Evaluates a polynomial at `row`.  On success the result is a reduced
/// residue equal to the specified value; on an uncovered instance query the
/// error carries the instance length that query alone would have needed.
pub fn eval(e: &Expr, g: &Grid, inst: &Vec<Felt>, row: usize) -> (r: Result<Felt, usize>)
    requires
        e.wf(),
        g.wf(),
        inst_wf(inst@),
        row < g.rows,
    ensures
        eval_expr(*e, *g, inst@, row as int) matches Ok(v) ==> (r matches Ok(f) && f.inv() && f@
            == v),
        eval_expr(*e, *g, inst@, row as int) matches Err(j) ==> r == Err::<Felt, usize>(
            ((j + 1) as usize),
        ),
    decreases *e,
{
    match e {
        Expr::Constant(f) => Ok(*f),
        Expr::Query(col, rot) => {
            let j: i64 = row as i64 + (rot.offset as i64);
            match col.kind {
                ColumnKind::Advice => Ok(g.advice_at(col.index, j)),
                ColumnKind::Fixed => Ok(g.fixed_at(col.index, j)),
                ColumnKind::Instance => {
                    if j < 0 {
                        Ok(Felt::zero())
                    } else if (j as usize) < inst.len() {
                        Ok(inst[j as usize])
                    } else if j < g.used as i64 {
                        Err((j + 1) as usize)
                    } else {
                        Ok(Felt::zero())
                    }
                },
            }
        },
        Expr::Add(l, r) => {
            let x = match eval(&**l, g, inst, row) {
                Ok(x) => x,
                Err(n) => {
                    return Err(n);
                },
            };
            let y = match eval(&**r, g, inst, row) {
                Ok(y) => y,
                Err(n) => {
                    return Err(n);
                },
            };
            Ok(x.add(y))
        },
        Expr::Sub(l, r) => {
            let x = match eval(&**l, g, inst, row) {
                Ok(x) => x,
                Err(n) => {
                    return Err(n);
                },
            };
            let y = match eval(&**r, g, inst, row) {
                Ok(y) => y,
                Err(n) => {
                    return Err(n);
                },
            };
            Ok(x.sub(y))
        },
        Expr::Mul(l, r) => {
            let x = match eval(&**l, g, inst, row) {
                Ok(x) => x,
                Err(n) => {
                    return Err(n);
                },
            };
            let y = match eval(&**r, g, inst, row) {
                Ok(y) => y,
                Err(n) => {
                    return Err(n);
                },
            };
            Ok(x.mul(y))
        },
    }
}

/// The instance length a polynomial needs at `row`: one more than the
/// highest instance row it queries among the assigned rows `[0, used)`.
pub open spec fn expr_inst_need(e: Expr, used: int, row: int) -> int
    decreases e,
{
    match e {
        Expr::Constant(_) => 0,
        Expr::Query(col, rot) => {
            let j = row + rot.offset as int;
            if col.kind == ColumnKind::Instance && 0 <= j < used {
                j + 1
            } else {
                0
            }
        },
        Expr::Add(l, r) => imax(expr_inst_need(*l, used, row), expr_inst_need(*r, used, row)),
        Expr::Sub(l, r) => imax(expr_inst_need(*l, used, row), expr_inst_need(*r, used, row)),
        Expr::Mul(l, r) => imax(expr_inst_need(*l, used, row), expr_inst_need(*r, used, row)),
    }
}

/// A polynomial's instance need lies between zero and the assigned rows.
proof fn lemma_need_bounds(e: Expr, used: int, row: int)
    requires
        used >= 0,
    ensures
        0 <= expr_inst_need(e, used, row) <= used,
    decreases e,
{
    match e {
        Expr::Constant(_) => {},
        Expr::Query(_, _) => {},
        Expr::Add(l, r) => {
            lemma_need_bounds(*l, used, row);
            lemma_need_bounds(*r, used, row);
        },
        Expr::Sub(l, r) => {
            lemma_need_bounds(*l, used, row);
            lemma_need_bounds(*r, used, row);
        },
        Expr::Mul(l, r) => {
            lemma_need_bounds(*l, used, row);
            lemma_need_bounds(*r, used, row);
        },
    }
}

/// A polynomial whose instance need is covered evaluates without error.
proof fn lemma_eval_ok_if_covered(e: Expr, g: Grid, inst: Seq<Felt>, row: int)
    requires
        expr_inst_need(e, g.used as int, row) <= inst.len(),
    ensures
        eval_expr(e, g, inst, row) is Ok,
    decreases e,
{
    match e {
        Expr::Constant(_) => {},
        Expr::Query(_, _) => {},
        Expr::Add(l, r) => {
            lemma_eval_ok_if_covered(*l, g, inst, row);
            lemma_eval_ok_if_covered(*r, g, inst, row);
        },
        Expr::Sub(l, r) => {
            lemma_eval_ok_if_covered(*l, g, inst, row);
            lemma_eval_ok_if_covered(*r, g, inst, row);
        },
        Expr::Mul(l, r) => {
            lemma_eval_ok_if_covered(*l, g, inst, row);
            lemma_eval_ok_if_covered(*r, g, inst, row);
        },
    }
}

/// The instance length a polynomial needs at `row`, as a machine integer.
fn inst_need(e: &Expr, used: usize, row: usize) -> (m: usize)
    requires
        used <= 0x4000_0000,
        row <= 0x4000_0000,
    ensures
        m == expr_inst_need(*e, used as int, row as int),
        m <= used,
    decreases *e,
{
    proof {
        lemma_need_bounds(*e, used as int, row as int);
    }
    match e {
        Expr::Constant(_) => 0,
        Expr::Query(col, rot) => {
            let j: i64 = row as i64 + (rot.offset as i64);
            match col.kind {
                ColumnKind::Advice => 0,
                ColumnKind::Fixed => 0,
                ColumnKind::Instance => {
                    if 0 <= j && j < used as i64 {
                        (j + 1) as usize
                    } else {
                        0
                    }
                },
            }
        },
        Expr::Add(l, r) => {
            let x = inst_need(&**l, used, row);
            let y = inst_need(&**r, used, row);
            if x < y {
                y
            } else {
                x
            }
        },
        Expr::Sub(l, r) => {
            let x = inst_need(&**l, used, row);
            let y = inst_need(&**r, used, row);
            if x < y {
                y
            } else {
                x
            }
        },
        Expr::Mul(l, r) => {
            let x = inst_need(&**l, used, row);
            let y = inst_need(&**r, used, row);
            if x < y {
                y
            } else {
                x
            }
        },
    }
}

/// Whether a gate is switched off at `row` by its selector reading zero.
pub open spec fn sel_off(gt: Gate, g: Grid, row: int) -> bool {
    match gt.selector {
        Some(s) => g.fixed_val(s.index as int, row) == 0,
        None => false,
    }
}

/// The instance length the gates `[0, i)` need at `row`; a switched-off
/// gate needs nothing there.
pub open spec fn need_in_row(gates: Seq<Gate>, g: Grid, row: int, i: int) -> int
    decreases i,
{
    if i <= 0 {
        0
    } else {
        imax(
            need_in_row(gates, g, row, i - 1),
            if sel_off(gates[i - 1], g, row) {
                0
            } else {
                expr_inst_need(gates[i - 1].poly, g.used as int, row)
            },
        )
    }
}

/// The instance length all gates need over the rows `[0, row)`.
pub open spec fn need_upto(gates: Seq<Gate>, g: Grid, row: int) -> int
    decreases row,
{
    if row <= 0 {
        0
    } else {
        imax(need_upto(gates, g, row - 1), need_in_row(gates, g, row - 1, gates.len() as int))
    }
}

/// Per-row instance needs are never negative.
proof fn lemma_need_in_row_nonneg(gates: Seq<Gate>, g: Grid, row: int, i: int)
    ensures
        need_in_row(gates, g, row, i) >= 0,
    decreases i,
{
    if i > 0 {
        lemma_need_in_row_nonneg(gates, g, row, i - 1);
    }
}

/// The total instance need is never negative.
proof fn lemma_need_upto_nonneg(gates: Seq<Gate>, g: Grid, row: int)
    ensures
        need_upto(gates, g, row) >= 0,
    decreases row,
{
    if row > 0 {
        lemma_need_upto_nonneg(gates, g, row - 1);
    }
}

/// A live gate's need at a row is covered by the row's need.
proof fn lemma_need_in_row_le(gates: Seq<Gate>, g: Grid, row: int, i: int, n: int)
    requires
        0 <= i < n <= gates.len(),
        !sel_off(gates[i], g, row),
    ensures
        expr_inst_need(gates[i].poly, g.used as int, row) <= need_in_row(gates, g, row, n),
    decreases n,
{
    if i < n - 1 {
        lemma_need_in_row_le(gates, g, row, i, n - 1);
    }
}

/// A row's need is covered by the need over any longer row range.
proof fn lemma_need_upto_le(gates: Seq<Gate>, g: Grid, row: int, rows: int)
    requires
        0 <= row < rows,
    ensures
        need_in_row(gates, g, row, gates.len() as int) <= need_upto(gates, g, rows),
    decreases rows,
{
    if row < rows - 1 {
        lemma_need_upto_le(gates, g, row, rows - 1);
    }
}

/// At `row` the identity is live and its polynomial comes out nonzero.
pub open spec fn cell_unsat(gt: Gate, g: Grid, inst: Seq<Felt>, row: int) -> bool {
    &&& !sel_off(gt, g, row)
    &&& (eval_expr(gt.poly, g, inst, row) matches Ok(v) && v != 0)
}

/// Every gate passes at every row below `rows`.
pub open spec fn all_ok(gates: Seq<Gate>, g: Grid, inst: Seq<Felt>, rows: int) -> bool {
    forall|r: int, i: int|
        0 <= r < rows && 0 <= i < gates.len() ==> !#[trigger] cell_unsat(gates[i], g, inst, r)
}

/// No gate fails strictly before `(row, i)` in evaluation order
/// (row-major, gates in order within a row).
pub open spec fn clean_before(gates: Seq<Gate>, g: Grid, inst: Seq<Felt>, row: int, i: int) -> bool {
    forall|r2: int, i2: int|
        0 <= r2 && 0 <= i2 < gates.len() && (r2 < row || (r2 == row && i2 < i))
            ==> !#[trigger] cell_unsat(gates[i2], g, inst, r2)
}

/// The violations among gates `[0, i)` at `row`, in gate order.
pub open spec fn viols_in_row(gates: Seq<Gate>, g: Grid, inst: Seq<Felt>, row: int, i: int) -> Seq<
    Violation,
>
    decreases i,
{
    if i <= 0 {
        Seq::empty()
    } else {
        viols_in_row(gates, g, inst, row, i - 1) + (if cell_unsat(gates[i - 1], g, inst, row) {
            seq![(Violation { gate: (i - 1) as usize, row: row as usize })]
        } else {
            Seq::empty()
        })
    }
}

/// The violations in rows `[0, row)`, row-major, each row in gate order.
pub open spec fn viols_upto(gates: Seq<Gate>, g: Grid, inst: Seq<Felt>, row: int) -> Seq<Violation>
    decreases row,
{
    if row <= 0 {
        Seq::empty()
    } else {
        viols_upto(gates, g, inst, row - 1) + viols_in_row(
            gates,
            g,
            inst,
            row - 1,
            gates.len() as int,
        )
    }
}

/// An unsatisfied cell makes its row's violation list nonempty.
proof fn lemma_row_has_viol(gates: Seq<Gate>, g: Grid, inst: Seq<Felt>, row: int, i: int, n: int)
    requires
        0 <= i < n <= gates.len(),
        cell_unsat(gates[i], g, inst, row),
    ensures
        viols_in_row(gates, g, inst, row, n).len() > 0,
    decreases n,
{
    if i < n - 1 {
        lemma_row_has_viol(gates, g, inst, row, i, n - 1);
    }
}

/// An unsatisfied cell anywhere below `rows` makes the full list nonempty.
proof fn lemma_viols_nonempty(gates: Seq<Gate>, g: Grid, inst: Seq<Felt>, rows: int, row: int, i: int)
    requires
        0 <= row < rows,
        0 <= i < gates.len(),
        cell_unsat(gates[i], g, inst, row),
    ensures
        viols_upto(gates, g, inst, rows).len() > 0,
    decreases rows,
{
    if row < rows - 1 {
        lemma_viols_nonempty(gates, g, inst, rows - 1, row, i);
    } else {
        lemma_row_has_viol(gates, g, inst, row, i, gates.len() as int);
    }
}

/// Under a fully passing grid the per-row violation list is empty.
proof fn lemma_row_viols_empty(
    gates: Seq<Gate>,
    g: Grid,
    inst: Seq<Felt>,
    rows: int,
    row: int,
    n: int,
)
    requires
        0 <= row < rows,
        all_ok(gates, g, inst, rows),
        0 <= n <= gates.len(),
    ensures
        viols_in_row(gates, g, inst, row, n).len() == 0,
    decreases n,
{
    if n > 0 {
        lemma_row_viols_empty(gates, g, inst, rows, row, n - 1);
        assert(!cell_unsat(gates[n - 1], g, inst, row));
    }
}

/// Under a fully passing grid the whole violation list is empty.
proof fn lemma_viols_empty(gates: Seq<Gate>, g: Grid, inst: Seq<Felt>, rows: int, row: int)
    requires
        all_ok(gates, g, inst, rows),
        0 <= row <= rows,
    ensures
        viols_upto(gates, g, inst, row).len() == 0,
    decreases row,
{
    if row > 0 {
        lemma_viols_empty(gates, g, inst, rows, row - 1);
        lemma_row_viols_empty(gates, g, inst, rows, row - 1, gates.len() as int);
    }
}

/// The full outcome contract of [`check`]: what each verdict means, for
/// either mode, over all `g.rows` rows.  An instance vector shorter than
/// what the live gates query within the assigned rows is rejected first,
/// in either mode; otherwise the verdict reports gate satisfaction.
pub open spec fn check_post(
    cs: ConstraintSystem,
    g: Grid,
    inst: Seq<Felt>,
    mode: CheckMode,
    r: Result<(), CheckError>,
) -> bool {
    let gates = cs.gates@;
    let rows = g.rows as int;
    let needed = need_upto(gates, g, rows);
    if inst.len() < needed {
        r == Err::<(), CheckError>(
            CheckError::InstanceLengthMismatch {
                needed: (needed as usize),
                got: (inst.len() as usize),
            },
        )
    } else {
        &&& (r is Ok <==> all_ok(gates, g, inst, rows))
        &&& (mode == CheckMode::Strict ==> forall|r2: int, i2: int|
            0 <= r2 < rows && 0 <= i2 < gates.len() && #[trigger] cell_unsat(gates[i2], g, inst, r2)
                && clean_before(gates, g, inst, r2, i2) ==> r == Err::<(), CheckError>(
                CheckError::ConstraintNotSatisfied { gate: (i2 as usize), row: (r2 as usize) },
            ))
        &&& (mode == CheckMode::Diagnostic ==> (r matches Err(e) ==> (e
            matches CheckError::ConstraintsNotSatisfied { violations } && violations@ == viols_upto(
            gates,
            g,
            inst,
            rows,
        ))))
    }
}

/// Checks every registered gate at every row of the grid against the
/// instance vector.  The instance-length requirement is verified first, in
/// either mode, so a too-short vector is reported before any gate is; then
/// strict mode reports the first failing gate and row in evaluation order,
/// and diagnostic mode collects every violation in one pass.
#[verifier::loop_isolation(false)]
pub fn check(cs: &ConstraintSystem, g: &Grid, inst: &Vec<Felt>, mode: CheckMode) -> (r: Result<
    (),
    CheckError,
>)
    requires
        cs.wf(),
        g.wf(),
        inst_wf(inst@),
    ensures
        check_post(*cs, *g, inst@, mode, r),
{
    let ghost gates = cs.gates@;
    let rows = g.rows;
    let used = g.used;
    let ngates = cs.gates.len();

    let mut needed: usize = 0;
    for row in 0..rows
        invariant
            needed == need_upto(gates, *g, row as int),
            needed <= used,
    {
        proof {
            lemma_need_upto_nonneg(gates, *g, row as int);
        }
        for i in 0..ngates
            invariant
                needed == imax(
                    need_upto(gates, *g, row as int),
                    need_in_row(gates, *g, row as int, i as int),
                ),
                needed <= used,
        {
            let gt = &cs.gates[i];
            let off: bool = match &gt.selector {
                Some(s) => {
                    let sv = g.fixed_at(s.index, row as i64);
                    sv.value() == 0
                },
                None => false,
            };
            proof {
                assert(off == sel_off(gates[i as int], *g, row as int));
                lemma_need_in_row_nonneg(gates, *g, row as int, i as int);
            }
            if !off {
                let m = inst_need(&gt.poly, used, row);
                if m > needed {
                    needed = m;
                }
            }
        }
        proof {
            lemma_need_in_row_nonneg(gates, *g, row as int, ngates as int);
        }
    }
    if inst.len() < needed {
        return Err(CheckError::InstanceLengthMismatch { needed, got: inst.len() });
    }

    let mut vs: Vec<Violation> = Vec::new();
    for row in 0..rows
        invariant
            need_upto(gates, *g, rows as int) <= inst@.len(),
            mode == CheckMode::Strict ==> clean_before(gates, *g, inst@, row as int, 0),
            mode == CheckMode::Strict ==> vs@.len() == 0,
            mode == CheckMode::Diagnostic ==> vs@ == viols_upto(gates, *g, inst@, row as int),
    {
        for i in 0..ngates
            invariant
                need_upto(gates, *g, rows as int) <= inst@.len(),
                mode == CheckMode::Strict ==> clean_before(gates, *g, inst@, row as int, i as int),
                mode == CheckMode::Strict ==> vs@.len() == 0,
                mode == CheckMode::Diagnostic ==> vs@ == viols_upto(gates, *g, inst@, row as int)
                    + viols_in_row(gates, *g, inst@, row as int, i as int),
        {
            let gt = &cs.gates[i];
            let off: bool = match &gt.selector {
                Some(s) => {
                    let sv = g.fixed_at(s.index, row as i64);
                    sv.value() == 0
                },
                None => false,
            };
            proof {
                assert(off == sel_off(gates[i as int], *g, row as int));
            }
            if !off {
                match eval(&gt.poly, g, inst, row) {
                    Err(_) => {
                        proof {
                            lemma_need_in_row_le(
                                gates,
                                *g,
                                row as int,
                                i as int,
                                ngates as int,
                            );
                            lemma_need_upto_le(gates, *g, row as int, rows as int);
                            lemma_eval_ok_if_covered(
                                gates[i as int].poly,
                                *g,
                                inst@,
                                row as int,
                            );
                            assert(false);
                        }
                        // unreachable: the first pass proved the instance
                        // covers every row a live gate queries
                        return Ok(());
                    },
                    Ok(v) => {
                        if v.value() != 0 {
                            proof {
                                assert(cell_unsat(gates[i as int], *g, inst@, row as int));
                            }
                            if mode == CheckMode::Strict {
                                proof {
                                    let result = Err::<(), CheckError>(
                                        CheckError::ConstraintNotSatisfied { gate: i, row },
                                    );
                                    assert(!all_ok(gates, *g, inst@, rows as int));
                                    assert forall|r2: int, i2: int|
                                        0 <= r2 < rows as int && 0 <= i2 < gates.len()
                                            && #[trigger] cell_unsat(gates[i2], *g, inst@, r2)
                                            && clean_before(gates, *g, inst@, r2, i2) implies result
                                        == Err::<(), CheckError>(
                                        CheckError::ConstraintNotSatisfied {
                                            gate: (i2 as usize),
                                            row: (r2 as usize),
                                        },
                                    ) by {
                                        if r2 < row as int || (r2 == row as int && i2 < i as int) {
                                            assert(!cell_unsat(gates[i2], *g, inst@, r2));
                                        } else if (row as int) < r2 || (r2 == row as int && (
                                        i as int) < i2) {
                                            assert(!cell_unsat(gates[i as int], *g, inst@, row as int));
                                        } else {
                                            assert(r2 == row as int && i2 == i as int);
                                        }
                                    }
                                }
                                return Err(CheckError::ConstraintNotSatisfied { gate: i, row });
                            } else {
                                vs.push(Violation { gate: i, row });
                                proof {
                                    assert(viols_in_row(gates, *g, inst@, row as int, i as int + 1)
                                        =~= viols_in_row(gates, *g, inst@, row as int, i as int)
                                        + seq![(Violation { gate: i, row })]);
                                    assert(vs@ =~= viols_upto(gates, *g, inst@, row as int)
                                        + viols_in_row(gates, *g, inst@, row as int, i as int + 1));
                                }
                            }
                        } else {
                            proof {
                                assert(!cell_unsat(gates[i as int], *g, inst@, row as int));
                                assert(viols_in_row(gates, *g, inst@, row as int, i as int + 1)
                                    =~= viols_in_row(gates, *g, inst@, row as int, i as int));
                            }
                        }
                    },
                }
            } else {
                proof {
                    assert(!cell_unsat(gates[i as int], *g, inst@, row as int));
                    assert(viols_in_row(gates, *g, inst@, row as int, i as int + 1)
                        =~= viols_in_row(gates, *g, inst@, row as int, i as int));
                }
            }
        }
        proof {
            assert(viols_upto(gates, *g, inst@, row as int + 1) =~= viols_upto(
                gates,
                *g,
                inst@,
                row as int,
            ) + viols_in_row(gates, *g, inst@, row as int, ngates as int));
        }
    }
    if vs.len() > 0 {
        proof {
            assert(mode == CheckMode::Diagnostic);
            if all_ok(gates, *g, inst@, rows as int) {
                lemma_viols_empty(gates, *g, inst@, rows as int, rows as int);
                assert(false);
            }
        }
        Err(CheckError::ConstraintsNotSatisfied { violations: vs })
    } else {
        proof {
            assert forall|r2: int, i2: int|
                0 <= r2 < rows as int && 0 <= i2 < gates.len() implies !#[trigger] cell_unsat(
                gates[i2],
                *g,
                inst@,
                r2,
            ) by {
                if cell_unsat(gates[i2], *g, inst@, r2) {
                    if mode == CheckMode::Strict {
                        assert(!cell_unsat(gates[i2], *g, inst@, r2));
                    } else {
                        lemma_viols_nonempty(gates, *g, inst@, rows as int, r2, i2);
                    }
                    assert(false);
                }
            }
            assert(all_ok(gates, *g, inst@, rows as int));
            if mode == CheckMode::Strict {
                assert forall|r2: int, i2: int|
                    0 <= r2 < rows as int && 0 <= i2 < gates.len() && #[trigger] cell_unsat(
                        gates[i2],
                        *g,
                        inst@,
                        r2,
                    ) && clean_before(gates, *g, inst@, r2, i2) implies Ok::<(), CheckError>(())
                    == Err::<(), CheckError>(
                    CheckError::ConstraintNotSatisfied {
                        gate: (i2 as usize),
                        row: (r2 as usize),
                    },
                ) by {
                    assert(!cell_unsat(gates[i2], *g, inst@, r2));
                    assert(false);
                }
            }
        }
        Ok(())
    }
}

} // verus!
