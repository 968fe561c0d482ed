//! Laws of the product circuit and of the checker, proved once and for all:
//! which witnesses satisfy the circuit, which rows are reported, how much
//! instance data the circuit demands, and that checking the same grid twice
//! gives the same answer.

use crate::checker::{
    all_ok, cell_unsat, check_post, clean_before, eval_expr, expr_inst_need, imax, inst_wf,
    need_in_row, need_upto, sel_off, viols_upto, CheckError, CheckMode,
};
use crate::config::{product_poly, ConstraintSystem, Gate, R1CSConfig};
use crate::field::{lemma_mul_f_bound, lemma_sub_f_zero, mul_f, sub_f, Felt};
use crate::grid::{cell_at, Grid};
use crate::synth::synthesized_grid;
use vstd::prelude::*;

verus! {

/// The product circuit as configuration builds it — one gate `c - a*b`,
/// gated by the config's selector — together with a grid that synthesis
/// filled from witness vectors `a` and `b`.
pub open spec fn product_setup(
    cs: ConstraintSystem,
    cfg: R1CSConfig,
    g: Grid,
    a: Seq<Felt>,
    b: Seq<Felt>,
) -> bool {
    &&& cs.wf()
    &&& cfg.wf(cs)
    &&& cs.gates@.len() == 1
    &&& cs.gates@[0].poly == product_poly(cfg)
    &&& cs.gates@[0].selector == cfg.sel
    &&& a.len() == b.len()
    &&& synthesized_grid(g, cs, cfg, a, b)
}

/// Whether the product gate is live at `row`: always in unconditional mode,
/// and exactly on the assigned rows in selector-gated mode.
proof fn lemma_product_liveness(
    cs: ConstraintSystem,
    cfg: R1CSConfig,
    g: Grid,
    a: Seq<Felt>,
    b: Seq<Felt>,
    r: int,
)
    requires
        product_setup(cs, cfg, g, a, b),
        0 <= r,
    ensures
        sel_off(cs.gates@[0], g, r) <==> (cfg.sel is Some && !(r < a.len())),
{
    let gt = cs.gates@[0];
    match cfg.sel {
        Some(s) => {
            if r < a.len() {
                assert(cell_at(g.fixed@, s.index as int, r) == Some((Felt { v: 1 })));
                assert(g.fixed_val(s.index as int, r) == 1);
            } else {
                assert(cell_at(g.fixed@, s.index as int, r) is None);
                assert(g.fixed_val(s.index as int, r) == 0);
            }
        },
        None => {},
    }
}

/// The instance length the product gate needs at a single row: one more
/// than the row itself on the assigned rows, nothing elsewhere.
proof fn lemma_product_need_at(
    cs: ConstraintSystem,
    cfg: R1CSConfig,
    g: Grid,
    a: Seq<Felt>,
    b: Seq<Felt>,
    r: int,
)
    requires
        product_setup(cs, cfg, g, a, b),
    ensures
        expr_inst_need(cs.gates@[0].poly, g.used as int, r) == if 0 <= r < a.len() {
            r + 1
        } else {
            0
        },
{
    assert(expr_inst_need(cs.gates@[0].poly, g.used as int, r) == if 0 <= r < a.len() {
        r + 1
    } else {
        0int
    }) by {
        reveal_with_fuel(expr_inst_need, 3);
    }
}

/// Law: the product circuit demands exactly one instance entry per assigned
/// row — the checker's length requirement over any row range at least the
/// assigned rows is the witness length itself.
pub proof fn lemma_product_instance_requirement(
    cs: ConstraintSystem,
    cfg: R1CSConfig,
    g: Grid,
    a: Seq<Felt>,
    b: Seq<Felt>,
    row: int,
)
    requires
        product_setup(cs, cfg, g, a, b),
        0 <= row,
    ensures
        need_upto(cs.gates@, g, row) == if row <= a.len() {
            row
        } else {
            a.len() as int
        },
    decreases row,
{
    let gates = cs.gates@;
    if row > 0 {
        lemma_product_instance_requirement(cs, cfg, g, a, b, row - 1);
        lemma_product_liveness(cs, cfg, g, a, b, row - 1);
        lemma_product_need_at(cs, cfg, g, a, b, row - 1);
        assert(need_in_row(gates, g, row - 1, 1) == imax(
            need_in_row(gates, g, row - 1, 0),
            if sel_off(gates[0], g, row - 1) {
                0int
            } else {
                expr_inst_need(gates[0].poly, g.used as int, row - 1)
            },
        ));
    }
}

/// At any row of the grid the product gate never errs while the instance
/// vector covers the assigned rows; on an assigned row it fails exactly when
/// the public value differs from the witness product, and on a later row
/// exactly when it is live (no selector) and a leftover public value is
/// nonzero.
proof fn lemma_row_verdict(
    cs: ConstraintSystem,
    cfg: R1CSConfig,
    g: Grid,
    a: Seq<Felt>,
    b: Seq<Felt>,
    inst: Seq<Felt>,
    r: int,
)
    requires
        product_setup(cs, cfg, g, a, b),
        inst_wf(inst),
        a.len() <= inst.len(),
        0 <= r,
    ensures
        r < a.len() ==> (cell_unsat(cs.gates@[0], g, inst, r) <==> inst[r]@ != mul_f(
            a[r]@,
            b[r]@,
        )),
        r >= a.len() ==> (cell_unsat(cs.gates@[0], g, inst, r) <==> (cfg.sel is None && r
            < inst.len() && inst[r]@ != 0)),
{
    let gt = cs.gates@[0];
    let n = a.len() as int;
    lemma_product_liveness(cs, cfg, g, a, b, r);
    if r < n {
        assert(cell_at(g.advice@, cfg.a.index as int, r) == Some(a[r]));
        assert(cell_at(g.advice@, cfg.b.index as int, r) == Some(b[r]));
        assert(g.advice_val(cfg.a.index as int, r) == a[r]@);
        assert(g.advice_val(cfg.b.index as int, r) == b[r]@);
        assert(eval_expr(gt.poly, g, inst, r) == Ok::<nat, int>(
            sub_f(inst[r]@, mul_f(a[r]@, b[r]@)),
        )) by {
            reveal_with_fuel(eval_expr, 3);
        }
        assert(inst[r].inv());
        lemma_mul_f_bound(a[r]@, b[r]@);
        lemma_sub_f_zero(inst[r]@, mul_f(a[r]@, b[r]@));
    } else {
        match cfg.sel {
            Some(_) => {
                assert(sel_off(gt, g, r));
            },
            None => {
                assert(cell_at(g.advice@, cfg.a.index as int, r) is None);
                assert(cell_at(g.advice@, cfg.b.index as int, r) is None);
                assert(g.advice_val(cfg.a.index as int, r) == 0);
                assert(g.advice_val(cfg.b.index as int, r) == 0);
                let iv: nat = if 0 <= r < inst.len() {
                    inst[r]@
                } else {
                    0
                };
                assert(eval_expr(gt.poly, g, inst, r) == Ok::<nat, int>(sub_f(iv, mul_f(0, 0))))
                    by {
                    reveal_with_fuel(eval_expr, 3);
                }
                assert(mul_f(0, 0) == 0);
                if 0 <= r < inst.len() {
                    assert(inst[r].inv());
                }
                lemma_sub_f_zero(iv, 0);
            },
        }
    }
}

/// Law: a witness whose products all equal the public values — with any
/// leftover public entries zero when no selector gates the rows — satisfies
/// the circuit: every gate passes at every row, so the checker accepts in
/// either mode.
pub proof fn lemma_product_witness_accepted(
    cs: ConstraintSystem,
    cfg: R1CSConfig,
    g: Grid,
    a: Seq<Felt>,
    b: Seq<Felt>,
    inst: Seq<Felt>,
)
    requires
        product_setup(cs, cfg, g, a, b),
        inst_wf(inst),
        a.len() <= inst.len(),
        forall|i: int| 0 <= i < a.len() ==> (#[trigger] inst[i])@ == mul_f(a[i]@, b[i]@),
        cfg.sel is None ==> forall|i: int|
            a.len() <= i < inst.len() ==> (#[trigger] inst[i])@ == 0,
    ensures
        all_ok(cs.gates@, g, inst, g.rows as int),
        need_upto(cs.gates@, g, g.rows as int) <= inst.len(),
{
    assert forall|r: int, i: int|
        0 <= r < g.rows as int && 0 <= i < cs.gates@.len() implies !#[trigger] cell_unsat(
        cs.gates@[i],
        g,
        inst,
        r,
    ) by {
        lemma_row_verdict(cs, cfg, g, a, b, inst, r);
    }
    lemma_product_instance_requirement(cs, cfg, g, a, b, g.rows as int);
}

/// Law: a row whose public value differs from its witness product is a
/// violation at exactly that row, and the instance vector already covers
/// everything the gates query — so the checker rejects with
/// `ConstraintNotSatisfied`, never with `InstanceLengthMismatch`.
pub proof fn lemma_mismatched_row_rejected(
    cs: ConstraintSystem,
    cfg: R1CSConfig,
    g: Grid,
    a: Seq<Felt>,
    b: Seq<Felt>,
    inst: Seq<Felt>,
    r: int,
)
    requires
        product_setup(cs, cfg, g, a, b),
        inst_wf(inst),
        a.len() <= inst.len(),
        0 <= r < a.len(),
        inst[r]@ != mul_f(a[r]@, b[r]@),
    ensures
        cell_unsat(cs.gates@[0], g, inst, r),
        !all_ok(cs.gates@, g, inst, g.rows as int),
        need_upto(cs.gates@, g, g.rows as int) <= inst.len(),
{
    lemma_row_verdict(cs, cfg, g, a, b, inst, r);
    lemma_product_instance_requirement(cs, cfg, g, a, b, g.rows as int);
}

/// Law: an instance vector shorter than the assigned rows is reported, in
/// either mode and before any gate verdict, as an instance-length mismatch
/// naming the witness length as the length needed; a vector that covers the
/// assigned rows never draws that error.
pub proof fn lemma_short_instance_mismatch(
    cs: ConstraintSystem,
    cfg: R1CSConfig,
    g: Grid,
    a: Seq<Felt>,
    b: Seq<Felt>,
    inst: Seq<Felt>,
    mode: CheckMode,
    res: Result<(), CheckError>,
)
    requires
        product_setup(cs, cfg, g, a, b),
        inst.len() < a.len(),
        check_post(cs, g, inst, mode, res),
    ensures
        res == Err::<(), CheckError>(
            CheckError::InstanceLengthMismatch {
                needed: (a.len() as usize),
                got: (inst.len() as usize),
            },
        ),
{
    lemma_product_instance_requirement(cs, cfg, g, a, b, g.rows as int);
}

/// Law: when every row below `r` matches and row `r` does not, strict
/// checking can only answer `ConstraintNotSatisfied` at row `r` itself.
pub proof fn lemma_strict_reports_bad_row(
    cs: ConstraintSystem,
    cfg: R1CSConfig,
    g: Grid,
    a: Seq<Felt>,
    b: Seq<Felt>,
    inst: Seq<Felt>,
    r: int,
    res: Result<(), CheckError>,
)
    requires
        product_setup(cs, cfg, g, a, b),
        inst_wf(inst),
        a.len() <= inst.len(),
        0 <= r < a.len(),
        forall|i: int| 0 <= i < r ==> (#[trigger] inst[i])@ == mul_f(a[i]@, b[i]@),
        inst[r]@ != mul_f(a[r]@, b[r]@),
        check_post(cs, g, inst, CheckMode::Strict, res),
    ensures
        res == Err::<(), CheckError>(
            CheckError::ConstraintNotSatisfied { gate: 0, row: (r as usize) },
        ),
{
    lemma_product_instance_requirement(cs, cfg, g, a, b, g.rows as int);
    lemma_row_verdict(cs, cfg, g, a, b, inst, r);
    assert forall|r2: int, i2: int|
        0 <= r2 && 0 <= i2 < cs.gates@.len() && (r2 < r || (r2 == r && i2 < 0)) implies !#[trigger] cell_unsat(
        cs.gates@[i2],
        g,
        inst,
        r2,
    ) by {
        lemma_row_verdict(cs, cfg, g, a, b, inst, r2);
    }
    assert(clean_before(cs.gates@, g, inst, r, 0));
    assert(cell_unsat(cs.gates@[0], g, inst, r));
}

/// Two check outcomes agree: the same verdict, and equal reports, with
/// violation lists compared element by element.
pub open spec fn results_agree(r1: Result<(), CheckError>, r2: Result<(), CheckError>) -> bool {
    match (r1, r2) {
        (Ok(_), Ok(_)) => true,
        (Err(e1), Err(e2)) => match (e1, e2) {
            (
                CheckError::InstanceLengthMismatch { needed: n1, got: g1 },
                CheckError::InstanceLengthMismatch { needed: n2, got: g2 },
            ) => n1 == n2 && g1 == g2,
            (
                CheckError::ConstraintNotSatisfied { gate: a1, row: b1 },
                CheckError::ConstraintNotSatisfied { gate: a2, row: b2 },
            ) => a1 == a2 && b1 == b2,
            (
                CheckError::ConstraintsNotSatisfied { violations: v1 },
                CheckError::ConstraintsNotSatisfied { violations: v2 },
            ) => v1@ == v2@,
            _ => false,
        },
        _ => false,
    }
}

/// Before any failing cell there is an evaluation-order-first failing cell.
proof fn lemma_first_problem(
    gates: Seq<Gate>,
    g: Grid,
    inst: Seq<Felt>,
    rows: int,
    r0: int,
    i0: int,
)
    requires
        0 <= r0 < rows,
        0 <= i0 < gates.len(),
        cell_unsat(gates[i0], g, inst, r0),
    ensures
        exists|r2: int, i2: int|
            0 <= r2 < rows && 0 <= i2 < gates.len() && #[trigger] cell_unsat(gates[i2], g, inst, r2)
                && clean_before(gates, g, inst, r2, i2),
    decreases r0, i0,
{
    if clean_before(gates, g, inst, r0, i0) {
        assert(0 <= r0 < rows && 0 <= i0 < gates.len() && cell_unsat(gates[i0], g, inst, r0)
            && clean_before(gates, g, inst, r0, i0));
    } else {
        let (r1, i1) = choose|r1: int, i1: int|
            0 <= r1 && 0 <= i1 < gates.len() && (r1 < r0 || (r1 == r0 && i1 < i0))
                && #[trigger] cell_unsat(gates[i1], g, inst, r1);
        lemma_first_problem(gates, g, inst, rows, r1, i1);
    }
}

/// Law: checking is a pure function of the description, grid, instance and
/// mode — any two outcomes that meet the checker's contract on the same
/// inputs agree, so checking twice without mutation yields identical results.
pub proof fn lemma_check_deterministic(
    cs: ConstraintSystem,
    g: Grid,
    inst: Seq<Felt>,
    mode: CheckMode,
    r1: Result<(), CheckError>,
    r2: Result<(), CheckError>,
)
    requires
        check_post(cs, g, inst, mode, r1),
        check_post(cs, g, inst, mode, r2),
    ensures
        results_agree(r1, r2),
{
    let gates = cs.gates@;
    let rows = g.rows as int;
    if inst.len() < need_upto(gates, g, rows) {
        assert(r1 == r2);
    } else if all_ok(gates, g, inst, rows) {
        assert(r1 is Ok && r2 is Ok);
    } else {
        assert(r1 is Err && r2 is Err);
        if mode == CheckMode::Strict {
            let (r0, i0) = choose|r0: int, i0: int|
                0 <= r0 < rows && 0 <= i0 < gates.len() && #[trigger] cell_unsat(
                    gates[i0],
                    g,
                    inst,
                    r0,
                );
            lemma_first_problem(gates, g, inst, rows, r0, i0);
            let (rf, jf) = choose|rf: int, jf: int|
                0 <= rf < rows && 0 <= jf < gates.len() && #[trigger] cell_unsat(
                    gates[jf],
                    g,
                    inst,
                    rf,
                ) && clean_before(gates, g, inst, rf, jf);
            assert(r1 == r2);
        } else {
            assert(r1 matches Err(e1) && e1 matches CheckError::ConstraintsNotSatisfied {
                violations }
                && violations@ == viols_upto(gates, g, inst, rows));
            assert(r2 matches Err(e2) && e2 matches CheckError::ConstraintsNotSatisfied {
                violations }
                && violations@ == viols_upto(gates, g, inst, rows));
        }
    }
}

} // verus!
