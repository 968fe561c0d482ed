//! The witness synthesizer: walks the witness vectors and populates the grid.
//!
//! Two assignment modes are supported from the same region primitives.  In
//! selector-gated mode every witness pair gets its own single-row region and
//! the selector is set to one there; in unconditional mode one region holds
//! the whole vectors, pair `i` at local offset `i` — each pair must occupy
//! its own row, or later writes would collide with earlier ones.

use crate::config::{ConstraintSystem, R1CSConfig};
use crate::field::Felt;
use crate::grid::{cell_at, Grid, SynthError};
use vstd::prelude::*;

verus! {

/// 2^k, the circuit's row count for size parameter `k`.
pub open spec fn pow2(k: nat) -> nat
    decreases k,
{
    if k == 0 {
        1
    } else {
        2 * pow2((k - 1) as nat)
    }
}

/// Powers of two are monotone in the exponent.
proof fn lemma_pow2_le(a: nat, b: nat)
    requires
        a <= b,
    ensures
        pow2(a) <= pow2(b),
    decreases b,
{
    if a < b {
        lemma_pow2_le(a, (b - 1) as nat);
    }
}

/// The row count 2^k as a machine integer.
pub fn rows_for(k: usize) -> (r: usize)
    requires
        k <= 30,
    ensures
        r == pow2(k as nat),
        r <= 0x4000_0000,
{
    proof {
        assert(pow2(30) == 0x4000_0000) by {
            reveal_with_fuel(pow2, 31);
        }
    }
    let mut r: usize = 1;
    let mut i: usize = 0;
    while i < k
        invariant
            i <= k,
            k <= 30,
            r == pow2(i as nat),
            pow2(30) == 0x4000_0000,
        decreases k - i,
    {
        proof {
            lemma_pow2_le((i + 1) as nat, 30);
        }
        r = r * 2;
        i = i + 1;
    }
    proof {
        lemma_pow2_le(k as nat, 30);
    }
    r
}

/// The exact contents of a grid that synthesis produced for witness vectors
/// `a` and `b`: the cursor covers one row per pair, the two advice columns
/// hold the vectors row by row, the selector column (if any) is one on every
/// used row, and every other cell is blank.
pub open spec fn synthesized_grid(
    g: Grid,
    cs: ConstraintSystem,
    cfg: R1CSConfig,
    a: Seq<Felt>,
    b: Seq<Felt>,
) -> bool {
    let n = a.len() as int;
    &&& g.wf()
    &&& g.used == n
    &&& g.advice@.len() == cs.n_advice
    &&& g.fixed@.len() == cs.n_fixed
    &&& forall|i: int| 0 <= i < n ==> #[trigger] cell_at(g.advice@, cfg.a.index as int, i) == Some(a[i])
    &&& forall|i: int| 0 <= i < n ==> #[trigger] cell_at(g.advice@, cfg.b.index as int, i) == Some(b[i])
    &&& forall|c: int, r: int|
        !(0 <= r < n && (c == cfg.a.index || c == cfg.b.index)) ==> #[trigger] cell_at(
            g.advice@,
            c,
            r,
        ) is None
    &&& (match cfg.sel {
        Some(s) => {
            &&& forall|i: int|
                0 <= i < n ==> #[trigger] cell_at(g.fixed@, s.index as int, i) == Some(
                    (Felt { v: 1 }),
                )
            &&& forall|c: int, r: int|
                !(0 <= r < n && c == s.index) ==> #[trigger] cell_at(g.fixed@, c, r) is None
        },
        None => forall|c: int, r: int| #[trigger] cell_at(g.fixed@, c, r) is None,
    })
}

/// Builds the assignment grid for one witness run over `2^k` rows.
///
/// Succeeds exactly when the witness fits the row space; the produced grid's
/// contents are pinned by [`synthesized_grid`].  Conflicts cannot arise here:
/// the region allocator hands out disjoint rows and each pair is written once.
pub fn synthesize(
    cs: &ConstraintSystem,
    cfg: &R1CSConfig,
    k: usize,
    a: &Vec<Felt>,
    b: &Vec<Felt>,
) -> (r: Result<Grid, SynthError>)
    requires
        cfg.wf(*cs),
        k <= 30,
        a@.len() == b@.len(),
        forall|i: int| 0 <= i < a@.len() ==> (#[trigger] a@[i]).inv(),
        forall|i: int| 0 <= i < b@.len() ==> (#[trigger] b@[i]).inv(),
    ensures
        a@.len() <= pow2(k as nat) ==> (r matches Ok(g) && synthesized_grid(g, *cs, *cfg, a@, b@)
            && g.rows == pow2(k as nat)),
        a@.len() > pow2(k as nat) ==> r == Err::<Grid, SynthError>(SynthError::NotEnoughRows {
            needed: a@.len() as usize,
            available: pow2(k as nat) as usize,
        }),
{
    let n = a.len();
    let rows = rows_for(k);
    if n > rows {
        return Err(SynthError::NotEnoughRows { needed: n, available: rows });
    }
    let mut g = Grid::new(cs.n_advice, cs.n_fixed, rows);
    match cfg.sel {
        Some(s) => {
            for i in 0..n
                invariant
                    cfg.wf(*cs),
                    cfg.sel == Some(s),
                    n == a@.len(),
                    n == b@.len(),
                    n <= rows,
                    forall|j: int| 0 <= j < a@.len() ==> (#[trigger] a@[j]).inv(),
                    forall|j: int| 0 <= j < b@.len() ==> (#[trigger] b@[j]).inv(),
                    g.wf(),
                    g.rows == rows,
                    g.used == i,
                    g.advice@.len() == cs.n_advice,
                    g.fixed@.len() == cs.n_fixed,
                    forall|j: int|
                        0 <= j < i ==> #[trigger] cell_at(g.advice@, cfg.a.index as int, j)
                            == Some(a@[j]),
                    forall|j: int|
                        0 <= j < i ==> #[trigger] cell_at(g.advice@, cfg.b.index as int, j)
                            == Some(b@[j]),
                    forall|c: int, r: int|
                        !(0 <= r < i && (c == cfg.a.index || c == cfg.b.index)) ==> #[trigger] cell_at(
                            g.advice@,
                            c,
                            r,
                        ) is None,
                    forall|j: int|
                        0 <= j < i ==> #[trigger] cell_at(g.fixed@, s.index as int, j) == Some(
                            (Felt { v: 1 }),
                        ),
                    forall|c: int, r: int|
                        !(0 <= r < i && c == s.index) ==> #[trigger] cell_at(g.fixed@, c, r)
                            is None,
            {
                let region = match g.alloc_region(1) {
                    Ok(rg) => rg,
                    Err(e) => {
                        proof {
                            assert(false);
                        }
                        return Err(e);
                    },
                };
                match region.assign_advice(&mut g, cfg.a, 0, a[i]) {
                    Ok(_) => {},
                    Err(e) => {
                        proof {
                            assert(false);
                        }
                        return Err(e);
                    },
                }
                match region.assign_advice(&mut g, cfg.b, 0, b[i]) {
                    Ok(_) => {},
                    Err(e) => {
                        proof {
                            assert(false);
                        }
                        return Err(e);
                    },
                }
                match region.assign_fixed(&mut g, s, 0, Felt::one()) {
                    Ok(_) => {},
                    Err(e) => {
                        proof {
                            assert(false);
                        }
                        return Err(e);
                    },
                }
            }
            Ok(g)
        },
        None => {
            let region = match g.alloc_region(n) {
                Ok(rg) => rg,
                Err(e) => {
                    proof {
                        assert(false);
                    }
                    return Err(e);
                },
            };
            for i in 0..n
                invariant
                    cfg.wf(*cs),
                    cfg.sel is None,
                    n == a@.len(),
                    n == b@.len(),
                    n <= rows,
                    forall|j: int| 0 <= j < a@.len() ==> (#[trigger] a@[j]).inv(),
                    forall|j: int| 0 <= j < b@.len() ==> (#[trigger] b@[j]).inv(),
                    g.wf(),
                    g.rows == rows,
                    g.used == n,
                    region.start == 0,
                    region.size == n,
                    g.advice@.len() == cs.n_advice,
                    g.fixed@.len() == cs.n_fixed,
                    forall|j: int|
                        0 <= j < i ==> #[trigger] cell_at(g.advice@, cfg.a.index as int, j)
                            == Some(a@[j]),
                    forall|j: int|
                        0 <= j < i ==> #[trigger] cell_at(g.advice@, cfg.b.index as int, j)
                            == Some(b@[j]),
                    forall|c: int, r: int|
                        !(0 <= r < i && (c == cfg.a.index || c == cfg.b.index)) ==> #[trigger] cell_at(
                            g.advice@,
                            c,
                            r,
                        ) is None,
                    forall|c: int, r: int| #[trigger] cell_at(g.fixed@, c, r) is None,
            {
                match region.assign_advice(&mut g, cfg.a, i, a[i]) {
                    Ok(_) => {},
                    Err(e) => {
                        proof {
                            assert(false);
                        }
                        return Err(e);
                    },
                }
                match region.assign_advice(&mut g, cfg.b, i, b[i]) {
                    Ok(_) => {},
                    Err(e) => {
                        proof {
                            assert(false);
                        }
                        return Err(e);
                    },
                }
            }
            Ok(g)
        },
    }
}

} // verus!
