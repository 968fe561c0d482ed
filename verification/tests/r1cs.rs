use r1cs::checker::{check, CheckError, CheckMode, Violation};
use r1cs::columns::{Column, ColumnKind};
use r1cs::config::{configure, GateMode};
use r1cs::field::Felt;
use r1cs::grid::{Cell, Grid, SynthError};
use r1cs::synth::{rows_for, synthesize};

fn felts(xs: &[u64]) -> Vec<Felt> {
    let mut v = Vec::new();
    for x in xs {
        v.push(Felt::new(*x));
    }
    v
}

#[test]
fn test_r1cs() {
    let k = 4;
    let a = felts(&[5, 4, 3]);
    let b = felts(&[3, 4, 10]);
    let c = felts(&[15, 16, 30]);

    let (cs, cfg) = configure(GateMode::Unconditional);
    let grid = synthesize(&cs, &cfg, k, &a, &b).unwrap();
    assert_eq!(check(&cs, &grid, &c, CheckMode::Diagnostic), Ok(()));
}

#[test]
fn test_selector_mode_accepts_matching_product() {
    let (cs, cfg) = configure(GateMode::SelectorGated);
    let a = felts(&[7]);
    let b = felts(&[6]);
    let c = felts(&[42]);
    let grid = synthesize(&cs, &cfg, 4, &a, &b).unwrap();
    assert_eq!(check(&cs, &grid, &c, CheckMode::Strict), Ok(()));
}

#[test]
fn test_strict_reports_first_failure() {
    let (cs, cfg) = configure(GateMode::Unconditional);
    let a = felts(&[5]);
    let b = felts(&[3]);
    let c = felts(&[14]);
    let grid = synthesize(&cs, &cfg, 4, &a, &b).unwrap();
    assert_eq!(
        check(&cs, &grid, &c, CheckMode::Strict),
        Err(CheckError::ConstraintNotSatisfied { gate: 0, row: 0 })
    );
}

#[test]
fn test_diagnostic_single_violation() {
    let (cs, cfg) = configure(GateMode::Unconditional);
    let a = felts(&[5]);
    let b = felts(&[3]);
    let c = felts(&[14]);
    let grid = synthesize(&cs, &cfg, 4, &a, &b).unwrap();
    assert_eq!(
        check(&cs, &grid, &c, CheckMode::Diagnostic),
        Err(CheckError::ConstraintsNotSatisfied {
            violations: vec![Violation { gate: 0, row: 0 }]
        })
    );
}

#[test]
fn test_diagnostic_collects_every_violation() {
    let (cs, cfg) = configure(GateMode::SelectorGated);
    let a = felts(&[1, 2, 3]);
    let b = felts(&[1, 2, 3]);
    let c = felts(&[2, 4, 10]);
    let grid = synthesize(&cs, &cfg, 4, &a, &b).unwrap();
    assert_eq!(
        check(&cs, &grid, &c, CheckMode::Diagnostic),
        Err(CheckError::ConstraintsNotSatisfied {
            violations: vec![
                Violation { gate: 0, row: 0 },
                Violation { gate: 0, row: 2 },
            ]
        })
    );
}

#[test]
fn test_strict_reports_later_row() {
    let (cs, cfg) = configure(GateMode::SelectorGated);
    let a = felts(&[2, 2]);
    let b = felts(&[3, 3]);
    let c = felts(&[6, 7]);
    let grid = synthesize(&cs, &cfg, 4, &a, &b).unwrap();
    assert_eq!(
        check(&cs, &grid, &c, CheckMode::Strict),
        Err(CheckError::ConstraintNotSatisfied { gate: 0, row: 1 })
    );
}

#[test]
fn test_double_assignment_conflict() {
    let col = Column { kind: ColumnKind::Advice, index: 0 };
    let mut grid = Grid::new(1, 0, 4);
    let region = grid.alloc_region(2).unwrap();
    assert_eq!(region.assign_advice(&mut grid, col, 0, Felt::new(9)), Ok(()));
    assert_eq!(
        region.assign_advice(&mut grid, col, 0, Felt::new(11)),
        Err(SynthError::AssignmentConflict { cell: Cell { column: col, row: 0 } })
    );
    // a different offset of the same region is still free
    assert_eq!(region.assign_advice(&mut grid, col, 1, Felt::new(11)), Ok(()));
}

#[test]
fn test_regions_never_overlap() {
    let mut grid = Grid::new(2, 0, 8);
    let r1 = grid.alloc_region(3).unwrap();
    let r2 = grid.alloc_region(2).unwrap();
    assert_eq!((r1.start, r1.size), (0, 3));
    assert_eq!((r2.start, r2.size), (3, 2));
}

#[test]
fn test_short_instance_fails_with_length_mismatch() {
    let (cs, cfg) = configure(GateMode::Unconditional);
    let a = felts(&[2, 3]);
    let b = felts(&[4, 5]);
    let c = felts(&[8]);
    let grid = synthesize(&cs, &cfg, 4, &a, &b).unwrap();
    assert_eq!(
        check(&cs, &grid, &c, CheckMode::Diagnostic),
        Err(CheckError::InstanceLengthMismatch { needed: 2, got: 1 })
    );
    assert_eq!(
        check(&cs, &grid, &c, CheckMode::Strict),
        Err(CheckError::InstanceLengthMismatch { needed: 2, got: 1 })
    );
}

#[test]
fn test_length_mismatch_names_the_assigned_row_count() {
    let (cs, cfg) = configure(GateMode::Unconditional);
    let a = felts(&[1, 2, 3]);
    let b = felts(&[1, 2, 3]);
    let c = felts(&[1]);
    let grid = synthesize(&cs, &cfg, 4, &a, &b).unwrap();
    // the instance must cover all three assigned rows, not just one more entry
    assert_eq!(
        check(&cs, &grid, &c, CheckMode::Diagnostic),
        Err(CheckError::InstanceLengthMismatch { needed: 3, got: 1 })
    );
}

#[test]
fn test_length_mismatch_precedes_gate_violations() {
    let (cs, cfg) = configure(GateMode::SelectorGated);
    let a = felts(&[5, 4]);
    let b = felts(&[3, 4]);
    // the witness at row 0 is wrong too, yet the missing coverage wins,
    // whichever mode runs
    let c = felts(&[14]);
    let grid = synthesize(&cs, &cfg, 4, &a, &b).unwrap();
    assert_eq!(
        check(&cs, &grid, &c, CheckMode::Strict),
        Err(CheckError::InstanceLengthMismatch { needed: 2, got: 1 })
    );
    assert_eq!(
        check(&cs, &grid, &c, CheckMode::Diagnostic),
        Err(CheckError::InstanceLengthMismatch { needed: 2, got: 1 })
    );
}

#[test]
fn test_check_is_idempotent() {
    let (cs, cfg) = configure(GateMode::Unconditional);
    let a = felts(&[1, 2, 5]);
    let b = felts(&[9, 2, 5]);
    let c = felts(&[9, 5, 25]);
    let grid = synthesize(&cs, &cfg, 4, &a, &b).unwrap();
    let first = check(&cs, &grid, &c, CheckMode::Diagnostic);
    let second = check(&cs, &grid, &c, CheckMode::Diagnostic);
    assert_eq!(first, second);
    let strict_first = check(&cs, &grid, &c, CheckMode::Strict);
    let strict_second = check(&cs, &grid, &c, CheckMode::Strict);
    assert_eq!(strict_first, strict_second);
}

#[test]
fn test_witness_too_large_for_rows() {
    let (cs, cfg) = configure(GateMode::Unconditional);
    let a = felts(&[1, 2, 3]);
    let b = felts(&[4, 5, 6]);
    match synthesize(&cs, &cfg, 1, &a, &b) {
        Err(e) => assert_eq!(e, SynthError::NotEnoughRows { needed: 3, available: 2 }),
        Ok(_) => panic!("expected the witness not to fit two rows"),
    }
}

#[test]
fn test_empty_witness_rejects_nonzero_instance() {
    let (cs, cfg) = configure(GateMode::Unconditional);
    let a = felts(&[]);
    let b = felts(&[]);
    let c = felts(&[1, 2, 3]);
    let grid = synthesize(&cs, &cfg, 4, &a, &b).unwrap();
    assert_eq!(
        check(&cs, &grid, &c, CheckMode::Strict),
        Err(CheckError::ConstraintNotSatisfied { gate: 0, row: 0 })
    );
}

#[test]
fn test_empty_witness_accepts_zero_instance() {
    let (cs, cfg) = configure(GateMode::Unconditional);
    let a = felts(&[]);
    let b = felts(&[]);
    let c = felts(&[0, 0]);
    let grid = synthesize(&cs, &cfg, 4, &a, &b).unwrap();
    assert_eq!(check(&cs, &grid, &c, CheckMode::Diagnostic), Ok(()));
    let empty = felts(&[]);
    assert_eq!(check(&cs, &grid, &empty, CheckMode::Strict), Ok(()));
}

#[test]
fn test_extra_nonzero_instance_entries_are_violations() {
    let (cs, cfg) = configure(GateMode::Unconditional);
    let a = felts(&[2]);
    let b = felts(&[3]);
    let c = felts(&[6, 99, 100]);
    let grid = synthesize(&cs, &cfg, 4, &a, &b).unwrap();
    assert_eq!(
        check(&cs, &grid, &c, CheckMode::Diagnostic),
        Err(CheckError::ConstraintsNotSatisfied {
            violations: vec![
                Violation { gate: 0, row: 1 },
                Violation { gate: 0, row: 2 },
            ]
        })
    );
    assert_eq!(
        check(&cs, &grid, &c, CheckMode::Strict),
        Err(CheckError::ConstraintNotSatisfied { gate: 0, row: 1 })
    );
}

#[test]
fn test_extra_zero_instance_entries_pass() {
    let (cs, cfg) = configure(GateMode::Unconditional);
    let a = felts(&[2]);
    let b = felts(&[3]);
    let c = felts(&[6, 0, 0]);
    let grid = synthesize(&cs, &cfg, 4, &a, &b).unwrap();
    assert_eq!(check(&cs, &grid, &c, CheckMode::Strict), Ok(()));
}

#[test]
fn test_selector_leaves_unused_rows_unconstrained() {
    let (cs, cfg) = configure(GateMode::SelectorGated);
    let a = felts(&[6]);
    let b = felts(&[7]);
    let c = felts(&[42, 1]);
    let grid = synthesize(&cs, &cfg, 2, &a, &b).unwrap();
    assert_eq!(check(&cs, &grid, &c, CheckMode::Diagnostic), Ok(()));
}

#[test]
fn test_configure_registers_product_gate() {
    let (cs, cfg) = configure(GateMode::SelectorGated);
    assert_eq!(cs.n_advice, 2);
    assert_eq!(cs.n_fixed, 1);
    assert_eq!(cs.n_instance, 1);
    assert_eq!(cs.gates.len(), 1);
    assert_eq!(cs.gates[0].name, "c-a*b");
    assert_eq!(cfg.a, Column { kind: ColumnKind::Advice, index: 0 });
    assert_eq!(cfg.b, Column { kind: ColumnKind::Advice, index: 1 });
    assert_eq!(cfg.c, Column { kind: ColumnKind::Instance, index: 0 });
    assert_eq!(cfg.sel, Some(Column { kind: ColumnKind::Fixed, index: 0 }));

    let (cs2, cfg2) = configure(GateMode::Unconditional);
    assert_eq!(cs2.n_fixed, 0);
    assert_eq!(cfg2.sel, None);
}

#[test]
fn test_rows_for_size_parameter() {
    assert_eq!(rows_for(0), 1);
    assert_eq!(rows_for(4), 16);
    assert_eq!(rows_for(10), 1024);
}
