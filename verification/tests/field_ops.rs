use r1cs::checker::eval;
use r1cs::columns::{Column, ColumnKind, Rotation};
use r1cs::expr::Expr;
use r1cs::field::{Felt, MODULUS};
use r1cs::grid::Grid;

#[test]
fn test_new_reduces_modulo_the_field_order() {
    assert_eq!(Felt::new(MODULUS), Felt::zero());
    assert_eq!(Felt::new(MODULUS + 5).value(), 5);
    assert_eq!(Felt::new(MODULUS - 1).value(), MODULUS - 1);
}

#[test]
fn test_add_wraps_at_the_modulus() {
    assert_eq!(Felt::new(2).add(Felt::new(3)).value(), 5);
    assert_eq!(Felt::new(MODULUS - 1).add(Felt::one()), Felt::zero());
}

#[test]
fn test_sub_is_modular() {
    assert_eq!(Felt::new(10).sub(Felt::new(4)).value(), 6);
    assert_eq!(Felt::zero().sub(Felt::one()).value(), MODULUS - 1);
}

#[test]
fn test_mul_is_modular() {
    assert_eq!(Felt::new(7).mul(Felt::new(6)).value(), 42);
    // 2^32 * 2^32 = 2^64 == 2^32 - 1 modulo 2^64 - 2^32 + 1
    let two_to_32 = Felt::new(1u64 << 32);
    assert_eq!(two_to_32.mul(two_to_32).value(), (1u64 << 32) - 1);
}

#[test]
fn test_eval_constant_and_queries() {
    let mut grid = Grid::new(1, 0, 4);
    let region = grid.alloc_region(2).unwrap();
    let col = Column { kind: ColumnKind::Advice, index: 0 };
    region.assign_advice(&mut grid, col, 0, Felt::new(5)).unwrap();
    region.assign_advice(&mut grid, col, 1, Felt::new(7)).unwrap();
    let inst: Vec<Felt> = Vec::new();

    let constant = Expr::Constant(Felt::new(3));
    assert_eq!(eval(&constant, &grid, &inst, 0), Ok(Felt::new(3)));

    let here = Expr::Query(col, Rotation::cur());
    assert_eq!(eval(&here, &grid, &inst, 0), Ok(Felt::new(5)));

    let after = Expr::Query(col, Rotation::next());
    assert_eq!(eval(&after, &grid, &inst, 0), Ok(Felt::new(7)));

    let before = Expr::Query(col, Rotation::prev());
    // row -1 is outside the grid: an unassigned cell reads as zero
    assert_eq!(eval(&before, &grid, &inst, 0), Ok(Felt::zero()));

    let sum = Expr::Add(Box::new(here), Box::new(after));
    assert_eq!(eval(&sum, &grid, &inst, 0), Ok(Felt::new(12)));
}

#[test]
fn test_eval_reports_missing_instance_row() {
    let mut grid = Grid::new(0, 0, 4);
    grid.alloc_region(3).unwrap();
    let inst = vec![Felt::new(1)];
    let c = Column { kind: ColumnKind::Instance, index: 0 };
    let q = Expr::Query(c, Rotation::next());
    // at row 1 the query needs instance row 2, so three entries
    assert_eq!(eval(&q, &grid, &inst, 1), Err(3));
    // past the assigned rows the missing entry reads as zero instead
    assert_eq!(eval(&q, &grid, &inst, 3), Ok(Felt::zero()));
}
