//! End-to-end tests of the assignment and verification engine over the real
//! Pallas base field.

use halo2_proofs::pasta::Fp;

use factorial_circuit::chip::{factorial, FactorialChip};
use factorial_circuit::schema::{declare_schema, AssignmentError, SchemaError};
use factorial_circuit::table::{CopyConstraint, Table};
use factorial_circuit::verify::{verify, Violation};

fn standard_setup(n_rows: usize, instance: Vec<Fp>) -> (FactorialChip, Table, Vec<CopyConstraint>) {
    let config = FactorialChip::configure();
    let chip = FactorialChip::construct(config);
    let table = chip.calculate(n_rows, instance).expect("assignment must succeed");
    let seed_bind = chip.expose_public(&table, 0, 0, 0).expect("seed binding in range");
    let out_bind = chip.expose_public(&table, 0, n_rows - 1, 1).expect("output binding in range");
    (chip, table, vec![seed_bind, out_bind])
}

#[test]
fn accepts_with_correct_public_output() {
    let instance = vec![Fp::from(6), Fp::from(720)];
    let (chip, table, copies) = standard_setup(6, instance);
    let gates = vec![chip.config.gate];
    let violations = verify(&table, &gates, &copies);
    assert_eq!(violations, vec![]);
}

#[test]
fn running_product_column_is_the_countdown_product() {
    let instance = vec![Fp::from(6), Fp::from(720)];
    let (_, table, _) = standard_setup(6, instance);
    let expected_products = [6u64, 30, 120, 360, 720, 720];
    let expected_countdown = [5u64, 4, 3, 2, 1, 0];
    for row in 0..6 {
        assert_eq!(table.advice[0][row], Fp::from(expected_products[row]));
        assert_eq!(table.advice[1][row], Fp::from(expected_countdown[row]));
    }
}

#[test]
fn product_stabilizes_once_countdown_reaches_one() {
    let instance = vec![Fp::from(6), Fp::from(720)];
    let (_, table, _) = standard_setup(6, instance);
    assert_eq!(table.advice[0][4], table.advice[0][5]);
    assert_eq!(table.advice[1][4], Fp::from(1));
}

#[test]
fn rejects_wrong_public_output() {
    let instance = vec![Fp::from(6), Fp::from(721)];
    let (chip, table, copies) = standard_setup(6, instance);
    let gates = vec![chip.config.gate];
    let violations = verify(&table, &gates, &copies);
    assert!(!violations.is_empty());
    assert!(violations.contains(&Violation::Copy { col: 0, row: 5, instance_row: 1 }));
}

#[test]
fn four_computed_rows_give_the_partial_product() {
    let instance = vec![Fp::from(6), Fp::from(360)];
    let (chip, table, copies) = standard_setup(4, instance);
    assert_eq!(table.advice[0][3], Fp::from(360));
    let gates = vec![chip.config.gate];
    assert_eq!(verify(&table, &gates, &copies), vec![]);
}

#[test]
fn factorial_matches_known_values() {
    assert_eq!(factorial(1), Fp::from(1));
    assert_eq!(factorial(6), Fp::from(720));
    assert_eq!(factorial(20), Fp::from(2432902008176640000));
}

#[test]
fn selectors_are_on_exactly_where_a_next_row_exists() {
    let instance = vec![Fp::from(6), Fp::from(720)];
    let (_, table, _) = standard_setup(6, instance);
    for row in 0..5 {
        assert!(table.selectors[0][row]);
    }
    assert!(!table.selectors[0][5]);
}

#[test]
fn mutating_a_product_cell_is_reported_at_the_reading_row() {
    let instance = vec![Fp::from(6), Fp::from(720)];
    let (chip, mut table, copies) = standard_setup(6, instance);
    table.set_cell(0, 3, Fp::from(999)).expect("cell in range");
    let gates = vec![chip.config.gate];
    let violations = verify(&table, &gates, &copies);
    assert!(!violations.is_empty());
    assert!(violations.contains(&Violation::Gate { gate: 0, row: 2 }));
}

#[test]
fn mutating_a_countdown_cell_is_reported() {
    let instance = vec![Fp::from(6), Fp::from(720)];
    let (chip, mut table, copies) = standard_setup(6, instance);
    table.set_cell(1, 0, Fp::from(9)).expect("cell in range");
    let gates = vec![chip.config.gate];
    let violations = verify(&table, &gates, &copies);
    assert!(violations.contains(&Violation::Gate { gate: 0, row: 0 }));
}

#[test]
fn mutating_the_seed_cell_breaks_its_copy_binding() {
    let instance = vec![Fp::from(6), Fp::from(720)];
    let (chip, mut table, copies) = standard_setup(6, instance);
    table.set_cell(0, 0, Fp::from(7)).expect("cell in range");
    let gates = vec![chip.config.gate];
    let violations = verify(&table, &gates, &copies);
    assert!(violations.contains(&Violation::Copy { col: 0, row: 0, instance_row: 0 }));
}

#[test]
fn enabling_the_selector_on_the_final_row_is_rejected() {
    let instance = vec![Fp::from(6), Fp::from(720)];
    let (_, mut table, _) = standard_setup(6, instance);
    assert_eq!(table.enable_selector(0, 5), Err(AssignmentError::SelectorOnFinalRow));
    assert_eq!(table.enable_selector(0, 9), Err(AssignmentError::CellOutOfRange));
    assert_eq!(table.enable_selector(1, 2), Err(AssignmentError::CellOutOfRange));
}

#[test]
fn disabling_a_selector_silently_accepts_a_corrupted_cell() {
    // Under-enabling is the documented design risk: with the last enabled
    // row's selector off and the output unbound, a corrupted final cell
    // sails through verification.
    let instance = vec![Fp::from(6), Fp::from(720)];
    let (chip, mut table, _) = standard_setup(6, instance);
    let seed_bind = chip.expose_public(&table, 0, 0, 0).expect("seed binding in range");
    table.disable_selector(0, 4).expect("selector in range");
    table.set_cell(0, 5, Fp::from(12345)).expect("cell in range");
    let gates = vec![chip.config.gate];
    let violations = verify(&table, &gates, &vec![seed_bind]);
    assert_eq!(violations, vec![]);
}

#[test]
fn binding_an_out_of_range_instance_row_fails() {
    let instance = vec![Fp::from(6), Fp::from(720)];
    let (chip, table, _) = standard_setup(6, instance);
    assert_eq!(
        chip.expose_public(&table, 0, 0, 7),
        Err(AssignmentError::InstanceRowOutOfRange)
    );
    assert_eq!(
        chip.expose_public(&table, 5, 0, 0),
        Err(AssignmentError::CellOutOfRange)
    );
    assert_eq!(
        chip.expose_public(&table, 0, 9, 0),
        Err(AssignmentError::CellOutOfRange)
    );
}

#[test]
fn assignment_rejects_too_few_rows_and_a_missing_seed() {
    let config = FactorialChip::configure();
    let chip = FactorialChip::construct(config);
    assert!(matches!(
        chip.calculate(1, vec![Fp::from(6), Fp::from(720)]),
        Err(AssignmentError::RowCountTooSmall)
    ));
    assert!(matches!(chip.calculate(4, vec![]), Err(AssignmentError::MissingSeed)));
}

#[test]
fn schema_declaration_needs_a_private_column() {
    assert_eq!(declare_schema(0, 1), Err(SchemaError::NoPrivateColumns));
    let schema = declare_schema(2, 1).expect("two advice columns are fine");
    assert_eq!(schema.n_advice, 2);
    assert_eq!(schema.n_selectors, 1);
}

#[test]
fn configured_gate_has_two_independent_expressions() {
    let config = FactorialChip::configure();
    assert_eq!(config.schema.n_advice, 2);
    assert_eq!(config.schema.n_selectors, 1);
    assert_eq!(config.gate.selector, 0);
    assert_eq!(config.gate.polys.len(), 2);
}

#[test]
fn seed_four_stabilizes_within_four_rows() {
    let instance = vec![Fp::from(4), Fp::from(24)];
    let (chip, table, copies) = standard_setup(4, instance);
    let expected = [4u64, 12, 24, 24];
    for row in 0..4 {
        assert_eq!(table.advice[0][row], Fp::from(expected[row]));
    }
    assert_eq!(table.output(), Fp::from(24));
    let gates = vec![chip.config.gate];
    assert_eq!(verify(&table, &gates, &copies), vec![]);
}

#[test]
fn seed_four_rejects_a_wrong_second_slot() {
    let instance = vec![Fp::from(4), Fp::from(23)];
    let (chip, table, copies) = standard_setup(4, instance);
    let gates = vec![chip.config.gate];
    let violations = verify(&table, &gates, &copies);
    assert!(violations.contains(&Violation::Copy { col: 0, row: 3, instance_row: 1 }));
}

#[test]
fn seed_two_wraps_the_countdown_through_zero() {
    // With seed 2 the countdown reaches 0 at row 1 and wraps to p - 1 at
    // row 2; the product goes 2, 2, 0 and verification still accepts, since
    // field arithmetic is exact modular arithmetic.
    let instance = vec![Fp::from(2), Fp::from(0)];
    let (chip, table, copies) = standard_setup(3, instance);
    assert_eq!(table.advice[0][2], Fp::from(0));
    assert_eq!(table.advice[1][2], -Fp::one());
    let gates = vec![chip.config.gate];
    assert_eq!(verify(&table, &gates, &copies), vec![]);
}
