use celemod::version::{compare_version, InvalidVersion};

#[test]
fn missing_trailing_components_compare_equal() {
    assert_eq!(compare_version("1.2.0", "1.2"), Ok(0));
    assert_eq!(compare_version("1.2", "1.2.0"), Ok(0));
    assert_eq!(compare_version("1", "1.0.0.0"), Ok(0));
}

#[test]
fn components_compare_as_numbers_not_as_text() {
    assert_eq!(compare_version("1.10.0", "1.9.9"), Ok(1));
    assert_eq!(compare_version("1.9.9", "1.10.0"), Ok(-1));
    assert_eq!(compare_version("0.0.1", "0.0.2"), Ok(-1));
    assert_eq!(compare_version("0.0.2", "0.0.1"), Ok(1));
}

#[test]
fn leading_zeros_do_not_change_a_component() {
    assert_eq!(compare_version("1.02", "1.2"), Ok(0));
    assert_eq!(compare_version("1.010", "1.9"), Ok(1));
}

#[test]
fn components_longer_than_any_machine_integer_are_compared() {
    assert_eq!(
        compare_version("1.340282366920938463463374607431768211456", "1.340282366920938463463374607431768211455"),
        Ok(1)
    );
    assert_eq!(
        compare_version("99999999999999999999999999", "100000000000000000000000000"),
        Ok(-1)
    );
}

#[test]
fn a_component_that_is_no_unsigned_integer_is_invalid() {
    assert_eq!(compare_version("1.x.0", "1.0.0"), Err(InvalidVersion));
    assert_eq!(compare_version("1.0.0", "1.x.0"), Err(InvalidVersion));
    assert_eq!(compare_version("", "1"), Err(InvalidVersion));
    assert_eq!(compare_version("1..2", "1.0.2"), Err(InvalidVersion));
    assert_eq!(compare_version("1.", "1"), Err(InvalidVersion));
    assert_eq!(compare_version("-1", "1"), Err(InvalidVersion));
    assert_eq!(compare_version("+1", "1"), Err(InvalidVersion));
    assert_eq!(compare_version("1.0-beta", "1.0-beta"), Err(InvalidVersion));
    assert_eq!(compare_version("１", "1"), Err(InvalidVersion));
}
