use valipower::number::Number;

#[test]
fn decimal_of_small_numbers() {
    assert_eq!(Number::Unsigned(0).to_decimal(), "0");
    assert_eq!(Number::Unsigned(7).to_decimal(), "7");
    assert_eq!(Number::Unsigned(34).to_decimal(), "34");
    assert_eq!(Number::Signed(34).to_decimal(), "34");
    assert_eq!(Number::Signed(0).to_decimal(), "0");
    assert_eq!(Number::Unsigned(1000).to_decimal(), "1000");
}

#[test]
fn decimal_of_negative_numbers() {
    assert_eq!(Number::Signed(-1).to_decimal(), "-1");
    assert_eq!(Number::Signed(-120).to_decimal(), "-120");
}

#[test]
fn decimal_at_the_ends_of_the_ranges() {
    assert_eq!(Number::Unsigned(u128::MAX).to_decimal(), u128::MAX.to_string());
    assert_eq!(Number::Signed(i128::MAX).to_decimal(), i128::MAX.to_string());
    assert_eq!(Number::Signed(i128::MIN).to_decimal(), i128::MIN.to_string());
    assert_eq!(Number::Signed(i128::MIN + 1).to_decimal(), (i128::MIN + 1).to_string());
}

#[test]
fn less_than_goes_by_value() {
    assert!(Number::Signed(-1).less_than(&Number::Unsigned(0)));
    assert!(!Number::Unsigned(0).less_than(&Number::Signed(-1)));
    assert!(Number::Signed(3).less_than(&Number::Unsigned(4)));
    assert!(!Number::Signed(4).less_than(&Number::Unsigned(4)));
    assert!(Number::Unsigned(4).less_than(&Number::Signed(5)));
    assert!(!Number::Unsigned(5).less_than(&Number::Signed(5)));
    assert!(Number::Signed(i128::MAX).less_than(&Number::Unsigned(u128::MAX)));
    assert!(!Number::Unsigned(u128::MAX).less_than(&Number::Signed(i128::MAX)));
    assert!(Number::Signed(i128::MIN).less_than(&Number::Signed(i128::MAX)));
    assert!(!Number::Unsigned(9).less_than(&Number::Unsigned(9)));
}

#[test]
fn same_value_goes_by_value() {
    assert!(Number::Signed(5).same_value(&Number::Unsigned(5)));
    assert!(Number::Unsigned(5).same_value(&Number::Signed(5)));
    assert!(!Number::Signed(-5).same_value(&Number::Unsigned(5)));
    assert!(!Number::Unsigned(u128::MAX).same_value(&Number::Signed(-1)));
    assert!(Number::Signed(-7).same_value(&Number::Signed(-7)));
}

#[test]
fn a_length_is_the_number_it_counts() {
    assert_eq!(Number::from_length(0).to_decimal(), "0");
    assert_eq!(Number::from_length(42).to_decimal(), "42");
    assert!(Number::from_length(usize::MAX).same_value(&Number::Unsigned(usize::MAX as u128)));
}
