use rule_solver::errors::{Error, RuleError};
use rule_solver::expression::arithmetic::Expression;
use rule_solver::expression::Bindings;
use rule_solver::expression::Reducible;

fn reduce_closed(text: &str) -> f64 {
    let expression = Expression::parse(text).unwrap().0;
    f64::from_bits(expression.reduce(&Bindings::new()).unwrap())
}

#[test]
fn test_left_associativity() {
    assert_eq!(1.0, reduce_closed("5 - 3 - 1"));
    assert_eq!(5.0, reduce_closed("100 / 10 / 2"));
}

#[test]
fn test_primitive_operations() {
    assert_eq!(3.0, reduce_closed("1 + 2"));
    assert_eq!(-1.0, reduce_closed("2 - 3"));
    assert_eq!(42.0, reduce_closed("6 * 7"));
    assert_eq!(2.5, reduce_closed("5 / 2"));
}

#[test]
fn test_literal_forms() {
    assert_eq!(0.625, reduce_closed("0.625"));
    assert_eq!(-5.0, reduce_closed("-5"));
    assert_eq!(5.0, reduce_closed("+5"));
    assert_eq!(0.5, reduce_closed(".5"));
    assert_eq!(12.0, reduce_closed("12."));
    assert_eq!(1500.0, reduce_closed("1.5e3"));
    assert_eq!(0.15, reduce_closed("15E-2"));
}

#[test]
fn test_determinism() {
    let text = "42 + 4 * (5 / UNKNOWN - 1) - 10 * VALUE + 1 / 2";
    let expression = Expression::parse(text).unwrap().0;
    let mut variables = Bindings::new();
    variables.insert("UNKNOWN".to_string(), (0.8f64).to_bits());
    variables.insert("VALUE".to_string(), (-0.4f64).to_bits());

    let first = expression.reduce(&variables).unwrap();
    let second = expression.reduce(&variables).unwrap();

    assert_eq!(first, second);
}

#[test]
fn test_error_reason_rendering() {
    let parse_error = RuleError::Parse("A && 13 => H = P".to_string());
    assert_eq!(
        "Unable to parse the expression A && 13 => H = P",
        parse_error.message()
    );

    let undefined = RuleError::UndefinedVariable("UNKNOWN".to_string());
    assert_eq!("Variable UNKNOWN is undefined", undefined.message());

    let no_solution = RuleError::NoSolution;
    assert_eq!("Unable to find the solution", no_solution.message());

    let body = Error::from_rule_error(&no_solution);
    assert_eq!("Unable to find the solution", body.reason);
}

#[test]
fn test_bindings_last_insertion_wins() {
    let mut variables = Bindings::new();
    variables.insert("X".to_string(), (1.0f64).to_bits());
    variables.insert("X".to_string(), (2.0f64).to_bits());

    let expression = Expression::parse("X").unwrap().0;
    assert_eq!(
        2.0,
        f64::from_bits(expression.reduce(&variables).unwrap())
    );
}

#[test]
fn test_nan_propagates() {
    let value = reduce_closed("0 / 0 + 1");
    assert!(value.is_nan());
}
