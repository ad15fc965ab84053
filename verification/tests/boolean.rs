use rule_solver::expression::boolean::{parse, parse_matcher_clause, Expression, Factor};
use rule_solver::expression::Bindings;
use rule_solver::expression::Reducible;

#[test]
fn boolean_test_matcher_clause_parsing() {
    let input = "=> H = M";
    let (label, idx) = parse_matcher_clause(input).unwrap();

    assert_eq!("M", label);
    assert_eq!("", &input[idx..]);
}

#[test]
fn test_matchers_integration() {
    let input = "A && B && !C => H = M";
    let (result, _) = parse(input).unwrap();

    assert_eq!(result.1, "M");
}

#[test]
fn expression_test_expression_reducibility() {
    let expression_str = "UNKNOWN || false";
    let expression = Expression::parse(expression_str).unwrap().0;
    let mut variables_table = Bindings::new();
    variables_table.insert("UNKNOWN".to_string(), true);
    let actual = expression.reduce(&variables_table).unwrap();

    assert_eq!(true, actual);
}

#[test]
fn test_expression_reducibility_complex() {
    let expression_str = "!UNKNOWN || UNKNOWN && true || false && VALUE";
    let expression = Expression::parse(expression_str).unwrap().0;

    let mut variables = Bindings::new();
    variables.insert("UNKNOWN".to_string(), true);
    variables.insert("VALUE".to_string(), false);

    let actual = expression.reduce(&variables).unwrap();

    assert_eq!(false, actual);
}

#[test]
fn test_parsing_constant() {
    assert_eq!(Factor::Constant(false), Factor::parse("!true").unwrap().0);
    assert_eq!(Factor::Constant(false), Factor::parse("false").unwrap().0);
    assert_eq!(Factor::Constant(true), Factor::parse("true").unwrap().0);
}

#[test]
fn test_parsing_variable() {
    assert_eq!(
        Factor::Variable("VARNAME".to_string()),
        Factor::parse("VARNAME").unwrap().0
    );

    assert_eq!(
        Factor::NegatedVariable("VARNAME".to_string()),
        Factor::parse("!VARNAME").unwrap().0
    );
}

#[test]
fn test_negated_literal_folds_at_parse_time() {
    assert_eq!(
        Factor::parse("false").unwrap().0,
        Factor::parse("!true").unwrap().0
    );
    assert_eq!(
        Factor::parse("true").unwrap().0,
        Factor::parse("!false").unwrap().0
    );
}

#[test]
fn test_undefined_boolean_variable() {
    let expression = Expression::parse("A || MISSING").unwrap().0;
    let mut variables = Bindings::new();
    variables.insert("A".to_string(), true);

    let actual = expression.reduce(&variables).unwrap_err();

    assert_eq!("Variable MISSING is undefined", actual.message());
}
