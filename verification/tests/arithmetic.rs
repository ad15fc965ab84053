use rule_solver::expression::arithmetic::{
    parse, parse_matcher_clause, Expression, ExpressionOperator::{Add, Subtract},
    Factor, Term, TermOperator::{Divide, Multiply},
};
use rule_solver::expression::Bindings;
use rule_solver::expression::Reducible;

#[test]
fn arithmetic_test_matcher_clause_parsing() {
    let input = "H = M => K = D * 2 / A * B - 5";
    let (label, idx) = parse_matcher_clause(input).unwrap();

    assert_eq!("M", label);
    assert_eq!("D * 2 / A * B - 5", &input[idx..]);
}

#[test]
fn test_integration_parser() {
    let input = "H = M => K = 21 * 4 / 2 - 10";

    let (parsed, _) = parse(input).unwrap();
    let result = parsed.0.reduce(&Bindings::new()).unwrap();

    assert_eq!(f64::from_bits(result), 32.0);
    assert_eq!(parsed.1, "M");
}

#[test]
fn test_expression_reducibility() {
    let expression_str = "42 + 4 * (5 / 2 - 1) - 10 * 0.625 + 1 / 2";
    let expression = Expression::parse(expression_str).unwrap().0;
    let actual = expression.reduce(&Bindings::new()).unwrap();

    assert_eq!(42.25, f64::from_bits(actual));
}

#[test]
fn test_expression_reducibility_variables() {
    let expression_str = "42 + 4 * (5 / UNKNOWN - 1) - 10 * VALUE + 1 / 2";
    let expression = Expression::parse(expression_str).unwrap().0;
    let mut variables = Bindings::new();
    variables.insert("UNKNOWN".to_string(), (0.8f64).to_bits());
    variables.insert("VALUE".to_string(), (-0.4f64).to_bits());

    let actual = expression.reduce(&variables).unwrap();

    assert_eq!(67.5, f64::from_bits(actual));
}

#[test]
fn test_expression_undefined_vars() {
    let expression_str = "-5 + UNKNOWN";
    let expression = Expression::parse(expression_str).unwrap().0;
    let variables = Bindings::new();

    let actual = expression.reduce(&variables).unwrap_err();

    assert_eq!("Variable UNKNOWN is undefined", actual.message());
}

#[test]
fn test_expression_divide_by_zero() {
    let expression_str = "-5 / 0";
    let expression = Expression::parse(expression_str).unwrap().0;
    let variables = Bindings::new();

    let actual = expression.reduce(&variables).unwrap();

    assert_eq!(f64::NEG_INFINITY, f64::from_bits(actual));
}

#[test]
fn test_expression_parsing() {
    let expected = Expression {
        head: Term {
            head: Factor::Constant((42.0f64).to_bits()),
            tail: vec![],
        },
        tail: vec![(
            Add,
            Term {
                head: Factor::Constant((4.0f64).to_bits()),
                tail: vec![(
                    Multiply,
                    Factor::ExpressionInParens(Box::new(Expression {
                        head: Term {
                            head: Factor::Constant((5.0f64).to_bits()),
                            tail: vec![(Divide, Factor::Variable("Foo".to_string()))],
                        },
                        tail: vec![(
                            Subtract,
                            Term {
                                head: Factor::Variable("Bar".to_string()),
                                tail: vec![],
                            },
                        )],
                    })),
                )],
            },
        )],
    };

    let actual = Expression::parse("42 + 4 * (5 / Foo - Bar)").unwrap().0;
    assert_eq!(expected, actual);
}

#[test]
fn test_term_parsing_multiplication() {
    let expected = Term {
        tail: vec![(Multiply, Factor::Constant((4.0f64).to_bits()))],
        head: Factor::Constant((42.0f64).to_bits()),
    };

    let input = "42 * 4";
    let (actual, idx) = Term::parse(input).unwrap();
    assert_eq!(expected, actual);
    assert_eq!(idx, input.len());
}

#[test]
fn test_term_parsing_constant() {
    let expected = Term {
        tail: vec![],
        head: Factor::Constant((42.0f64).to_bits()),
    };

    let input = "42";
    let (actual, idx) = Term::parse(input).unwrap();
    assert_eq!(expected, actual);
    assert_eq!(idx, input.len());
}

#[test]
fn test_term_parsing_mixed() {
    let expected = Term {
        tail: vec![
            (Multiply, Factor::Variable("Foobar".to_string())),
            (Divide, Factor::Constant((55.0f64).to_bits())),
        ],
        head: Factor::Constant((42.0f64).to_bits()),
    };

    let input = "42 * Foobar / 55";
    let (actual, idx) = Term::parse(input).unwrap();
    assert_eq!(expected, actual);
    assert_eq!(idx, input.len());
}

#[test]
fn test_term_parsing_invalid() {
    let tail = vec![(Multiply, Factor::Variable("Foobar".to_string()))];

    let expected = Term {
        tail,
        head: Factor::Constant((42.0f64).to_bits()),
    };

    let remainder = "+ $#&#7#R!";
    let expression = format!("42 * Foobar {}", remainder);

    let (actual, idx) = Term::parse(&expression).unwrap();
    assert_eq!(expected, actual);
    assert_eq!(remainder, &expression[idx..]);
}

#[test]
fn factor_test_parsing_constant() {
    let input = "42";
    let (actual, idx) = Factor::parse(input).unwrap();
    assert_eq!(Factor::Constant((42.0f64).to_bits()), actual);
    assert_eq!(idx, input.len());
}

#[test]
fn factor_test_parsing_variable() {
    let input = "VARNAME";
    let (actual, idx) = Factor::parse(input).unwrap();
    assert_eq!(Factor::Variable("VARNAME".to_string()), actual);
    assert_eq!(idx, input.len());
}

#[test]
fn test_invalid_input() {
    assert!(Factor::parse("/$#%*").is_none());
}

#[test]
fn test_parsing_parenthized_expression() {
    let expected = Factor::ExpressionInParens(Box::new(Expression {
        head: Term {
            head: Factor::Constant((5.0f64).to_bits()),
            tail: vec![(Multiply, Factor::Variable("VARNAME".to_string()))],
        },
        tail: vec![],
    }));

    assert_eq!(expected, Factor::parse("(5 * VARNAME)").unwrap().0);
}
