use rule_solver::expression::Bindings;
use rule_solver::solver::Solver;

fn variable_tables() -> (Bindings<bool>, Bindings<u64>) {
    let mut bool_vars = Bindings::new();
    bool_vars.insert("A".to_string(), false);
    bool_vars.insert("B".to_string(), true);
    bool_vars.insert("C".to_string(), true);

    let mut arithmetic_vars = Bindings::new();
    arithmetic_vars.insert("D".to_string(), (1.5f64).to_bits());
    arithmetic_vars.insert("E".to_string(), (20.0f64).to_bits());
    arithmetic_vars.insert("F".to_string(), (10.0f64).to_bits());

    (bool_vars, arithmetic_vars)
}

#[test]
fn test_default_solver() {
    let (bool_vars, arithmetic_vars) = variable_tables();
    let solver = Solver::default();
    let (label, value) = solver.solve(&bool_vars, &arithmetic_vars).unwrap();

    assert_eq!(("T".to_string(), 1.0), (label, f64::from_bits(value)));
}

// Newly added values take precedence over the basic ones.
#[test]
fn test_adding_expressions() {
    let (bool_vars, arithmetic_vars) = variable_tables();
    let mut solver = Solver::default();

    solver
        .add("H = M => K = (E * D * D / (E * (D * (F + E))))")
        .unwrap();
    solver.add("A || !A => H = M").unwrap();
    let (label, value) = solver.solve(&bool_vars, &arithmetic_vars).unwrap();

    assert_eq!(("M".to_string(), 0.05), (label, f64::from_bits(value)));
}

#[test]
fn test_unsolvable() {
    let (mut bool_vars, arithmetic_vars) = variable_tables();
    let solver = Solver::default();

    bool_vars.insert("B".to_string(), false);

    let solution = solver.solve(&bool_vars, &arithmetic_vars).unwrap_err();

    assert_eq!("Unable to find the solution", solution.message());
}

#[test]
fn test_parse_failure_surfaces_offending_text() {
    let mut solver = Solver::default();

    let err = solver.add("A && 13 => H = P").unwrap_err();

    assert_eq!(
        "Unable to parse the expression A && 13 => H = P",
        err.message()
    );
}

#[test]
fn test_undefined_variable_through_solver() {
    let (bool_vars, _) = variable_tables();
    let solver = Solver::default();

    // The winning rule is T, whose formula reads F; F is not bound.
    let mut arithmetic_vars = Bindings::new();
    arithmetic_vars.insert("D".to_string(), (1.5f64).to_bits());
    arithmetic_vars.insert("E".to_string(), (20.0f64).to_bits());

    let err = solver.solve(&bool_vars, &arithmetic_vars).unwrap_err();

    assert_eq!("Variable F is undefined", err.message());
}

#[test]
fn test_no_matching_formula_label() {
    let (bool_vars, arithmetic_vars) = variable_tables();
    let mut solver = Solver::default();

    // The winner's label Z matches no arithmetic rule.
    solver.add("B => H = Z").unwrap();

    let err = solver.solve(&bool_vars, &arithmetic_vars).unwrap_err();

    assert_eq!("Unable to find the solution", err.message());
}

#[test]
fn test_add_all_stops_at_first_failure() {
    let (bool_vars, arithmetic_vars) = variable_tables();
    let mut solver = Solver::default();

    let rules = vec![
        "B => H = M".to_string(),
        "### not a rule".to_string(),
        "B => H = T".to_string(),
    ];
    let err = solver.add_all(&rules).unwrap_err();
    assert_eq!(
        "Unable to parse the expression ### not a rule",
        err.message()
    );

    // The rule before the failure was kept; the one after it was never added.
    let (label, _) = solver.solve(&bool_vars, &arithmetic_vars).unwrap();
    assert_eq!("M", label);
}

#[test]
fn test_add_all_in_order() {
    let (bool_vars, arithmetic_vars) = variable_tables();
    let mut solver = Solver::default();

    solver
        .add_all(&vec!["B => H = M".to_string(), "B => H = T".to_string()])
        .unwrap();

    // The most recently appended true rule wins.
    let (label, value) = solver.solve(&bool_vars, &arithmetic_vars).unwrap();
    assert_eq!("T", label);
    assert_eq!(1.0, f64::from_bits(value));
}
