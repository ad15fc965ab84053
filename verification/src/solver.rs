//! The rule store and solver: two ordered, append-only collections of
//! (expression, label) rules, seeded with a fixed base set, and the
//! resolution that scans them in reverse insertion order so that appended
//! rules override base rules.
use vstd::prelude::*;
use crate::errors::{ErrorModel, RuleError};
use crate::expression::arithmetic;
use crate::expression::boolean;
use crate::expression::common::Bindings;
use crate::expression::common::Reducible;

verus! {

broadcast use vstd::string::to_string_from_display_ensures_for_str;

/// The mathematical state of a rule store: two ordered rule sequences, in
/// insertion order.
pub struct SolverModel {
    pub boolean: Seq<(boolean::ExpressionModel, Seq<char>)>,
    pub arithmetic: Seq<(arithmetic::ExpressionModel, Seq<char>)>,
}

/// The backbone of the application: stores boolean matcher rules and
/// arithmetic formula rules, and solves them against variable bindings.
pub struct Solver {
    boolean: Vec<(boolean::Expression, String)>,
    arithmetic: Vec<(arithmetic::Expression, String)>,
}

pub open spec fn boolean_rules_model(rules: Seq<(boolean::Expression, String)>) -> Seq<
    (boolean::ExpressionModel, Seq<char>),
> {
    Seq::new(rules.len(), |k: int| (rules[k].0@, rules[k].1@))
}

pub open spec fn arithmetic_rules_model(rules: Seq<(arithmetic::Expression, String)>) -> Seq<
    (arithmetic::ExpressionModel, Seq<char>),
> {
    Seq::new(rules.len(), |k: int| (rules[k].0@, rules[k].1@))
}

impl View for Solver {
    type V = SolverModel;

    closed spec fn view(&self) -> SolverModel {
        SolverModel {
            boolean: boolean_rules_model(self.boolean@),
            arithmetic: arithmetic_rules_model(self.arithmetic@),
        }
    }
}

/// What one `add` does to a store: text that parses as a boolean rule is
/// appended to the boolean rules; otherwise text that parses as an
/// arithmetic rule is appended to the arithmetic rules; any remainder after
/// the parsed rule is ignored. The flag says whether either grammar
/// accepted the text.
pub open spec fn spec_add(m: SolverModel, text: Seq<char>) -> (SolverModel, bool) {
    match boolean::spec_parse_rule(text) {
        Some((rule, _)) => (
            SolverModel { boolean: m.boolean.push(rule), arithmetic: m.arithmetic },
            true,
        ),
        None => match arithmetic::spec_parse_rule(text) {
            Some((rule, _)) => (
                SolverModel { boolean: m.boolean, arithmetic: m.arithmetic.push(rule) },
                true,
            ),
            None => (m, false),
        },
    }
}

/// What `add_all` does: sequential `add`, stopping at the first text that
/// neither grammar accepts and reporting it; rules added before the failure
/// are kept.
pub open spec fn spec_add_all(m: SolverModel, texts: Seq<Seq<char>>) -> (
    SolverModel,
    Result<(), Seq<char>>,
)
    decreases texts.len(),
{
    if texts.len() == 0 {
        (m, Ok(()))
    } else {
        let step = spec_add(m, texts[0]);
        if step.1 {
            spec_add_all(step.0, texts.subrange(1, texts.len() as int))
        } else {
            (m, Err(texts[0]))
        }
    }
}

/// The boolean winner: scanning in reverse insertion order, the first rule
/// whose reduction fails aborts the scan with that failure; otherwise the
/// first rule that reduces to true yields its label; otherwise there is no
/// winner.
pub open spec fn spec_find_winner(
    rules: Seq<(boolean::ExpressionModel, Seq<char>)>,
    table: Map<Seq<char>, bool>,
) -> Result<Option<Seq<char>>, Seq<char>>
    decreases rules.len(),
{
    if rules.len() == 0 {
        Ok(None)
    } else {
        match boolean::reduce_expression(rules.last().0, table) {
            Ok(v) => if v {
                Ok(Some(rules.last().1))
            } else {
                spec_find_winner(rules.drop_last(), table)
            },
            Err(name) => Err(name),
        }
    }
}

/// The most recently appended arithmetic rule whose label equals the
/// winning label.
pub open spec fn spec_find_formula(
    rules: Seq<(arithmetic::ExpressionModel, Seq<char>)>,
    label: Seq<char>,
) -> Option<arithmetic::ExpressionModel>
    decreases rules.len(),
{
    if rules.len() == 0 {
        None
    } else if rules.last().1 == label {
        Some(rules.last().0)
    } else {
        spec_find_formula(rules.drop_last(), label)
    }
}

/// What `solve` computes: the boolean winner's label, then the matching
/// arithmetic formula, then that formula's value; each stage's failure is
/// the whole result's failure.
pub open spec fn spec_solve(
    m: SolverModel,
    bools: Map<Seq<char>, bool>,
    floats: Map<Seq<char>, u64>,
) -> Result<(Seq<char>, u64), ErrorModel> {
    match spec_find_winner(m.boolean, bools) {
        Err(name) => Err(ErrorModel::UndefinedVariable(name)),
        Ok(None) => Err(ErrorModel::NoSolution),
        Ok(Some(label)) => match spec_find_formula(m.arithmetic, label) {
            None => Err(ErrorModel::NoSolution),
            Some(e) => match arithmetic::reduce_expression(e, floats) {
                Ok(v) => Ok((label, v)),
                Err(name) => Err(ErrorModel::UndefinedVariable(name)),
            },
        },
    }
}

/// The store that `Solver::default` builds: the fixed base rule set, added
/// in order (text that fails to parse adds nothing).
pub open spec fn default_model() -> SolverModel {
    let m0 = SolverModel { boolean: Seq::empty(), arithmetic: Seq::empty() };
    let m1 = spec_add(m0, "A && B && !C => H = M"@).0;
    let m2 = spec_add(m1, "A && B && C  => H = P"@).0;
    let m3 = spec_add(m2, "!A && B && C => H = T"@).0;
    let m4 = spec_add(m3, "H = M => K = D + (D * E / 10)"@).0;
    let m5 = spec_add(m4, "H = P => K = D + (D * (E - F) / 25.5)"@).0;
    spec_add(m5, "H = T => K = D - (D * F / 30)"@).0
}

impl Solver {
    /// A store with no rules at all.
    pub fn new() -> (r: Solver)
        ensures
            r@ == (SolverModel { boolean: Seq::empty(), arithmetic: Seq::empty() }),
    {
        let r = Solver { boolean: Vec::new(), arithmetic: Vec::new() };
        proof {
            assert(boolean_rules_model(r.boolean@) =~= Seq::<
                (boolean::ExpressionModel, Seq<char>),
            >::empty());
            assert(arithmetic_rules_model(r.arithmetic@) =~= Seq::<
                (arithmetic::ExpressionModel, Seq<char>),
            >::empty());
        }
        r
    }

    /// Tries to parse the given text as a boolean rule, then as an
    /// arithmetic rule, and appends the result; text that neither grammar
    /// accepts is reported verbatim.
    pub fn add(&mut self, input: &str) -> (r: Result<(), RuleError>)
        ensures
            final(self)@ == spec_add(old(self)@, input@).0,
            (r is Ok) == spec_add(old(self)@, input@).1,
            r matches Err(e) ==> e@ == ErrorModel::Parse(input@),
    {
        match boolean::parse(input) {
            Some(p) => {
                let ghost before = self.boolean@;
                self.boolean.push(p.0);
                proof {
                    assert(boolean_rules_model(self.boolean@) =~= boolean_rules_model(before).push(
                        ((p.0.0@, p.0.1@)),
                    ));
                }
                Ok(())
            },
            None => match arithmetic::parse(input) {
                Some(p) => {
                    let ghost before = self.arithmetic@;
                    self.arithmetic.push(p.0);
                    proof {
                        assert(arithmetic_rules_model(self.arithmetic@) =~= arithmetic_rules_model(
                            before,
                        ).push(((p.0.0@, p.0.1@))));
                    }
                    Ok(())
                },
                None => Err(RuleError::Parse(input.to_string())),
            },
        }
    }

    /// Applies `add` to each text in order, stopping at and reporting the
    /// first failure.
    pub fn add_all(&mut self, expressions: &Vec<String>) -> (r: Result<(), RuleError>)
        ensures
            ({
                let out = spec_add_all(old(self)@, expressions@.map_values(|t: String| t@));
                final(self)@ == out.0 && (match r {
                    Ok(_) => out.1 is Ok,
                    Err(e) => out.1 matches Err(t) && e@ == ErrorModel::Parse(t),
                })
            }),
    {
        let ghost texts = expressions@.map_values(|t: String| t@);
        proof {
            assert(texts.subrange(0, texts.len() as int) =~= texts);
        }
        let mut k: usize = 0;
        loop
            invariant
                k <= expressions@.len(),
                texts == expressions@.map_values(|t: String| t@),
                texts.len() == expressions@.len(),
                spec_add_all(old(self)@, texts) == spec_add_all(
                    self@,
                    texts.subrange(k as int, texts.len() as int),
                ),
            decreases expressions@.len() - k,
        {
            if k == expressions.len() {
                return Ok(());
            }
            proof {
                assert(texts.subrange(k as int, texts.len() as int)[0] == texts[k as int]);
                assert(texts[k as int] == expressions@[k as int]@);
                assert(texts.subrange(k as int, texts.len() as int).subrange(
                    1,
                    texts.len() - k,
                ) =~= texts.subrange(k as int + 1, texts.len() as int));
            }
            match self.add(expressions[k].as_str()) {
                Ok(_) => {},
                Err(e) => {
                    return Err(e);
                },
            }
            k = k + 1;
        }
    }

    fn find_winner(&self, bool_vars: &Bindings<bool>) -> (r: Result<Option<String>, RuleError>)
        ensures
            ({
                let m = spec_find_winner(self@.boolean, bool_vars@);
                match r {
                    Ok(w) => match w {
                        Some(label) => m == Ok::<Option<Seq<char>>, Seq<char>>(Some(label@)),
                        None => m == Ok::<Option<Seq<char>>, Seq<char>>(None),
                    },
                    Err(e) => m matches Err(name) && e@ == ErrorModel::UndefinedVariable(name),
                }
            }),
    {
        let ghost brules = boolean_rules_model(self.boolean@);
        proof {
            assert(brules.take(brules.len() as int) =~= brules);
        }
        let mut k = self.boolean.len();
        loop
            invariant
                k <= self.boolean@.len(),
                brules == boolean_rules_model(self.boolean@),
                brules.len() == self.boolean@.len(),
                spec_find_winner(brules, bool_vars@) == spec_find_winner(
                    brules.take(k as int),
                    bool_vars@,
                ),
            decreases k,
        {
            if k == 0 {
                return Ok(None);
            }
            k = k - 1;
            let rule = &self.boolean[k];
            proof {
                assert(brules.take(k + 1).drop_last() =~= brules.take(k as int));
                assert(brules.take(k + 1).last() == brules[k as int]);
            }
            match rule.0.reduce(bool_vars) {
                Ok(v) => {
                    if v {
                        return Ok(Some(rule.1.clone()));
                    }
                },
                Err(e) => {
                    return Err(e);
                },
            }
        }
    }

    fn find_formula(&self, label: &String) -> (r: Option<&(arithmetic::Expression, String)>)
        ensures
            ({
                let m = spec_find_formula(self@.arithmetic, label@);
                match r {
                    Some(rule) => m == Some(rule.0@),
                    None => m is None,
                }
            }),
    {
        let ghost arules = arithmetic_rules_model(self.arithmetic@);
        proof {
            assert(arules.take(arules.len() as int) =~= arules);
        }
        let mut j = self.arithmetic.len();
        loop
            invariant
                j <= self.arithmetic@.len(),
                arules == arithmetic_rules_model(self.arithmetic@),
                arules.len() == self.arithmetic@.len(),
                spec_find_formula(arules, label@) == spec_find_formula(
                    arules.take(j as int),
                    label@,
                ),
            decreases j,
        {
            if j == 0 {
                return None;
            }
            j = j - 1;
            let rule = &self.arithmetic[j];
            proof {
                assert(arules.take(j + 1).drop_last() =~= arules.take(j as int));
                assert(arules.take(j + 1).last() == arules[j as int]);
            }
            if rule.1.eq(label) {
                return Some(rule);
            }
        }
    }

    /// Given variable tables, solves the stored rules: the most recently
    /// appended boolean rule that reduces to true names the outcome, the
    /// most recently appended arithmetic rule with that label computes the
    /// value.
    pub fn solve(&self, bool_vars: &Bindings<bool>, float_vars: &Bindings<u64>) -> (r: Result<
        (String, u64),
        RuleError,
    >)
        ensures
            ({
                let m = spec_solve(self@, bool_vars@, float_vars@);
                match r {
                    Ok(p) => m == Ok::<(Seq<char>, u64), ErrorModel>((p.0@, p.1)),
                    Err(e) => m == Err::<(Seq<char>, u64), ErrorModel>(e@),
                }
            }),
    {
        let label = match self.find_winner(bool_vars) {
            Ok(Some(label)) => label,
            Ok(None) => {
                return Err(RuleError::NoSolution);
            },
            Err(e) => {
                return Err(e);
            },
        };
        let rule = match self.find_formula(&label) {
            Some(rule) => rule,
            None => {
                return Err(RuleError::NoSolution);
            },
        };
        match rule.0.reduce(float_vars) {
            Ok(v) => Ok((label, v)),
            Err(e) => Err(e),
        }
    }
}

impl Default for Solver {
    /// A store pre-seeded with the fixed base rule set, ready for
    /// caller-supplied rules to be appended after (and so to override) it.
    fn default() -> (r: Solver)
        ensures
            r@ == default_model(),
    {
        let mut solver = Solver::new();
        let _ = solver.add("A && B && !C => H = M");
        let _ = solver.add("A && B && C  => H = P");
        let _ = solver.add("!A && B && C => H = T");
        let _ = solver.add("H = M => K = D + (D * E / 10)");
        let _ = solver.add("H = P => K = D + (D * (E - F) / 25.5)");
        let _ = solver.add("H = T => K = D - (D * F / 30)");
        solver
    }
}

/// Appended rules override base rules: when the most recently appended
/// boolean rule reduces to true, the reverse scan makes it the winner,
/// whatever the rules before it would have said.
pub proof fn lemma_last_true_rule_wins(
    rules: Seq<(boolean::ExpressionModel, Seq<char>)>,
    table: Map<Seq<char>, bool>,
)
    requires
        rules.len() > 0,
        boolean::reduce_expression(rules.last().0, table) == Ok::<bool, Seq<char>>(true),
    ensures
        spec_find_winner(rules, table) == Ok::<Option<Seq<char>>, Seq<char>>(
            Some(rules.last().1),
        ),
{
}

/// When every boolean rule reduces cleanly to false, the scan finds no
/// winner, and solving fails with the no-solution failure.
pub proof fn lemma_no_true_rule_no_winner(
    rules: Seq<(boolean::ExpressionModel, Seq<char>)>,
    table: Map<Seq<char>, bool>,
)
    requires
        forall|k: int|
            0 <= k < rules.len() ==> boolean::reduce_expression(rules[k].0, table) == Ok::<
                bool,
                Seq<char>,
            >(false),
    ensures
        spec_find_winner(rules, table) == Ok::<Option<Seq<char>>, Seq<char>>(None),
    decreases rules.len(),
{
    if rules.len() > 0 {
        lemma_no_true_rule_no_winner(rules.drop_last(), table);
    }
}

} // verus!
