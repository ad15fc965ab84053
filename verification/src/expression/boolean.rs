//! The boolean matcher grammar: an `Expression` is a single flat chain of
//! `Factor`s joined by `&&` and `||` at one shared precedence tier, strictly
//! left-associative. A factor is a literal, a variable, or a negated
//! variable; negating a literal is resolved at parse time, negating a
//! variable is deferred to reduction time.
use vstd::prelude::*;
use crate::errors::RuleError;
use crate::expression::common::{
    Bindings, Reducible, reduction_matches, spec_skip_spaces, spec_alpha_end, spec_tag,
    spec_char_at, spec_parse_variable, skip_spaces, alpha_end, tag_at, char_at, parse_variable,
};
use vstd::string::StrSliceExecFns;

verus! {

broadcast use vstd::string::to_string_from_display_ensures_for_str;

/// The operators that join factors, sharing one precedence tier.
#[derive(Clone, Copy, PartialEq, Eq, Debug)]
pub enum ExpressionOperator {
    And,
    Or,
}

/// One operand of a matcher expression.
#[derive(PartialEq, Debug)]
pub enum Factor {
    Variable(String),
    NegatedVariable(String),
    Constant(bool),
}

/// One head factor followed by zero or more `(operator, factor)` pairs.
#[derive(PartialEq, Debug)]
pub struct Expression {
    pub head: Factor,
    pub tail: Vec<(ExpressionOperator, Factor)>,
}

/// The mathematical shape of a factor.
pub enum FactorModel {
    Variable(Seq<char>),
    NegatedVariable(Seq<char>),
    Constant(bool),
}

/// The mathematical shape of a matcher expression.
pub struct ExpressionModel {
    pub head: FactorModel,
    pub tail: Seq<(ExpressionOperator, FactorModel)>,
}

pub open spec fn factor_model(f: Factor) -> FactorModel {
    match f {
        Factor::Variable(name) => FactorModel::Variable(name@),
        Factor::NegatedVariable(name) => FactorModel::NegatedVariable(name@),
        Factor::Constant(b) => FactorModel::Constant(b),
    }
}

pub open spec fn expression_tail_model(tail: Seq<(ExpressionOperator, Factor)>) -> Seq<
    (ExpressionOperator, FactorModel),
>
    decreases tail,
{
    if tail.len() == 0 {
        Seq::empty()
    } else {
        expression_tail_model(tail.drop_last()).push(
            (tail[tail.len() - 1].0, factor_model(tail[tail.len() - 1].1)),
        )
    }
}

pub open spec fn expression_model(e: Expression) -> ExpressionModel {
    ExpressionModel { head: factor_model(e.head), tail: expression_tail_model(e.tail@) }
}

impl View for Factor {
    type V = FactorModel;

    open spec fn view(&self) -> FactorModel {
        factor_model(*self)
    }
}

impl View for Expression {
    type V = ExpressionModel;

    open spec fn view(&self) -> ExpressionModel {
        expression_model(*self)
    }
}

pub proof fn lemma_expression_tail_model(tail: Seq<(ExpressionOperator, Factor)>)
    ensures
        expression_tail_model(tail).len() == tail.len(),
        forall|k: int|
            0 <= k < tail.len() ==> expression_tail_model(tail)[k] == (
                tail[k].0,
                factor_model(tail[k].1),
            ),
    decreases tail.len(),
{
    if tail.len() > 0 {
        lemma_expression_tail_model(tail.drop_last());
    }
}

/// The primitive operation an operator stands for. Both operands are always
/// evaluated before it applies: there is no short-circuit over values, only
/// over failures.
pub open spec fn apply_expression_operator(op: ExpressionOperator, a: bool, b: bool) -> bool {
    match op {
        ExpressionOperator::And => a && b,
        ExpressionOperator::Or => a || b,
    }
}

/// Reduction of a factor: a constant is its own value; a variable is looked
/// up (failing with its name when absent), inverted when it was negated.
pub open spec fn reduce_factor(f: FactorModel, table: Map<Seq<char>, bool>) -> Result<
    bool,
    Seq<char>,
> {
    match f {
        FactorModel::Constant(b) => Ok(b),
        FactorModel::Variable(name) => if table.contains_key(name) {
            Ok(table[name])
        } else {
            Err(name)
        },
        FactorModel::NegatedVariable(name) => if table.contains_key(name) {
            Ok(!table[name])
        } else {
            Err(name)
        },
    }
}

/// The strict left-to-right fold over an expression's tail, short-circuiting
/// on the first failure.
pub open spec fn reduce_expression_tail(
    acc: bool,
    tail: Seq<(ExpressionOperator, FactorModel)>,
    table: Map<Seq<char>, bool>,
) -> Result<bool, Seq<char>>
    decreases tail,
{
    if tail.len() == 0 {
        Ok(acc)
    } else {
        match reduce_factor(tail[0].1, table) {
            Ok(v) => reduce_expression_tail(
                apply_expression_operator(tail[0].0, acc, v),
                tail.subrange(1, tail.len() as int),
                table,
            ),
            Err(name) => Err(name),
        }
    }
}

pub open spec fn reduce_expression(e: ExpressionModel, table: Map<Seq<char>, bool>) -> Result<
    bool,
    Seq<char>,
> {
    match reduce_factor(e.head, table) {
        Ok(v) => reduce_expression_tail(v, e.tail, table),
        Err(name) => Err(name),
    }
}

fn eval_factor(f: &Factor, table: &Bindings<bool>) -> (r: Result<bool, RuleError>)
    ensures
        reduction_matches(r, reduce_factor(f@, table@)),
{
    match f {
        Factor::Constant(b) => Ok(*b),
        Factor::Variable(name) => match table.get(name) {
            Some(v) => Ok(v),
            None => Err(RuleError::UndefinedVariable(name.clone())),
        },
        Factor::NegatedVariable(name) => match table.get(name) {
            Some(v) => Ok(!v),
            None => Err(RuleError::UndefinedVariable(name.clone())),
        },
    }
}

fn eval_expression(e: &Expression, table: &Bindings<bool>) -> (r: Result<bool, RuleError>)
    ensures
        reduction_matches(r, reduce_expression(e@, table@)),
{
    let mut acc = match eval_factor(&e.head, table) {
        Ok(v) => v,
        Err(err) => {
            return Err(err);
        },
    };
    let ghost models = expression_tail_model(e.tail@);
    proof {
        lemma_expression_tail_model(e.tail@);
        assert(models.subrange(0, models.len() as int) =~= models);
    }
    let mut k: usize = 0;
    loop
        invariant
            k <= e.tail@.len(),
            models == expression_tail_model(e.tail@),
            models.len() == e.tail@.len(),
            forall|q: int|
                0 <= q < e.tail@.len() ==> models[q] == (e.tail@[q].0, factor_model(e.tail@[q].1)),
            reduce_expression(e@, table@) == reduce_expression_tail(
                acc,
                models.subrange(k as int, models.len() as int),
                table@,
            ),
        decreases e.tail@.len() - k,
    {
        if k == e.tail.len() {
            return Ok(acc);
        }
        let item = &e.tail[k];
        proof {
            assert(models.subrange(k as int, models.len() as int)[0] == models[k as int]);
            assert(models.subrange(k as int, models.len() as int).subrange(
                1,
                models.len() - k,
            ) =~= models.subrange(k as int + 1, models.len() as int));
        }
        let v = match eval_factor(&item.1, table) {
            Ok(v) => v,
            Err(err) => {
                return Err(err);
            },
        };
        acc = match item.0 {
            ExpressionOperator::And => acc && v,
            ExpressionOperator::Or => acc || v,
        };
        k = k + 1;
    }
}

impl Reducible<bool> for Factor {
    open spec fn reduce_model(&self, table: Map<Seq<char>, bool>) -> Result<bool, Seq<char>> {
        reduce_factor(self@, table)
    }

    fn reduce(&self, table: &Bindings<bool>) -> (r: Result<bool, RuleError>) {
        eval_factor(self, table)
    }
}

impl Reducible<bool> for Expression {
    open spec fn reduce_model(&self, table: Map<Seq<char>, bool>) -> Result<bool, Seq<char>> {
        reduce_expression(self@, table)
    }

    fn reduce(&self, table: &Bindings<bool>) -> (r: Result<bool, RuleError>) {
        eval_expression(self, table)
    }
}

/// A factor is an optional negation marker, then a boolean literal or a
/// variable name, with surrounding spaces trimmed. A negated literal is
/// folded into a plain constant at parse time; a negated variable keeps its
/// negation for reduction time.
pub open spec fn spec_parse_factor(s: Seq<char>, i: int) -> Option<(FactorModel, int)> {
    let a = spec_skip_spaces(s, i);
    let neg = spec_char_at(s, a, '!');
    let p = if neg {
        a + 1
    } else {
        a
    };
    if spec_tag(s, p, "true"@) {
        Some((FactorModel::Constant(!neg), spec_skip_spaces(s, p + 4)))
    } else if spec_tag(s, p, "false"@) {
        Some((FactorModel::Constant(neg), spec_skip_spaces(s, p + 5)))
    } else {
        let e = spec_alpha_end(s, p);
        if e > p {
            if neg {
                Some((FactorModel::NegatedVariable(s.subrange(p, e)), spec_skip_spaces(s, e)))
            } else {
                Some((FactorModel::Variable(s.subrange(p, e)), spec_skip_spaces(s, e)))
            }
        } else {
            None
        }
    }
}

/// Zero or more `(operator, factor)` pairs: stops, without failing, at the
/// first position where no operator token or no following factor matches.
pub open spec fn spec_parse_expression_tail(s: Seq<char>, i: int) -> (
    Seq<(ExpressionOperator, FactorModel)>,
    int,
)
    decreases s.len() - i,
{
    let op = if spec_char_at(s, i, '&') && spec_char_at(s, i + 1, '&') {
        Some(ExpressionOperator::And)
    } else if spec_char_at(s, i, '|') && spec_char_at(s, i + 1, '|') {
        Some(ExpressionOperator::Or)
    } else {
        None
    };
    match op {
        None => (Seq::empty(), i),
        Some(o) => match spec_parse_factor(s, i + 2) {
            Some((f, j)) => if i < j <= s.len() {
                let rest = spec_parse_expression_tail(s, j);
                (seq![(o, f)] + rest.0, rest.1)
            } else {
                (Seq::empty(), i)
            },
            None => (Seq::empty(), i),
        },
    }
}

pub open spec fn spec_parse_expression(s: Seq<char>, i: int) -> Option<(ExpressionModel, int)> {
    match spec_parse_factor(s, i) {
        Some((f, j)) => if i <= j <= s.len() {
            let rest = spec_parse_expression_tail(s, j);
            Some((ExpressionModel { head: f, tail: rest.0 }, rest.1))
        } else {
            None
        },
        None => None,
    }
}

fn parse_factor(s: &str, i: usize, n: usize) -> (r: Option<(Factor, usize)>)
    requires
        n == s@.len(),
        i <= n,
    ensures
        ({
            let m = spec_parse_factor(s@, i as int);
            match r {
                Some(p) => m == Some((p.0@, p.1 as int)) && i < p.1 <= n,
                None => m is None,
            }
        }),
{
    proof {
        reveal_strlit("true");
        reveal_strlit("false");
    }
    let a = skip_spaces(s, i, n);
    let neg = char_at(s, a, n, '!');
    let p = if neg {
        a + 1
    } else {
        a
    };
    if tag_at(s, p, n, "true") {
        let b = skip_spaces(s, p + 4, n);
        Some((Factor::Constant(!neg), b))
    } else if tag_at(s, p, n, "false") {
        let b = skip_spaces(s, p + 5, n);
        Some((Factor::Constant(neg), b))
    } else {
        let e = alpha_end(s, p, n);
        if e > p {
            let name = s.substring_char(p, e).to_string();
            let b = skip_spaces(s, e, n);
            if neg {
                Some((Factor::NegatedVariable(name), b))
            } else {
                Some((Factor::Variable(name), b))
            }
        } else {
            None
        }
    }
}

fn parse_expression_tail(s: &str, i: usize, n: usize) -> (r: (
    Vec<(ExpressionOperator, Factor)>,
    usize,
))
    requires
        n == s@.len(),
        i <= n,
    ensures
        ({
            let m = spec_parse_expression_tail(s@, i as int);
            expression_tail_model(r.0@) == m.0 && m.1 == r.1 as int && i <= r.1 <= n
        }),
{
    let mut tail: Vec<(ExpressionOperator, Factor)> = Vec::new();
    let mut k = i;
    proof {
        assert(expression_tail_model(tail@) =~= Seq::<(ExpressionOperator, FactorModel)>::empty());
    }
    loop
        invariant
            n == s@.len(),
            i <= k <= n,
            spec_parse_expression_tail(s@, i as int).0 =~= expression_tail_model(tail@)
                + spec_parse_expression_tail(s@, k as int).0,
            spec_parse_expression_tail(s@, i as int).1 == spec_parse_expression_tail(
                s@,
                k as int,
            ).1,
        decreases n - k,
    {
        let op = if char_at(s, k, n, '&') && char_at(s, k + 1, n, '&') {
            Some(ExpressionOperator::And)
        } else if char_at(s, k, n, '|') && char_at(s, k + 1, n, '|') {
            Some(ExpressionOperator::Or)
        } else {
            None
        };
        let o = match op {
            Some(o) => o,
            None => {
                proof {
                    assert(spec_parse_expression_tail(s@, k as int).0 =~= Seq::<
                        (ExpressionOperator, FactorModel),
                    >::empty());
                    assert(expression_tail_model(tail@) + spec_parse_expression_tail(
                        s@,
                        k as int,
                    ).0 =~= expression_tail_model(tail@));
                }
                return (tail, k);
            },
        };
        let f = match parse_factor(s, k + 2, n) {
            Some(p) => p,
            None => {
                proof {
                    assert(spec_parse_expression_tail(s@, k as int).0 =~= Seq::<
                        (ExpressionOperator, FactorModel),
                    >::empty());
                    assert(expression_tail_model(tail@) + spec_parse_expression_tail(
                        s@,
                        k as int,
                    ).0 =~= expression_tail_model(tail@));
                }
                return (tail, k);
            },
        };
        let ghost before = tail@;
        tail.push((o, f.0));
        proof {
            assert(tail@.drop_last() =~= before);
            assert(expression_tail_model(tail@) =~= expression_tail_model(before).push(
                (o, f.0@),
            ));
            assert(expression_tail_model(before) + (seq![(o, f.0@)] + spec_parse_expression_tail(
                s@,
                f.1 as int,
            ).0) =~= expression_tail_model(tail@) + spec_parse_expression_tail(s@, f.1 as int).0);
        }
        k = f.1;
    }
}

fn parse_expression(s: &str, i: usize, n: usize) -> (r: Option<(Expression, usize)>)
    requires
        n == s@.len(),
        i <= n,
    ensures
        ({
            let m = spec_parse_expression(s@, i as int);
            match r {
                Some(p) => m == Some((p.0@, p.1 as int)) && i < p.1 <= n,
                None => m is None,
            }
        }),
{
    let head = match parse_factor(s, i, n) {
        Some(p) => p,
        None => {
            return None;
        },
    };
    let rest = parse_expression_tail(s, head.1, n);
    Some((Expression { head: head.0, tail: rest.0 }, rest.1))
}

impl Factor {
    /// Parses one factor from the front of `input`, returning it with the
    /// count of characters consumed.
    pub fn parse(input: &str) -> (r: Option<(Factor, usize)>)
        ensures
            ({
                let m = spec_parse_factor(input@, 0);
                match r {
                    Some(p) => m == Some((p.0@, p.1 as int)) && 0 < p.1 <= input@.len(),
                    None => m is None,
                }
            }),
    {
        let n = input.unicode_len();
        parse_factor(input, 0, n)
    }
}

impl Expression {
    /// Parses one matcher expression from the front of `input`, returning it
    /// with the count of characters consumed.
    pub fn parse(input: &str) -> (r: Option<(Expression, usize)>)
        ensures
            ({
                let m = spec_parse_expression(input@, 0);
                match r {
                    Some(p) => m == Some((p.0@, p.1 as int)) && 0 < p.1 <= input@.len(),
                    None => m is None,
                }
            }),
    {
        let n = input.unicode_len();
        parse_expression(input, 0, n)
    }
}

/// The matcher clause `=> H = <LABEL>` at position `i` of `s`, yielding the
/// label and the end position.
pub open spec fn spec_parse_matcher_clause_at(s: Seq<char>, i: int) -> Option<(Seq<char>, int)> {
    if spec_tag(s, i, "=> H ="@) {
        spec_parse_variable(s, i + 6)
    } else {
        None
    }
}

/// A whole boolean rule: `<boolean expression> => H = <LABEL>`. Yields the
/// expression, its label, and the count of characters consumed; trailing
/// text is left to the caller.
pub open spec fn spec_parse_rule(s: Seq<char>) -> Option<((ExpressionModel, Seq<char>), int)> {
    match spec_parse_expression(s, 0) {
        Some((e, j)) => match spec_parse_matcher_clause_at(s, j) {
            Some((label, end)) => Some((((e, label)), end)),
            None => None,
        },
        None => None,
    }
}

fn parse_matcher_clause_at(s: &str, i: usize, n: usize) -> (r: Option<(String, usize)>)
    requires
        n == s@.len(),
        i <= n,
    ensures
        ({
            let m = spec_parse_matcher_clause_at(s@, i as int);
            match r {
                Some(p) => m == Some((p.0@, p.1 as int)) && p.1 <= n,
                None => m is None,
            }
        }),
{
    proof {
        reveal_strlit("=> H =");
    }
    if tag_at(s, i, n, "=> H =") {
        parse_variable(s, i + 6, n)
    } else {
        None
    }
}

/// Parses a matcher clause, such as `=> H = M`, and returns the label (`M`
/// in the example) with the count of characters consumed.
pub fn parse_matcher_clause(input: &str) -> (r: Option<(String, usize)>)
    ensures
        ({
            let m = spec_parse_matcher_clause_at(input@, 0);
            match r {
                Some(p) => m == Some((p.0@, p.1 as int)) && p.1 <= input@.len(),
                None => m is None,
            }
        }),
{
    let n = input.unicode_len();
    parse_matcher_clause_at(input, 0, n)
}

/// Parses a whole boolean rule, such as `A && B && !C => H = M`.
pub fn parse(input: &str) -> (r: Option<((Expression, String), usize)>)
    ensures
        ({
            let m = spec_parse_rule(input@);
            match r {
                Some(p) => m == Some(((p.0.0@, p.0.1@), p.1 as int)) && p.1 <= input@.len(),
                None => m is None,
            }
        }),
{
    let n = input.unicode_len();
    let head = match parse_expression(input, 0, n) {
        Some(p) => p,
        None => {
            return None;
        },
    };
    match parse_matcher_clause_at(input, head.1, n) {
        Some(c) => Some(((head.0, c.0), c.1)),
        None => None,
    }
}

} // verus!
