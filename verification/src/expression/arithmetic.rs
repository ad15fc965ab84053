//! The arithmetic formula grammar: an `Expression` is a chain of `Term`s
//! joined by `+` and `-`, a `Term` is a chain of `Factor`s joined by `*` and
//! `/`, and a `Factor` is a constant, a variable, or a parenthesized nested
//! expression. Chains are strictly left-associative; `+`,`-` over `*`,`/`
//! precedence comes purely from the nesting of the two tiers.
use vstd::prelude::*;
use crate::errors::RuleError;
use crate::expression::common::{
    Bindings, Reducible, reduction_matches, spec_skip_spaces, spec_alpha_end, spec_digit_end,
    spec_tag, spec_char_at, spec_parse_variable, skip_spaces, alpha_end, digit_end, tag_at,
    char_at, parse_variable,
};
use crate::expression::value::{
    bits_of_literal, add_bits, sub_bits, mul_bits, div_bits, literal_bits, add_values, sub_values,
    mul_values, div_values,
};
use vstd::string::StrSliceExecFns;

verus! {

broadcast use vstd::string::to_string_from_display_ensures_for_str;

/// The equal-precedence operators that join factors into a term.
#[derive(Clone, Copy, PartialEq, Eq, Debug)]
pub enum TermOperator {
    Multiply,
    Divide,
}

/// The equal-precedence operators that join terms into an expression.
#[derive(Clone, Copy, PartialEq, Eq, Debug)]
pub enum ExpressionOperator {
    Add,
    Subtract,
}

/// One operand of a term: a constant (an IEEE double, carried as its bit
/// pattern), a variable, or a parenthesized nested expression.
#[derive(PartialEq, Debug)]
pub enum Factor {
    Variable(String),
    Constant(u64),
    ExpressionInParens(Box<Expression>),
}

/// One head factor followed by zero or more `(operator, factor)` pairs.
#[derive(PartialEq, Debug)]
pub struct Term {
    pub head: Factor,
    pub tail: Vec<(TermOperator, Factor)>,
}

/// One head term followed by zero or more `(operator, term)` pairs.
#[derive(PartialEq, Debug)]
pub struct Expression {
    pub head: Term,
    pub tail: Vec<(ExpressionOperator, Term)>,
}

/// The mathematical shape of a factor.
pub enum FactorModel {
    Variable(Seq<char>),
    Constant(u64),
    ExpressionInParens(Box<ExpressionModel>),
}

/// The mathematical shape of a term.
pub struct TermModel {
    pub head: FactorModel,
    pub tail: Seq<(TermOperator, FactorModel)>,
}

/// The mathematical shape of an expression.
pub struct ExpressionModel {
    pub head: TermModel,
    pub tail: Seq<(ExpressionOperator, TermModel)>,
}

pub open spec fn factor_model(f: Factor) -> FactorModel
    decreases f,
{
    match f {
        Factor::Variable(name) => FactorModel::Variable(name@),
        Factor::Constant(bits) => FactorModel::Constant(bits),
        Factor::ExpressionInParens(e) => FactorModel::ExpressionInParens(
            Box::new(expression_model(*e)),
        ),
    }
}

pub open spec fn term_tail_model(tail: Seq<(TermOperator, Factor)>) -> Seq<
    (TermOperator, FactorModel),
>
    decreases tail,
{
    if tail.len() == 0 {
        Seq::empty()
    } else {
        term_tail_model(tail.drop_last()).push(
            (tail[tail.len() - 1].0, factor_model(tail[tail.len() - 1].1)),
        )
    }
}

pub open spec fn term_model(t: Term) -> TermModel
    decreases t,
{
    TermModel { head: factor_model(t.head), tail: term_tail_model(t.tail@) }
}

pub open spec fn expression_tail_model(tail: Seq<(ExpressionOperator, Term)>) -> Seq<
    (ExpressionOperator, TermModel),
>
    decreases tail,
{
    if tail.len() == 0 {
        Seq::empty()
    } else {
        expression_tail_model(tail.drop_last()).push(
            (tail[tail.len() - 1].0, term_model(tail[tail.len() - 1].1)),
        )
    }
}

pub open spec fn expression_model(e: Expression) -> ExpressionModel
    decreases e,
{
    ExpressionModel { head: term_model(e.head), tail: expression_tail_model(e.tail@) }
}

impl View for Factor {
    type V = FactorModel;

    open spec fn view(&self) -> FactorModel {
        factor_model(*self)
    }
}

impl View for Term {
    type V = TermModel;

    open spec fn view(&self) -> TermModel {
        term_model(*self)
    }
}

impl View for Expression {
    type V = ExpressionModel;

    open spec fn view(&self) -> ExpressionModel {
        expression_model(*self)
    }
}

pub proof fn lemma_term_tail_model(tail: Seq<(TermOperator, Factor)>)
    ensures
        term_tail_model(tail).len() == tail.len(),
        forall|k: int|
            0 <= k < tail.len() ==> term_tail_model(tail)[k] == (
                tail[k].0,
                factor_model(tail[k].1),
            ),
    decreases tail.len(),
{
    if tail.len() > 0 {
        lemma_term_tail_model(tail.drop_last());
    }
}

pub proof fn lemma_expression_tail_model(tail: Seq<(ExpressionOperator, Term)>)
    ensures
        expression_tail_model(tail).len() == tail.len(),
        forall|k: int|
            0 <= k < tail.len() ==> expression_tail_model(tail)[k] == (
                tail[k].0,
                term_model(tail[k].1),
            ),
    decreases tail.len(),
{
    if tail.len() > 0 {
        lemma_expression_tail_model(tail.drop_last());
    }
}

/// The primitive operation a term-level operator stands for.
pub open spec fn apply_term_operator(op: TermOperator, a: u64, b: u64) -> u64 {
    match op {
        TermOperator::Multiply => mul_bits(a, b),
        TermOperator::Divide => div_bits(a, b),
    }
}

/// The primitive operation an expression-level operator stands for.
pub open spec fn apply_expression_operator(op: ExpressionOperator, a: u64, b: u64) -> u64 {
    match op {
        ExpressionOperator::Add => add_bits(a, b),
        ExpressionOperator::Subtract => sub_bits(a, b),
    }
}

/// Reduction of a factor: a constant is its own value, a variable is looked
/// up (failing with its name when absent), a parenthesized expression
/// recurses.
pub open spec fn reduce_factor(f: FactorModel, table: Map<Seq<char>, u64>) -> Result<
    u64,
    Seq<char>,
>
    decreases f,
{
    match f {
        FactorModel::Constant(bits) => Ok(bits),
        FactorModel::Variable(name) => if table.contains_key(name) {
            Ok(table[name])
        } else {
            Err(name)
        },
        FactorModel::ExpressionInParens(e) => reduce_expression(*e, table),
    }
}

/// The strict left-to-right fold over a term's tail, short-circuiting on the
/// first failure.
pub open spec fn reduce_term_tail(
    acc: u64,
    tail: Seq<(TermOperator, FactorModel)>,
    table: Map<Seq<char>, u64>,
) -> Result<u64, Seq<char>>
    decreases tail,
{
    if tail.len() == 0 {
        Ok(acc)
    } else {
        match reduce_factor(tail[0].1, table) {
            Ok(v) => reduce_term_tail(
                apply_term_operator(tail[0].0, acc, v),
                tail.subrange(1, tail.len() as int),
                table,
            ),
            Err(name) => Err(name),
        }
    }
}

pub open spec fn reduce_term(t: TermModel, table: Map<Seq<char>, u64>) -> Result<u64, Seq<char>>
    decreases t,
{
    match reduce_factor(t.head, table) {
        Ok(v) => reduce_term_tail(v, t.tail, table),
        Err(name) => Err(name),
    }
}

/// The strict left-to-right fold over an expression's tail.
pub open spec fn reduce_expression_tail(
    acc: u64,
    tail: Seq<(ExpressionOperator, TermModel)>,
    table: Map<Seq<char>, u64>,
) -> Result<u64, Seq<char>>
    decreases tail,
{
    if tail.len() == 0 {
        Ok(acc)
    } else {
        match reduce_term(tail[0].1, table) {
            Ok(v) => reduce_expression_tail(
                apply_expression_operator(tail[0].0, acc, v),
                tail.subrange(1, tail.len() as int),
                table,
            ),
            Err(name) => Err(name),
        }
    }
}

pub open spec fn reduce_expression(e: ExpressionModel, table: Map<Seq<char>, u64>) -> Result<
    u64,
    Seq<char>,
>
    decreases e,
{
    match reduce_term(e.head, table) {
        Ok(v) => reduce_expression_tail(v, e.tail, table),
        Err(name) => Err(name),
    }
}

fn eval_factor(f: &Factor, table: &Bindings<u64>) -> (r: Result<u64, RuleError>)
    ensures
        reduction_matches(r, reduce_factor(f@, table@)),
    decreases *f,
{
    match f {
        Factor::Constant(bits) => Ok(*bits),
        Factor::Variable(name) => match table.get(name) {
            Some(v) => Ok(v),
            None => Err(RuleError::UndefinedVariable(name.clone())),
        },
        Factor::ExpressionInParens(e) => eval_expression(e, table),
    }
}

fn eval_term(t: &Term, table: &Bindings<u64>) -> (r: Result<u64, RuleError>)
    ensures
        reduction_matches(r, reduce_term(t@, table@)),
    decreases *t,
{
    let mut acc = match eval_factor(&t.head, table) {
        Ok(v) => v,
        Err(e) => {
            return Err(e);
        },
    };
    let ghost models = term_tail_model(t.tail@);
    proof {
        lemma_term_tail_model(t.tail@);
        assert(models.subrange(0, models.len() as int) =~= models);
    }
    let mut k: usize = 0;
    loop
        invariant
            k <= t.tail@.len(),
            models == term_tail_model(t.tail@),
            models.len() == t.tail@.len(),
            forall|q: int|
                0 <= q < t.tail@.len() ==> models[q] == (t.tail@[q].0, factor_model(t.tail@[q].1)),
            reduce_term(t@, table@) == reduce_term_tail(
                acc,
                models.subrange(k as int, models.len() as int),
                table@,
            ),
        decreases t.tail@.len() - k,
    {
        if k == t.tail.len() {
            return Ok(acc);
        }
        let item = &t.tail[k];
        proof {
            assert(models.subrange(k as int, models.len() as int)[0] == models[k as int]);
            assert(models.subrange(k as int, models.len() as int).subrange(
                1,
                models.len() - k,
            ) =~= models.subrange(k as int + 1, models.len() as int));
        }
        let v = match eval_factor(&item.1, table) {
            Ok(v) => v,
            Err(e) => {
                return Err(e);
            },
        };
        acc = match item.0 {
            TermOperator::Multiply => mul_values(acc, v),
            TermOperator::Divide => div_values(acc, v),
        };
        k = k + 1;
    }
}

fn eval_expression(e: &Expression, table: &Bindings<u64>) -> (r: Result<u64, RuleError>)
    ensures
        reduction_matches(r, reduce_expression(e@, table@)),
    decreases *e,
{
    let mut acc = match eval_term(&e.head, table) {
        Ok(v) => v,
        Err(err) => {
            return Err(err);
        },
    };
    let ghost models = expression_tail_model(e.tail@);
    proof {
        lemma_expression_tail_model(e.tail@);
        assert(models.subrange(0, models.len() as int) =~= models);
    }
    let mut k: usize = 0;
    loop
        invariant
            k <= e.tail@.len(),
            models == expression_tail_model(e.tail@),
            models.len() == e.tail@.len(),
            forall|q: int|
                0 <= q < e.tail@.len() ==> models[q] == (e.tail@[q].0, term_model(e.tail@[q].1)),
            reduce_expression(e@, table@) == reduce_expression_tail(
                acc,
                models.subrange(k as int, models.len() as int),
                table@,
            ),
        decreases e.tail@.len() - k,
    {
        if k == e.tail.len() {
            return Ok(acc);
        }
        let item = &e.tail[k];
        proof {
            assert(models.subrange(k as int, models.len() as int)[0] == models[k as int]);
            assert(models.subrange(k as int, models.len() as int).subrange(
                1,
                models.len() - k,
            ) =~= models.subrange(k as int + 1, models.len() as int));
        }
        let v = match eval_term(&item.1, table) {
            Ok(v) => v,
            Err(err) => {
                return Err(err);
            },
        };
        acc = match item.0 {
            ExpressionOperator::Add => add_values(acc, v),
            ExpressionOperator::Subtract => sub_values(acc, v),
        };
        k = k + 1;
    }
}

impl Reducible<u64> for Factor {
    open spec fn reduce_model(&self, table: Map<Seq<char>, u64>) -> Result<u64, Seq<char>> {
        reduce_factor(self@, table)
    }

    fn reduce(&self, table: &Bindings<u64>) -> (r: Result<u64, RuleError>) {
        eval_factor(self, table)
    }
}

impl Reducible<u64> for Term {
    open spec fn reduce_model(&self, table: Map<Seq<char>, u64>) -> Result<u64, Seq<char>> {
        reduce_term(self@, table)
    }

    fn reduce(&self, table: &Bindings<u64>) -> (r: Result<u64, RuleError>) {
        eval_term(self, table)
    }
}

impl Reducible<u64> for Expression {
    open spec fn reduce_model(&self, table: Map<Seq<char>, u64>) -> Result<u64, Seq<char>> {
        reduce_expression(self@, table)
    }

    fn reduce(&self, table: &Bindings<u64>) -> (r: Result<u64, RuleError>) {
        eval_expression(self, table)
    }
}

/// End of the digit-and-dot part of a numeric literal that starts at `m`:
/// either digits with an optional fraction, or a bare `.` fraction with at
/// least one digit.
pub open spec fn spec_mantissa_end(s: Seq<char>, m: int) -> Option<int> {
    let d = spec_digit_end(s, m);
    if d > m {
        if d < s.len() && s[d] == '.' {
            Some(spec_digit_end(s, d + 1))
        } else {
            Some(d)
        }
    } else if m < s.len() && s[m] == '.' && spec_digit_end(s, m + 1) > m + 1 {
        Some(spec_digit_end(s, m + 1))
    } else {
        None
    }
}

/// End of the optional exponent that starts at `p`: an exponent marker must
/// be followed by an optional sign and at least one digit, else the whole
/// literal is rejected.
pub open spec fn spec_exponent_end(s: Seq<char>, p: int) -> Option<int> {
    if p < s.len() && (s[p] == 'e' || s[p] == 'E') {
        let q = if p + 1 < s.len() && (s[p + 1] == '+' || s[p + 1] == '-') {
            p + 2
        } else {
            p + 1
        };
        if spec_digit_end(s, q) > q {
            Some(spec_digit_end(s, q))
        } else {
            None
        }
    } else {
        Some(p)
    }
}

/// End of the floating-point literal that starts at `i`: an optional sign,
/// a mantissa, and an optional exponent.
pub open spec fn spec_literal_end(s: Seq<char>, i: int) -> Option<int> {
    let m = if i < s.len() && (s[i] == '+' || s[i] == '-') {
        i + 1
    } else {
        i
    };
    match spec_mantissa_end(s, m) {
        Some(d) => spec_exponent_end(s, d),
        None => None,
    }
}

fn mantissa_end(s: &str, m: usize, n: usize) -> (r: Option<usize>)
    requires
        n == s@.len(),
        m <= n,
    ensures
        ({
            let sm = spec_mantissa_end(s@, m as int);
            match r {
                Some(d) => sm == Some(d as int) && m < d <= n,
                None => sm is None,
            }
        }),
{
    let d = digit_end(s, m, n);
    if d > m {
        if d < n {
            let c = s.get_char(d);
            if c == '.' {
                return Some(digit_end(s, d + 1, n));
            }
        }
        Some(d)
    } else {
        if m < n {
            let c = s.get_char(m);
            if c == '.' {
                let f = digit_end(s, m + 1, n);
                if f > m + 1 {
                    return Some(f);
                }
            }
        }
        None
    }
}

fn exponent_end(s: &str, p: usize, n: usize) -> (r: Option<usize>)
    requires
        n == s@.len(),
        p <= n,
    ensures
        ({
            let sm = spec_exponent_end(s@, p as int);
            match r {
                Some(d) => sm == Some(d as int) && p <= d <= n,
                None => sm is None,
            }
        }),
{
    if p < n {
        let c = s.get_char(p);
        if c == 'e' || c == 'E' {
            let mut q = p + 1;
            if q < n {
                let c2 = s.get_char(q);
                if c2 == '+' || c2 == '-' {
                    q = q + 1;
                }
            }
            let d = digit_end(s, q, n);
            if d > q {
                return Some(d);
            }
            return None;
        }
    }
    Some(p)
}

fn literal_end(s: &str, i: usize, n: usize) -> (r: Option<usize>)
    requires
        n == s@.len(),
        i <= n,
    ensures
        ({
            let sm = spec_literal_end(s@, i as int);
            match r {
                Some(d) => sm == Some(d as int) && i < d <= n,
                None => sm is None,
            }
        }),
{
    let mut m = i;
    if i < n {
        let c = s.get_char(i);
        if c == '+' || c == '-' {
            m = i + 1;
        }
    }
    match mantissa_end(s, m, n) {
        Some(d) => exponent_end(s, d, n),
        None => None,
    }
}

/// A factor is, tried in this order: a parenthesized expression, a numeric
/// literal, or a variable name; each with surrounding spaces trimmed.
pub open spec fn spec_parse_factor(s: Seq<char>, i: int) -> Option<(FactorModel, int)>
    decreases s.len() - i, 0int,
{
    let a = spec_skip_spaces(s, i);
    if i <= a <= s.len() {
        if spec_char_at(s, a, '(') {
            match spec_parse_expression(s, a + 1) {
                Some((e, j)) => if spec_char_at(s, j, ')') {
                    Some(
                        (
                            FactorModel::ExpressionInParens(Box::new(e)),
                            spec_skip_spaces(s, j + 1),
                        ),
                    )
                } else {
                    None
                },
                None => None,
            }
        } else {
            match spec_literal_end(s, a) {
                Some(d) => Some(
                    (FactorModel::Constant(bits_of_literal(s.subrange(a, d))), spec_skip_spaces(s, d)),
                ),
                None => {
                    let e = spec_alpha_end(s, a);
                    if e > a {
                        Some((FactorModel::Variable(s.subrange(a, e)), spec_skip_spaces(s, e)))
                    } else {
                        None
                    }
                },
            }
        }
    } else {
        None
    }
}

/// Zero or more `(operator, factor)` pairs: stops, without failing, at the
/// first position where no operator token or no following factor matches.
pub open spec fn spec_parse_term_tail(s: Seq<char>, i: int) -> (Seq<(TermOperator, FactorModel)>, int)
    decreases s.len() - i, 1int,
{
    let op = if spec_char_at(s, i, '*') {
        Some(TermOperator::Multiply)
    } else if spec_char_at(s, i, '/') {
        Some(TermOperator::Divide)
    } else {
        None
    };
    match op {
        None => (Seq::empty(), i),
        Some(o) => match spec_parse_factor(s, i + 1) {
            Some((f, j)) => if i < j <= s.len() {
                let rest = spec_parse_term_tail(s, j);
                (seq![(o, f)] + rest.0, rest.1)
            } else {
                (Seq::empty(), i)
            },
            None => (Seq::empty(), i),
        },
    }
}

pub open spec fn spec_parse_term(s: Seq<char>, i: int) -> Option<(TermModel, int)>
    decreases s.len() - i, 2int,
{
    match spec_parse_factor(s, i) {
        Some((f, j)) => if i <= j <= s.len() {
            let rest = spec_parse_term_tail(s, j);
            Some((TermModel { head: f, tail: rest.0 }, rest.1))
        } else {
            None
        },
        None => None,
    }
}

pub open spec fn spec_parse_expression_tail(s: Seq<char>, i: int) -> (
    Seq<(ExpressionOperator, TermModel)>,
    int,
)
    decreases s.len() - i, 3int,
{
    let op = if spec_char_at(s, i, '+') {
        Some(ExpressionOperator::Add)
    } else if spec_char_at(s, i, '-') {
        Some(ExpressionOperator::Subtract)
    } else {
        None
    };
    match op {
        None => (Seq::empty(), i),
        Some(o) => match spec_parse_term(s, i + 1) {
            Some((t, j)) => if i < j <= s.len() {
                let rest = spec_parse_expression_tail(s, j);
                (seq![(o, t)] + rest.0, rest.1)
            } else {
                (Seq::empty(), i)
            },
            None => (Seq::empty(), i),
        },
    }
}

pub open spec fn spec_parse_expression(s: Seq<char>, i: int) -> Option<(ExpressionModel, int)>
    decreases s.len() - i, 4int,
{
    match spec_parse_term(s, i) {
        Some((t, j)) => if i <= j <= s.len() {
            let rest = spec_parse_expression_tail(s, j);
            Some((ExpressionModel { head: t, tail: rest.0 }, rest.1))
        } else {
            None
        },
        None => None,
    }
}

fn parse_factor(s: &str, i: usize, n: usize) -> (r: Option<(Factor, usize)>)
    requires
        n == s@.len(),
        i <= n,
    ensures
        ({
            let m = spec_parse_factor(s@, i as int);
            match r {
                Some(p) => m == Some((p.0@, p.1 as int)) && i < p.1 <= n,
                None => m is None,
            }
        }),
    decreases n - i, 0int,
{
    let a = skip_spaces(s, i, n);
    if char_at(s, a, n, '(') {
        match parse_expression(s, a + 1, n) {
            Some((e, j)) => {
                if char_at(s, j, n, ')') {
                    let b = skip_spaces(s, j + 1, n);
                    Some((Factor::ExpressionInParens(Box::new(e)), b))
                } else {
                    None
                }
            },
            None => None,
        }
    } else {
        match literal_end(s, a, n) {
            Some(d) => {
                let lit = s.substring_char(a, d);
                let bits = literal_bits(lit);
                let b = skip_spaces(s, d, n);
                Some((Factor::Constant(bits), b))
            },
            None => {
                let e = alpha_end(s, a, n);
                if e > a {
                    let name = s.substring_char(a, e).to_string();
                    let b = skip_spaces(s, e, n);
                    Some((Factor::Variable(name), b))
                } else {
                    None
                }
            },
        }
    }
}

fn parse_term_tail(s: &str, i: usize, n: usize) -> (r: (Vec<(TermOperator, Factor)>, usize))
    requires
        n == s@.len(),
        i <= n,
    ensures
        ({
            let m = spec_parse_term_tail(s@, i as int);
            term_tail_model(r.0@) == m.0 && m.1 == r.1 as int && i <= r.1 <= n
        }),
    decreases n - i, 1int,
{
    let mut tail: Vec<(TermOperator, Factor)> = Vec::new();
    let mut k = i;
    proof {
        assert(term_tail_model(tail@) =~= Seq::<(TermOperator, FactorModel)>::empty());
    }
    loop
        invariant
            n == s@.len(),
            i <= k <= n,
            spec_parse_term_tail(s@, i as int).0 =~= term_tail_model(tail@) + spec_parse_term_tail(
                s@,
                k as int,
            ).0,
            spec_parse_term_tail(s@, i as int).1 == spec_parse_term_tail(s@, k as int).1,
        decreases n - k,
    {
        let op = if char_at(s, k, n, '*') {
            Some(TermOperator::Multiply)
        } else if char_at(s, k, n, '/') {
            Some(TermOperator::Divide)
        } else {
            None
        };
        let o = match op {
            Some(o) => o,
            None => {
                proof {
                    assert(spec_parse_term_tail(s@, k as int).0 =~= Seq::<
                        (TermOperator, FactorModel),
                    >::empty());
                    assert(term_tail_model(tail@) + spec_parse_term_tail(s@, k as int).0
                        =~= term_tail_model(tail@));
                }
                return (tail, k);
            },
        };
        let f = match parse_factor(s, k + 1, n) {
            Some(p) => p,
            None => {
                proof {
                    assert(spec_parse_term_tail(s@, k as int).0 =~= Seq::<
                        (TermOperator, FactorModel),
                    >::empty());
                    assert(term_tail_model(tail@) + spec_parse_term_tail(s@, k as int).0
                        =~= term_tail_model(tail@));
                }
                return (tail, k);
            },
        };
        let ghost before = tail@;
        tail.push((o, f.0));
        proof {
            assert(tail@.drop_last() =~= before);
            assert(term_tail_model(tail@) =~= term_tail_model(before).push((o, f.0@)));
            assert((seq![(o, f.0@)] + spec_parse_term_tail(s@, f.1 as int).0) =~= seq![(o, f.0@)]
                + spec_parse_term_tail(s@, f.1 as int).0);
            assert(term_tail_model(before) + (seq![(o, f.0@)] + spec_parse_term_tail(
                s@,
                f.1 as int,
            ).0) =~= term_tail_model(tail@) + spec_parse_term_tail(s@, f.1 as int).0);
        }
        k = f.1;
    }
}

fn parse_term(s: &str, i: usize, n: usize) -> (r: Option<(Term, usize)>)
    requires
        n == s@.len(),
        i <= n,
    ensures
        ({
            let m = spec_parse_term(s@, i as int);
            match r {
                Some(p) => m == Some((p.0@, p.1 as int)) && i < p.1 <= n,
                None => m is None,
            }
        }),
    decreases n - i, 2int,
{
    let head = match parse_factor(s, i, n) {
        Some(p) => p,
        None => {
            return None;
        },
    };
    let rest = parse_term_tail(s, head.1, n);
    Some((Term { head: head.0, tail: rest.0 }, rest.1))
}

fn parse_expression_tail(s: &str, i: usize, n: usize) -> (r: (
    Vec<(ExpressionOperator, Term)>,
    usize,
))
    requires
        n == s@.len(),
        i <= n,
    ensures
        ({
            let m = spec_parse_expression_tail(s@, i as int);
            expression_tail_model(r.0@) == m.0 && m.1 == r.1 as int && i <= r.1 <= n
        }),
    decreases n - i, 3int,
{
    let mut tail: Vec<(ExpressionOperator, Term)> = Vec::new();
    let mut k = i;
    proof {
        assert(expression_tail_model(tail@) =~= Seq::<(ExpressionOperator, TermModel)>::empty());
    }
    loop
        invariant
            n == s@.len(),
            i <= k <= n,
            spec_parse_expression_tail(s@, i as int).0 =~= expression_tail_model(tail@)
                + spec_parse_expression_tail(s@, k as int).0,
            spec_parse_expression_tail(s@, i as int).1 == spec_parse_expression_tail(
                s@,
                k as int,
            ).1,
        decreases n - k,
    {
        let op = if char_at(s, k, n, '+') {
            Some(ExpressionOperator::Add)
        } else if char_at(s, k, n, '-') {
            Some(ExpressionOperator::Subtract)
        } else {
            None
        };
        let o = match op {
            Some(o) => o,
            None => {
                proof {
                    assert(spec_parse_expression_tail(s@, k as int).0 =~= Seq::<
                        (ExpressionOperator, TermModel),
                    >::empty());
                    assert(expression_tail_model(tail@) + spec_parse_expression_tail(
                        s@,
                        k as int,
                    ).0 =~= expression_tail_model(tail@));
                }
                return (tail, k);
            },
        };
        let t = match parse_term(s, k + 1, n) {
            Some(p) => p,
            None => {
                proof {
                    assert(spec_parse_expression_tail(s@, k as int).0 =~= Seq::<
                        (ExpressionOperator, TermModel),
                    >::empty());
                    assert(expression_tail_model(tail@) + spec_parse_expression_tail(
                        s@,
                        k as int,
                    ).0 =~= expression_tail_model(tail@));
                }
                return (tail, k);
            },
        };
        let ghost before = tail@;
        tail.push((o, t.0));
        proof {
            assert(tail@.drop_last() =~= before);
            assert(expression_tail_model(tail@) =~= expression_tail_model(before).push(
                (o, t.0@),
            ));
            assert(expression_tail_model(before) + (seq![(o, t.0@)] + spec_parse_expression_tail(
                s@,
                t.1 as int,
            ).0) =~= expression_tail_model(tail@) + spec_parse_expression_tail(s@, t.1 as int).0);
        }
        k = t.1;
    }
}

fn parse_expression(s: &str, i: usize, n: usize) -> (r: Option<(Expression, usize)>)
    requires
        n == s@.len(),
        i <= n,
    ensures
        ({
            let m = spec_parse_expression(s@, i as int);
            match r {
                Some(p) => m == Some((p.0@, p.1 as int)) && i < p.1 <= n,
                None => m is None,
            }
        }),
    decreases n - i, 4int,
{
    let head = match parse_term(s, i, n) {
        Some(p) => p,
        None => {
            return None;
        },
    };
    let rest = parse_expression_tail(s, head.1, n);
    Some((Expression { head: head.0, tail: rest.0 }, rest.1))
}

impl Factor {
    /// Parses one factor from the front of `input`, returning it with the
    /// count of characters consumed.
    pub fn parse(input: &str) -> (r: Option<(Factor, usize)>)
        ensures
            ({
                let m = spec_parse_factor(input@, 0);
                match r {
                    Some(p) => m == Some((p.0@, p.1 as int)) && 0 < p.1 <= input@.len(),
                    None => m is None,
                }
            }),
    {
        let n = input.unicode_len();
        parse_factor(input, 0, n)
    }
}

impl Term {
    /// Parses one term from the front of `input`, returning it with the
    /// count of characters consumed.
    pub fn parse(input: &str) -> (r: Option<(Term, usize)>)
        ensures
            ({
                let m = spec_parse_term(input@, 0);
                match r {
                    Some(p) => m == Some((p.0@, p.1 as int)) && 0 < p.1 <= input@.len(),
                    None => m is None,
                }
            }),
    {
        let n = input.unicode_len();
        parse_term(input, 0, n)
    }
}

impl Expression {
    /// Parses one expression from the front of `input`, returning it with
    /// the count of characters consumed.
    pub fn parse(input: &str) -> (r: Option<(Expression, usize)>)
        ensures
            ({
                let m = spec_parse_expression(input@, 0);
                match r {
                    Some(p) => m == Some((p.0@, p.1 as int)) && 0 < p.1 <= input@.len(),
                    None => m is None,
                }
            }),
    {
        let n = input.unicode_len();
        parse_expression(input, 0, n)
    }
}

/// The matcher clause `H = <LABEL> => K = ` at the front of `s`, yielding
/// the label and the position of the formula text.
pub open spec fn spec_parse_matcher_clause(s: Seq<char>) -> Option<(Seq<char>, int)> {
    if spec_tag(s, 0, "H = "@) {
        match spec_parse_variable(s, 4) {
            Some((name, j)) => if spec_tag(s, j, "=> K = "@) {
                Some((name, j + 7))
            } else {
                None
            },
            None => None,
        }
    } else {
        None
    }
}

/// A whole arithmetic rule: `H = <LABEL> => K = <arithmetic expression>`.
/// Yields the expression, its label, and the count of characters consumed;
/// trailing text is left to the caller.
pub open spec fn spec_parse_rule(s: Seq<char>) -> Option<((ExpressionModel, Seq<char>), int)> {
    match spec_parse_matcher_clause(s) {
        Some((label, j)) => match spec_parse_expression(s, j) {
            Some((e, end)) => Some((((e, label)), end)),
            None => None,
        },
        None => None,
    }
}

/// Parses a matcher clause, such as `H = M => K =`, and returns the label
/// (`M` in the example) with the count of characters consumed.
pub fn parse_matcher_clause(input: &str) -> (r: Option<(String, usize)>)
    ensures
        ({
            let m = spec_parse_matcher_clause(input@);
            match r {
                Some(p) => m == Some((p.0@, p.1 as int)) && p.1 <= input@.len(),
                None => m is None,
            }
        }),
{
    let n = input.unicode_len();
    proof {
        reveal_strlit("H = ");
        reveal_strlit("=> K = ");
    }
    if !tag_at(input, 0, n, "H = ") {
        return None;
    }
    let v = match parse_variable(input, 4, n) {
        Some(v) => v,
        None => {
            return None;
        },
    };
    if tag_at(input, v.1, n, "=> K = ") {
        Some((v.0, v.1 + 7))
    } else {
        None
    }
}

/// Parses a whole arithmetic rule, such as `H = M => K = D * 2`.
pub fn parse(input: &str) -> (r: Option<((Expression, String), usize)>)
    ensures
        ({
            let m = spec_parse_rule(input@);
            match r {
                Some(p) => m == Some(((p.0.0@, p.0.1@), p.1 as int)) && p.1 <= input@.len(),
                None => m is None,
            }
        }),
{
    let n = input.unicode_len();
    let clause = match parse_matcher_clause(input) {
        Some(c) => c,
        None => {
            return None;
        },
    };
    match parse_expression(input, clause.1, n) {
        Some(p) => Some(((p.0, clause.0), p.1)),
        None => None,
    }
}

} // verus!
