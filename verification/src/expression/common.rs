//! Shared machinery of the two rule grammars: character-level scanning,
//! variable-binding tables, and the reduction interface.
use vstd::prelude::*;
use vstd::string::StrSliceExecFns;
use crate::errors::RuleError;

verus! {

broadcast use vstd::string::to_string_from_display_ensures_for_str;

/// The space characters that operand parsing trims.
pub open spec fn spec_is_space(c: char) -> bool {
    c == ' ' || c == '\t'
}

/// A variable name is a run of ASCII alphabetic characters.
pub open spec fn spec_is_alpha(c: char) -> bool {
    ('a' <= c && c <= 'z') || ('A' <= c && c <= 'Z')
}

/// A digit of a numeric literal.
pub open spec fn spec_is_digit(c: char) -> bool {
    '0' <= c && c <= '9'
}

/// First index at or after `i` that does not hold a space character.
pub open spec fn spec_skip_spaces(s: Seq<char>, i: int) -> int
    decreases s.len() - i,
{
    if i < s.len() && spec_is_space(s[i]) {
        spec_skip_spaces(s, i + 1)
    } else {
        i
    }
}

/// End of the run of alphabetic characters that starts at `i`
/// (equal to `i` when none starts there).
pub open spec fn spec_alpha_end(s: Seq<char>, i: int) -> int
    decreases s.len() - i,
{
    if i < s.len() && spec_is_alpha(s[i]) {
        spec_alpha_end(s, i + 1)
    } else {
        i
    }
}

/// End of the run of digits that starts at `i`.
pub open spec fn spec_digit_end(s: Seq<char>, i: int) -> int
    decreases s.len() - i,
{
    if i < s.len() && spec_is_digit(s[i]) {
        spec_digit_end(s, i + 1)
    } else {
        i
    }
}

/// The literal token `t` stands at position `i` of `s`.
pub open spec fn spec_tag(s: Seq<char>, i: int, t: Seq<char>) -> bool {
    0 <= i && i + t.len() <= s.len() && s.subrange(i, i + t.len()) == t
}

pub fn skip_spaces(s: &str, i: usize, n: usize) -> (r: usize)
    requires
        n == s@.len(),
        i <= n,
    ensures
        r == spec_skip_spaces(s@, i as int),
        i <= r <= n,
{
    let mut j = i;
    loop
        invariant
            n == s@.len(),
            i <= j <= n,
            spec_skip_spaces(s@, i as int) == spec_skip_spaces(s@, j as int),
        decreases n - j,
    {
        if j == n {
            assert(spec_skip_spaces(s@, j as int) == j as int);
            return j;
        }
        let c = s.get_char(j);
        if !(c == ' ' || c == '\t') {
            assert(spec_skip_spaces(s@, j as int) == j as int);
            return j;
        }
        j = j + 1;
    }
}

pub fn alpha_end(s: &str, i: usize, n: usize) -> (r: usize)
    requires
        n == s@.len(),
        i <= n,
    ensures
        r == spec_alpha_end(s@, i as int),
        i <= r <= n,
{
    let mut j = i;
    loop
        invariant
            n == s@.len(),
            i <= j <= n,
            spec_alpha_end(s@, i as int) == spec_alpha_end(s@, j as int),
        decreases n - j,
    {
        if j == n {
            assert(spec_alpha_end(s@, j as int) == j as int);
            return j;
        }
        let c = s.get_char(j);
        if !(('a' <= c && c <= 'z') || ('A' <= c && c <= 'Z')) {
            assert(spec_alpha_end(s@, j as int) == j as int);
            return j;
        }
        j = j + 1;
    }
}

pub fn digit_end(s: &str, i: usize, n: usize) -> (r: usize)
    requires
        n == s@.len(),
        i <= n,
    ensures
        r == spec_digit_end(s@, i as int),
        i <= r <= n,
{
    let mut j = i;
    loop
        invariant
            n == s@.len(),
            i <= j <= n,
            spec_digit_end(s@, i as int) == spec_digit_end(s@, j as int),
        decreases n - j,
    {
        if j == n {
            assert(spec_digit_end(s@, j as int) == j as int);
            return j;
        }
        let c = s.get_char(j);
        if !('0' <= c && c <= '9') {
            assert(spec_digit_end(s@, j as int) == j as int);
            return j;
        }
        j = j + 1;
    }
}

/// Whether the token `t` stands at position `i` of `s`.
pub fn tag_at(s: &str, i: usize, n: usize, t: &str) -> (r: bool)
    requires
        n == s@.len(),
        i <= n,
    ensures
        r == spec_tag(s@, i as int, t@),
{
    let tn = t.unicode_len();
    if n - i < tn {
        assert(!spec_tag(s@, i as int, t@));
        return false;
    }
    let mut k: usize = 0;
    loop
        invariant
            n == s@.len(),
            tn == t@.len(),
            i <= n,
            tn <= n - i,
            k <= tn,
            forall|q: int| 0 <= q < k ==> s@[i + q] == t@[q],
        decreases tn - k,
    {
        if k == tn {
            assert(s@.subrange(i as int, i + t@.len()) =~= t@);
            return true;
        }
        if s.get_char(i + k) != t.get_char(k) {
            assert(s@.subrange(i as int, i + t@.len())[k as int] != t@[k as int]);
            return false;
        }
        k = k + 1;
    }
}

/// The single character `c` stands at position `i` of `s`.
pub open spec fn spec_char_at(s: Seq<char>, i: int, c: char) -> bool {
    0 <= i < s.len() && s[i] == c
}

pub fn char_at(s: &str, i: usize, n: usize, c: char) -> (r: bool)
    requires
        n == s@.len(),
        i <= n,
    ensures
        r == spec_char_at(s@, i as int, c),
{
    if i < n {
        s.get_char(i) == c
    } else {
        false
    }
}

/// A variable or label token with its surrounding spaces trimmed: spaces,
/// then at least one alphabetic character, then spaces.
pub open spec fn spec_parse_variable(s: Seq<char>, i: int) -> Option<(Seq<char>, int)> {
    let a = spec_skip_spaces(s, i);
    let e = spec_alpha_end(s, a);
    if e > a {
        Some((s.subrange(a, e), spec_skip_spaces(s, e)))
    } else {
        None
    }
}

pub fn parse_variable(s: &str, i: usize, n: usize) -> (r: Option<(String, usize)>)
    requires
        n == s@.len(),
        i <= n,
    ensures
        ({
            let m = spec_parse_variable(s@, i as int);
            match r {
                Some(p) => m == Some((p.0@, p.1 as int)) && i < p.1 <= n,
                None => m is None,
            }
        }),
{
    let a = skip_spaces(s, i, n);
    let e = alpha_end(s, a, n);
    if e > a {
        let name = s.substring_char(a, e).to_string();
        let j = skip_spaces(s, e, n);
        Some((name, j))
    } else {
        None
    }
}

/// A table of variable bindings, read-only to the engine: the view is the
/// mapping from variable name to value, later insertions overriding earlier
/// ones.
pub struct Bindings<V> {
    entries: Vec<(String, V)>,
}

/// The mapping that a sequence of insertions builds up.
pub open spec fn map_of_entries<V>(s: Seq<(String, V)>) -> Map<Seq<char>, V>
    decreases s.len(),
{
    if s.len() == 0 {
        Map::empty()
    } else {
        map_of_entries(s.drop_last()).insert(s.last().0@, s.last().1)
    }
}

impl<V> View for Bindings<V> {
    type V = Map<Seq<char>, V>;

    closed spec fn view(&self) -> Map<Seq<char>, V> {
        map_of_entries(self.entries@)
    }
}

impl<V: Copy> Bindings<V> {
    pub fn new() -> (r: Self)
        ensures
            r@ == Map::<Seq<char>, V>::empty(),
    {
        Bindings { entries: Vec::new() }
    }

    pub fn insert(&mut self, name: String, value: V)
        ensures
            final(self)@ == old(self)@.insert(name@, value),
    {
        let ghost before = self.entries@;
        self.entries.push((name, value));
        assert(self.entries@.drop_last() =~= before);
    }

    pub fn get(&self, name: &String) -> (r: Option<V>)
        ensures
            match r {
                Some(v) => self@.contains_key(name@) && self@[name@] == v,
                None => !self@.contains_key(name@),
            },
    {
        let mut j = self.entries.len();
        assert(self.entries@.take(j as int) =~= self.entries@);
        loop
            invariant
                j <= self.entries.len(),
                map_of_entries(self.entries@).contains_key(name@) == map_of_entries(
                    self.entries@.take(j as int),
                ).contains_key(name@),
                map_of_entries(self.entries@).contains_key(name@)
                    ==> map_of_entries(self.entries@)[name@] == map_of_entries(
                    self.entries@.take(j as int),
                )[name@],
            decreases j,
        {
            if j == 0 {
                assert(self.entries@.take(0) =~= Seq::<(String, V)>::empty());
                return None;
            }
            j = j - 1;
            let entry = &self.entries[j];
            proof {
                assert(self.entries@.take(j + 1).drop_last() =~= self.entries@.take(j as int));
                assert(self.entries@.take(j + 1).last() == self.entries@[j as int]);
                assert(map_of_entries(self.entries@.take(j + 1)) == map_of_entries(
                    self.entries@.take(j as int),
                ).insert(self.entries@[j as int].0@, self.entries@[j as int].1));
            }
            if entry.0 == *name {
                return Some(entry.1);
            }
        }
    }
}

/// How an executable reduction outcome matches the mathematical one,
/// whose failure carries only the undefined variable's name.
pub open spec fn reduction_matches<V>(r: Result<V, RuleError>, m: Result<V, Seq<char>>) -> bool {
    match m {
        Ok(v) => r == Ok::<V, RuleError>(v),
        Err(name) => match r {
            Ok(_) => false,
            Err(e) => e matches RuleError::UndefinedVariable(n) && n@ == name,
        },
    }
}

/// Reduction is deterministic: any two outcomes that reduction's contract
/// admits for one expression and one table of bindings agree, so repeated
/// `reduce` calls on the same arguments yield identical results.
pub proof fn lemma_reduce_deterministic<V: Copy, E: Reducible<V>>(
    e: &E,
    table: Map<Seq<char>, V>,
    r1: Result<V, RuleError>,
    r2: Result<V, RuleError>,
)
    requires
        reduction_matches(r1, e.reduce_model(table)),
        reduction_matches(r2, e.reduce_model(table)),
    ensures
        match (r1, r2) {
            (Ok(a), Ok(b)) => a == b,
            (Err(a), Err(b)) => a@ == b@,
            _ => false,
        },
{
}

/// Evaluation of an expression against a table of variable bindings, to a
/// single value or an undefined-variable failure.
pub trait Reducible<V: Copy>: Sized {
    /// The value that reduction is to compute, or the name of the first
    /// undefined variable it runs into.
    spec fn reduce_model(&self, table: Map<Seq<char>, V>) -> Result<V, Seq<char>>;

    fn reduce(&self, table: &Bindings<V>) -> (r: Result<V, RuleError>)
        ensures
            reduction_matches(r, self.reduce_model(table@)),
    ;
}

} // verus!
