//! The closed set of caller-visible failures, with structured context, and
//! the human-readable text each one renders to.
use vstd::prelude::*;
use vstd::string::StringExecFns;

verus! {

/// The mathematical content of a failure: its kind and the text it carries.
pub enum ErrorModel {
    /// The offending rule text, verbatim.
    Parse(Seq<char>),
    /// The name of the variable that the bindings lack.
    UndefinedVariable(Seq<char>),
    NoSolution,
}

/// A recoverable failure of parsing or solving.
#[derive(Debug)]
pub enum RuleError {
    /// Input text matched neither grammar; carries the text verbatim.
    Parse(String),
    /// A reduction referenced a variable absent from the supplied bindings.
    UndefinedVariable(String),
    /// No boolean rule evaluated true, or no arithmetic rule's label matched.
    NoSolution,
}

impl View for RuleError {
    type V = ErrorModel;

    open spec fn view(&self) -> ErrorModel {
        match self {
            RuleError::Parse(text) => ErrorModel::Parse(text@),
            RuleError::UndefinedVariable(name) => ErrorModel::UndefinedVariable(name@),
            RuleError::NoSolution => ErrorModel::NoSolution,
        }
    }
}

/// The message that a failure renders to.
pub open spec fn message_model(m: ErrorModel) -> Seq<char> {
    match m {
        ErrorModel::Parse(text) => "Unable to parse the expression "@ + text,
        ErrorModel::UndefinedVariable(name) => "Variable "@ + name + " is undefined"@,
        ErrorModel::NoSolution => "Unable to find the solution"@,
    }
}

impl RuleError {
    /// The human-readable reason, rendered once at the presentation boundary.
    pub fn message(&self) -> (r: String)
        ensures
            r@ == message_model(self@),
    {
        match self {
            RuleError::Parse(text) => {
                let mut r = String::new();
                r.append("Unable to parse the expression ");
                r.append(text.as_str());
                r
            },
            RuleError::UndefinedVariable(name) => {
                let mut r = String::new();
                r.append("Variable ");
                r.append(name.as_str());
                r.append(" is undefined");
                r
            },
            RuleError::NoSolution => {
                let mut r = String::new();
                r.append("Unable to find the solution");
                r
            },
        }
    }
}

/// A failure as the surrounding transport presents it: a bare reason string.
#[derive(Debug)]
pub struct Error {
    pub reason: String,
}

impl Error {
    pub fn from_rule_error(e: &RuleError) -> (r: Error)
        ensures
            r.reason@ == message_model(e@),
    {
        Error { reason: e.message() }
    }
}

} // verus!
