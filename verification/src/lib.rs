//! A small rule engine: two textual rule languages (a boolean matcher
//! grammar and an arithmetic formula grammar) are parsed into ASTs,
//! evaluated against named variable bindings, and used to select a labeled
//! outcome together with a computed value.
pub mod errors;
pub mod expression;
pub mod solver;
