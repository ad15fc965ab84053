//! The generic expression machinery and its two instantiations: the
//! arithmetic formula grammar and the boolean matcher grammar.
pub mod arithmetic;
pub mod boolean;
pub mod common;
pub mod value;

pub use common::Bindings;
pub use common::Reducible;
