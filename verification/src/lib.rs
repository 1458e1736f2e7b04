//! A small compile-time expansion facility: a scope tree of program units,
//! a resolver that finds the nearest visible template definition under
//! masking and export rules, and an expansion engine for the one assertion
//! template with behaviour (evaluate, compare, report-or-return).

pub mod check;
pub mod resolve;
pub mod scope;
pub mod text;
