//! A front-end that lowers a small, indentation-sensitive, dynamically
//! typed surface language into a typed first-order term representation
//! fit for satisfiability checking: a compilation of `main` yields a named
//! computation whose single boolean output — the bug predicate — is
//! satisfiable exactly when some execution meets every recorded assumption
//! and violates some recorded assertion.
pub mod ir;
pub mod eval;
pub mod strutil;
pub mod errors;
pub mod ast;
pub mod builtins;
pub mod circify;
pub mod lower;
pub mod ty;
pub mod term;

pub use ir::Sort;
pub use ir::Term;
pub use ir::Val;
