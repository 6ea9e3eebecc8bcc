//! Semantic core of a small typed logic language: terms and formulas with
//! universal quantifiers, a scoped identifier environment separating bound
//! (local) from top-level (global) names, type-checked builders that assemble
//! well-typed syntax, capture-safe substitution, and structural matching up
//! to a consistent renaming of bound variables.

pub mod ast;
pub mod error;
pub mod laws;
pub mod state;
pub mod text;
pub mod types;
