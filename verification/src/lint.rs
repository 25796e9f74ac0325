//! Lints on Clarity contracts.

pub mod ast;
pub mod laws;
pub mod renamed_with_stacking;
