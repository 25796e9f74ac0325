//! The decisions behind the Clarinet developer tools.

pub mod contracts;
pub mod dap;
pub mod json;
pub mod lint;
pub mod lsp;
pub mod replay;
pub mod simnet;
pub mod text;
