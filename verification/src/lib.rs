//! Analysis core of a language server for the Norg plain-text markup
//! format: an incremental document model (text buffer plus syntax tree),
//! a typed link/anchor model with its destination grammar, resolution of
//! destinations to concrete locations, and workspace-wide reference and
//! rename queries.

pub mod document;
pub mod laws;
pub mod neorg;
pub mod norg;
pub mod parser;
pub mod range;
pub mod rope;
pub mod session;
pub mod state;
pub mod syntax;
pub mod uri;
pub mod workspace;
