//! Ownership and lifetime annotations computed from borrow-check facts.
//!
//! The crate turns the borrow facts of a function into source ranges for
//! each of its variables, selects the variable under a cursor, and lays
//! out the decorations of that variable without hidden overlaps.  Around
//! that stand the result cache, the merging of results into a workspace,
//! and the state machine that schedules analyses.  Every function is
//! verified against the contract it carries.

pub mod assoc;
pub mod backend;
pub mod calc;
pub mod cli;
pub mod compiler;
pub mod decoration;
pub mod dedent;
pub mod groups;
pub mod lsp_client;
pub mod lsp_workspace;
pub mod merge_laws;
pub mod mir_analysis;
pub mod mir_cache;
pub mod mir_polonius;
pub mod mir_transform;
pub mod models;
pub mod overlap;
pub mod overlap_laws;
pub mod range_laws;
pub mod range_ops;
pub mod select;
pub mod shells;
pub mod stored;
pub mod strings;
pub mod test_framework;
pub mod test_runner;
pub mod text_conversion;
pub mod visitor;

pub use backend::{AnalysisStatus, Backend};
pub use calc::CalcDecos;
pub use cli::Cli;
pub use decoration::{Deco, DecoKind};
pub use select::SelectLocal;
pub use test_framework::{ExpectedDeco, TestCase};
