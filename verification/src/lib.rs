//! A syntax-aware test-case reducer for Rust sources.
//!
//! Given a tree parsed from the input and an oracle — a user command that
//! exits zero exactly when a candidate file is still "interesting" — the
//! reducer shrinks the tree through four passes in a fixed order: item
//! pruning, derive stripping, doc stripping, and block clearing.  Every
//! mutation is put to the oracle; an accepted mutation stays and is handed
//! to the output pipeline, a rejected one is undone exactly.
//!
//! The caller runs the oracle and the file system; this crate holds the
//! tree, the passes, the serialization, and the decisions of the output
//! pipeline.

pub mod ast;
pub mod attrs;
pub mod blocks;
pub mod derives;
pub mod doc;
pub mod driver;
pub mod laws;
pub mod output;
pub mod prune;
pub mod render;
