//! Cross-manager package lookup: queries several OS package managers for one
//! package name and normalizes their heterogeneous text output into a single
//! result model.
//!
//! The crate is organized as a pipeline: raw command output is decoded and
//! split into lines (`output`), lines are normalized and tokenized (`text`),
//! manager-specific grammars are scanned (`scan` and `managers`), and the
//! per-manager results (`model`) are collected and ranked (`orchestrate`,
//! `rank`). Command execution and presentation stay outside the library:
//! every adapter is a pure, fully specified function of the package name and
//! the bytes its manager's commands wrote to standard output.

pub mod managers;
pub mod model;
pub mod orchestrate;
pub mod output;
pub mod rank;
pub mod scan;
pub mod text;
