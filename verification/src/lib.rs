//! monosplice: keep a monorepo and its standalone subrepos in sync, commit by commit.
//!
//! This crate holds the decisions and the text handling; running git and touching the
//! filesystem is the caller's job.

pub mod text;
pub mod trailers;
pub mod paths;
pub mod config;
pub mod release;
pub mod report;
pub mod sync_view;
pub mod vendor;
pub mod entry_laws;
pub mod git;
pub mod hooks;
pub mod adopt;
pub mod importer;
pub mod commands;
