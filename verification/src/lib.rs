//! Audit codebases against composable spec documents: the verified core.
//!
//! Specs are markdown documents with a YAML front-matter header; they are
//! resolved from `--against` values (files, repo-local overrides, built-ins),
//! and evidence is gathered from a subject within each spec's scope.
pub mod builtins;
pub mod claude_session;
pub mod cli;
pub mod config;
pub mod evidence;
pub mod finding;
pub mod front_matter;
pub mod globs;
pub mod init;
pub mod output;
pub mod render;
pub mod resolve;
pub mod run;
pub mod sandbox;
pub mod spec;
pub mod strings;
pub mod subject;
pub mod update;
