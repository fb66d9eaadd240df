//! A library for composing and checking commit messages that follow the
//! Conventional Commits grammar.
//!
//! The crate holds the commit data model and message formatter
//! ([`commit::ConventionalCommit`]), a validator for the grammar, the fixed
//! lists of commit types and scopes ([`config`]), the interactive field
//! state machine that drives a guided session ([`tui::App`]), and the
//! decision rules for managing a commit-message hook ([`hooks`]).
pub mod commit;
pub mod config;
pub mod hooks;
mod text;
pub mod tui;
