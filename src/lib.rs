//! Changelog generation and release pull-request reconciliation.
//!
//! The library classifies commit messages by the conventional-commit keyword,
//! groups them by category, renders the changelog text, and decides the
//! create-or-update steps that bring a forge's release branch, changelog file
//! and pull request in line with it.
pub mod text;
pub mod commit;
pub mod changelog;
pub mod history;
pub mod pr;
pub mod fs;
pub mod reconcile;
pub mod config;
pub mod package;
pub mod repo;
