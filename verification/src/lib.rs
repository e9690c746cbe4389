//! A verified core for a small local database-instance manager.
//!
//! The manager keeps database instances as directories under an
//! `existing_dbs` folder inside a project root, creates new instances by
//! copying a kind-specific template directory, configures them through a
//! generated `.env` file, and starts, stops or deletes them through an
//! external container orchestrator.
//!
//! Everything the tool decides — how a menu selection resolves to an
//! action, which directories count as instances, what a lifecycle
//! operation does to the directory tree, what the `.env` file contains —
//! is implemented and proved here, over an explicit model of the
//! directory tree. The thin unverified shell around this crate only
//! performs the actual terminal, process and disk I/O and mirrors the
//! tree operations onto the real filesystem.

pub mod fstree;
pub mod db;
pub mod menu;
