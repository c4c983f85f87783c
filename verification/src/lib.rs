//! A guard for one locally installed application: it pins the installed
//! version against an external updater and switches between archived versions.
//!
//! The engine never touches the disk itself. Every operation is a small machine
//! that names the next file-system request, takes the host's reply and decides
//! what follows, so that each decision, each log line and each file body is
//! stated in a contract and proved. What an operation leaves on the disk is
//! stated against a model of the disk, in `disk` and `effects`.

pub mod text;
pub mod config;
pub mod paths;
pub mod host;
pub mod attributes;
pub mod blocker;
pub mod commands;
pub mod disk;
pub mod effects;
