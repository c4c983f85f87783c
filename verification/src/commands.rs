//! The operations that a front end calls.

pub mod process;
pub mod protector;
pub mod switcher;
