//! A verified core for a declarative workstation-provisioning tool.
//!
//! A configuration lists named tasks; each task places symlinks, runs shell
//! commands and (as a fail-closed stub) applies distribution packages. The
//! engine here decides every step and accumulates the execution log; the
//! filesystem and process work itself is performed by the surrounding
//! program, which feeds the outcome of each action back as an event.

pub mod args;
pub mod config;
pub mod distro;
pub mod exec;
pub mod log;
pub mod server;
pub mod tui;
pub mod utils;

