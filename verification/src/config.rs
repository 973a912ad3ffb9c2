//! The task model: what a configuration hands to the engine.
//!
//! Parsing the configuration file and resolving symlink endpoints to
//! absolute paths happen upstream, in the surrounding program; the engine
//! receives the finished task list as plain data.

use vstd::prelude::*;

use crate::distro::Distri;

verus! {

/// A package entry of one task: the distribution it targets and the names
/// to install or remove. Applied only when the target distribution equals
/// the host's detected one.
#[derive(Debug)]
pub struct Package {
    pub distri: Distri,
    pub install: Option<Vec<String>>,
    pub remove: Option<Vec<String>>,
}

/// One named unit of provisioning work: ordered symlink pairs, ordered
/// command strings and package entries, with an optional working directory
/// relative to the provisioning root.
#[derive(Debug)]
pub struct Task {
    pub name: String,
    pub path: Option<String>,
    pub pkg: Option<Vec<Package>>,
    pub commands: Option<Vec<String>>,
    pub slink: Option<Vec<(String, String)>>,
}

/// The ordered task list of one configuration.
#[derive(Debug)]
pub struct LinuxConfig {
    pub tasks: Vec<Task>,
}

/// A whole configuration file; only the Linux section reaches the engine.
#[derive(Debug)]
pub struct Config {
    pub linux: Option<LinuxConfig>,
}

pub type Cfg = LinuxConfig;

/// Whether task `t` has a package entry that targets distribution `d`.
pub open spec fn task_targets(t: Task, d: Distri) -> bool {
    t.pkg matches Some(ps) && exists|j: int| 0 <= j < ps@.len() && ps@[j].distri == d
}

} // verus!
