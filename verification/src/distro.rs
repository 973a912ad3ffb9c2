//! Host distribution identity and the distribution-to-package-manager table.

use vstd::prelude::*;

verus! {

/// The detected host Linux distribution, a closed enumeration.
///
/// Detection itself reads release files and is performed by the surrounding
/// program; the engine only ever receives the result as plain data.
#[derive(Clone, Copy, Debug, PartialEq, Eq, Structural)]
pub enum Distri {
    Unknown,
    Arch,
    OpenSUSE,
}

impl Default for Distri {
    fn default() -> (r: Self)
        ensures
            r == Distri::Unknown,
    {
        Distri::Unknown
    }
}

/// Display label of a distribution identity.
pub open spec fn distri_label(d: Distri) -> Seq<char> {
    match d {
        Distri::Unknown => "Unknown"@,
        Distri::Arch => "Arch"@,
        Distri::OpenSUSE => "OpenSUSE"@,
    }
}

impl Distri {
    /// The human-readable name of the distribution.
    pub fn label(&self) -> (r: String)
        ensures
            r@ == distri_label(*self),
    {
        match self {
            Distri::Unknown => String::from_str("Unknown"),
            Distri::Arch => String::from_str("Arch"),
            Distri::OpenSUSE => String::from_str("OpenSUSE"),
        }
    }
}

/// An invocation template for a package manager: the executable, its base
/// arguments, and an optional input script used to auto-confirm prompts.
#[derive(Debug)]
pub struct Command {
    pub program: String,
    pub args: Vec<String>,
    pub stdin: Option<String>,
}

/// The package-manager invocation template of one distribution.
///
/// Pure data: constructed once from the distribution identity, read-only
/// thereafter. The unknown distribution maps to an inert template that
/// names no executable.
#[derive(Debug)]
pub struct DistriOpt {
    pub distri: Distri,
    pub install: Command,
}

/// Executable name of the install template for each distribution.
pub open spec fn install_exec(d: Distri) -> Seq<char> {
    match d {
        Distri::Unknown => ""@,
        Distri::Arch => "pacman"@,
        Distri::OpenSUSE => "zypper"@,
    }
}

/// Base arguments of the install template for each distribution.
pub open spec fn install_args(d: Distri) -> Seq<Seq<char>> {
    match d {
        Distri::Unknown => seq![],
        Distri::Arch => seq!["-S"@],
        Distri::OpenSUSE => seq!["install"@],
    }
}

/// Whether `stdin` is the auto-confirm input of distribution `d`: a newline
/// for every known distribution, absent for the unknown one.
pub open spec fn stdin_matches(d: Distri, stdin: Option<String>) -> bool {
    match d {
        Distri::Unknown => stdin is None,
        _ => stdin matches Some(s) && s@ == "\n"@,
    }
}

impl DistriOpt {
    /// The install template of distribution `d`.
    pub fn from(d: Distri) -> (r: Self)
        ensures
            r.distri == d,
            r.install.program@ == install_exec(d),
            r.install.args@.len() == install_args(d).len(),
            forall|i: int|
                0 <= i < r.install.args@.len() ==> r.install.args@[i]@ == install_args(d)[i],
            stdin_matches(d, r.install.stdin),
    {
        match d {
            Distri::Unknown => DistriOpt {
                distri: d,
                install: Command { program: String::from_str(""), args: Vec::new(), stdin: None },
            },
            Distri::Arch => DistriOpt {
                distri: d,
                install: Command {
                    program: String::from_str("pacman"),
                    args: vec![String::from_str("-S")],
                    stdin: Some(String::from_str("\n")),
                },
            },
            Distri::OpenSUSE => DistriOpt {
                distri: d,
                install: Command {
                    program: String::from_str("zypper"),
                    args: vec![String::from_str("install")],
                    stdin: Some(String::from_str("\n")),
                },
            },
        }
    }
}

} // verus!
