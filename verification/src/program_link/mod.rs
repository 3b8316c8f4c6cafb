//! Links to programs: what a shortcut file tells of the program behind it.

pub mod link;

use vstd::prelude::*;

verus! {

/// A link to a program, with what is known about where it lies.
#[derive(Clone, Debug, PartialEq, Eq)]
pub struct ProgramLink {
    /// The name of the program.
    pub name: String,
    pub link_type: LinkType,
    pub start_method: StartMethod,
    /// The directory in which the program starts.
    pub working_dir: Option<String>,
    /// Where the program lies.
    pub program_location: Option<String>,
    /// Where the shortcut file lies.
    pub shortcut_location: Option<String>,
    /// Where the icon of the program lies.
    pub icon_location: Option<String>,
}

/// The kind of a link.
#[derive(Clone, Copy, Debug, PartialEq, Eq, Structural)]
pub enum LinkType {
    /// A shortcut file.
    Shortcut,
    /// The program itself.
    StartProgram,
}

/// How the program of a link is started.
#[derive(Clone, Copy, Debug, PartialEq, Eq, Structural)]
pub enum StartMethod {
    /// Directly.
    Start,
    /// Through the command line.
    CMD,
}

/// What a shortcut file holds.
#[derive(Clone, Debug, PartialEq, Eq)]
pub struct Shortcut {
    /// The name of the program.
    pub name: String,
    /// The directory in which the program starts.
    pub working_dir: Option<String>,
    /// Where the program lies.
    pub target: Option<String>,
    /// Where the shortcut file lies.
    pub location: Option<String>,
    /// Where the icon of the program lies.
    pub icon_location: Option<String>,
}

} // verus!
