//! The commands of the tool, as plain values.

use vstd::prelude::*;

verus! {

/// A command line: the tool to use.
pub struct Cli {
    pub tool: Tools,
}

/// The tools, each with the service root it works under (the current
/// directory where none is given).
pub enum Tools {
    /// Dependency edits of the Poetry manifests.
    Poetry { command: PoetryCommands },
    /// Runs a program in every service directory.
    Run { program: String, args: Vec<String>, service_root: Option<String> },
    /// Removes a file from every service directory.
    Rm { file_name: String, service_root: Option<String> },
    /// Removes leftover temporary files from every service directory.
    Clean { service_root: Option<String> },
}

pub enum PoetryCommands {
    Dep { command: DepCommands },
}

pub enum DepCommands {
    /// Sets the version of a package.
    Update { package_name: String, version: String, service_root: Option<String> },
    /// Removes a package.
    Rm { package_name: String, service_root: Option<String> },
}

} // verus!
