//! The values behind the command line interface: which flags were given,
//! which files to open and which configuration to load. Reading the real
//! process arguments is the caller's concern; these are the plain values the
//! rest of the program works with.

use vstd::prelude::*;

verus! {

/// Flags for the command line interface.
#[derive(Debug, Clone, Copy, PartialEq, Eq, Structural)]
pub struct CommandLineInterfaceFlags {
    pub help: bool,
    pub version: bool,
    pub read_only: bool,
    pub stdin: bool,
}

/// Everything the command line asked for at start-up.
#[derive(Debug)]
pub struct CommandLineInterface {
    pub flags: CommandLineInterfaceFlags,
    pub file_type: Option<String>,
    pub config_path: String,
    pub to_open: Vec<String>,
}

impl CommandLineInterface {
    /// Whether the editor should exit after printing a message instead of
    /// starting: exactly when a help or version flag was given.
    pub fn wants_basic_option(&self) -> (r: bool)
        ensures
            r == (self.flags.help || self.flags.version),
    {
        self.flags.help || self.flags.version
    }
}

} // verus!
