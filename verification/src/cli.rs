//! The command-line surface, as plain data: the mode the program runs in.
//! Argument parsing and the export writers live in the front end.

use vstd::prelude::*;

verus! {

/// What the program is asked to do.
#[derive(Debug, Clone, PartialEq)]
pub enum Mode {
    /// Start the interactive tracker.
    Regular,
    /// Export the database to a file in the given format.
    Export { export_type: String, file: String },
}

/// The parsed command line.
#[derive(Debug)]
pub struct CLI {
    pub mode: Option<Mode>,
}

impl CLI {
    /// The regular interactive mode stands in when no subcommand was
    /// given.
    pub fn with_default_mode(self) -> (r: Self)
        ensures
            self.mode matches Some(m) ==> r.mode == Some(m),
            self.mode is None ==> r.mode == Some(Mode::Regular),
    {
        match self.mode {
            Some(m) => CLI { mode: Some(m) },
            None => CLI { mode: Some(Mode::Regular) },
        }
    }
}

} // verus!
