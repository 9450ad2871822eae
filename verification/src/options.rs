//! What a run is configured with.

use vstd::prelude::*;

verus! {

/// The settings of one run.
#[derive(Debug, PartialEq, Eq)]
pub struct Options {
    /// The root directory to display; the current directory if unset.
    pub directory: Option<String>,
    /// The greatest depth that is shown; no limit if unset.
    pub level: Option<usize>,
    /// Whether hidden entries are shown.
    pub all: bool,
    /// Whether styling is switched off.
    pub no_color: bool,
    /// The file that the tree is written to; standard output if unset.
    pub output: Option<String>,
}

/// The root of the walk: the configured directory, or `.` for the current
/// one.
pub open spec fn root_text(directory: Option<String>) -> Seq<char> {
    match directory {
        Some(path) => path@,
        None => "."@,
    }
}

impl Options {
    /// The settings of a run that was given no argument: the current
    /// directory, all depths, hidden entries left out, styled, to standard
    /// output.
    pub fn new() -> (options: Options)
        ensures
            options == (Options {
                directory: None,
                level: None,
                all: false,
                no_color: false,
                output: None,
            }),
    {
        Options { directory: None, level: None, all: false, no_color: false, output: None }
    }

    /// The directory at which the walk starts.
    pub fn root(&self) -> (path: String)
        ensures
            path@ == root_text(self.directory),
    {
        match &self.directory {
            Some(path) => path.clone(),
            None => String::from_str("."),
        }
    }

    /// Whether names are styled.
    pub fn styled(&self) -> (styled: bool)
        ensures
            styled == !self.no_color,
    {
        !self.no_color
    }
}

} // verus!
