//! What the command line asks for.

use vstd::prelude::*;

use crate::mode::Mode;

verus! {

/// The options of the command line.
#[derive(Debug)]
pub struct Cli {
    /// Directories to scan for Git repositories.
    pub directories: Vec<String>,
    /// Operation mode: fetch, pull, merge, rebase, push.
    pub mode: Option<Mode>,
    /// Find directories recursively. 0 means immediate children.
    pub recursive_depth: Option<usize>,
    /// Run without the TUI and execute the selected operation in batch.
    pub quick: bool,
    /// Trace application events.
    pub trace: bool,
}

} // verus!
