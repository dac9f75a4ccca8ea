//! Running git: which commands an operation takes, and what their output means.

use vstd::prelude::*;

pub mod command;
pub mod fast_forward;
pub mod reading;
pub mod remote_run;
pub mod runner;
pub mod status;
pub mod task;

pub use command::{Credentials, GitCommand, GitOutput};
pub use runner::{GitRunner, RemoteAction};
pub use status::{BranchStatus, RepositorySnapshot};
pub use task::{AutoRestore, AutoStash, AutoStashGuard, Task};
pub use fast_forward::FastForwardCheck;
pub use remote_run::RemoteRun;

verus! {

/// Concurrency cap for background git operations: four times the available parallelism, and at
/// least four. Shared by the TUI and quick (`-q`) modes.
pub fn worker_limit(parallelism: Option<usize>) -> (r: usize)
    ensures
        r == match parallelism {
            Some(n) => if n < 1 {
                4int
            } else if 4 * n > usize::MAX {
                usize::MAX as int
            } else {
                4 * n
            },
            None => 4int,
        },
{
    match parallelism {
        Some(n) => if n < 1 {
            4
        } else if n > usize::MAX / 4 {
            usize::MAX
        } else {
            4 * n
        },
        None => 4,
    }
}

} // verus!
