//! The operation that a batch performs on each repository.

use vstd::prelude::*;

verus! {

/// The operation that a batch performs.
#[derive(Debug, Clone, Copy, PartialEq, Eq, Hash, Structural)]
pub enum Mode {
    Fetch,
    Pull,
    Merge,
    Rebase,
    Push,
}

impl Default for Mode {
    fn default() -> (r: Self)
        ensures
            r == Mode::Pull,
    {
        Mode::Pull
    }
}

impl Mode {
    /// The name of the mode, as the command line and the configuration file spell it.
    pub open spec fn name(self) -> Seq<char> {
        match self {
            Mode::Fetch => "fetch"@,
            Mode::Pull => "pull"@,
            Mode::Merge => "merge"@,
            Mode::Rebase => "rebase"@,
            Mode::Push => "push"@,
        }
    }

    /// The mode after this one in the cycle.
    pub open spec fn next(self) -> Mode {
        match self {
            Mode::Pull => Mode::Merge,
            Mode::Merge => Mode::Rebase,
            Mode::Rebase => Mode::Push,
            Mode::Push | Mode::Fetch => Mode::Pull,
        }
    }

    /// The name of the mode, as the command line and the configuration file spell it.
    pub fn as_str(self) -> (r: &'static str)
        ensures
            r@ == self.name(),
    {
        match self {
            Mode::Fetch => "fetch",
            Mode::Pull => "pull",
            Mode::Merge => "merge",
            Mode::Rebase => "rebase",
            Mode::Push => "push",
        }
    }

    /// Cycle through the batch modes offered in the TUI. `Fetch` is not part of the cycle (startup
    /// auto-fetch covers it); it only remains reachable via the `f` key and headless
    /// `-q -m fetch`.
    pub fn cycle(self) -> (r: Self)
        ensures
            r == self.next(),
    {
        match self {
            Mode::Pull => Mode::Merge,
            Mode::Merge => Mode::Rebase,
            Mode::Rebase => Mode::Push,
            Mode::Push | Mode::Fetch => Mode::Pull,
        }
    }
}

/// `mode` after `n` steps of the cycle.
pub open spec fn stepped(mode: Mode, n: nat) -> Mode
    decreases n,
{
    if n == 0 {
        mode
    } else {
        stepped(mode, (n - 1) as nat).next()
    }
}

/// No number of steps, but none at all, ever leads to `Fetch`.
pub proof fn lemma_cycle_skips_fetch(mode: Mode, n: nat)
    requires
        n > 0,
    ensures
        stepped(mode, n) != Mode::Fetch,
{
}

/// Every mode but `Fetch` comes back after four steps, and not before.
pub proof fn lemma_cycle_has_four_modes(mode: Mode)
    requires
        mode != Mode::Fetch,
    ensures
        mode.next().next().next().next() == mode,
        mode.next() != mode,
        mode.next().next() != mode,
        mode.next().next().next() != mode,
{
}

} // verus!
