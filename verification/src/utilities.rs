//! Platform utilities: when the gatherer watches the application that
//! started it.
use vstd::prelude::*;

verus! {

/// Platform utilities of macOS.
#[derive(Clone, Copy, Debug, PartialEq, Eq, Structural)]
pub struct MacosPlatformUtilities;

impl Default for MacosPlatformUtilities {
    fn default() -> (r: Self)
        ensures
            r == MacosPlatformUtilities,
    {
        MacosPlatformUtilities
    }
}

impl MacosPlatformUtilities {
    /// Whether the gatherer waits for its parent to exit: only where the
    /// parent is a process other than `launchd` (id above 1); otherwise it
    /// never reacts to the parent's exit.
    pub fn watches_parent(ppid: i32) -> (r: bool)
        ensures
            r == (ppid > 1),
    {
        ppid > 1
    }
}

} // verus!
