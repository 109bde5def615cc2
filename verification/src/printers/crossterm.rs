//! The terminal printer, which redraws a progress bar per worker.
use vstd::prelude::*;

use std::io::Stdout;

verus! {

/// Standard output, carried through unchanged.
#[verifier::external_type_specification]
#[verifier::external_body]
pub struct ExStdout(std::io::Stdout);

/// A handle to standard output.
/// Trusted: `std::io::stdout`; nothing is stated of the handle.
#[verifier::external_body]
pub(crate) fn stdout_handle() -> Stdout {
    std::io::stdout()
}

/// A printer that keeps one progress line per worker at the bottom of the
/// terminal.
pub struct Printer {
    pub stdout: Stdout,
    pub workers_count: usize,
}

impl Default for Printer {
    /// A printer on standard output that expects no workers yet.
    fn default() -> (p: Printer)
        ensures
            p.workers_count == 0,
    {
        Printer { stdout: stdout_handle(), workers_count: 0 }
    }
}

impl Printer {
    /// Prepares for a run on `workers_count` workers; the screen space is
    /// made by the caller.
    pub fn initialize(&mut self, workers_count: usize)
        ensures
            final(self).workers_count == workers_count,
    {
        self.workers_count = workers_count;
    }
}

} // verus!
