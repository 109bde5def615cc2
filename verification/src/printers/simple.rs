//! The plain printer, which writes every line as it comes.
use vstd::prelude::*;

use std::io::Stdout;

use crate::printers::crossterm::stdout_handle;

verus! {

/// A printer that writes plain lines, for logs and debugging.
pub struct Printer {
    pub stdout: Stdout,
    pub workers_count: usize,
}

impl Default for Printer {
    /// A printer on standard output that expects no workers yet.
    fn default() -> (p: Printer)
        ensures
            p.workers_count == 0,
    {
        Printer { stdout: stdout_handle(), workers_count: 0 }
    }
}

impl Printer {
    /// Prepares for a run on `workers_count` workers.
    pub fn initialize(&mut self, workers_count: usize)
        ensures
            final(self).workers_count == workers_count,
    {
        self.workers_count = workers_count;
    }
}

} // verus!
