//! The settings of the whole process.

use vstd::prelude::*;

verus! {

/// Settings that hold for all servers of a process.
pub struct MainConfig {
    /// How many workers serve connections; `None` leaves it to the machine.
    pub worker_threads: Option<usize>,
}

impl MainConfig {
    /// The number of workers to start: the configured number, else the
    /// parallelism that the machine reports, else one.
    pub open spec fn spec_worker_count(self, available: Option<usize>) -> usize {
        match self.worker_threads {
            Some(count) => count,
            None => match available {
                Some(count) => count,
                None => 1,
            },
        }
    }

    /// The number of workers to start, given the parallelism that the
    /// machine reports, if it reports any.
    pub fn worker_count(&self, available: Option<usize>) -> (count: usize)
        ensures
            count == self.spec_worker_count(available),
    {
        match self.worker_threads {
            Some(count) => count,
            None => match available {
                Some(count) => count,
                None => 1,
            },
        }
    }
}

} // verus!
