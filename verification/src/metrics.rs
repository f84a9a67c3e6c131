//! The observability context injected at startup: write-only counters and
//! gauges the core updates and the surrounding process exports. None of it
//! affects control flow.

use vstd::prelude::*;

verus! {

/// The counters and gauges the connection core writes: how many connections
/// have been accepted over the life of the process, and the amount of money
/// currently in the pot.
pub struct Metrics {
    connections: u64,
    pot: u64,
}

impl Metrics {
    /// Connections accepted so far.
    pub closed spec fn connections(&self) -> u64 {
        self.connections
    }

    /// The pot gauge's current value.
    pub closed spec fn pot(&self) -> u64 {
        self.pot
    }

    /// A fresh context with every instrument at zero.
    pub fn new() -> (m: Metrics)
        ensures
            m.connections() == 0,
            m.pot() == 0,
    {
        Metrics { connections: 0, pot: 0 }
    }

    /// Counts one accepted connection; the counter saturates rather than
    /// wraps.
    pub fn record_connection(&mut self)
        ensures
            final(self).connections() == if old(self).connections() < u64::MAX {
                old(self).connections() + 1
            } else {
                u64::MAX as int
            },
            final(self).pot() == old(self).pot(),
    {
        if self.connections < u64::MAX {
            self.connections = self.connections + 1;
        }
    }

    /// Sets the pot gauge to the current pot size.
    pub fn set_pot(&mut self, amount: u64)
        ensures
            final(self).pot() == amount,
            final(self).connections() == old(self).connections(),
    {
        self.pot = amount;
    }

    /// Reads the connection counter, for export.
    pub fn connections_value(&self) -> (n: u64)
        ensures
            n == self.connections(),
    {
        self.connections
    }

    /// Reads the pot gauge, for export.
    pub fn pot_value(&self) -> (n: u64)
        ensures
            n == self.pot(),
    {
        self.pot
    }
}

} // verus!
