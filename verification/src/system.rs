//! The errors of reading the machine's load.

use vstd::prelude::*;

verus! {

/// Why the machine's load could not be read.
#[derive(Debug, Clone, Copy, PartialEq, Eq, Structural)]
pub enum SystemMetricsError {
    /// The processor and memory figures could not be collected.
    Collect,
}

} // verus!
