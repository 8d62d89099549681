//! Mail queues between tasks: the error of a receive with a time limit.
use vstd::prelude::*;

verus! {

/// Why a receive with a time limit returned without an item.
#[derive(Debug, PartialEq, Eq, Structural, Clone, Copy)]
pub enum RecvTimeoutError {
    /// No item arrived within the time limit.
    Timeout,
    /// The queue failed otherwise (for example, every sender is gone).
    Other,
}

} // verus!
