//! The settings that a conversation obeys.
use crate::timestamp::Duration;
use vstd::prelude::*;

verus! {

/// How much of a conversation's history is kept.
#[derive(Debug, Clone, Copy, PartialEq, Eq, Structural)]
pub enum HistoryLength {
    /// Everything.
    All,
    /// The newest messages, up to this many.
    NumberOfMessages(usize),
    /// The messages that are no older than this.
    Duration(Duration),
}

} // verus!
