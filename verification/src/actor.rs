//! Common actor vocabulary: how an actor's life ends.

use vstd::prelude::*;

verus! {

/// How an actor finished: cleanly, failed with or without retry, stopped
/// early, or crashed.
#[derive(Clone, Copy, PartialEq, Eq, Structural, Debug)]
pub enum TerminalState {
    Succeeded,
    Failed(bool),
    Cancelled,
    Faulted,
}

impl TerminalState {
    /// A failure not worth retrying.
    pub fn dnr() -> (r: TerminalState)
        ensures
            r == TerminalState::Failed(false),
    {
        TerminalState::Failed(false)
    }

    /// A failure the supervisor may retry.
    pub fn retry() -> (r: TerminalState)
        ensures
            r == TerminalState::Failed(true),
    {
        TerminalState::Failed(true)
    }

    /// The terminal state of a finished piece of work: success, or a
    /// failure not worth retrying.
    pub fn from_result(ok: bool) -> (r: TerminalState)
        ensures
            r == if ok {
                TerminalState::Succeeded
            } else {
                TerminalState::Failed(false)
            },
    {
        if ok {
            TerminalState::Succeeded
        } else {
            TerminalState::Failed(false)
        }
    }
}

} // verus!
