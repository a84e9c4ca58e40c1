//! The failures an evaluation or a channel operation can end with.

use vstd::prelude::*;

verus! {

/// Why an evaluation stopped without a value.
#[derive(Debug, PartialEq, Eq)]
pub enum EvalError {
    /// A variable was read before anything was assigned to it.
    UnboundVariable(char),
    /// The right operand of a division was zero.
    DivisionByZero,
    /// The step of a loop was zero or negative.
    InvalidStep,
    /// A channel operation met a closed channel: a receive on one that is
    /// also empty, or a send.
    ChannelClosed,
    /// The tree is nested more deeply than the evaluator's stack limit.
    StackLimitExceeded,
    /// The channel reference names no channel of the environment.
    UnknownChannel(usize),
    /// The channel operation cannot complete now: a receive on an open, empty
    /// channel, or a send that a bounded channel has no room for.  A task
    /// suspends here; a run without a sibling can never go on.
    WouldBlock(usize),
    /// The failure of a spawned task, as its joiner sees it.
    TaskFailure(Box<EvalError>),
}

/// Why a channel operation did not complete.
#[derive(Debug, Clone, Copy, PartialEq, Eq, Structural)]
pub enum ChannelError {
    /// The channel is closed (and, for a receive, drained).
    Closed,
    /// The channel is open and holds no value.
    Empty,
    /// The channel is bounded and has no room for the values.
    Full,
}

} // verus!
