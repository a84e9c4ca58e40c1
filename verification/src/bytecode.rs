//! The expression tree that the evaluator walks.

use crate::operator::Operator;
use vstd::prelude::*;

verus! {

/// One node of a program.  A node owns its children; a tree is never
/// changed once it is built.
#[derive(Debug)]
#[allow(inconsistent_fields)]
pub enum ByteCode {
    /// An integer literal.
    LoadVal(i32),
    /// Evaluates `val`, binds the variable `lhs` to it and yields it.
    WriteVar { lhs: char, val: Box<ByteCode> },
    /// Yields what the variable `var` is bound to.
    ReadVar { var: char },
    /// Evaluates `node` and ends the whole run with that value.
    ReturnValue { node: Box<ByteCode> },
    /// Evaluates `lhs`, then `rhs`, and combines the two values.
    BinaryExpression { op: Operator, lhs: Box<ByteCode>, rhs: Box<ByteCode> },
    /// Runs `body` with `counter` bound to `from`, `from + increment_by`, ...
    /// as long as the counter is below `to`.
    Loop {
        counter: char,
        from: Box<ByteCode>,
        to: Box<ByteCode>,
        increment_by: Box<ByteCode>,
        body: Vec<ByteCode>,
    },
    /// Evaluates `values` in order and enqueues them together on a channel.
    Send { channel: usize, values: Vec<ByteCode> },
    /// Dequeues the oldest value of a channel.
    Recv { channel: usize },
}

} // verus!
