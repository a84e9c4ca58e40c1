//! What evaluation means: the value and the environment that each node
//! leaves, as functions of the node and the environment it starts from.
//!
//! `depth` is the nesting that the evaluator's stack limit still allows: a
//! node needs one level, its children one less.

use crate::bytecode::ByteCode;
use crate::environment::EnvironmentView;
use crate::error::EvalError;
use vstd::prelude::*;

verus! {

/// How a node that did not fail ended.
#[derive(Debug, Clone, Copy, PartialEq, Eq, Structural)]
pub enum Flow {
    /// It yielded a value to the node around it.
    Value(i32),
    /// A `ReturnValue` below it ended the run with this value.
    Returned(i32),
}

impl Flow {
    /// The value carried, whichever way the node ended.
    pub open spec fn value(self) -> i32 {
        match self {
            Flow::Value(v) => v,
            Flow::Returned(v) => v,
        }
    }
}

/// The outcome of a node and the environment it leaves.
pub struct Step {
    pub outcome: Result<Flow, EvalError>,
    pub env: EnvironmentView,
}

/// The outcome of a list of operands and the environment they leave:
/// their values, or the `ReturnValue` that cut them short.
pub struct Operands {
    pub outcome: Result<Result<Seq<i32>, i32>, EvalError>,
    pub env: EnvironmentView,
}

/// How many iterations at most are left for a counter at `cursor` with the
/// bound `to`.
pub open spec fn distance(cursor: int, to: int) -> nat {
    if cursor < to {
        (to - cursor) as nat
    } else {
        0
    }
}

/// A step that yields `value` in `env`.
pub open spec fn yields(value: i32, env: EnvironmentView) -> Step {
    Step { outcome: Ok(Flow::Value(value)), env }
}

/// A step that fails with `error` in `env`.
pub open spec fn fails(error: EvalError, env: EnvironmentView) -> Step {
    Step { outcome: Err(error), env }
}

/// The step that a channel operation's result amounts to.
pub open spec fn channel_step(done: (Result<i32, EvalError>, EnvironmentView)) -> Step {
    match done.0 {
        Ok(value) => yields(value, done.1),
        Err(error) => fails(error, done.1),
    }
}

/// The outcome of evaluating `node` in `env`.
pub open spec fn eval(node: ByteCode, env: EnvironmentView, depth: nat) -> Step
    decreases depth, 0nat, 0nat,
{
    if depth == 0 {
        fails(EvalError::StackLimitExceeded, env)
    } else {
        let below = (depth - 1) as nat;
        match node {
            ByteCode::LoadVal(value) => yields(value, env),
            ByteCode::ReadVar { var } => match env.get(var) {
                Ok(value) => yields(value, env),
                Err(error) => fails(error, env),
            },
            ByteCode::WriteVar { lhs, val } => {
                let v = eval(*val, env, below);
                match v.outcome {
                    Ok(Flow::Value(value)) => yields(value, v.env.set(lhs, value)),
                    _ => v,
                }
            },
            ByteCode::ReturnValue { node } => {
                let v = eval(*node, env, below);
                match v.outcome {
                    Ok(Flow::Value(value)) => Step { outcome: Ok(Flow::Returned(value)), env: v.env },
                    _ => v,
                }
            },
            ByteCode::BinaryExpression { op, lhs, rhs } => {
                let l = eval(*lhs, env, below);
                match l.outcome {
                    Ok(Flow::Value(a)) => {
                        let r = eval(*rhs, l.env, below);
                        match r.outcome {
                            Ok(Flow::Value(b)) => match op.apply_spec(a, b) {
                                Ok(value) => yields(value, r.env),
                                Err(error) => fails(error, r.env),
                            },
                            _ => r,
                        }
                    },
                    _ => l,
                }
            },
            ByteCode::Loop { counter, from, to, increment_by, body } => {
                let f = eval(*from, env, below);
                match f.outcome {
                    Ok(Flow::Value(first)) => {
                        let t = eval(*to, f.env, below);
                        match t.outcome {
                            Ok(Flow::Value(bound)) => {
                                let s = eval(*increment_by, t.env, below);
                                match s.outcome {
                                    Ok(Flow::Value(step)) => if step <= 0 {
                                        fails(EvalError::InvalidStep, s.env)
                                    } else {
                                        eval_loop(counter, first as int, bound, step, body@, s.env, below, 0)
                                    },
                                    _ => s,
                                }
                            },
                            _ => t,
                        }
                    },
                    _ => f,
                }
            },
            ByteCode::Send { channel, values } => {
                let o = eval_operands(values@, 0, env, below, Seq::empty());
                match o.outcome {
                    Ok(Ok(sent)) => channel_step(o.env.send(channel, sent)),
                    Ok(Err(value)) => Step { outcome: Ok(Flow::Returned(value)), env: o.env },
                    Err(error) => fails(error, o.env),
                }
            },
            ByteCode::Recv { channel } => channel_step(env.recv(channel)),
        }
    }
}

/// The outcome of the statements of `body` from position `at` on, one after
/// the other; `last` is what the statements before them yielded.
pub open spec fn eval_body(
    body: Seq<ByteCode>,
    at: nat,
    env: EnvironmentView,
    depth: nat,
    last: i32,
) -> Step
    decreases depth, 1nat, body.len() - at,
{
    if at >= body.len() {
        yields(last, env)
    } else {
        let s = eval(body[at as int], env, depth);
        match s.outcome {
            Ok(Flow::Value(value)) => eval_body(body, at + 1, s.env, depth, value),
            _ => s,
        }
    }
}

/// The outcome of the iterations of a loop from the counter value `cursor`
/// on; `last` is what the iterations before them yielded.  An iteration
/// binds the counter and yields what the last statement of the body yields,
/// or the counter where the body is empty.
pub open spec fn eval_loop(
    counter: char,
    cursor: int,
    to: i32,
    step: i32,
    body: Seq<ByteCode>,
    env: EnvironmentView,
    depth: nat,
    last: i32,
) -> Step
    decreases depth, 2nat, distance(cursor, to as int),
{
    if cursor >= to || step <= 0 {
        yields(last, env)
    } else {
        let s = eval_body(body, 0, env.set(counter, cursor as i32), depth, cursor as i32);
        match s.outcome {
            Ok(Flow::Value(value)) => eval_loop(counter, cursor + step, to, step, body, s.env, depth, value),
            _ => s,
        }
    }
}

/// The outcome of the operands of a `Send` from position `at` on, evaluated
/// left to right; `done` holds the values of the operands before them.
pub open spec fn eval_operands(
    operands: Seq<ByteCode>,
    at: nat,
    env: EnvironmentView,
    depth: nat,
    done: Seq<i32>,
) -> Operands
    decreases depth, 1nat, operands.len() - at,
{
    if at >= operands.len() {
        Operands { outcome: Ok(Ok(done)), env }
    } else {
        let s = eval(operands[at as int], env, depth);
        match s.outcome {
            Ok(Flow::Value(value)) => eval_operands(operands, at + 1, s.env, depth, done.push(value)),
            Ok(Flow::Returned(value)) => Operands { outcome: Ok(Err(value)), env: s.env },
            Err(error) => Operands { outcome: Err(error), env: s.env },
        }
    }
}

/// The result of a whole run of `program` in `env`, and the environment it
/// leaves: a `ReturnValue` ends the run with its value.
pub open spec fn run(program: ByteCode, env: EnvironmentView, depth: nat) -> (
    Result<i32, EvalError>,
    EnvironmentView,
) {
    let s = eval(program, env, depth);
    match s.outcome {
        Ok(flow) => (Ok(flow.value()), s.env),
        Err(error) => (Err(error), s.env),
    }
}

} // verus!
