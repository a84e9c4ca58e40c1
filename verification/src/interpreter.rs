//! The evaluator: a recursive walk over the tree that does what
//! `semantics` says.

use crate::bytecode::ByteCode;
use crate::environment::Environment;
use crate::error::EvalError;
use crate::semantics::{distance, eval, eval_body, eval_loop, eval_operands, run, Flow, Step};
use vstd::prelude::*;

verus! {

/// The nesting that `evaluate` allows.
pub const DEFAULT_STACK_LIMIT: usize = 256;

/// An evaluator.  It holds no state of a run: that is the environment's.
pub struct ByteCodeInterpreter {
    stack_limit: usize,
}

impl ByteCodeInterpreter {
    /// The nesting of nodes that this evaluator allows.
    pub closed spec fn limit(&self) -> nat {
        self.stack_limit as nat
    }

    /// Makes an evaluator with the default stack limit.
    pub fn new() -> (interpreter: ByteCodeInterpreter)
        ensures
            interpreter.limit() == DEFAULT_STACK_LIMIT,
    {
        ByteCodeInterpreter { stack_limit: DEFAULT_STACK_LIMIT }
    }

    /// Makes an evaluator that allows nodes nested `stack_limit` deep.
    pub fn with_stack_limit(stack_limit: usize) -> (interpreter: ByteCodeInterpreter)
        ensures
            interpreter.limit() == stack_limit,
    {
        ByteCodeInterpreter { stack_limit }
    }

    /// The nesting of nodes that this evaluator allows.
    pub fn stack_limit(&self) -> (stack_limit: usize)
        ensures
            stack_limit == self.limit(),
    {
        self.stack_limit
    }

    /// Evaluates `bytecode` in `environment`.  Returns the value of the tree,
    /// or that of the `ReturnValue` that ended the run, or the error that
    /// stopped it; the environment keeps what the run did up to there.
    pub fn interpret_operations(&self, bytecode: &ByteCode, environment: &mut Environment) -> (result:
        Result<i32, EvalError>)
        ensures
            (result, final(environment)@) == run(*bytecode, old(environment)@, self.limit()),
    {
        match eval_node(bytecode, environment, self.stack_limit) {
            Ok(Flow::Value(value)) => Ok(value),
            Ok(Flow::Returned(value)) => Ok(value),
            Err(error) => Err(error),
        }
    }
}

impl Default for ByteCodeInterpreter {
    fn default() -> (interpreter: ByteCodeInterpreter)
        ensures
            interpreter.limit() == DEFAULT_STACK_LIMIT,
    {
        ByteCodeInterpreter::new()
    }
}

/// Evaluates `node` in `environment` with the default stack limit.
pub fn evaluate(node: &ByteCode, environment: &mut Environment) -> (result: Result<i32, EvalError>)
    ensures
        (result, final(environment)@) == run(*node, old(environment)@, DEFAULT_STACK_LIMIT as nat),
{
    ByteCodeInterpreter::new().interpret_operations(node, environment)
}

fn eval_node(node: &ByteCode, environment: &mut Environment, depth: usize) -> (outcome: Result<
    Flow,
    EvalError,
>)
    ensures
        (Step { outcome, env: final(environment)@ }) == eval(*node, old(environment)@, depth as nat),
    decreases depth, 0nat,
{
    if depth == 0 {
        return Err(EvalError::StackLimitExceeded);
    }
    let below = depth - 1;
    match node {
        ByteCode::LoadVal(value) => Ok(Flow::Value(*value)),
        ByteCode::ReadVar { var } => match environment.get(*var) {
            Ok(value) => Ok(Flow::Value(value)),
            Err(error) => Err(error),
        },
        ByteCode::WriteVar { lhs, val } => match eval_node(val, environment, below) {
            Ok(Flow::Value(value)) => {
                environment.set(*lhs, value);
                Ok(Flow::Value(value))
            },
            other => other,
        },
        ByteCode::ReturnValue { node } => match eval_node(node, environment, below) {
            Ok(Flow::Value(value)) => Ok(Flow::Returned(value)),
            other => other,
        },
        ByteCode::BinaryExpression { op, lhs, rhs } => {
            let a = match eval_node(lhs, environment, below) {
                Ok(Flow::Value(a)) => a,
                other => return other,
            };
            let b = match eval_node(rhs, environment, below) {
                Ok(Flow::Value(b)) => b,
                other => return other,
            };
            match op.apply(a, b) {
                Ok(value) => Ok(Flow::Value(value)),
                Err(error) => Err(error),
            }
        },
        ByteCode::Loop { counter, from, to, increment_by, body } => {
            let first = match eval_node(from, environment, below) {
                Ok(Flow::Value(first)) => first,
                other => return other,
            };
            let bound = match eval_node(to, environment, below) {
                Ok(Flow::Value(bound)) => bound,
                other => return other,
            };
            let step = match eval_node(increment_by, environment, below) {
                Ok(Flow::Value(step)) => step,
                other => return other,
            };
            if step <= 0 {
                return Err(EvalError::InvalidStep);
            }
            eval_iterations(*counter, first, bound, step, body, environment, below)
        },
        ByteCode::Send { channel, values } => match eval_values(values, environment, below) {
            Ok(Ok(sent)) => match environment.send(*channel, sent) {
                Ok(value) => Ok(Flow::Value(value)),
                Err(error) => Err(error),
            },
            Ok(Err(value)) => Ok(Flow::Returned(value)),
            Err(error) => Err(error),
        },
        ByteCode::Recv { channel } => match environment.recv(*channel) {
            Ok(value) => Ok(Flow::Value(value)),
            Err(error) => Err(error),
        },
    }
}

fn eval_statements(body: &Vec<ByteCode>, environment: &mut Environment, depth: usize, first: i32) -> (outcome:
    Result<Flow, EvalError>)
    ensures
        (Step { outcome, env: final(environment)@ }) == eval_body(
            body@,
            0,
            old(environment)@,
            depth as nat,
            first,
        ),
    decreases depth, 1nat,
{
    let mut last = first;
    let mut at: usize = 0;
    while at < body.len()
        invariant
            at <= body.len(),
            eval_body(body@, 0, old(environment)@, depth as nat, first) == eval_body(
                body@,
                at as nat,
                environment@,
                depth as nat,
                last,
            ),
        decreases body.len() - at,
    {
        match eval_node(&body[at], environment, depth) {
            Ok(Flow::Value(value)) => {
                last = value;
            },
            other => return other,
        }
        at += 1;
    }
    Ok(Flow::Value(last))
}

fn eval_iterations(
    counter: char,
    from: i32,
    to: i32,
    step: i32,
    body: &Vec<ByteCode>,
    environment: &mut Environment,
    depth: usize,
) -> (outcome: Result<Flow, EvalError>)
    requires
        step > 0,
    ensures
        (Step { outcome, env: final(environment)@ }) == eval_loop(
            counter,
            from as int,
            to,
            step,
            body@,
            old(environment)@,
            depth as nat,
            0,
        ),
    decreases depth, 2nat,
{
    let mut last: i32 = 0;
    let mut cursor: i64 = from as i64;
    while cursor < to as i64
        invariant
            step > 0,
            from <= cursor <= i32::MAX + step,
            eval_loop(counter, from as int, to, step, body@, old(environment)@, depth as nat, 0)
                == eval_loop(counter, cursor as int, to, step, body@, environment@, depth as nat, last),
        decreases distance(cursor as int, to as int),
    {
        environment.set(counter, cursor as i32);
        match eval_statements(body, environment, depth, cursor as i32) {
            Ok(Flow::Value(value)) => {
                last = value;
            },
            other => return other,
        }
        cursor = cursor + step as i64;
    }
    Ok(Flow::Value(last))
}

fn eval_values(operands: &Vec<ByteCode>, environment: &mut Environment, depth: usize) -> (outcome:
    Result<Result<Vec<i32>, i32>, EvalError>)
    ensures
        match eval_operands(operands@, 0, old(environment)@, depth as nat, Seq::empty()).outcome {
            Ok(Ok(values)) => outcome matches Ok(Ok(v)) && v@ == values,
            Ok(Err(value)) => outcome == Ok::<Result<Vec<i32>, i32>, EvalError>(Err(value)),
            Err(error) => outcome == Err::<Result<Vec<i32>, i32>, EvalError>(error),
        },
        final(environment)@ == eval_operands(
            operands@,
            0,
            old(environment)@,
            depth as nat,
            Seq::empty(),
        ).env,
    decreases depth, 1nat,
{
    let mut done: Vec<i32> = Vec::new();
    let mut at: usize = 0;
    while at < operands.len()
        invariant
            at <= operands.len(),
            eval_operands(operands@, 0, old(environment)@, depth as nat, Seq::empty())
                == eval_operands(operands@, at as nat, environment@, depth as nat, done@),
        decreases operands.len() - at,
    {
        match eval_node(&operands[at], environment, depth) {
            Ok(Flow::Value(value)) => {
                done.push(value);
            },
            Ok(Flow::Returned(value)) => return Ok(Err(value)),
            Err(error) => return Err(error),
        }
        at += 1;
    }
    Ok(Ok(done))
}

} // verus!
