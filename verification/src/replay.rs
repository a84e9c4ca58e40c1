//! Why a task can be taken up again by evaluating it from its start:
//! evaluation against the journal of an earlier pass goes the way that pass
//! went, up to the operation at which that pass stopped.

use crate::bytecode::ByteCode;
use crate::channel::{close_all, ChannelView};
use crate::environment::EnvironmentView;
use crate::error::EvalError;
use crate::progress::{
    lemma_body_advances, lemma_eval_advances, lemma_loop_advances, lemma_operands_advances,
};
use crate::semantics::{
    distance, eval, eval_body, eval_loop, eval_operands, fails, Flow, Operands, Step,
};
use vstd::prelude::*;

verus! {

/// Whether `journal` holds the first `upto` entries of `other`.
pub open spec fn agrees(journal: Seq<i32>, other: Seq<i32>, upto: nat) -> bool {
    &&& upto <= journal.len()
    &&& upto <= other.len()
    &&& forall|i: int| 0 <= i < upto ==> journal[i] == other[i]
}

/// Whether the error came from a channel operation that did not complete.
pub open spec fn is_channel_failure(error: EvalError) -> bool {
    error is WouldBlock || error is ChannelClosed || error is UnknownChannel
}

/// Whether a pass went through every channel operation that it met.
pub open spec fn came_through<T>(outcome: Result<T, EvalError>) -> bool {
    match outcome {
        Ok(_) => true,
        Err(error) => !is_channel_failure(error),
    }
}

/// `env` with another journal and other channels.
pub open spec fn over(
    env: EnvironmentView,
    journal: Seq<i32>,
    channels: Seq<ChannelView<i32>>,
) -> EnvironmentView {
    EnvironmentView { journal, channels, ..env }
}

/// A second evaluation of a node, against a journal that holds what the
/// first went through, ends as the first did, with the same variables, and
/// leaves the channels alone.
pub proof fn lemma_eval_retraced(
    node: ByteCode,
    env: EnvironmentView,
    depth: nat,
    journal: Seq<i32>,
    channels: Seq<ChannelView<i32>>,
)
    requires
        env.cursor <= env.journal.len(),
    ensures
        ({
            let s = eval(node, env, depth);
            came_through(s.outcome) && agrees(journal, s.env.journal, s.env.cursor)
                ==> eval(node, over(env, journal, channels), depth) == (Step {
                outcome: s.outcome,
                env: over(s.env, journal, channels),
            })
        }),
    decreases depth, 0nat, 0nat,
{
    if depth > 0 {
        let below = (depth - 1) as nat;
        match node {
            ByteCode::LoadVal(_) => {},
            ByteCode::ReadVar { .. } => {},
            ByteCode::WriteVar { val, .. } => {
                lemma_eval_advances(*val, env, below);
                lemma_eval_retraced(*val, env, below, journal, channels);
            },
            ByteCode::ReturnValue { node } => {
                lemma_eval_advances(*node, env, below);
                lemma_eval_retraced(*node, env, below, journal, channels);
            },
            ByteCode::BinaryExpression { lhs, rhs, .. } => {
                lemma_eval_advances(*lhs, env, below);
                lemma_eval_retraced(*lhs, env, below, journal, channels);
                lemma_eval_advances(*rhs, eval(*lhs, env, below).env, below);
                lemma_eval_retraced(*rhs, eval(*lhs, env, below).env, below, journal, channels);
            },
            ByteCode::Loop { counter, from, to, increment_by, body } => {
                let f = eval(*from, env, below);
                lemma_eval_advances(*from, env, below);
                lemma_eval_retraced(*from, env, below, journal, channels);
                let t = eval(*to, f.env, below);
                lemma_eval_advances(*to, f.env, below);
                lemma_eval_retraced(*to, f.env, below, journal, channels);
                let s = eval(*increment_by, t.env, below);
                lemma_eval_advances(*increment_by, t.env, below);
                lemma_eval_retraced(*increment_by, t.env, below, journal, channels);
                if f.outcome is Ok && t.outcome is Ok && s.outcome is Ok {
                    lemma_loop_advances(
                        counter,
                        f.outcome->Ok_0.value() as int,
                        t.outcome->Ok_0.value(),
                        s.outcome->Ok_0.value(),
                        body@,
                        s.env,
                        below,
                        0,
                    );
                    lemma_loop_retraced(
                        counter,
                        f.outcome->Ok_0.value() as int,
                        t.outcome->Ok_0.value(),
                        s.outcome->Ok_0.value(),
                        body@,
                        s.env,
                        below,
                        0,
                        journal,
                        channels,
                    );
                }
            },
            ByteCode::Send { values, .. } => {
                lemma_operands_advances(values@, 0, env, below, Seq::empty());
                lemma_operands_retraced(values@, 0, env, below, Seq::empty(), journal, channels);
            },
            ByteCode::Recv { .. } => {},
        }
    }
}

/// `lemma_eval_retraced` for the statements of a body.
pub proof fn lemma_body_retraced(
    body: Seq<ByteCode>,
    at: nat,
    env: EnvironmentView,
    depth: nat,
    last: i32,
    journal: Seq<i32>,
    channels: Seq<ChannelView<i32>>,
)
    requires
        env.cursor <= env.journal.len(),
    ensures
        ({
            let s = eval_body(body, at, env, depth, last);
            came_through(s.outcome) && agrees(journal, s.env.journal, s.env.cursor)
                ==> eval_body(body, at, over(env, journal, channels), depth, last) == (Step {
                outcome: s.outcome,
                env: over(s.env, journal, channels),
            })
        }),
    decreases depth, 1nat, body.len() - at,
{
    if at < body.len() {
        let s = eval(body[at as int], env, depth);
        lemma_eval_advances(body[at as int], env, depth);
        lemma_eval_retraced(body[at as int], env, depth, journal, channels);
        match s.outcome {
            Ok(Flow::Value(value)) => {
                lemma_body_advances(body, at + 1, s.env, depth, value);
                lemma_body_retraced(body, at + 1, s.env, depth, value, journal, channels);
            },
            _ => {},
        }
    }
}

/// `lemma_eval_retraced` for the operands of a send.
pub proof fn lemma_operands_retraced(
    operands: Seq<ByteCode>,
    at: nat,
    env: EnvironmentView,
    depth: nat,
    done: Seq<i32>,
    journal: Seq<i32>,
    channels: Seq<ChannelView<i32>>,
)
    requires
        env.cursor <= env.journal.len(),
    ensures
        ({
            let s = eval_operands(operands, at, env, depth, done);
            came_through(s.outcome) && agrees(journal, s.env.journal, s.env.cursor)
                ==> eval_operands(operands, at, over(env, journal, channels), depth, done) == (Operands {
                outcome: s.outcome,
                env: over(s.env, journal, channels),
            })
        }),
    decreases depth, 1nat, operands.len() - at,
{
    if at < operands.len() {
        let s = eval(operands[at as int], env, depth);
        lemma_eval_advances(operands[at as int], env, depth);
        lemma_eval_retraced(operands[at as int], env, depth, journal, channels);
        match s.outcome {
            Ok(Flow::Value(value)) => {
                lemma_operands_advances(operands, at + 1, s.env, depth, done.push(value));
                lemma_operands_retraced(
                    operands,
                    at + 1,
                    s.env,
                    depth,
                    done.push(value),
                    journal,
                    channels,
                );
            },
            _ => {},
        }
    }
}

/// `lemma_eval_retraced` for the iterations of a loop.
pub proof fn lemma_loop_retraced(
    counter: char,
    cursor: int,
    to: i32,
    step: i32,
    body: Seq<ByteCode>,
    env: EnvironmentView,
    depth: nat,
    last: i32,
    journal: Seq<i32>,
    channels: Seq<ChannelView<i32>>,
)
    requires
        env.cursor <= env.journal.len(),
    ensures
        ({
            let s = eval_loop(counter, cursor, to, step, body, env, depth, last);
            came_through(s.outcome) && agrees(journal, s.env.journal, s.env.cursor)
                ==> eval_loop(counter, cursor, to, step, body, over(env, journal, channels), depth, last)
                == (Step { outcome: s.outcome, env: over(s.env, journal, channels) })
        }),
    decreases depth, 2nat, distance(cursor, to as int),
{
    if cursor < to && step > 0 {
        let bound_env = env.set(counter, cursor as i32);
        let s = eval_body(body, 0, bound_env, depth, cursor as i32);
        lemma_body_advances(body, 0, bound_env, depth, cursor as i32);
        lemma_body_retraced(body, 0, bound_env, depth, cursor as i32, journal, channels);
        match s.outcome {
            Ok(Flow::Value(value)) => {
                lemma_loop_advances(counter, cursor + step, to, step, body, s.env, depth, value);
                lemma_loop_retraced(
                    counter,
                    cursor + step,
                    to,
                    step,
                    body,
                    s.env,
                    depth,
                    value,
                    journal,
                    channels,
                );
            },
            _ => {},
        }
    }
}

/// Whether a pass stopped at a channel operation that could not complete.
pub open spec fn waits<T>(outcome: Result<T, EvalError>) -> bool {
    outcome matches Err(EvalError::WouldBlock(_))
}

/// The channels that a pass left, as they are or, where `closing` holds,
/// each of them closed.
pub open spec fn left(channels: Seq<ChannelView<i32>>, closing: bool) -> Seq<ChannelView<i32>> {
    if closing {
        close_all(channels)
    } else {
        channels
    }
}

/// The environment in which a second pass ends that was stopped where the
/// first was.
pub open spec fn stopped(after: EnvironmentView, closing: bool) -> EnvironmentView {
    EnvironmentView { channels: left(after.channels, closing), ..after }
}

/// The error with which a second pass ends that was stopped where the
/// first was: the same, or `ChannelClosed` where the channels were closed.
pub open spec fn stop(error: EvalError, closing: bool) -> EvalError {
    if closing {
        EvalError::ChannelClosed
    } else {
        error
    }
}

/// Where the evaluation of a node stopped at a channel operation that
/// could not complete, a second evaluation against the journal it left
/// comes to that operation again.  On the channels as the first left them
/// it stops there as the first did; on those channels closed it fails there
/// with `ChannelClosed`.  Either way it changes nothing.
pub proof fn lemma_eval_again(node: ByteCode, env: EnvironmentView, depth: nat, closing: bool)
    requires
        env.cursor <= env.journal.len(),
        waits(eval(node, env, depth).outcome),
    ensures
        ({
            let s = eval(node, env, depth);
            eval(node, over(env, s.env.journal, left(s.env.channels, closing)), depth) == fails(
                stop(s.outcome->Err_0, closing),
                stopped(s.env, closing),
            )
        }),
    decreases depth, 0nat, 0nat,
{
    let end = eval(node, env, depth).env;
    let journal = end.journal;
    let channels = left(end.channels, closing);
    if depth > 0 {
        let below = (depth - 1) as nat;
        match node {
            ByteCode::LoadVal(_) => {},
            ByteCode::ReadVar { .. } => {},
            ByteCode::WriteVar { val, .. } => {
                lemma_eval_again(*val, env, below, closing);
            },
            ByteCode::ReturnValue { node } => {
                lemma_eval_again(*node, env, below, closing);
            },
            ByteCode::BinaryExpression { lhs, rhs, .. } => {
                let l = eval(*lhs, env, below);
                if waits(l.outcome) {
                    lemma_eval_again(*lhs, env, below, closing);
                } else {
                    lemma_eval_advances(*lhs, env, below);
                    lemma_eval_advances(*rhs, l.env, below);
                    lemma_eval_retraced(*lhs, env, below, journal, channels);
                    lemma_eval_again(*rhs, l.env, below, closing);
                }
            },
            ByteCode::Loop { counter, from, to, increment_by, body } => {
                let f = eval(*from, env, below);
                if waits(f.outcome) {
                    lemma_eval_again(*from, env, below, closing);
                } else {
                    let t = eval(*to, f.env, below);
                    lemma_eval_advances(*from, env, below);
                    lemma_eval_advances(*to, f.env, below);
                    if waits(t.outcome) {
                        lemma_eval_retraced(*from, env, below, journal, channels);
                        lemma_eval_again(*to, f.env, below, closing);
                    } else {
                        let s = eval(*increment_by, t.env, below);
                        lemma_eval_advances(*increment_by, t.env, below);
                        if waits(s.outcome) {
                            lemma_eval_retraced(*from, env, below, journal, channels);
                            lemma_eval_retraced(*to, f.env, below, journal, channels);
                            lemma_eval_again(*increment_by, t.env, below, closing);
                        } else {
                            let first = f.outcome->Ok_0.value();
                            let bound = t.outcome->Ok_0.value();
                            let step = s.outcome->Ok_0.value();
                            lemma_loop_advances(counter, first as int, bound, step, body@, s.env, below, 0);
                            lemma_eval_retraced(*from, env, below, journal, channels);
                            lemma_eval_retraced(*to, f.env, below, journal, channels);
                            lemma_eval_retraced(*increment_by, t.env, below, journal, channels);
                            lemma_loop_again(
                                counter,
                                first as int,
                                bound,
                                step,
                                body@,
                                s.env,
                                below,
                                0,
                                closing,
                            );
                        }
                    }
                }
            },
            ByteCode::Send { values, .. } => {
                let o = eval_operands(values@, 0, env, below, Seq::empty());
                lemma_operands_advances(values@, 0, env, below, Seq::empty());
                if waits(o.outcome) {
                    lemma_operands_again(values@, 0, env, below, Seq::empty(), closing);
                } else {
                    lemma_operands_retraced(values@, 0, env, below, Seq::empty(), journal, channels);
                }
            },
            ByteCode::Recv { .. } => {},
        }
    }
}

/// `lemma_eval_again` for the statements of a body.
pub proof fn lemma_body_again(
    body: Seq<ByteCode>,
    at: nat,
    env: EnvironmentView,
    depth: nat,
    last: i32,
    closing: bool,
)
    requires
        env.cursor <= env.journal.len(),
        waits(eval_body(body, at, env, depth, last).outcome),
    ensures
        ({
            let s = eval_body(body, at, env, depth, last);
            eval_body(body, at, over(env, s.env.journal, left(s.env.channels, closing)), depth, last)
                == fails(stop(s.outcome->Err_0, closing), stopped(s.env, closing))
        }),
    decreases depth, 1nat, body.len() - at,
{
    let end = eval_body(body, at, env, depth, last).env;
    if at < body.len() {
        let s = eval(body[at as int], env, depth);
        match s.outcome {
            Ok(Flow::Value(value)) => {
                lemma_eval_advances(body[at as int], env, depth);
                lemma_body_advances(body, at + 1, s.env, depth, value);
                lemma_eval_retraced(
                    body[at as int],
                    env,
                    depth,
                    end.journal,
                    left(end.channels, closing),
                );
                lemma_body_again(body, at + 1, s.env, depth, value, closing);
            },
            _ => {
                lemma_eval_again(body[at as int], env, depth, closing);
            },
        }
    }
}

/// `lemma_eval_again` for the operands of a send.
pub proof fn lemma_operands_again(
    operands: Seq<ByteCode>,
    at: nat,
    env: EnvironmentView,
    depth: nat,
    done: Seq<i32>,
    closing: bool,
)
    requires
        env.cursor <= env.journal.len(),
        waits(eval_operands(operands, at, env, depth, done).outcome),
    ensures
        ({
            let s = eval_operands(operands, at, env, depth, done);
            eval_operands(
                operands,
                at,
                over(env, s.env.journal, left(s.env.channels, closing)),
                depth,
                done,
            ) == (Operands {
                outcome: Err(stop(s.outcome->Err_0, closing)),
                env: stopped(s.env, closing),
            })
        }),
    decreases depth, 1nat, operands.len() - at,
{
    let end = eval_operands(operands, at, env, depth, done).env;
    if at < operands.len() {
        let s = eval(operands[at as int], env, depth);
        match s.outcome {
            Ok(Flow::Value(value)) => {
                lemma_eval_advances(operands[at as int], env, depth);
                lemma_operands_advances(operands, at + 1, s.env, depth, done.push(value));
                lemma_eval_retraced(
                    operands[at as int],
                    env,
                    depth,
                    end.journal,
                    left(end.channels, closing),
                );
                lemma_operands_again(operands, at + 1, s.env, depth, done.push(value), closing);
            },
            _ => {
                lemma_eval_again(operands[at as int], env, depth, closing);
            },
        }
    }
}

/// `lemma_eval_again` for the iterations of a loop.
pub proof fn lemma_loop_again(
    counter: char,
    cursor: int,
    to: i32,
    step: i32,
    body: Seq<ByteCode>,
    env: EnvironmentView,
    depth: nat,
    last: i32,
    closing: bool,
)
    requires
        env.cursor <= env.journal.len(),
        waits(eval_loop(counter, cursor, to, step, body, env, depth, last).outcome),
    ensures
        ({
            let s = eval_loop(counter, cursor, to, step, body, env, depth, last);
            eval_loop(
                counter,
                cursor,
                to,
                step,
                body,
                over(env, s.env.journal, left(s.env.channels, closing)),
                depth,
                last,
            ) == fails(stop(s.outcome->Err_0, closing), stopped(s.env, closing))
        }),
    decreases depth, 2nat, distance(cursor, to as int),
{
    let end = eval_loop(counter, cursor, to, step, body, env, depth, last).env;
    if cursor < to && step > 0 {
        let bound_env = env.set(counter, cursor as i32);
        let s = eval_body(body, 0, bound_env, depth, cursor as i32);
        match s.outcome {
            Ok(Flow::Value(value)) => {
                lemma_body_advances(body, 0, bound_env, depth, cursor as i32);
                lemma_loop_advances(counter, cursor + step, to, step, body, s.env, depth, value);
                lemma_body_retraced(
                    body,
                    0,
                    bound_env,
                    depth,
                    cursor as i32,
                    end.journal,
                    left(end.channels, closing),
                );
                lemma_loop_again(counter, cursor + step, to, step, body, s.env, depth, value, closing);
            },
            _ => {
                lemma_body_again(body, 0, bound_env, depth, cursor as i32, closing);
            },
        }
    }
}

} // verus!
