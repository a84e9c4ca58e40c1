//! What makes the scheduling of tasks terminate: a bound on the channel
//! operations of a run, and that nothing waits on closed channels.

use crate::bytecode::ByteCode;
use crate::environment::EnvironmentView;
use crate::error::EvalError;
use crate::semantics::{distance, eval, eval_body, eval_loop, eval_operands, Flow};
use vstd::prelude::*;

verus! {

/// More iterations than any loop can run: its counter takes 32-bit values
/// and grows with every iteration.
pub open spec fn max_iterations() -> nat {
    0x1_0000_0000
}

/// A bound on the channel operations that evaluating `node` goes through.
pub open spec fn ops_bound(node: ByteCode, depth: nat) -> nat
    decreases depth, 0nat, 0nat,
{
    if depth == 0 {
        0
    } else {
        let below = (depth - 1) as nat;
        match node {
            ByteCode::LoadVal(_) => 0,
            ByteCode::ReadVar { .. } => 0,
            ByteCode::WriteVar { val, .. } => ops_bound(*val, below),
            ByteCode::ReturnValue { node } => ops_bound(*node, below),
            ByteCode::BinaryExpression { lhs, rhs, .. } => ops_bound(*lhs, below) + ops_bound(
                *rhs,
                below,
            ),
            ByteCode::Loop { from, to, increment_by, body, .. } => ops_bound(*from, below)
                + ops_bound(*to, below) + ops_bound(*increment_by, below) + max_iterations()
                * ops_bound_list(body@, 0, below),
            ByteCode::Send { values, .. } => ops_bound_list(values@, 0, below) + 1,
            ByteCode::Recv { .. } => 1,
        }
    }
}

/// A bound on the channel operations that evaluating the nodes of `nodes`
/// from position `at` on goes through.
pub open spec fn ops_bound_list(nodes: Seq<ByteCode>, at: nat, depth: nat) -> nat
    decreases depth, 1nat, nodes.len() - at,
{
    if at >= nodes.len() {
        0
    } else {
        ops_bound(nodes[at as int], depth) + ops_bound_list(nodes, at + 1, depth)
    }
}

/// Whether `longer` starts with `shorter`.
pub open spec fn extends(longer: Seq<i32>, shorter: Seq<i32>) -> bool {
    &&& shorter.len() <= longer.len()
    &&& forall|i: int| 0 <= i < shorter.len() ==> longer[i] == shorter[i]
}

/// How journal and channels stand after a stretch of evaluation that went
/// through at most `ops` channel operations: the cursor moved forward by no
/// more than that, the journal was extended just where the cursor left it
/// behind, the channels changed only if the journal did, and there are as
/// many channels as before.
pub open spec fn advances(before: EnvironmentView, after: EnvironmentView, ops: nat) -> bool {
    &&& before.cursor <= after.cursor <= before.cursor + ops
    &&& after.cursor <= after.journal.len()
    &&& after.journal.len() == if after.cursor > before.journal.len() {
        after.cursor
    } else {
        before.journal.len()
    }
    &&& extends(after.journal, before.journal)
    &&& after.journal.len() == before.journal.len() ==> after.channels == before.channels
    &&& after.channels.len() == before.channels.len()
}

/// Evaluating a node goes through no more channel operations than its bound.
pub proof fn lemma_eval_advances(node: ByteCode, env: EnvironmentView, depth: nat)
    requires
        env.cursor <= env.journal.len(),
    ensures
        advances(env, eval(node, env, depth).env, ops_bound(node, depth)),
    decreases depth, 0nat, 0nat,
{
    if depth > 0 {
        let below = (depth - 1) as nat;
        match node {
            ByteCode::LoadVal(_) => {},
            ByteCode::ReadVar { .. } => {},
            ByteCode::WriteVar { val, .. } => {
                lemma_eval_advances(*val, env, below);
            },
            ByteCode::ReturnValue { node } => {
                lemma_eval_advances(*node, env, below);
            },
            ByteCode::BinaryExpression { lhs, rhs, .. } => {
                lemma_eval_advances(*lhs, env, below);
                lemma_eval_advances(*rhs, eval(*lhs, env, below).env, below);
            },
            ByteCode::Loop { counter, from, to, increment_by, body } => {
                let f = eval(*from, env, below);
                lemma_eval_advances(*from, env, below);
                let t = eval(*to, f.env, below);
                lemma_eval_advances(*to, f.env, below);
                let s = eval(*increment_by, t.env, below);
                lemma_eval_advances(*increment_by, t.env, below);
                let per_iteration = ops_bound_list(body@, 0, below);
                if f.outcome is Ok && t.outcome is Ok && s.outcome is Ok {
                    let first = f.outcome->Ok_0.value();
                    let bound = t.outcome->Ok_0.value();
                    let step = s.outcome->Ok_0.value();
                    lemma_loop_advances(counter, first as int, bound, step, body@, s.env, below, 0);
                    assert(distance(first as int, bound as int) * per_iteration <= max_iterations()
                        * per_iteration) by (nonlinear_arith)
                        requires
                            distance(first as int, bound as int) <= max_iterations(),
                    ;
                }
            },
            ByteCode::Send { values, .. } => {
                lemma_operands_advances(values@, 0, env, below, Seq::empty());
            },
            ByteCode::Recv { .. } => {},
        }
    }
}

/// The statements of a body go through no more channel operations than
/// their bounds together.
pub proof fn lemma_body_advances(
    body: Seq<ByteCode>,
    at: nat,
    env: EnvironmentView,
    depth: nat,
    last: i32,
)
    requires
        env.cursor <= env.journal.len(),
    ensures
        advances(env, eval_body(body, at, env, depth, last).env, ops_bound_list(body, at, depth)),
    decreases depth, 1nat, body.len() - at,
{
    if at < body.len() {
        let s = eval(body[at as int], env, depth);
        lemma_eval_advances(body[at as int], env, depth);
        match s.outcome {
            Ok(Flow::Value(value)) => {
                lemma_body_advances(body, at + 1, s.env, depth, value);
            },
            _ => {},
        }
    }
}

/// The operands of a send go through no more channel operations than their
/// bounds together.
pub proof fn lemma_operands_advances(
    operands: Seq<ByteCode>,
    at: nat,
    env: EnvironmentView,
    depth: nat,
    done: Seq<i32>,
)
    requires
        env.cursor <= env.journal.len(),
    ensures
        advances(
            env,
            eval_operands(operands, at, env, depth, done).env,
            ops_bound_list(operands, at, depth),
        ),
    decreases depth, 1nat, operands.len() - at,
{
    if at < operands.len() {
        let s = eval(operands[at as int], env, depth);
        lemma_eval_advances(operands[at as int], env, depth);
        match s.outcome {
            Ok(Flow::Value(value)) => {
                lemma_operands_advances(operands, at + 1, s.env, depth, done.push(value));
            },
            _ => {},
        }
    }
}

/// The iterations of a loop go through no more channel operations than the
/// bound of the body for each iteration that is left.
pub proof fn lemma_loop_advances(
    counter: char,
    cursor: int,
    to: i32,
    step: i32,
    body: Seq<ByteCode>,
    env: EnvironmentView,
    depth: nat,
    last: i32,
)
    requires
        env.cursor <= env.journal.len(),
    ensures
        advances(
            env,
            eval_loop(counter, cursor, to, step, body, env, depth, last).env,
            distance(cursor, to as int) * ops_bound_list(body, 0, depth),
        ),
    decreases depth, 2nat, distance(cursor, to as int),
{
    let per_iteration = ops_bound_list(body, 0, depth);
    if cursor < to && step > 0 {
        let bound_env = env.set(counter, cursor as i32);
        let s = eval_body(body, 0, bound_env, depth, cursor as i32);
        lemma_body_advances(body, 0, bound_env, depth, cursor as i32);
        assert(per_iteration + distance(cursor + step, to as int) * per_iteration <= distance(
            cursor,
            to as int,
        ) * per_iteration) by (nonlinear_arith)
            requires
                distance(cursor + step, to as int) + 1 <= distance(cursor, to as int),
        ;
        match s.outcome {
            Ok(Flow::Value(value)) => {
                lemma_loop_advances(counter, cursor + step, to, step, body, s.env, depth, value);
            },
            _ => {},
        }
    } else {
        assert(0 <= distance(cursor, to as int) * per_iteration) by (nonlinear_arith);
    }
}

/// Whether every channel of `env` is closed.
pub open spec fn all_closed(env: EnvironmentView) -> bool {
    forall|i: int| 0 <= i < env.channels.len() ==> (#[trigger] env.channels[i]).closed
}

/// Whether a stretch of evaluation on closed channels ended as it must:
/// not at a channel operation that cannot complete now, and with every
/// channel still closed.
pub open spec fn ends_closed<T>(outcome: Result<T, EvalError>, after: EnvironmentView) -> bool {
    &&& !(outcome matches Err(EvalError::WouldBlock(_)))
    &&& all_closed(after)
}

/// On closed channels no node waits: a receive finds a value or fails, and
/// a send fails.
pub proof fn lemma_eval_closed(node: ByteCode, env: EnvironmentView, depth: nat)
    requires
        all_closed(env),
    ensures
        ends_closed(eval(node, env, depth).outcome, eval(node, env, depth).env),
    decreases depth, 0nat, 0nat,
{
    if depth > 0 {
        let below = (depth - 1) as nat;
        match node {
            ByteCode::LoadVal(_) => {},
            ByteCode::ReadVar { .. } => {},
            ByteCode::WriteVar { val, .. } => {
                lemma_eval_closed(*val, env, below);
            },
            ByteCode::ReturnValue { node } => {
                lemma_eval_closed(*node, env, below);
            },
            ByteCode::BinaryExpression { lhs, rhs, .. } => {
                lemma_eval_closed(*lhs, env, below);
                lemma_eval_closed(*rhs, eval(*lhs, env, below).env, below);
            },
            ByteCode::Loop { counter, from, to, increment_by, body } => {
                let f = eval(*from, env, below);
                lemma_eval_closed(*from, env, below);
                let t = eval(*to, f.env, below);
                lemma_eval_closed(*to, f.env, below);
                let s = eval(*increment_by, t.env, below);
                lemma_eval_closed(*increment_by, t.env, below);
                if f.outcome is Ok && t.outcome is Ok && s.outcome is Ok {
                    lemma_loop_closed(
                        counter,
                        f.outcome->Ok_0.value() as int,
                        t.outcome->Ok_0.value(),
                        s.outcome->Ok_0.value(),
                        body@,
                        s.env,
                        below,
                        0,
                    );
                }
            },
            ByteCode::Send { values, .. } => {
                lemma_operands_closed(values@, 0, env, below, Seq::empty());
            },
            ByteCode::Recv { .. } => {},
        }
    }
}

/// `lemma_eval_closed` for the statements of a body.
pub proof fn lemma_body_closed(body: Seq<ByteCode>, at: nat, env: EnvironmentView, depth: nat, last: i32)
    requires
        all_closed(env),
    ensures
        ends_closed(
            eval_body(body, at, env, depth, last).outcome,
            eval_body(body, at, env, depth, last).env,
        ),
    decreases depth, 1nat, body.len() - at,
{
    if at < body.len() {
        let s = eval(body[at as int], env, depth);
        lemma_eval_closed(body[at as int], env, depth);
        match s.outcome {
            Ok(Flow::Value(value)) => {
                lemma_body_closed(body, at + 1, s.env, depth, value);
            },
            _ => {},
        }
    }
}

/// `lemma_eval_closed` for the operands of a send.
pub proof fn lemma_operands_closed(
    operands: Seq<ByteCode>,
    at: nat,
    env: EnvironmentView,
    depth: nat,
    done: Seq<i32>,
)
    requires
        all_closed(env),
    ensures
        ends_closed(
            eval_operands(operands, at, env, depth, done).outcome,
            eval_operands(operands, at, env, depth, done).env,
        ),
    decreases depth, 1nat, operands.len() - at,
{
    if at < operands.len() {
        let s = eval(operands[at as int], env, depth);
        lemma_eval_closed(operands[at as int], env, depth);
        match s.outcome {
            Ok(Flow::Value(value)) => {
                lemma_operands_closed(operands, at + 1, s.env, depth, done.push(value));
            },
            _ => {},
        }
    }
}

/// `lemma_eval_closed` for the iterations of a loop.
pub proof fn lemma_loop_closed(
    counter: char,
    cursor: int,
    to: i32,
    step: i32,
    body: Seq<ByteCode>,
    env: EnvironmentView,
    depth: nat,
    last: i32,
)
    requires
        all_closed(env),
    ensures
        ends_closed(
            eval_loop(counter, cursor, to, step, body, env, depth, last).outcome,
            eval_loop(counter, cursor, to, step, body, env, depth, last).env,
        ),
    decreases depth, 2nat, distance(cursor, to as int),
{
    if cursor < to && step > 0 {
        let bound_env = env.set(counter, cursor as i32);
        let s = eval_body(body, 0, bound_env, depth, cursor as i32);
        lemma_body_closed(body, 0, bound_env, depth, cursor as i32);
        match s.outcome {
            Ok(Flow::Value(value)) => {
                lemma_loop_closed(counter, cursor + step, to, step, body, s.env, depth, value);
            },
            _ => {},
        }
    }
}

} // verus!
