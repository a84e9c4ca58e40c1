//! Laws of evaluation and of channels, proved from the definitions.

use crate::bytecode::ByteCode;
use crate::channel::ChannelView;
use crate::environment::EnvironmentView;
use crate::error::{ChannelError, EvalError};
use crate::interpreter::DEFAULT_STACK_LIMIT;
use crate::operator::{lemma_quotient_exact, truncated_quotient, Operator};
use crate::semantics::{eval, eval_body, eval_loop, run, yields};
use vstd::prelude::*;

verus! {

/// The tree that divides the literal `a` by the literal `b`.
pub open spec fn division(a: i32, b: i32) -> ByteCode {
    ByteCode::BinaryExpression {
        op: Operator::Divide,
        lhs: Box::new(ByteCode::LoadVal(a)),
        rhs: Box::new(ByteCode::LoadVal(b)),
    }
}

/// Dividing one literal by another yields their quotient rounded toward
/// zero, and fails with `DivisionByZero` where the divisor is zero; the
/// environment stays as it was.  (`i32::MIN / -1` has no 32-bit quotient and
/// is left out: it wraps to `i32::MIN`.)
pub proof fn law_division(a: i32, b: i32, env: EnvironmentView)
    requires
        !(a == i32::MIN && b == -1),
    ensures
        b != 0 ==> run(division(a, b), env, DEFAULT_STACK_LIMIT as nat) == (
            Ok::<i32, EvalError>(truncated_quotient(a as int, b as int) as i32),
            env,
        ),
        b == 0 ==> run(division(a, b), env, DEFAULT_STACK_LIMIT as nat) == (
            Err::<i32, EvalError>(EvalError::DivisionByZero),
            env,
        ),
{
    reveal_with_fuel(eval, 2);
    if b != 0 {
        lemma_quotient_exact(a, b);
    }
}

/// The one division whose quotient does not fit wraps around.
pub proof fn law_division_wraps(env: EnvironmentView)
    ensures
        run(division(i32::MIN, (-1) as i32), env, DEFAULT_STACK_LIMIT as nat) == (
            Ok::<i32, EvalError>(i32::MIN),
            env,
        ),
{
    reveal_with_fuel(eval, 2);
}

/// The tree that assigns the literal `value` to the variable `name`.
pub open spec fn assignment(name: char, value: i32) -> ByteCode {
    ByteCode::WriteVar { lhs: name, val: Box::new(ByteCode::LoadVal(value)) }
}

/// An assignment yields the value assigned, and a read of the variable in
/// the environment it leaves yields that value too.
pub proof fn law_assignment_then_read(name: char, value: i32, env: EnvironmentView)
    ensures
        run(assignment(name, value), env, DEFAULT_STACK_LIMIT as nat) == (
            Ok::<i32, EvalError>(value),
            env.set(name, value),
        ),
        run(ByteCode::ReadVar { var: name }, env.set(name, value), DEFAULT_STACK_LIMIT as nat) == (
            Ok::<i32, EvalError>(value),
            env.set(name, value),
        ),
{
    reveal_with_fuel(eval, 2);
}

/// Reading a variable that nothing was assigned to fails with
/// `UnboundVariable`; so does every read in a fresh environment.
pub proof fn law_unbound_read(name: char, env: EnvironmentView)
    ensures
        !env.variables.contains_key(name) ==> run(
            ByteCode::ReadVar { var: name },
            env,
            DEFAULT_STACK_LIMIT as nat,
        ) == (Err::<i32, EvalError>(EvalError::UnboundVariable(name)), env),
        run(ByteCode::ReadVar { var: name }, EnvironmentView::fresh(), DEFAULT_STACK_LIMIT as nat) == (
            Err::<i32, EvalError>(EvalError::UnboundVariable(name)),
            EnvironmentView::fresh(),
        ),
{
}

/// The loop over the literal bounds `from` and `to` with the literal step
/// `step`.
pub open spec fn literal_loop(counter: char, from: i32, to: i32, step: i32, body: Vec<ByteCode>) -> ByteCode {
    ByteCode::Loop {
        counter,
        from: Box::new(ByteCode::LoadVal(from)),
        to: Box::new(ByteCode::LoadVal(to)),
        increment_by: Box::new(ByteCode::LoadVal(step)),
        body,
    }
}

/// A loop whose upper bound is not above its lower bound runs no iteration:
/// it yields zero and leaves the environment as it was, the counter
/// included.  (The step is positive: any other step fails with
/// `InvalidStep` before the bounds are compared.)
pub proof fn law_empty_loop(
    counter: char,
    from: i32,
    to: i32,
    step: i32,
    body: Vec<ByteCode>,
    env: EnvironmentView,
)
    requires
        to <= from,
        step > 0,
    ensures
        run(literal_loop(counter, from, to, step, body), env, DEFAULT_STACK_LIMIT as nat) == (
            Ok::<i32, EvalError>(0),
            env,
        ),
{
    reveal_with_fuel(eval, 2);
}

/// The last value that a counter takes on its way from `from` up to, and
/// not including, `to`, where `from` is below `to` and `step` is positive.
pub open spec fn last_counter(from: int, to: int, step: int) -> int {
    from + step * ((to - 1 - from) / step)
}

/// Whether `body` is the one statement that copies the variable `counter`
/// to the variable `target`.
pub open spec fn copies(body: Seq<ByteCode>, counter: char, target: char) -> bool {
    body == seq![
        ByteCode::WriteVar { lhs: target, val: Box::new(ByteCode::ReadVar { var: counter }) },
    ]
}

/// Moving the start of a range up by one step leaves its last counter
/// where it was, as long as the new start is inside the range.
proof fn lemma_last_counter_step(from: int, to: int, step: int)
    requires
        from < to,
        step > 0,
    ensures
        from + step >= to ==> last_counter(from, to, step) == from,
        from + step < to ==> last_counter(from, to, step) == last_counter(from + step, to, step),
        from <= last_counter(from, to, step) < to,
{
    let span = to - 1 - from;
    if from + step >= to {
        assert(span / step == 0) by (nonlinear_arith)
            requires
                0 <= span < step,
        ;
        assert(step * (span / step) == 0) by (nonlinear_arith)
            requires
                span / step == 0,
        ;
    } else {
        assert((span - step) / step + 1 == span / step) by (nonlinear_arith)
            requires
                step > 0,
                span >= step,
        ;
        assert(step * (span / step) == step + step * ((span - step) / step)) by (nonlinear_arith)
            requires
                (span - step) / step + 1 == span / step,
        ;
    }
    assert(0 <= step * (span / step) <= span) by (nonlinear_arith)
        requires
            step > 0,
            span >= 0,
    ;
}

/// The iterations of a loop whose body copies the counter: they leave
/// counter and target bound to the last value that the counter took.
proof fn lemma_copying_iterations(
    counter: char,
    target: char,
    cursor: int,
    to: i32,
    step: i32,
    body: Seq<ByteCode>,
    env: EnvironmentView,
    depth: nat,
    last: i32,
)
    requires
        copies(body, counter, target),
        i32::MIN <= cursor < to,
        step > 0,
        depth >= 2,
    ensures
        eval_loop(counter, cursor, to, step, body, env, depth, last) == yields(
            last_counter(cursor, to as int, step as int) as i32,
            env.set(counter, last_counter(cursor, to as int, step as int) as i32).set(
                target,
                last_counter(cursor, to as int, step as int) as i32,
            ),
        ),
    decreases to - cursor,
{
    lemma_last_counter_step(cursor, to as int, step as int);
    let bound = env.set(counter, cursor as i32);
    let copied = bound.set(target, cursor as i32);
    reveal_with_fuel(eval, 2);
    assert(eval(body[0], bound, depth) == yields(cursor as i32, copied));
    reveal_with_fuel(eval_body, 3);
    assert(eval_body(body, 0, bound, depth, cursor as i32) == yields(cursor as i32, copied));
    if cursor + step < to {
        lemma_copying_iterations(
            counter,
            target,
            cursor + step,
            to,
            step,
            body,
            copied,
            depth,
            cursor as i32,
        );
        let end = last_counter(cursor, to as int, step as int) as i32;
        assert(copied.set(counter, end).set(target, end).variables =~= env.set(counter, end).set(
            target,
            end,
        ).variables);
    }
}

/// A loop over a half-open range: where the body copies the counter to
/// another variable, the loop yields the last value that the counter took
/// below the upper bound, and leaves both variables bound to it.
pub proof fn law_loop_keeps_the_last_counter(
    counter: char,
    target: char,
    from: i32,
    to: i32,
    step: i32,
    body: Vec<ByteCode>,
    env: EnvironmentView,
)
    requires
        copies(body@, counter, target),
        from < to,
        step > 0,
    ensures
        run(literal_loop(counter, from, to, step, body), env, DEFAULT_STACK_LIMIT as nat) == (
            Ok::<i32, EvalError>(last_counter(from as int, to as int, step as int) as i32),
            env.set(counter, last_counter(from as int, to as int, step as int) as i32).set(
                target,
                last_counter(from as int, to as int, step as int) as i32,
            ),
        ),
{
    reveal_with_fuel(eval, 2);
    lemma_copying_iterations(
        counter,
        target,
        from as int,
        to,
        step,
        body@,
        env,
        (DEFAULT_STACK_LIMIT - 1) as nat,
        0,
    );
}

/// A loop with a step that is not positive fails with `InvalidStep`,
/// whatever its bounds are, and runs nothing of its body.
pub proof fn law_invalid_step(
    counter: char,
    from: i32,
    to: i32,
    step: i32,
    body: Vec<ByteCode>,
    env: EnvironmentView,
)
    requires
        step <= 0,
    ensures
        run(literal_loop(counter, from, to, step, body), env, DEFAULT_STACK_LIMIT as nat) == (
            Err::<i32, EvalError>(EvalError::InvalidStep),
            env,
        ),
{
    reveal_with_fuel(eval, 2);
}

/// What the receive number `n` (from zero) on `channel` gives, where each
/// receive works on what the one before left.
pub open spec fn nth_recv<T>(channel: ChannelView<T>, n: nat) -> Result<T, ChannelError>
    decreases n,
{
    match channel.recv() {
        Ok((value, next)) => if n == 0 {
            Ok(value)
        } else {
            nth_recv(next, (n - 1) as nat)
        },
        Err(error) => Err(error),
    }
}

/// Receives hand out what a channel holds in the order of its queue.
pub proof fn law_recv_in_queue_order<T>(channel: ChannelView<T>, n: nat)
    requires
        n < channel.queue.len(),
    ensures
        nth_recv(channel, n) == Ok::<T, ChannelError>(channel.queue[n as int]),
    decreases n,
{
    if n > 0 {
        law_recv_in_queue_order(channel.recv()->Ok_0.1, (n - 1) as nat);
    }
}

/// First in, first out: after a send that succeeded, the receives hand out
/// what the channel held before, and then the values sent, each in its
/// order.
pub proof fn law_fifo<T>(channel: ChannelView<T>, values: Seq<T>, n: nat)
    requires
        channel.send(values) is Ok,
        n < channel.queue.len() + values.len(),
    ensures
        nth_recv(channel.send(values)->Ok_0, n) == Ok::<T, ChannelError>(
            if n < channel.queue.len() {
                channel.queue[n as int]
            } else {
                values[n - channel.queue.len()]
            },
        ),
{
    law_recv_in_queue_order(channel.send(values)->Ok_0, n);
}

/// A receive on a closed channel that holds nothing fails with `Closed`, and
/// keeps failing: it never waits.
pub proof fn law_recv_closed_empty<T>(channel: ChannelView<T>, n: nat)
    requires
        channel.closed,
        channel.queue.len() == 0,
    ensures
        nth_recv(channel, n) == Err::<T, ChannelError>(ChannelError::Closed),
{
}

/// A `Recv` node on a closed channel that holds nothing fails with
/// `ChannelClosed` and changes nothing.
pub proof fn law_recv_node_closed_empty(reference: usize, env: EnvironmentView)
    requires
        !env.replaying(),
        reference < env.channels.len(),
        env.channels[reference as int].closed,
        env.channels[reference as int].queue.len() == 0,
    ensures
        run(ByteCode::Recv { channel: reference }, env, DEFAULT_STACK_LIMIT as nat) == (
            Err::<i32, EvalError>(EvalError::ChannelClosed),
            env,
        ),
{
}

} // verus!
