//! Laws of tasks and of their scheduling, proved from the definitions.

use crate::bytecode::ByteCode;
use crate::channel::{close_all, ChannelView};
use crate::environment::EnvironmentView;
use crate::error::{ChannelError, EvalError};
use crate::interpreter::DEFAULT_STACK_LIMIT;
use crate::operator::{wrap_i32, Operator};
use crate::progress::{lemma_eval_advances, lemma_eval_closed};
use crate::replay::{came_through, lemma_eval_again, lemma_eval_retraced, over};
use crate::semantics::{eval, eval_operands, fails, yields, Operands};
use crate::spawner::{
    after_turns, lemma_turn, progressed, run_pair, slack, unfinished, wound_up,
};
use crate::task::TaskView;
use vstd::prelude::*;

verus! {

/// When two tasks have run to their results, the channels are as many as
/// before, and each of them is closed.
pub proof fn law_channels_end_closed(
    a: TaskView,
    b: TaskView,
    channels: Seq<ChannelView<i32>>,
    limit: nat,
)
    ensures
        run_pair(a, b, channels, limit).2.len() == channels.len(),
        forall|i: int| 0 <= i < channels.len() ==> (#[trigger] run_pair(a, b, channels, limit).2[i]).closed,
    decreases slack(a, limit) + slack(b, limit), unfinished(a, b),
{
    if !(a.finished() && b.finished()) {
        let (a1, c1) = a.resume(channels, limit);
        let (b1, c2) = b.resume(c1, limit);
        lemma_turn(a, channels, limit);
        lemma_turn(b, c1, limit);
        if progressed(a, a1) || progressed(b, b1) {
            law_channels_end_closed(a1, b1, c2, limit);
        }
    }
}

/// A round of turns that brings neither task forward leaves both tasks and
/// the channels as they were: every later round would go the same way, so
/// the tasks wait for what can never come.
pub proof fn law_idle_round(a: TaskView, b: TaskView, channels: Seq<ChannelView<i32>>, limit: nat)
    requires
        !progressed(a, a.resume(channels, limit).0),
        !progressed(b, b.resume(a.resume(channels, limit).1, limit).0),
    ensures
        a.resume(channels, limit) == (a, channels),
        b.resume(channels, limit) == (b, channels),
{
    lemma_turn(a, channels, limit);
    lemma_turn(b, channels, limit);
}

/// A task that came to its result without failing at a channel comes to it
/// again from its journal alone: taken up from its start on any channels,
/// it ends the same way and leaves those channels as they are.
pub proof fn law_journal_retraces(
    task: TaskView,
    channels: Seq<ChannelView<i32>>,
    others: Seq<ChannelView<i32>>,
    limit: nat,
)
    requires
        !task.finished(),
        task.resume(channels, limit).0.outcome matches Some(result) && came_through(result),
    ensures
        ({
            let done = task.resume(channels, limit).0;
            (TaskView { outcome: None, ..done }).resume(others, limit) == (done, others)
        }),
{
    let start = EnvironmentView::resuming(task.journal, channels);
    let done = task.resume(channels, limit).0;
    lemma_eval_advances(task.program, start, limit);
    lemma_eval_retraced(task.program, start, limit, done.journal, others);
    assert(over(start, done.journal, others) == EnvironmentView::resuming(done.journal, others));
}

/// Once its channels are closed, a task comes to its result at its next
/// turn: nothing is left to wait for.
pub proof fn law_closed_channels_end_the_task(
    task: TaskView,
    channels: Seq<ChannelView<i32>>,
    limit: nat,
)
    requires
        forall|i: int| 0 <= i < channels.len() ==> (#[trigger] channels[i]).closed,
    ensures
        task.resume(channels, limit).0.finished(),
{
    lemma_eval_closed(task.program, EnvironmentView::resuming(task.journal, channels), limit);
}

/// To abandon a waiting task is to close its channels under it: taken up
/// once more on the channels it left, each of them closed, the task fails
/// with `ChannelClosed` at the operation it waited at, and changes nothing.
pub proof fn law_abandon_is_closing(task: TaskView, channels: Seq<ChannelView<i32>>, limit: nat)
    requires
        !task.finished(),
        !task.resume(channels, limit).0.finished(),
    ensures
        ({
            let (waiting, left) = task.resume(channels, limit);
            waiting.resume(close_all(left), limit) == (waiting.abandon(), close_all(left))
        }),
{
    let start = EnvironmentView::resuming(task.journal, channels);
    let (waiting, left) = task.resume(channels, limit);
    lemma_eval_again(task.program, start, limit, true);
    assert(over(start, waiting.journal, close_all(left)) == EnvironmentView::resuming(
        waiting.journal,
        close_all(left),
    ));
}

/// A task that waits keeps waiting while the channels stay as they are:
/// taken up once more on the channels it left, it comes to the operation it
/// waited at, and changes nothing.
pub proof fn law_waiting_is_stable(task: TaskView, channels: Seq<ChannelView<i32>>, limit: nat)
    requires
        !task.finished(),
        !task.resume(channels, limit).0.finished(),
    ensures
        ({
            let (waiting, left) = task.resume(channels, limit);
            waiting.resume(left, limit) == (waiting, left)
        }),
{
    let start = EnvironmentView::resuming(task.journal, channels);
    let (waiting, left) = task.resume(channels, limit);
    lemma_eval_again(task.program, start, limit, false);
    assert(over(start, waiting.journal, left) == EnvironmentView::resuming(waiting.journal, left));
}

/// The program that sends the values of `values` on channel 0.
pub open spec fn send_on_first(values: Vec<ByteCode>) -> ByteCode {
    ByteCode::Send { channel: 0, values }
}

/// What a turn makes of a fresh task that sends the literal `value` on an
/// open channel with room: the task ends with `value`, which is then the
/// newest value of the channel.
proof fn lemma_sender_turn(value: i32, values: Vec<ByteCode>, channel: ChannelView<i32>)
    requires
        values@ == seq![ByteCode::LoadVal(value)],
        !channel.closed,
        channel.has_room(1),
    ensures
        TaskView::fresh(send_on_first(values)).resume(seq![channel], DEFAULT_STACK_LIMIT as nat) == (
            TaskView {
                program: send_on_first(values),
                journal: seq![value],
                outcome: Some(Ok(value)),
            },
            seq![ChannelView { queue: channel.queue.push(value), ..channel }],
        ),
{
    let limit = DEFAULT_STACK_LIMIT as nat;
    let below = (limit - 1) as nat;
    let start = EnvironmentView::resuming(Seq::empty(), seq![channel]);
    let first = eval(values@[0], start, below);
    assert(first == yields(value, start));
    assert(Seq::<i32>::empty().push(value) =~= seq![value]);
    assert(eval_operands(values@, 1, start, below, seq![value]) == (Operands {
        outcome: Ok(Ok(seq![value])),
        env: start,
    }));
    assert(eval_operands(values@, 0, start, below, Seq::empty()) == (Operands {
        outcome: Ok(Ok(seq![value])),
        env: start,
    }));
    let sent = channel.send(seq![value]);
    assert(channel.queue + seq![value] =~= channel.queue.push(value));
    assert(sent == Ok::<ChannelView<i32>, ChannelError>(
        ChannelView { queue: channel.queue.push(value), ..channel },
    ));
    let after = start.send(0, seq![value]);
    assert(after.1.channels =~= seq![ChannelView { queue: channel.queue.push(value), ..channel }]);
    assert(after.1.journal =~= seq![value]);
}

/// What a turn makes of a fresh task that receives from a channel that
/// holds something: the task ends with the oldest value of the channel.
proof fn lemma_receiver_turn(channel: ChannelView<i32>)
    requires
        channel.queue.len() > 0,
    ensures
        TaskView::fresh(ByteCode::Recv { channel: 0 }).resume(
            seq![channel],
            DEFAULT_STACK_LIMIT as nat,
        ) == (
            TaskView {
                program: ByteCode::Recv { channel: 0 },
                journal: seq![channel.queue[0]],
                outcome: Some(Ok(channel.queue[0])),
            },
            seq![ChannelView { queue: channel.queue.drop_first(), ..channel }],
        ),
{
    let start = EnvironmentView::resuming(Seq::empty(), seq![channel]);
    let after = start.recv(0);
    assert(after.1.channels =~= seq![ChannelView { queue: channel.queue.drop_first(), ..channel }]);
    assert(after.1.journal =~= seq![channel.queue[0]]);
}

/// A value handed from one task to the other: where the first program
/// sends the literal `value` on a fresh channel and the second receives
/// from it, both tasks end, and each with `value`; the channel is left
/// closed and empty.
pub proof fn law_hand_over(value: i32, values: Vec<ByteCode>, capacity: Option<usize>)
    requires
        values@ == seq![ByteCode::LoadVal(value)],
        capacity != Some(0usize),
    ensures
        ({
            let (sender, receiver, channels) = run_pair(
                TaskView::fresh(send_on_first(values)),
                TaskView::fresh(ByteCode::Recv { channel: 0 }),
                seq![ChannelView::<i32>::fresh(capacity)],
                DEFAULT_STACK_LIMIT as nat,
            );
            &&& sender.outcome == Some(Ok::<i32, EvalError>(value))
            &&& receiver.outcome == Some(Ok::<i32, EvalError>(value))
            &&& channels == seq![ChannelView::<i32>::fresh(capacity).close()]
        }),
{
    let limit = DEFAULT_STACK_LIMIT as nat;
    let fresh = ChannelView::<i32>::fresh(capacity);
    let a = TaskView::fresh(send_on_first(values));
    let b = TaskView::fresh(ByteCode::Recv { channel: 0 });
    lemma_sender_turn(value, values, fresh);
    let (a1, c1) = a.resume(seq![fresh], limit);
    lemma_receiver_turn(c1[0]);
    assert(c1 =~= seq![c1[0]]);
    let (b1, c2) = b.resume(c1, limit);
    assert(progressed(a, a1));
    assert(run_pair(a, b, seq![fresh], limit) == run_pair(a1, b1, c2, limit));
    assert(fresh.queue.push(value).drop_first() =~= fresh.queue);
    assert(close_all(c2) =~= seq![fresh.close()]);
}

/// The same with the receiver first: it waits through its first turn, and
/// is taken up again when the sender has had its turn.
pub proof fn law_hand_over_receiver_first(value: i32, values: Vec<ByteCode>, capacity: Option<usize>)
    requires
        values@ == seq![ByteCode::LoadVal(value)],
        capacity != Some(0usize),
    ensures
        ({
            let (receiver, sender, channels) = run_pair(
                TaskView::fresh(ByteCode::Recv { channel: 0 }),
                TaskView::fresh(send_on_first(values)),
                seq![ChannelView::<i32>::fresh(capacity)],
                DEFAULT_STACK_LIMIT as nat,
            );
            &&& sender.outcome == Some(Ok::<i32, EvalError>(value))
            &&& receiver.outcome == Some(Ok::<i32, EvalError>(value))
            &&& channels == seq![ChannelView::<i32>::fresh(capacity).close()]
        }),
{
    let limit = DEFAULT_STACK_LIMIT as nat;
    let fresh = ChannelView::<i32>::fresh(capacity);
    let a = TaskView::fresh(ByteCode::Recv { channel: 0 });
    let b = TaskView::fresh(send_on_first(values));
    // First round: the receiver waits, the sender sends.
    let (a1, c1) = a.resume(seq![fresh], limit);
    assert(a1 == a && c1 == seq![fresh]);
    lemma_sender_turn(value, values, fresh);
    let (b1, c2) = b.resume(c1, limit);
    assert(progressed(b, b1));
    assert(run_pair(a, b, seq![fresh], limit) == run_pair(a1, b1, c2, limit));
    // Second round: the receiver is taken up and finds the value.
    lemma_receiver_turn(c2[0]);
    assert(c2 =~= seq![c2[0]]);
    let (a2, c3) = a1.resume(c2, limit);
    let (b2, c4) = b1.resume(c3, limit);
    assert(progressed(a1, a2));
    assert(run_pair(a1, b1, c2, limit) == run_pair(a2, b2, c4, limit));
    assert(fresh.queue.push(value).drop_first() =~= fresh.queue);
    assert(close_all(c4) =~= seq![fresh.close()]);
}

/// The turns that `run_pair` gives are one schedule among all: there is a
/// schedule after whose turns, wound up, the tasks and channels stand as
/// `run_pair` leaves them.
pub proof fn law_run_pair_follows_a_schedule(
    a: TaskView,
    b: TaskView,
    channels: Seq<ChannelView<i32>>,
    limit: nat,
) -> (schedule: Seq<bool>)
    ensures
        run_pair(a, b, channels, limit) == wound_up(after_turns(a, b, channels, limit, schedule)),
    decreases slack(a, limit) + slack(b, limit), unfinished(a, b),
{
    if a.finished() && b.finished() {
        Seq::empty()
    } else {
        let (a1, c1) = a.resume(channels, limit);
        let (b1, c2) = b.resume(c1, limit);
        lemma_turn(a, channels, limit);
        lemma_turn(b, c1, limit);
        let round = seq![true, false];
        let rest = if progressed(a, a1) || progressed(b, b1) {
            law_run_pair_follows_a_schedule(a1, b1, c2, limit)
        } else {
            Seq::empty()
        };
        let schedule = round + rest;
        assert(schedule[0] && schedule.drop_first()[0] == false);
        assert(schedule.drop_first().drop_first() =~= rest);
        assert(after_turns(a, b, channels, limit, schedule) == after_turns(
            a1,
            b,
            c1,
            limit,
            schedule.drop_first(),
        ));
        assert(after_turns(a1, b, c1, limit, schedule.drop_first()) == after_turns(
            a1,
            b1,
            c2,
            limit,
            rest,
        ));
        schedule
    }
}

/// The program that receives three values from channel 0 and adds them up.
pub open spec fn three_receives() -> ByteCode {
    ByteCode::BinaryExpression {
        op: Operator::Add,
        lhs: Box::new(ByteCode::Recv { channel: 0 }),
        rhs: Box::new(
            ByteCode::BinaryExpression {
                op: Operator::Add,
                lhs: Box::new(ByteCode::Recv { channel: 0 }),
                rhs: Box::new(ByteCode::Recv { channel: 0 }),
            },
        ),
    }
}

/// The sender of `law_three_in_order` when it has sent.
pub open spec fn sender_done(values: Vec<ByteCode>, last: i32) -> TaskView {
    TaskView { program: send_on_first(values), journal: seq![last], outcome: Some(Ok(last)) }
}

/// The receiver of `law_three_in_order` when it has received.
pub open spec fn receiver_done(x: i32, y: i32, z: i32) -> TaskView {
    TaskView {
        program: three_receives(),
        journal: seq![x, y, z],
        outcome: Some(Ok(wrap_i32(x + wrap_i32(y + z)))),
    }
}

/// The turn of a fresh task that sends three literals on an open, empty
/// and unbounded channel.
proof fn lemma_three_sent(x: i32, y: i32, z: i32, values: Vec<ByteCode>)
    requires
        values@ == seq![ByteCode::LoadVal(x), ByteCode::LoadVal(y), ByteCode::LoadVal(z)],
    ensures
        TaskView::fresh(send_on_first(values)).resume(
            seq![ChannelView::<i32>::fresh(None)],
            DEFAULT_STACK_LIMIT as nat,
        ) == (
            sender_done(values, z),
            seq![ChannelView { queue: seq![x, y, z], closed: false, capacity: None }],
        ),
{
    let limit = DEFAULT_STACK_LIMIT as nat;
    let below = (limit - 1) as nat;
    let channel = ChannelView::<i32>::fresh(None);
    let start = EnvironmentView::resuming(Seq::empty(), seq![channel]);
    assert(eval(values@[0], start, below) == yields(x, start));
    assert(eval(values@[1], start, below) == yields(y, start));
    assert(eval(values@[2], start, below) == yields(z, start));
    assert(Seq::<i32>::empty().push(x) =~= seq![x]);
    assert(seq![x].push(y) =~= seq![x, y]);
    assert(seq![x, y].push(z) =~= seq![x, y, z]);
    let all = Operands { outcome: Ok(Ok(seq![x, y, z])), env: start };
    assert(eval_operands(values@, 3, start, below, seq![x, y, z]) == all);
    assert(eval_operands(values@, 2, start, below, seq![x, y]) == all);
    assert(eval_operands(values@, 1, start, below, seq![x]) == all);
    assert(eval_operands(values@, 0, start, below, Seq::empty()) == all);
    assert(channel.queue + seq![x, y, z] =~= seq![x, y, z]);
    let after = start.send(0, seq![x, y, z]);
    assert(after.1.channels =~= seq![
        ChannelView { queue: seq![x, y, z], closed: false, capacity: None },
    ]);
    assert(after.1.journal =~= seq![z]);
}

/// The turn of a fresh task that receives three values from a channel that
/// holds just three.
proof fn lemma_three_received(x: i32, y: i32, z: i32)
    ensures
        TaskView::fresh(three_receives()).resume(
            seq![ChannelView { queue: seq![x, y, z], closed: false, capacity: None }],
            DEFAULT_STACK_LIMIT as nat,
        ) == (receiver_done(x, y, z), seq![ChannelView::<i32>::fresh(None)]),
{
    let limit = DEFAULT_STACK_LIMIT as nat;
    let full = ChannelView::<i32> { queue: seq![x, y, z], closed: false, capacity: None };
    let two = ChannelView::<i32> { queue: seq![y, z], closed: false, capacity: None };
    let one = ChannelView::<i32> { queue: seq![z], closed: false, capacity: None };
    let none = ChannelView::<i32>::fresh(None);
    assert(seq![x, y, z].drop_first() =~= seq![y, z]);
    assert(seq![y, z].drop_first() =~= seq![z]);
    assert(seq![z].drop_first() =~= Seq::<i32>::empty());
    let e0 = EnvironmentView::resuming(Seq::empty(), seq![full]);
    let e1 = EnvironmentView { channels: seq![two], journal: seq![x], cursor: 1, ..e0 };
    let e2 = EnvironmentView { channels: seq![one], journal: seq![x, y], cursor: 2, ..e0 };
    let e3 = EnvironmentView { channels: seq![none], journal: seq![x, y, z], cursor: 3, ..e0 };
    assert(e0.recv(0) == (Ok::<i32, EvalError>(x), e1)) by {
        assert(e0.recv(0).1.channels =~= e1.channels);
        assert(e0.recv(0).1.journal =~= e1.journal);
    }
    assert(e1.recv(0) == (Ok::<i32, EvalError>(y), e2)) by {
        assert(e1.recv(0).1.channels =~= e2.channels);
        assert(e1.recv(0).1.journal =~= e2.journal);
    }
    assert(e2.recv(0) == (Ok::<i32, EvalError>(z), e3)) by {
        assert(e2.recv(0).1.channels =~= e3.channels);
        assert(e2.recv(0).1.journal =~= e3.journal);
    }
    let recv = ByteCode::Recv { channel: 0 };
    assert(eval(recv, e0, (limit - 1) as nat) == yields(x, e1));
    assert(eval(recv, e1, (limit - 2) as nat) == yields(y, e2));
    assert(eval(recv, e2, (limit - 2) as nat) == yields(z, e3));
    let inner = ByteCode::BinaryExpression {
        op: Operator::Add,
        lhs: Box::new(recv),
        rhs: Box::new(recv),
    };
    assert(eval(inner, e1, (limit - 1) as nat) == yields(wrap_i32(y + z), e3));
    assert(eval(three_receives(), e0, limit) == yields(wrap_i32(x + wrap_i32(y + z)), e3));
}

/// The turn of a fresh task that is to receive from a fresh channel: it
/// finds nothing and waits, and nothing has changed.
proof fn lemma_three_awaited()
    ensures
        TaskView::fresh(three_receives()).resume(
            seq![ChannelView::<i32>::fresh(None)],
            DEFAULT_STACK_LIMIT as nat,
        ) == (TaskView::fresh(three_receives()), seq![ChannelView::<i32>::fresh(None)]),
{
    let limit = DEFAULT_STACK_LIMIT as nat;
    let start = EnvironmentView::resuming(Seq::empty(), seq![ChannelView::<i32>::fresh(None)]);
    assert(eval(ByteCode::Recv { channel: 0 }, start, (limit - 1) as nat) == fails(
        EvalError::WouldBlock(0),
        start,
    ));
    assert(eval(three_receives(), start, limit) == fails(EvalError::WouldBlock(0), start));
}

/// Three values in order, whatever the schedule: where one task sends the
/// literals `x`, `y`, `z` on a fresh unbounded channel and the other
/// receives three times from it, then after any turns whatsoever the
/// receiver has received nothing, or `x`, `y`, `z` in that order and has its
/// result; and it has received them whenever it had a turn after the
/// sender's.
pub proof fn law_three_in_order(x: i32, y: i32, z: i32, values: Vec<ByteCode>, schedule: Seq<bool>)
    requires
        values@ == seq![ByteCode::LoadVal(x), ByteCode::LoadVal(y), ByteCode::LoadVal(z)],
    ensures
        ({
            let (sender, receiver, channels) = after_turns(
                TaskView::fresh(send_on_first(values)),
                TaskView::fresh(three_receives()),
                seq![ChannelView::<i32>::fresh(None)],
                DEFAULT_STACK_LIMIT as nat,
                schedule,
            );
            ||| receiver == TaskView::fresh(three_receives())
            ||| receiver == receiver_done(x, y, z) && sender == sender_done(values, z)
        }),
        (exists|i: int, j: int| 0 <= i < j < schedule.len() && schedule[i] && !schedule[j]) ==> after_turns(
            TaskView::fresh(send_on_first(values)),
            TaskView::fresh(three_receives()),
            seq![ChannelView::<i32>::fresh(None)],
            DEFAULT_STACK_LIMIT as nat,
            schedule,
        ).1 == receiver_done(x, y, z),
    decreases schedule.len(),
{
    if schedule.len() > 0 {
        let rest = schedule.drop_first();
        if schedule[0] {
            lemma_three_sent(x, y, z, values);
            lemma_three_after_sending(x, y, z, values, rest);
            if exists|i: int, j: int| 0 <= i < j < schedule.len() && schedule[i] && !schedule[j] {
                let (i, j) = choose|i: int, j: int|
                    0 <= i < j < schedule.len() && schedule[i] && !schedule[j];
                assert(!rest[j - 1]);
            }
        } else {
            lemma_three_awaited();
            law_three_in_order(x, y, z, values, rest);
            if exists|i: int, j: int| 0 <= i < j < schedule.len() && schedule[i] && !schedule[j] {
                let (i, j) = choose|i: int, j: int|
                    0 <= i < j < schedule.len() && schedule[i] && !schedule[j];
                assert(rest[i - 1] && !rest[j - 1]);
            }
        }
    }
}

/// `law_three_in_order`, from the state in which the values were sent and
/// none was received.
proof fn lemma_three_after_sending(x: i32, y: i32, z: i32, values: Vec<ByteCode>, schedule: Seq<bool>)
    requires
        values@ == seq![ByteCode::LoadVal(x), ByteCode::LoadVal(y), ByteCode::LoadVal(z)],
    ensures
        ({
            let (sender, receiver, channels) = after_turns(
                sender_done(values, z),
                TaskView::fresh(three_receives()),
                seq![ChannelView { queue: seq![x, y, z], closed: false, capacity: None }],
                DEFAULT_STACK_LIMIT as nat,
                schedule,
            );
            &&& sender == sender_done(values, z)
            &&& receiver == TaskView::fresh(three_receives()) || receiver == receiver_done(x, y, z)
            &&& (exists|j: int| 0 <= j < schedule.len() && !schedule[j]) ==> receiver == receiver_done(
                x,
                y,
                z,
            )
        }),
    decreases schedule.len(),
{
    if schedule.len() > 0 {
        let rest = schedule.drop_first();
        if schedule[0] {
            lemma_three_after_sending(x, y, z, values, rest);
            if exists|j: int| 0 <= j < schedule.len() && !schedule[j] {
                let j = choose|j: int| 0 <= j < schedule.len() && !schedule[j];
                assert(!rest[j - 1]);
            }
        } else {
            lemma_three_received(x, y, z);
            lemma_three_all_done(x, y, z, values, rest);
        }
    }
}

/// `law_three_in_order`, from the state in which both tasks have ended.
proof fn lemma_three_all_done(x: i32, y: i32, z: i32, values: Vec<ByteCode>, schedule: Seq<bool>)
    ensures
        after_turns(
            sender_done(values, z),
            receiver_done(x, y, z),
            seq![ChannelView::<i32>::fresh(None)],
            DEFAULT_STACK_LIMIT as nat,
            schedule,
        ) == (
            sender_done(values, z),
            receiver_done(x, y, z),
            seq![ChannelView::<i32>::fresh(None)],
        ),
    decreases schedule.len(),
{
    if schedule.len() > 0 {
        lemma_three_all_done(x, y, z, values, schedule.drop_first());
    }
}

} // verus!
