//! The task spawner: two programs run as tasks that share channels.
//!
//! The tasks take turns.  Each runs until it ends or meets a channel
//! operation that cannot complete, and is taken up again after its sibling
//! had its turn.  Where a whole round brings neither task forward, no
//! operation that they wait for can ever complete: the spawner closes the
//! channels, and what still waited fails with `ChannelClosed`.

use crate::bytecode::ByteCode;
use crate::channel::{channel_views, close_all, close_channels, ChannelView, MpscChannels};
use crate::environment::EnvironmentView;
use crate::error::ChannelError;
use crate::interpreter::{ByteCodeInterpreter, DEFAULT_STACK_LIMIT};
use crate::progress::{extends, lemma_eval_advances, ops_bound};
use crate::task::{Task, TaskHandle, TaskView};
use vstd::prelude::*;

verus! {

/// Whether a turn brought a task forward: it completed a channel operation
/// or came to its result.
pub open spec fn progressed(before: TaskView, after: TaskView) -> bool {
    after.journal.len() > before.journal.len() || (after.finished() && !before.finished())
}

/// How many channel operations a task can still complete, at most.
pub open spec fn slack(task: TaskView, limit: nat) -> nat {
    let bound = ops_bound(task.program, limit);
    if task.journal.len() < bound {
        (bound - task.journal.len()) as nat
    } else {
        0
    }
}

/// How many of two tasks have no result yet.
pub open spec fn unfinished(a: TaskView, b: TaskView) -> nat {
    (if a.finished() { 0nat } else { 1nat }) + (if b.finished() { 0nat } else { 1nat })
}

/// The two tasks and the channels once both tasks have their result: the
/// tasks take turns, `a` first, until both have ended or a round brought
/// neither forward; then the channels are closed, and a task that still
/// waited fails with `ChannelClosed`.
pub open spec fn run_pair(a: TaskView, b: TaskView, channels: Seq<ChannelView<i32>>, limit: nat) -> (
    TaskView,
    TaskView,
    Seq<ChannelView<i32>>,
)
    decreases slack(a, limit) + slack(b, limit), unfinished(a, b),
    via run_pair_terminates
{
    if a.finished() && b.finished() {
        (a, b, close_all(channels))
    } else {
        let (a1, c1) = a.resume(channels, limit);
        let (b1, c2) = b.resume(c1, limit);
        if progressed(a, a1) || progressed(b, b1) {
            run_pair(a1, b1, c2, limit)
        } else {
            (a1.abandon(), b1.abandon(), close_all(c2))
        }
    }
}

/// The two tasks and the channels after one turn: of the first task where
/// `first` holds, else of the second.
pub open spec fn after_turn(
    a: TaskView,
    b: TaskView,
    channels: Seq<ChannelView<i32>>,
    limit: nat,
    first: bool,
) -> (TaskView, TaskView, Seq<ChannelView<i32>>) {
    if first {
        let (a1, c1) = a.resume(channels, limit);
        (a1, b, c1)
    } else {
        let (b1, c1) = b.resume(channels, limit);
        (a, b1, c1)
    }
}

/// The two tasks and the channels after the turns of `schedule`, which
/// names for each turn whether the first task takes it.
pub open spec fn after_turns(
    a: TaskView,
    b: TaskView,
    channels: Seq<ChannelView<i32>>,
    limit: nat,
    schedule: Seq<bool>,
) -> (TaskView, TaskView, Seq<ChannelView<i32>>)
    decreases schedule.len(),
{
    if schedule.len() == 0 {
        (a, b, channels)
    } else {
        let (a1, b1, c1) = after_turn(a, b, channels, limit, schedule[0]);
        after_turns(a1, b1, c1, limit, schedule.drop_first())
    }
}

/// What the spawner makes of two tasks when it ends their run: what still
/// waits is abandoned, and the channels are closed.
pub open spec fn wound_up(state: (TaskView, TaskView, Seq<ChannelView<i32>>)) -> (
    TaskView,
    TaskView,
    Seq<ChannelView<i32>>,
) {
    (state.0.abandon(), state.1.abandon(), close_all(state.2))
}

/// A turn never takes a task back: its program and what it has journaled
/// stay, a result stays, and what the task can still complete shrinks with
/// every operation that it completes.  A turn that does not bring the task
/// forward changes neither the task nor the channels.
pub proof fn lemma_turn(task: TaskView, channels: Seq<ChannelView<i32>>, limit: nat)
    ensures
        ({
            let (after, left) = task.resume(channels, limit);
            &&& after.program == task.program
            &&& extends(after.journal, task.journal)
            &&& task.finished() ==> after.finished()
            &&& slack(after, limit) <= slack(task, limit)
            &&& after.journal.len() > task.journal.len() ==> slack(after, limit) < slack(task, limit)
            &&& !progressed(task, after) ==> after == task && left == channels
            &&& left.len() == channels.len()
        }),
{
    if !task.finished() {
        lemma_eval_advances(
            task.program,
            EnvironmentView::resuming(task.journal, channels),
            limit,
        );
        let after = task.resume(channels, limit).0;
        if !progressed(task, after) {
            assert(after.journal =~= task.journal);
        }
    }
}

#[via_fn]
proof fn run_pair_terminates(a: TaskView, b: TaskView, channels: Seq<ChannelView<i32>>, limit: nat) {
    if !(a.finished() && b.finished()) {
        lemma_turn(a, channels, limit);
        lemma_turn(b, a.resume(channels, limit).1, limit);
    }
}

/// Both tasks have their result when `run_pair` is through.
pub proof fn lemma_run_pair_finishes(
    a: TaskView,
    b: TaskView,
    channels: Seq<ChannelView<i32>>,
    limit: nat,
)
    ensures
        run_pair(a, b, channels, limit).0.finished(),
        run_pair(a, b, channels, limit).1.finished(),
    decreases slack(a, limit) + slack(b, limit), unfinished(a, b),
{
    if !(a.finished() && b.finished()) {
        let (a1, c1) = a.resume(channels, limit);
        let (b1, c2) = b.resume(c1, limit);
        lemma_turn(a, channels, limit);
        lemma_turn(b, c1, limit);
        if progressed(a, a1) || progressed(b, b1) {
            lemma_run_pair_finishes(a1, b1, c2, limit);
        }
    }
}

/// Runs two tasks to their results on the channels they share.
pub fn run_tasks(
    interpreter: &ByteCodeInterpreter,
    a: &mut Task,
    b: &mut Task,
    channels: &mut Vec<MpscChannels<i32>>,
)
    ensures
        (final(a)@, final(b)@, channel_views(final(channels)@)) == run_pair(
            old(a)@,
            old(b)@,
            channel_views(old(channels)@),
            interpreter.limit(),
        ),
{
    let ghost limit = interpreter.limit();
    let ghost whole = run_pair(old(a)@, old(b)@, channel_views(old(channels)@), limit);
    loop
        invariant_except_break
            limit == interpreter.limit(),
            run_pair(a@, b@, channel_views(channels@), limit) == whole,
        ensures
            (a@, b@, close_all(channel_views(channels@))) == whole,
        decreases slack(a@, limit) + slack(b@, limit), unfinished(a@, b@),
    {
        let was_finished_a = a.is_finished();
        let was_finished_b = b.is_finished();
        if was_finished_a && was_finished_b {
            break;
        }
        let completed_a = a.completed();
        let completed_b = b.completed();
        proof {
            lemma_turn(a@, channel_views(channels@), limit);
        }
        let finished_a = a.resume(interpreter, channels);
        proof {
            lemma_turn(b@, channel_views(channels@), limit);
        }
        let finished_b = b.resume(interpreter, channels);
        let forward = a.completed() > completed_a || (finished_a && !was_finished_a) || b.completed()
            > completed_b || (finished_b && !was_finished_b);
        if !forward {
            a.abandon();
            b.abandon();
            break;
        }
    }
    close_channels(channels);
}

/// Runs `program_a` and `program_b` as two tasks that share `channels`, with
/// an evaluator of the default stack limit each, and returns the handles to
/// their results.  The channels are closed when both tasks have ended; what
/// was sent and not received stays in them.
pub fn spawn(program_a: ByteCode, program_b: ByteCode, channels: &mut Vec<MpscChannels<i32>>) -> (handles:
    (TaskHandle, TaskHandle))
    ensures
        ({
            let (a, b, closed) = run_pair(
                TaskView::fresh(program_a),
                TaskView::fresh(program_b),
                channel_views(old(channels)@),
                DEFAULT_STACK_LIMIT as nat,
            );
            &&& a.outcome == Some(handles.0@)
            &&& b.outcome == Some(handles.1@)
            &&& channel_views(final(channels)@) == closed
        }),
{
    let interpreter = ByteCodeInterpreter::new();
    <ByteCodeInterpreter as Channels<i32>>::spawn(
        &interpreter,
        Box::new(program_a),
        Box::new(program_b),
        channels,
    )
}

/// The channel primitives of an evaluator: sending on a channel, receiving
/// from one, and running two programs as tasks that share channels.
pub trait Channels<T> {
    /// What the channels of `send_channel` and `recv_channel` carry.
    type Item;

    /// Enqueues the values of `stack`, in their order, on `channel`: all of
    /// them or, where the channel is closed or has no room, none.
    fn send_channel(&self, channel: &mut MpscChannels<Self::Item>, stack: Vec<Self::Item>) -> (result:
        Result<(), ChannelError>)
        ensures
            match old(channel)@.send(stack@) {
                Ok(next) => result is Ok && final(channel)@ == next,
                Err(e) => result == Err::<(), ChannelError>(e) && final(channel)@ == old(channel)@,
            },
    ;

    /// Dequeues the oldest value of `channel`; fails with `Empty` or, on a
    /// closed channel, with `Closed` where it holds nothing.
    fn recv_channel(&self, channel: &mut MpscChannels<Self::Item>) -> (result: Result<
        Self::Item,
        ChannelError,
    >)
        ensures
            match old(channel)@.recv() {
                Ok((value, next)) => {
                    &&& result == Ok::<Self::Item, ChannelError>(value)
                    &&& final(channel)@ == next
                },
                Err(e) => {
                    &&& result == Err::<Self::Item, ChannelError>(e)
                    &&& final(channel)@ == old(channel)@
                },
            },
    ;

    /// The nesting of nodes that the tasks of `spawn` are allowed.
    spec fn task_limit(&self) -> nat;

    /// Runs `f` and `u` as two tasks that share `channels` and returns the
    /// handles to their results; the channels are closed when both have
    /// ended.
    fn spawn(&self, f: Box<ByteCode>, u: Box<ByteCode>, channels: &mut Vec<MpscChannels<i32>>) -> (handles:
        (TaskHandle, TaskHandle))
        ensures
            ({
                let (a, b, closed) = run_pair(
                    TaskView::fresh(*f),
                    TaskView::fresh(*u),
                    channel_views(old(channels)@),
                    self.task_limit(),
                );
                &&& a.outcome == Some(handles.0@)
                &&& b.outcome == Some(handles.1@)
                &&& channel_views(final(channels)@) == closed
            }),
    ;
}

impl<T> Channels<T> for ByteCodeInterpreter {
    type Item = T;

    fn send_channel(&self, channel: &mut MpscChannels<T>, stack: Vec<T>) -> (result: Result<
        (),
        ChannelError,
    >) {
        channel.send(stack)
    }

    fn recv_channel(&self, channel: &mut MpscChannels<T>) -> (result: Result<T, ChannelError>) {
        channel.recv()
    }

    open spec fn task_limit(&self) -> nat {
        self.limit()
    }

    fn spawn(&self, f: Box<ByteCode>, u: Box<ByteCode>, channels: &mut Vec<MpscChannels<i32>>) -> (handles:
        (TaskHandle, TaskHandle)) {
        let mut a = Task::new(*f);
        let mut b = Task::new(*u);
        proof {
            lemma_run_pair_finishes(a@, b@, channel_views(channels@), self.limit());
        }
        run_tasks(self, &mut a, &mut b, channels);
        (a.into_handle(), b.into_handle())
    }
}

} // verus!
