//! A task: one program on its way through the evaluator, which can stop at
//! a channel operation and be taken up again.
//!
//! Evaluation is a function of the program and of what its channel
//! operations gave.  So a suspended task is its program and the journal of
//! the operations it has completed, and to take it up again is to evaluate
//! the program from its start against that journal: the journaled
//! operations are replayed without touching a channel, and the first one
//! behind the journal goes to the channels.  That keeps evaluation a plain
//! recursion over the tree; each taking up costs a pass over what the task
//! has done so far.

use crate::bytecode::ByteCode;
use crate::channel::{channel_views, ChannelView, MpscChannels};
use crate::environment::{Environment, EnvironmentView};
use crate::error::EvalError;
use crate::interpreter::ByteCodeInterpreter;
use crate::semantics::run;
use vstd::prelude::*;

verus! {

/// What a task is made of: its program, the journal of the channel
/// operations it has completed, and its result once it has one.
pub struct TaskView {
    pub program: ByteCode,
    pub journal: Seq<i32>,
    pub outcome: Option<Result<i32, EvalError>>,
}

impl TaskView {
    /// A task that has not started.
    pub open spec fn fresh(program: ByteCode) -> Self {
        TaskView { program, journal: Seq::empty(), outcome: None }
    }

    /// Whether the task has its result.
    pub open spec fn finished(self) -> bool {
        self.outcome is Some
    }

    /// The task and the channels after the task was taken up once: it ran
    /// until it ended or met a channel operation that cannot complete.  A
    /// finished task stays as it is.
    pub open spec fn resume(self, channels: Seq<ChannelView<i32>>, limit: nat) -> (
        TaskView,
        Seq<ChannelView<i32>>,
    ) {
        if self.finished() {
            (self, channels)
        } else {
            let (result, env) = run(
                self.program,
                EnvironmentView::resuming(self.journal, channels),
                limit,
            );
            (
                TaskView {
                    journal: env.journal,
                    outcome: match result {
                        Err(EvalError::WouldBlock(_)) => None,
                        _ => Some(result),
                    },
                    ..self
                },
                env.channels,
            )
        }
    }

    /// The task with its channels closed under it: one that has no result
    /// yet fails with `ChannelClosed`.
    pub open spec fn abandon(self) -> TaskView {
        if self.finished() {
            self
        } else {
            TaskView { outcome: Some(Err(EvalError::ChannelClosed)), ..self }
        }
    }
}

/// One program on its way through the evaluator.
pub struct Task {
    program: ByteCode,
    journal: Vec<i32>,
    outcome: Option<Result<i32, EvalError>>,
}

impl View for Task {
    type V = TaskView;

    closed spec fn view(&self) -> TaskView {
        TaskView { program: self.program, journal: self.journal@, outcome: self.outcome }
    }
}

impl Task {
    /// Makes a task that has not started.
    pub fn new(program: ByteCode) -> (task: Task)
        ensures
            task@ == TaskView::fresh(program),
    {
        Task { program, journal: Vec::new(), outcome: None }
    }

    /// Whether the task has its result.
    pub fn is_finished(&self) -> (finished: bool)
        ensures
            finished == self@.finished(),
    {
        self.outcome.is_some()
    }

    /// How many channel operations the task has completed.
    pub fn completed(&self) -> (completed: usize)
        ensures
            completed == self@.journal.len(),
    {
        self.journal.len()
    }

    /// Takes the task up: runs it on `channels` until it ends or meets a
    /// channel operation that cannot complete now.  Returns whether the task
    /// has its result.
    pub fn resume(
        &mut self,
        interpreter: &ByteCodeInterpreter,
        channels: &mut Vec<MpscChannels<i32>>,
    ) -> (finished: bool)
        ensures
            (final(self)@, channel_views(final(channels)@)) == old(self)@.resume(
                channel_views(old(channels)@),
                interpreter.limit(),
            ),
            finished == final(self)@.finished(),
    {
        if self.outcome.is_some() {
            return true;
        }
        let mut journal: Vec<i32> = Vec::new();
        core::mem::swap(&mut self.journal, &mut journal);
        let mut taken: Vec<MpscChannels<i32>> = Vec::new();
        core::mem::swap(channels, &mut taken);
        let mut environment = Environment::resuming(journal, taken);
        let result = interpreter.interpret_operations(&self.program, &mut environment);
        let (mut journal, mut taken) = environment.into_parts();
        core::mem::swap(&mut self.journal, &mut journal);
        core::mem::swap(channels, &mut taken);
        match result {
            Err(EvalError::WouldBlock(_)) => false,
            _ => {
                self.outcome = Some(result);
                true
            },
        }
    }

    /// Closes the task's channels under it: where it has no result yet, it
    /// fails with `ChannelClosed`.
    pub fn abandon(&mut self)
        ensures
            final(self)@ == old(self)@.abandon(),
    {
        if self.outcome.is_none() {
            self.outcome = Some(Err(EvalError::ChannelClosed));
        }
    }

    /// Ends the task and hands out the handle to its result.  A task that
    /// has no result yet is abandoned.
    pub fn into_handle(self) -> (handle: TaskHandle)
        ensures
            Some(handle@) == self@.abandon().outcome,
    {
        match self.outcome {
            Some(outcome) => TaskHandle { outcome },
            None => TaskHandle { outcome: Err(EvalError::ChannelClosed) },
        }
    }
}

/// The handle to the result of a spawned task.
pub struct TaskHandle {
    outcome: Result<i32, EvalError>,
}

impl View for TaskHandle {
    type V = Result<i32, EvalError>;

    closed spec fn view(&self) -> Result<i32, EvalError> {
        self.outcome
    }
}

/// What the joiner of a task sees: its value, or its failure wrapped in
/// `TaskFailure`.
pub open spec fn joined(outcome: Result<i32, EvalError>) -> Result<i32, EvalError> {
    match outcome {
        Ok(value) => Ok(value),
        Err(error) => Err(EvalError::TaskFailure(Box::new(error))),
    }
}

impl TaskHandle {
    /// Waits for the task and returns its value, or its failure wrapped in
    /// `TaskFailure`.
    pub fn join(self) -> (result: Result<i32, EvalError>)
        ensures
            result == joined(self@),
    {
        match self.outcome {
            Ok(value) => Ok(value),
            Err(error) => Err(EvalError::TaskFailure(Box::new(error))),
        }
    }
}

} // verus!
