//! The spawner's count of its tasks, for a host that runs each task on a
//! thread of its own: how many still run, and whether all of them wait.
//!
//! The host takes a task up under a lock and records each turn here.  A
//! task that was not brought to its result waits until the round moves on:
//! that is, until a task has completed a channel operation.  The tasks are
//! at a standstill when each one that still runs has had a turn in the
//! present round and waits; the host then closes the channels.

use vstd::prelude::*;

verus! {

/// What the count holds.
pub struct TurnsView {
    /// How many tasks have no result yet.
    pub running: usize,
    /// How many of them have waited since the round began.
    pub waiting: usize,
    /// The number of the round; it moves on with every turn that completed
    /// a channel operation.
    pub round: u64,
    /// Whether the tasks were ever at a standstill.
    pub standstill: bool,
}

impl TurnsView {
    /// The count for `tasks` tasks that have not started.
    pub open spec fn fresh(tasks: usize) -> Self {
        TurnsView { running: tasks, waiting: 0, round: 0, standstill: false }
    }

    /// The round after this one; the numbers wrap around.
    pub open spec fn next_round(self) -> u64 {
        if self.round == u64::MAX {
            0
        } else {
            (self.round + 1) as u64
        }
    }

    /// The count after a turn: `finished` says whether the task came to its
    /// result, `forward` whether it completed a channel operation.
    pub open spec fn record(self, finished: bool, forward: bool) -> Self {
        let round = if forward { self.next_round() } else { self.round };
        let waited = if forward { 0 } else { self.waiting };
        let running = if finished && self.running > 0 {
            (self.running - 1) as usize
        } else {
            self.running
        };
        let waiting = if !finished && waited < usize::MAX {
            (waited + 1) as usize
        } else {
            waited
        };
        TurnsView {
            running,
            waiting,
            round,
            standstill: self.standstill || (running > 0 && waiting >= running),
        }
    }
}

/// The spawner's count of its tasks.
pub struct Turns {
    running: usize,
    waiting: usize,
    round: u64,
    standstill: bool,
}

impl View for Turns {
    type V = TurnsView;

    closed spec fn view(&self) -> TurnsView {
        TurnsView {
            running: self.running,
            waiting: self.waiting,
            round: self.round,
            standstill: self.standstill,
        }
    }
}

impl Turns {
    /// Makes the count for `tasks` tasks that have not started.
    pub fn new(tasks: usize) -> (turns: Turns)
        ensures
            turns@ == TurnsView::fresh(tasks),
    {
        Turns { running: tasks, waiting: 0, round: 0, standstill: false }
    }

    /// Records a turn and returns whether the tasks are at a standstill.
    pub fn record(&mut self, finished: bool, forward: bool) -> (standstill: bool)
        ensures
            final(self)@ == old(self)@.record(finished, forward),
            standstill == final(self)@.standstill,
    {
        if forward {
            self.round = if self.round == u64::MAX {
                0
            } else {
                self.round + 1
            };
            self.waiting = 0;
        }
        if finished {
            if self.running > 0 {
                self.running = self.running - 1;
            }
        } else if self.waiting < usize::MAX {
            self.waiting = self.waiting + 1;
        }
        if self.running > 0 && self.waiting >= self.running {
            self.standstill = true;
        }
        self.standstill
    }

    /// How many tasks have no result yet.
    pub fn running(&self) -> (running: usize)
        ensures
            running == self@.running,
    {
        self.running
    }

    /// The number of the round.
    pub fn round(&self) -> (round: u64)
        ensures
            round == self@.round,
    {
        self.round
    }

    /// Whether the tasks were ever at a standstill.
    pub fn at_standstill(&self) -> (standstill: bool)
        ensures
            standstill == self@.standstill,
    {
        self.standstill
    }
}

} // verus!
