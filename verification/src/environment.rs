//! The state of one evaluator run: its variables, the channels bound to it,
//! and the journal of the channel operations it has completed.

use crate::channel::{channel_views, ChannelView, MpscChannels};
use crate::error::{ChannelError, EvalError};
use vstd::prelude::*;

verus! {

/// What an environment holds.
///
/// `journal` lists the result of every channel operation the run has
/// completed, oldest first, and `cursor` counts the operations this pass
/// over the program has gone through.  While the cursor is inside the
/// journal the pass is replaying: an operation yields the journaled result
/// and leaves the channels alone.
pub struct EnvironmentView {
    pub variables: Map<char, i32>,
    pub channels: Seq<ChannelView<i32>>,
    pub journal: Seq<i32>,
    pub cursor: nat,
}

/// What a `Send` of `values` yields: the last of them, or zero for none.
pub open spec fn last_or_zero(values: Seq<i32>) -> i32 {
    if values.len() > 0 {
        values.last()
    } else {
        0
    }
}

impl EnvironmentView {
    /// An environment with nothing in it.
    pub open spec fn fresh() -> Self {
        EnvironmentView {
            variables: Map::empty(),
            channels: Seq::empty(),
            journal: Seq::empty(),
            cursor: 0,
        }
    }

    /// The environment in which a suspended run is taken up again.
    pub open spec fn resuming(journal: Seq<i32>, channels: Seq<ChannelView<i32>>) -> Self {
        EnvironmentView { variables: Map::empty(), channels, journal, cursor: 0 }
    }

    /// What a read of `name` gives.
    pub open spec fn get(self, name: char) -> Result<i32, EvalError> {
        if self.variables.contains_key(name) {
            Ok(self.variables[name])
        } else {
            Err(EvalError::UnboundVariable(name))
        }
    }

    /// The environment with `name` bound to `value`.
    pub open spec fn set(self, name: char, value: i32) -> Self {
        EnvironmentView { variables: self.variables.insert(name, value), ..self }
    }

    /// Whether the next channel operation is replayed from the journal.
    pub open spec fn replaying(self) -> bool {
        self.cursor < self.journal.len()
    }

    /// The environment after a replayed operation.
    pub open spec fn replayed(self) -> Self {
        EnvironmentView { cursor: self.cursor + 1, ..self }
    }

    /// The environment after an operation that changed channel `channel`
    /// into `next` and yielded `result`.
    pub open spec fn completed(self, channel: usize, next: ChannelView<i32>, result: i32) -> Self {
        EnvironmentView {
            channels: self.channels.update(channel as int, next),
            journal: self.journal.push(result),
            cursor: self.journal.len() + 1,
            ..self
        }
    }

    /// The result of sending `values` on channel `channel`, and the
    /// environment after it.  An operation that fails changes nothing.
    pub open spec fn send(self, channel: usize, values: Seq<i32>) -> (Result<i32, EvalError>, Self) {
        if self.replaying() {
            (Ok(self.journal[self.cursor as int]), self.replayed())
        } else if channel >= self.channels.len() {
            (Err(EvalError::UnknownChannel(channel)), self)
        } else {
            match self.channels[channel as int].send(values) {
                Ok(next) => (
                    Ok(last_or_zero(values)),
                    self.completed(channel, next, last_or_zero(values)),
                ),
                Err(ChannelError::Closed) => (Err(EvalError::ChannelClosed), self),
                Err(_) => (Err(EvalError::WouldBlock(channel)), self),
            }
        }
    }

    /// The result of receiving from channel `channel`, and the environment
    /// after it.  An operation that fails changes nothing.
    pub open spec fn recv(self, channel: usize) -> (Result<i32, EvalError>, Self) {
        if self.replaying() {
            (Ok(self.journal[self.cursor as int]), self.replayed())
        } else if channel >= self.channels.len() {
            (Err(EvalError::UnknownChannel(channel)), self)
        } else {
            match self.channels[channel as int].recv() {
                Ok((value, next)) => (Ok(value), self.completed(channel, next, value)),
                Err(ChannelError::Closed) => (Err(EvalError::ChannelClosed), self),
                Err(_) => (Err(EvalError::WouldBlock(channel)), self),
            }
        }
    }
}

/// What the first binding of `name` at or behind position `from` binds it to.
spec fn lookup_from(bindings: Seq<(char, i32)>, name: char, from: int) -> Option<i32>
    decreases bindings.len() - from,
{
    if from < 0 || from >= bindings.len() {
        None
    } else if bindings[from].0 == name {
        Some(bindings[from].1)
    } else {
        lookup_from(bindings, name, from + 1)
    }
}

/// The map that a list of bindings stands for: each name is bound to the
/// value of its first binding.
spec fn bindings_map(bindings: Seq<(char, i32)>) -> Map<char, i32> {
    Map::new(
        |name: char| lookup_from(bindings, name, 0) is Some,
        |name: char| lookup_from(bindings, name, 0)->0,
    )
}

/// Overwriting the first binding of `name` rebinds `name` and nothing else.
proof fn lemma_lookup_overwrite(
    bindings: Seq<(char, i32)>,
    at: int,
    name: char,
    value: i32,
    other: char,
    from: int,
)
    requires
        0 <= at < bindings.len(),
        bindings[at].0 == name,
        0 <= from <= bindings.len(),
    ensures
        lookup_from(bindings.update(at, (name, value)), other, from) == if other == name && from
            <= at && (forall|k: int| from <= k < at ==> bindings[k].0 != name) {
            Some(value)
        } else {
            lookup_from(bindings, other, from)
        },
    decreases bindings.len() - from,
{
    if from < bindings.len() {
        lemma_lookup_overwrite(bindings, at, name, value, other, from + 1);
    }
}

/// Appending a binding of a name that has none binds that name and nothing
/// else.
proof fn lemma_lookup_append(
    bindings: Seq<(char, i32)>,
    name: char,
    value: i32,
    other: char,
    from: int,
)
    requires
        forall|k: int| 0 <= k < bindings.len() ==> bindings[k].0 != name,
        0 <= from <= bindings.len(),
    ensures
        lookup_from(bindings.push((name, value)), other, from) == if other == name {
            Some(value)
        } else {
            lookup_from(bindings, other, from)
        },
    decreases bindings.len() - from,
{
    if from < bindings.len() {
        lemma_lookup_append(bindings, name, value, other, from + 1);
    } else {
        assert(lookup_from(bindings.push((name, value)), other, from + 1) is None);
    }
}

/// The variables of one run and the channels it can reach.
pub struct Environment {
    bindings: Vec<(char, i32)>,
    channels: Vec<MpscChannels<i32>>,
    journal: Vec<i32>,
    cursor: usize,
}

impl View for Environment {
    type V = EnvironmentView;

    closed spec fn view(&self) -> EnvironmentView {
        EnvironmentView {
            variables: bindings_map(self.bindings@),
            channels: channel_views(self.channels@),
            journal: self.journal@,
            cursor: self.cursor as nat,
        }
    }
}

impl Environment {
    /// Makes an environment with no variable, no channel and an empty journal.
    pub fn new() -> (environment: Environment)
        ensures
            environment@ == EnvironmentView::fresh(),
    {
        let environment = Environment {
            bindings: Vec::new(),
            channels: Vec::new(),
            journal: Vec::new(),
            cursor: 0,
        };
        assert(environment@.variables =~= Map::empty());
        assert(environment@.channels =~= Seq::empty());
        environment
    }

    /// Makes the environment in which a suspended run is taken up again: no
    /// variable yet, the channels of `channels`, and the journal of what the
    /// run has completed, to be replayed from its start.
    pub fn resuming(journal: Vec<i32>, channels: Vec<MpscChannels<i32>>) -> (environment: Environment)
        ensures
            environment@ == EnvironmentView::resuming(journal@, channel_views(channels@)),
    {
        let environment = Environment { bindings: Vec::new(), channels, journal, cursor: 0 };
        assert(environment@.variables =~= Map::empty());
        environment
    }

    /// Takes the environment apart into its journal and its channels.
    pub fn into_parts(self) -> (parts: (Vec<i32>, Vec<MpscChannels<i32>>))
        ensures
            parts.0@ == self@.journal,
            channel_views(parts.1@) == self@.channels,
    {
        (self.journal, self.channels)
    }

    /// Reads the variable `name`; fails with `UnboundVariable` where nothing
    /// was assigned to it.
    pub fn get(&self, name: char) -> (result: Result<i32, EvalError>)
        ensures
            result == self@.get(name),
    {
        let mut i: usize = 0;
        while i < self.bindings.len()
            invariant
                i <= self.bindings.len(),
                lookup_from(self.bindings@, name, 0) == lookup_from(self.bindings@, name, i as int),
            decreases self.bindings.len() - i,
        {
            if self.bindings[i].0 == name {
                return Ok(self.bindings[i].1);
            }
            i += 1;
        }
        Err(EvalError::UnboundVariable(name))
    }

    /// Binds the variable `name` to `value`, in place of what it was bound to.
    pub fn set(&mut self, name: char, value: i32)
        ensures
            final(self)@ == old(self)@.set(name, value),
    {
        let ghost before = self.bindings@;
        let mut i: usize = 0;
        while i < self.bindings.len()
            invariant
                i <= self.bindings.len(),
                *self == *old(self),
                before == self.bindings@,
                forall|k: int| 0 <= k < i ==> self.bindings[k].0 != name,
            decreases self.bindings.len() - i,
        {
            if self.bindings[i].0 == name {
                self.bindings[i] = (name, value);
                proof {
                    assert(self.bindings@ == before.update(i as int, (name, value)));
                    assert forall|other: char|
                        lookup_from(self.bindings@, other, 0) == if other == name {
                            Some(value)
                        } else {
                            lookup_from(before, other, 0)
                        } by {
                        lemma_lookup_overwrite(before, i as int, name, value, other, 0);
                    }
                    assert(self@.variables =~= old(self)@.variables.insert(name, value));
                }
                return;
            }
            i += 1;
        }
        self.bindings.push((name, value));
        proof {
            assert forall|other: char|
                lookup_from(self.bindings@, other, 0) == if other == name {
                    Some(value)
                } else {
                    lookup_from(before, other, 0)
                } by {
                lemma_lookup_append(before, name, value, other, 0);
            }
            assert(self@.variables =~= old(self)@.variables.insert(name, value));
        }
    }

    /// Binds `channel` to the environment and returns the reference by which
    /// `Send` and `Recv` nodes reach it.
    pub fn bind_channel(&mut self, channel: MpscChannels<i32>) -> (reference: usize)
        ensures
            reference == old(self)@.channels.len(),
            final(self)@ == (EnvironmentView {
                channels: old(self)@.channels.push(channel@),
                ..old(self)@
            }),
    {
        let reference = self.channels.len();
        self.channels.push(channel);
        assert(self@.channels =~= old(self)@.channels.push(channel@));
        reference
    }

    /// Sends `values` on the channel that `channel` refers to and yields the
    /// last of them.  Fails with `UnknownChannel`, with `ChannelClosed`, or
    /// with `WouldBlock` where a bounded channel has no room.
    pub fn send(&mut self, channel: usize, values: Vec<i32>) -> (result: Result<i32, EvalError>)
        ensures
            (result, final(self)@) == old(self)@.send(channel, values@),
    {
        if self.cursor < self.journal.len() {
            let value = self.journal[self.cursor];
            self.cursor += 1;
            return Ok(value);
        }
        if channel >= self.channels.len() {
            return Err(EvalError::UnknownChannel(channel));
        }
        let value = if values.len() > 0 {
            values[values.len() - 1]
        } else {
            0
        };
        match self.channels[channel].send(values) {
            Ok(()) => {
                self.journal.push(value);
                self.cursor = self.journal.len();
                assert(self@.channels =~= old(self)@.channels.update(
                    channel as int,
                    self.channels[channel as int]@,
                ));
                Ok(value)
            },
            Err(ChannelError::Closed) => {
                assert(self@.channels =~= old(self)@.channels);
                Err(EvalError::ChannelClosed)
            },
            Err(_) => {
                assert(self@.channels =~= old(self)@.channels);
                Err(EvalError::WouldBlock(channel))
            },
        }
    }

    /// Receives the oldest value of the channel that `channel` refers to.
    /// Fails with `UnknownChannel`, with `ChannelClosed` where the channel is
    /// closed and empty, or with `WouldBlock` where it is open and empty.
    pub fn recv(&mut self, channel: usize) -> (result: Result<i32, EvalError>)
        ensures
            (result, final(self)@) == old(self)@.recv(channel),
    {
        if self.cursor < self.journal.len() {
            let value = self.journal[self.cursor];
            self.cursor += 1;
            return Ok(value);
        }
        if channel >= self.channels.len() {
            return Err(EvalError::UnknownChannel(channel));
        }
        match self.channels[channel].recv() {
            Ok(value) => {
                self.journal.push(value);
                self.cursor = self.journal.len();
                assert(self@.channels =~= old(self)@.channels.update(
                    channel as int,
                    self.channels[channel as int]@,
                ));
                Ok(value)
            },
            Err(ChannelError::Closed) => {
                assert(self@.channels =~= old(self)@.channels);
                Err(EvalError::ChannelClosed)
            },
            Err(_) => {
                assert(self@.channels =~= old(self)@.channels);
                Err(EvalError::WouldBlock(channel))
            },
        }
    }
}

impl Default for Environment {
    fn default() -> (environment: Environment)
        ensures
            environment@ == EnvironmentView::fresh(),
    {
        Environment::new()
    }
}

} // verus!
