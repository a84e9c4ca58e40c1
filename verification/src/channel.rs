//! FIFO channels: a queue of values, an open/closed flag and an optional
//! bound on the queue's length.
//!
//! A channel never waits.  Where a blocking channel would, `send` and `recv`
//! report `Full` and `Empty`, and the caller decides how to wait.

use crate::error::ChannelError;
use std::collections::VecDeque;
use vstd::prelude::*;

verus! {

/// What a channel holds: the queued values, oldest first, whether it is
/// closed, and its capacity (`None` for an unbounded channel).
pub struct ChannelView<T> {
    pub queue: Seq<T>,
    pub closed: bool,
    pub capacity: Option<usize>,
}

impl<T> ChannelView<T> {
    /// A new channel: open and empty.
    pub open spec fn fresh(capacity: Option<usize>) -> Self {
        ChannelView { queue: Seq::empty(), closed: false, capacity }
    }

    /// Whether `n` more values fit.
    pub open spec fn has_room(self, n: nat) -> bool {
        match self.capacity {
            None => true,
            Some(c) => self.queue.len() + n <= c,
        }
    }

    /// The channel after `values` were enqueued behind what it holds, or why
    /// they were not: all of them are enqueued or none.
    pub open spec fn send(self, values: Seq<T>) -> Result<Self, ChannelError> {
        if self.closed {
            Err(ChannelError::Closed)
        } else if !self.has_room(values.len()) {
            Err(ChannelError::Full)
        } else {
            Ok(ChannelView { queue: self.queue + values, ..self })
        }
    }

    /// The oldest value and the channel without it, or why there is none.  A
    /// closed channel still hands out what it holds.
    pub open spec fn recv(self) -> Result<(T, Self), ChannelError> {
        if self.queue.len() > 0 {
            Ok((self.queue[0], ChannelView { queue: self.queue.drop_first(), ..self }))
        } else if self.closed {
            Err(ChannelError::Closed)
        } else {
            Err(ChannelError::Empty)
        }
    }

    /// The channel after it was closed; what it holds stays.
    pub open spec fn close(self) -> Self {
        ChannelView { closed: true, ..self }
    }
}

/// A channel between tasks.
#[derive(Debug)]
pub struct MpscChannels<T> {
    queue: VecDeque<T>,
    closed: bool,
    capacity: Option<usize>,
}

impl<T> View for MpscChannels<T> {
    type V = ChannelView<T>;

    closed spec fn view(&self) -> ChannelView<T> {
        ChannelView { queue: self.queue@, closed: self.closed, capacity: self.capacity }
    }
}

/// Makes an open, empty channel; `None` makes it unbounded.
pub fn new_channel<T>(capacity: Option<usize>) -> (channel: MpscChannels<T>)
    ensures
        channel@ == ChannelView::<T>::fresh(capacity),
{
    MpscChannels { queue: VecDeque::new(), closed: false, capacity }
}

impl<T> MpscChannels<T> {
    /// Enqueues `values`, in their order, behind what the channel holds.
    /// Fails with `Closed` on a closed channel and with `Full` where a bounded
    /// channel has no room for all of them; the channel is then unchanged.
    pub fn send(&mut self, values: Vec<T>) -> (result: Result<(), ChannelError>)
        ensures
            match old(self)@.send(values@) {
                Ok(next) => result is Ok && final(self)@ == next,
                Err(e) => result == Err::<(), ChannelError>(e) && final(self)@ == old(self)@,
            },
    {
        if self.closed {
            return Err(ChannelError::Closed);
        }
        match self.capacity {
            Some(c) => {
                if values.len() > c || self.queue.len() > c - values.len() {
                    return Err(ChannelError::Full);
                }
            },
            None => {},
        }
        let ghost all = values@;
        let mut rest = values;
        let mut incoming: VecDeque<T> = VecDeque::new();
        while rest.len() > 0
            invariant
                rest@ + incoming@ == all,
            decreases rest.len(),
        {
            match rest.pop() {
                Some(v) => incoming.push_front(v),
                None => {},
            }
        }
        assert(incoming@ == all);
        self.queue.append(&mut incoming);
        Ok(())
    }

    /// Dequeues the oldest value.  Fails with `Empty` on an open channel that
    /// holds nothing and with `Closed` on a closed one that holds nothing.
    pub fn recv(&mut self) -> (result: Result<T, ChannelError>)
        ensures
            match old(self)@.recv() {
                Ok((value, next)) => result == Ok::<T, ChannelError>(value) && final(self)@ == next,
                Err(e) => result == Err::<T, ChannelError>(e) && final(self)@ == old(self)@,
            },
    {
        match self.queue.pop_front() {
            Some(value) => Ok(value),
            None => {
                if self.closed {
                    Err(ChannelError::Closed)
                } else {
                    Err(ChannelError::Empty)
                }
            },
        }
    }

    /// Closes the channel.  What it holds can still be received.
    pub fn close(&mut self)
        ensures
            final(self)@ == old(self)@.close(),
    {
        self.closed = true;
    }

    /// Whether the channel is closed.
    pub fn is_closed(&self) -> (closed: bool)
        ensures
            closed == self@.closed,
    {
        self.closed
    }

    /// How many values the channel holds.
    pub fn len(&self) -> (len: usize)
        ensures
            len == self@.queue.len(),
    {
        self.queue.len()
    }

    /// The bound on the queue's length, if the channel has one.
    pub fn capacity(&self) -> (capacity: Option<usize>)
        ensures
            capacity == self@.capacity,
    {
        self.capacity
    }
}

/// A channel of integers, as programs use it.
pub type Channel = MpscChannels<i32>;

/// The views of a list of channels.
pub open spec fn channel_views(channels: Seq<MpscChannels<i32>>) -> Seq<ChannelView<i32>> {
    Seq::new(channels.len(), |i: int| channels[i]@)
}

/// The channels of `channels`, each closed.
pub open spec fn close_all(channels: Seq<ChannelView<i32>>) -> Seq<ChannelView<i32>> {
    Seq::new(channels.len(), |i: int| channels[i].close())
}

/// Closes every channel of `channels`.
pub fn close_channels(channels: &mut Vec<MpscChannels<i32>>)
    ensures
        channel_views(final(channels)@) == close_all(channel_views(old(channels)@)),
{
    let mut at: usize = 0;
    while at < channels.len()
        invariant
            at <= channels.len(),
            channels.len() == old(channels).len(),
            forall|i: int| 0 <= i < at ==> channels[i]@ == old(channels)[i]@.close(),
            forall|i: int| at <= i < channels.len() ==> channels[i]@ == old(channels)[i]@,
        decreases channels.len() - at,
    {
        channels[at].close();
        at += 1;
    }
    assert(channel_views(channels@) =~= close_all(channel_views(old(channels)@)));
}

} // verus!
