//! The protocol of a multi-producer, single-consumer channel: one shared
//! record holds the queued values, whether the receiving side has closed the
//! channel, and how many sending handles are attached. Sending fails once
//! the channel is closed; receiving from an empty channel reports whether it
//! is merely empty or closed for good (closed, or no sender left).

use std::collections::VecDeque;
use vstd::prelude::*;

verus! {

/// Returned by a failed send; carries the value back to the caller.
#[derive(Debug)]
pub struct SendError<T> {
    pub value: T,
}

/// Why a receive returned no value.
#[derive(Clone, Copy, Debug, PartialEq, Eq, Structural)]
pub enum ReceiveError {
    /// Nothing is queued right now, but a sender may still deliver.
    Empty,
    /// Nothing is queued and nothing can arrive any more.
    Closed,
}

/// The shared state of a channel.
pub struct Channel<T> {
    queue: VecDeque<T>,
    closed: bool,
    senders: usize,
}

impl<T> Channel<T> {
    /// The queued values, oldest first.
    pub closed spec fn spec_queue(&self) -> Seq<T> {
        self.queue@
    }

    /// Whether the receiving side closed the channel.
    pub closed spec fn spec_closed(&self) -> bool {
        self.closed
    }

    /// How many sending handles are attached.
    pub closed spec fn spec_senders(&self) -> int {
        self.senders as int
    }

    /// Queues `value`, unless the channel is closed, in which case the value
    /// comes back in the error.
    pub fn send(&mut self, value: T) -> (r: Result<(), SendError<T>>)
        ensures
            old(self).spec_closed() ==> (r matches Err(e) && e.value == value) && *final(self)
                == *old(self),
            !old(self).spec_closed() ==> r is Ok && final(self).spec_queue() == old(
                self,
            ).spec_queue().push(value) && final(self).spec_closed() == old(self).spec_closed()
                && final(self).spec_senders() == old(self).spec_senders(),
    {
        if self.closed {
            Err(SendError { value })
        } else {
            self.queue.push_back(value);
            Ok(())
        }
    }

    /// Takes the oldest queued value. An empty channel reports `Closed` when
    /// nothing can arrive any more - it was closed, or no sender is left -
    /// and `Empty` otherwise. The channel itself never changes except for
    /// the taken value.
    pub fn recv(&mut self) -> (r: Result<T, ReceiveError>)
        ensures
            final(self).spec_closed() == old(self).spec_closed(),
            final(self).spec_senders() == old(self).spec_senders(),
            old(self).spec_queue().len() > 0 ==> (r matches Ok(v) && v == old(self).spec_queue()[0])
                && final(self).spec_queue() == old(self).spec_queue().drop_first(),
            old(self).spec_queue().len() == 0 ==> final(self).spec_queue() == old(
                self,
            ).spec_queue() && r == Err::<T, ReceiveError>(
                if old(self).spec_closed() || old(self).spec_senders() == 0 {
                    ReceiveError::Closed
                } else {
                    ReceiveError::Empty
                },
            ),
    {
        match self.queue.pop_front() {
            Some(e) => Ok(e),
            None => {
                if self.closed || self.senders == 0 {
                    Err(ReceiveError::Closed)
                } else {
                    Err(ReceiveError::Empty)
                }
            },
        }
    }

    /// Closes the channel: every later send fails, queued values stay
    /// receivable.
    pub fn close(&mut self)
        ensures
            final(self).spec_closed(),
            final(self).spec_queue() == old(self).spec_queue(),
            final(self).spec_senders() == old(self).spec_senders(),
    {
        self.closed = true;
    }

    /// Whether the channel was closed.
    pub fn is_closed(&self) -> (r: bool)
        ensures
            r == self.spec_closed(),
    {
        self.closed
    }

    /// How many sending handles are attached.
    pub fn senders(&self) -> (n: usize)
        ensures
            n == self.spec_senders(),
    {
        self.senders
    }

    /// Records one more sending handle.
    pub fn sender_attached(&mut self)
        requires
            old(self).spec_senders() < usize::MAX,
        ensures
            final(self).spec_senders() == old(self).spec_senders() + 1,
            final(self).spec_queue() == old(self).spec_queue(),
            final(self).spec_closed() == old(self).spec_closed(),
    {
        self.senders = self.senders + 1;
    }

    /// Records that one sending handle went away.
    pub fn sender_detached(&mut self)
        ensures
            final(self).spec_senders() == if old(self).spec_senders() > 0 {
                old(self).spec_senders() - 1
            } else {
                0
            },
            final(self).spec_queue() == old(self).spec_queue(),
            final(self).spec_closed() == old(self).spec_closed(),
    {
        if self.senders > 0 {
            self.senders = self.senders - 1;
        }
    }
}

/// A fresh channel: nothing queued, open, one sending handle attached.
pub fn channel<T>() -> (c: Channel<T>)
    ensures
        c.spec_queue() == Seq::<T>::empty(),
        !c.spec_closed(),
        c.spec_senders() == 1,
{
    let c = Channel { queue: VecDeque::new(), closed: false, senders: 1 };
    proof {
        assert(c.spec_queue() =~= Seq::<T>::empty());
    }
    c
}

} // verus!
