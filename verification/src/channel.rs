//! The bounded queue between two stages. A full queue turns the sender away
//! with the item in hand, so that nothing that entered a stage is lost; a
//! closed and drained queue tells the receiver that the stream has ended.

use std::collections::VecDeque;
use vstd::prelude::*;

verus! {

/// Why an item was not taken.
#[derive(Debug, PartialEq, Eq)]
pub enum SendError<T> {
    /// The queue is full; here is the item back.
    Full(T),
    /// The queue is closed; here is the item back.
    Closed(T),
}

/// Why no item was handed out.
#[derive(Clone, Copy, Debug, PartialEq, Eq, Structural)]
pub enum RecvError {
    /// Nothing is waiting, but more may come.
    Empty,
    /// Nothing is waiting and the sender has closed the queue.
    Closed,
}

/// The queue as mathematical values.
pub struct ChannelView<T> {
    /// The items that wait, oldest first.
    pub queue: Seq<T>,
    /// How many items may wait.
    pub capacity: usize,
    /// Whether the sender has closed the queue.
    pub closed: bool,
}

impl<T> ChannelView<T> {
    /// The invariant of the queue.
    pub open spec fn valid(self) -> bool {
        self.queue.len() <= self.capacity
    }

    /// Whether an item that is sent now is taken.
    pub open spec fn takes(self) -> bool {
        !self.closed && self.queue.len() < self.capacity
    }

    /// The queue after `item` was sent: it waits behind the others if it was
    /// taken.
    pub open spec fn sent(self, item: T) -> ChannelView<T> {
        if self.takes() {
            ChannelView { queue: self.queue.push(item), ..self }
        } else {
            self
        }
    }

    /// The queue after the receiver asked for an item: the oldest has left
    /// if there was one.
    pub open spec fn received(self) -> ChannelView<T> {
        if self.queue.len() > 0 {
            ChannelView { queue: self.queue.drop_first(), ..self }
        } else {
            self
        }
    }
}

/// The bounded queue between two stages.
pub struct Channel<T> {
    queue: VecDeque<T>,
    capacity: usize,
    closed: bool,
}

impl<T> View for Channel<T> {
    type V = ChannelView<T>;

    closed spec fn view(&self) -> ChannelView<T> {
        ChannelView { queue: self.queue@, capacity: self.capacity, closed: self.closed }
    }
}

impl<T> Channel<T> {
    /// The invariant that every operation keeps.
    pub open spec fn wf(&self) -> bool {
        self@.valid()
    }

    /// An open, empty queue in which up to `capacity` items may wait.
    pub fn new(capacity: usize) -> (channel: Channel<T>)
        ensures
            channel.wf(),
            channel@ == (ChannelView { queue: Seq::<T>::empty(), capacity, closed: false }),
    {
        Channel { queue: VecDeque::new(), capacity, closed: false }
    }

    /// How many items wait.
    pub fn len(&self) -> (n: usize)
        ensures
            n == self@.queue.len(),
    {
        self.queue.len()
    }

    /// Whether the sender has closed the queue.
    pub fn is_closed(&self) -> (closed: bool)
        ensures
            closed == self@.closed,
    {
        self.closed
    }

    /// Closes the queue. What waits can still be received.
    pub fn close(&mut self)
        ensures
            final(self)@ == (ChannelView { closed: true, ..old(self)@ }),
    {
        self.closed = true;
    }

    /// Offers an item to the queue. An open queue with room takes it; a
    /// closed or full queue hands it back and stays as it is.
    pub fn send(&mut self, item: T) -> (outcome: Result<(), SendError<T>>)
        requires
            old(self).wf(),
        ensures
            final(self).wf(),
            final(self)@ == old(self)@.sent(item),
            outcome == if old(self)@.closed {
                Err::<(), SendError<T>>(SendError::Closed(item))
            } else if old(self)@.queue.len() >= old(self)@.capacity {
                Err(SendError::Full(item))
            } else {
                Ok(())
            },
    {
        if self.closed {
            return Err(SendError::Closed(item));
        }
        if self.queue.len() >= self.capacity {
            return Err(SendError::Full(item));
        }
        self.queue.push_back(item);
        Ok(())
    }

    /// Asks for the oldest item. An empty queue answers that nothing waits,
    /// or, once it is closed, that the stream has ended.
    pub fn recv(&mut self) -> (outcome: Result<T, RecvError>)
        requires
            old(self).wf(),
        ensures
            final(self).wf(),
            final(self)@ == old(self)@.received(),
            outcome == if old(self)@.queue.len() > 0 {
                Ok::<T, RecvError>(old(self)@.queue[0])
            } else if old(self)@.closed {
                Err(RecvError::Closed)
            } else {
                Err(RecvError::Empty)
            },
    {
        match self.queue.pop_front() {
            Some(item) => {
                assert(self@.queue =~= old(self)@.queue.drop_first());
                Ok(item)
            },
            None => if self.closed {
                Err(RecvError::Closed)
            } else {
                Err(RecvError::Empty)
            },
        }
    }
}

/// One use of the queue.
pub enum Use<T> {
    /// The sender offers an item.
    Send(T),
    /// The receiver asks for an item.
    Recv,
}

/// The queue after one use.
pub open spec fn used<T>(channel: ChannelView<T>, u: Use<T>) -> ChannelView<T> {
    match u {
        Use::Send(item) => channel.sent(item),
        Use::Recv => channel.received(),
    }
}

/// The queue after a sequence of uses.
pub open spec fn used_all<T>(channel: ChannelView<T>, uses: Seq<Use<T>>) -> ChannelView<T>
    decreases uses.len(),
{
    if uses.len() == 0 {
        channel
    } else {
        used(used_all(channel, uses.drop_last()), uses.last())
    }
}

/// The items that the queue took over a sequence of uses, in order.
pub open spec fn taken<T>(channel: ChannelView<T>, uses: Seq<Use<T>>) -> Seq<T>
    decreases uses.len(),
{
    if uses.len() == 0 {
        Seq::empty()
    } else {
        let earlier = taken(channel, uses.drop_last());
        match uses.last() {
            Use::Send(item) => if used_all(channel, uses.drop_last()).takes() {
                earlier.push(item)
            } else {
                earlier
            },
            Use::Recv => earlier,
        }
    }
}

/// The items that the queue handed out over a sequence of uses, in order.
pub open spec fn handed<T>(channel: ChannelView<T>, uses: Seq<Use<T>>) -> Seq<T>
    decreases uses.len(),
{
    if uses.len() == 0 {
        Seq::empty()
    } else {
        let earlier = handed(channel, uses.drop_last());
        let prior = used_all(channel, uses.drop_last());
        match uses.last() {
            Use::Send(item) => earlier,
            Use::Recv => if prior.queue.len() > 0 {
                earlier.push(prior.queue[0])
            } else {
                earlier
            },
        }
    }
}

/// Nothing is lost and nothing overtakes: whatever the two sides do, the
/// items handed out, followed by those that still wait, are the items that
/// waited at first, followed by those that the queue took, in the same
/// order. The queue never holds more than its capacity.
pub proof fn law_nothing_lost<T>(channel: ChannelView<T>, uses: Seq<Use<T>>)
    requires
        channel.valid(),
    ensures
        used_all(channel, uses).valid(),
        handed(channel, uses) + used_all(channel, uses).queue == channel.queue + taken(
            channel,
            uses,
        ),
    decreases uses.len(),
{
    if uses.len() > 0 {
        law_nothing_lost(channel, uses.drop_last());
        let prior = used_all(channel, uses.drop_last());
        let out = handed(channel, uses.drop_last());
        let got = taken(channel, uses.drop_last());
        assert(out + prior.queue == channel.queue + got);
        match uses.last() {
            Use::Send(item) => {
                if prior.takes() {
                    assert(out + prior.queue.push(item) =~= (out + prior.queue).push(item));
                    assert(channel.queue + got.push(item) =~= (channel.queue + got).push(item));
                }
            },
            Use::Recv => {
                if prior.queue.len() > 0 {
                    assert(out.push(prior.queue[0]) + prior.queue.drop_first() =~= out
                        + prior.queue);
                }
            },
        }
    } else {
        assert(handed(channel, uses) + channel.queue =~= channel.queue + taken(channel, uses));
    }
}

} // verus!
