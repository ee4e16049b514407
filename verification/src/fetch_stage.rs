//! The stage at the socket. It gathers what arrives into batches of a
//! bounded size and decides, after each event at the socket, whether to go
//! on, to pass a batch on, or to stop.

use vstd::prelude::*;

verus! {

/// What happened at the socket.
pub enum SocketEvent<T> {
    /// A datagram arrived and was read as `T`.
    Arrived(T),
    /// Nothing arrived within the time that the stage waits.
    TimedOut,
    /// The socket failed.
    Failed,
}

/// What the stage does next.
#[derive(Debug, PartialEq, Eq)]
pub enum FetchAction<T> {
    /// Read on.
    Continue,
    /// Pass this batch on, then read on.
    Forward(Vec<T>),
    /// Pass this batch on, if it holds anything, and stop.
    Stop(Vec<T>),
}

/// The stage as mathematical values.
pub struct FetchView<T> {
    /// What was gathered since the last batch, in the order of arrival.
    pub pending: Seq<T>,
    /// How many items a batch holds at most.
    pub batch_size: usize,
    /// Whether the stage has stopped.
    pub stopped: bool,
}

impl<T> FetchView<T> {
    /// The invariant of the stage: a full batch never waits.
    pub open spec fn valid(self) -> bool {
        self.pending.len() == 0 || self.pending.len() < self.batch_size
    }

    /// Whether the stage stops at this event: it was told to exit, it has
    /// stopped before, or the socket failed.
    pub open spec fn stops(self, event: SocketEvent<T>, exit: bool) -> bool {
        exit || self.stopped || event is Failed
    }

    /// What is gathered once the event is taken in.
    pub open spec fn gathered(self, event: SocketEvent<T>) -> Seq<T> {
        match event {
            SocketEvent::Arrived(item) => self.pending.push(item),
            _ => self.pending,
        }
    }

    /// Whether what is gathered is passed on at this event: the batch is
    /// full, or nothing more arrived in time and something waits.
    pub open spec fn forwards(self, event: SocketEvent<T>) -> bool {
        match event {
            SocketEvent::Arrived(item) => self.pending.len() + 1 >= self.batch_size,
            SocketEvent::TimedOut => self.pending.len() > 0,
            SocketEvent::Failed => false,
        }
    }

    /// The stage after the event.
    pub open spec fn after(self, event: SocketEvent<T>, exit: bool) -> FetchView<T> {
        if self.stops(event, exit) {
            FetchView { pending: Seq::empty(), stopped: true, ..self }
        } else if self.forwards(event) {
            FetchView { pending: Seq::empty(), ..self }
        } else {
            FetchView { pending: self.gathered(event), ..self }
        }
    }
}

/// The stage at the socket.
pub struct FetchStage<T> {
    pending: Vec<T>,
    batch_size: usize,
    stopped: bool,
}

impl<T> View for FetchStage<T> {
    type V = FetchView<T>;

    closed spec fn view(&self) -> FetchView<T> {
        FetchView { pending: self.pending@, batch_size: self.batch_size, stopped: self.stopped }
    }
}

impl<T> FetchStage<T> {
    /// The invariant that every operation keeps.
    pub open spec fn wf(&self) -> bool {
        self@.valid()
    }

    /// A stage that passes on batches of up to `batch_size` items.
    pub fn new(batch_size: usize) -> (stage: FetchStage<T>)
        ensures
            stage.wf(),
            stage@ == (FetchView { pending: Seq::<T>::empty(), batch_size, stopped: false }),
    {
        FetchStage { pending: Vec::new(), batch_size, stopped: false }
    }

    /// Whether the stage has stopped.
    pub fn is_stopped(&self) -> (stopped: bool)
        ensures
            stopped == self@.stopped,
    {
        self.stopped
    }

    /// Takes in an event at the socket, with the exit flag as it stands. An
    /// item that arrived joins those that wait. A batch is passed on when it
    /// is full, or when nothing more arrived in time. On a failure of the
    /// socket, or when told to exit, the stage stops for good and passes on
    /// what waits, the item that just arrived included: nothing that
    /// entered the stage is dropped.
    pub fn on_event(&mut self, event: SocketEvent<T>, exit: bool) -> (action: FetchAction<T>)
        requires
            old(self).wf(),
        ensures
            final(self).wf(),
            final(self)@ == old(self)@.after(event, exit),
            match action {
                FetchAction::Stop(batch) => old(self)@.stops(event, exit) && batch@ == old(
                    self,
                )@.gathered(event),
                FetchAction::Forward(batch) => !old(self)@.stops(event, exit) && old(
                    self,
                )@.forwards(event) && batch@ == old(self)@.gathered(event),
                FetchAction::Continue => !old(self)@.stops(event, exit) && !old(self)@.forwards(
                    event,
                ),
            },
    {
        let (arrived, failed) = match event {
            SocketEvent::Arrived(item) => {
                self.pending.push(item);
                (true, false)
            },
            SocketEvent::TimedOut => (false, false),
            SocketEvent::Failed => (false, true),
        };
        if exit || self.stopped || failed {
            self.stopped = true;
            let mut batch: Vec<T> = Vec::new();
            batch.append(&mut self.pending);
            assert(batch@ =~= old(self)@.gathered(event));
            return FetchAction::Stop(batch);
        }
        if (arrived && self.pending.len() >= self.batch_size) || (!arrived && self.pending.len() > 0) {
            let mut batch: Vec<T> = Vec::new();
            batch.append(&mut self.pending);
            assert(batch@ =~= old(self)@.gathered(event));
            return FetchAction::Forward(batch);
        }
        FetchAction::Continue
    }
}

/// An event at the socket, with the exit flag as it stood then.
pub struct Moment<T> {
    pub event: SocketEvent<T>,
    pub exit: bool,
}

/// Whether the stage passes a batch on at this moment.
pub open spec fn passes<T>(stage: FetchView<T>, moment: Moment<T>) -> bool {
    stage.stops(moment.event, moment.exit) || stage.forwards(moment.event)
}

/// The stage after a sequence of moments.
pub open spec fn after_all<T>(stage: FetchView<T>, moments: Seq<Moment<T>>) -> FetchView<T>
    decreases moments.len(),
{
    if moments.len() == 0 {
        stage
    } else {
        after_all(stage, moments.drop_last()).after(moments.last().event, moments.last().exit)
    }
}

/// The items that arrived over a sequence of moments, in order.
pub open spec fn arrivals<T>(moments: Seq<Moment<T>>) -> Seq<T>
    decreases moments.len(),
{
    if moments.len() == 0 {
        Seq::empty()
    } else {
        match moments.last().event {
            SocketEvent::Arrived(item) => arrivals(moments.drop_last()).push(item),
            _ => arrivals(moments.drop_last()),
        }
    }
}

/// The items that the stage passed on over a sequence of moments, batch
/// after batch.
pub open spec fn passed_on<T>(stage: FetchView<T>, moments: Seq<Moment<T>>) -> Seq<T>
    decreases moments.len(),
{
    if moments.len() == 0 {
        Seq::empty()
    } else {
        let prior = after_all(stage, moments.drop_last());
        let earlier = passed_on(stage, moments.drop_last());
        if passes(prior, moments.last()) {
            earlier + prior.gathered(moments.last().event)
        } else {
            earlier
        }
    }
}

/// Nothing that entered the stage is dropped, and nothing overtakes:
/// whatever happens at the socket, the items passed on, followed by those
/// that wait, are the items that waited at first, followed by those that
/// arrived, in the same order. A full batch never waits.
pub proof fn law_fetch_loses_nothing<T>(stage: FetchView<T>, moments: Seq<Moment<T>>)
    requires
        stage.valid(),
    ensures
        after_all(stage, moments).valid(),
        passed_on(stage, moments) + after_all(stage, moments).pending == stage.pending + arrivals(
            moments,
        ),
        after_all(stage, moments).batch_size == stage.batch_size,
    decreases moments.len(),
{
    if moments.len() == 0 {
        assert(passed_on(stage, moments) + stage.pending =~= stage.pending + arrivals(moments));
    } else {
        law_fetch_loses_nothing(stage, moments.drop_last());
        let prior = after_all(stage, moments.drop_last());
        let earlier = passed_on(stage, moments.drop_last());
        let came = arrivals(moments.drop_last());
        let moment = moments.last();
        let last = after_all(stage, moments);
        assert(earlier + prior.pending == stage.pending + came);
        match moment.event {
            SocketEvent::Arrived(item) => {
                assert(earlier + prior.pending.push(item) =~= (earlier + prior.pending).push(item));
                assert(stage.pending + came.push(item) =~= (stage.pending + came).push(item));
            },
            _ => {},
        }
        assert(passed_on(stage, moments) + last.pending =~= stage.pending + arrivals(moments));
    }
}

} // verus!
