//! The reorder buffer of a validator. Blobs arrive in any order; the window
//! keeps those ahead of the cursor and hands them on in the order of their
//! indices, without gaps.

use crate::packet::{blob_views, Blob, BlobView};
use std::collections::VecDeque;
use vstd::prelude::*;

verus! {

/// What became of a blob that arrived at the window.
#[derive(Clone, Copy, Debug, PartialEq, Eq, Structural)]
pub enum Arrival {
    /// The blob is new and was put into the window.
    Inserted,
    /// The index of the blob lies behind the cursor; the blob was dropped.
    Stale,
    /// A blob with this index is in the window already; the blob was dropped.
    Duplicate,
    /// The index of the blob lies beyond the window; the blob was dropped.
    Overrun,
}

/// The window as mathematical values. Slot `k` is for the blob whose index
/// is `consumed + k`.
pub struct WindowView {
    /// The slots ahead of the cursor, up to the last blob that arrived.
    pub slots: Seq<Option<BlobView>>,
    /// The index of the next blob to hand on.
    pub consumed: u64,
    /// How many slots the window may hold.
    pub capacity: usize,
}

/// `n` empty slots.
pub open spec fn empty_slots(n: int) -> Seq<Option<BlobView>> {
    Seq::new(n as nat, |i: int| None)
}

/// The blobs at the front of the slots, up to the first empty slot.
pub open spec fn leading(slots: Seq<Option<BlobView>>) -> Seq<BlobView>
    decreases slots.len(),
{
    if slots.len() > 0 && slots[0] is Some {
        seq![slots[0]->0] + leading(slots.drop_first())
    } else {
        Seq::empty()
    }
}

/// The indices of the empty slots, in increasing order, where the first slot
/// has the index `base`.
pub open spec fn gaps(slots: Seq<Option<BlobView>>, base: int) -> Seq<u64>
    decreases slots.len(),
{
    if slots.len() == 0 {
        Seq::empty()
    } else if slots.last() is None {
        gaps(slots.drop_last(), base).push((base + slots.len() - 1) as u64)
    } else {
        gaps(slots.drop_last(), base)
    }
}

impl WindowView {
    /// The invariant of the window.
    pub open spec fn valid(self) -> bool {
        &&& self.slots.len() <= self.capacity
        &&& self.consumed + self.slots.len() <= u64::MAX
        &&& forall|k: int|
            0 <= k < self.slots.len() ==> (#[trigger] self.slots[k] matches Some(blob)
                ==> blob.index == self.consumed + k)
        &&& self.slots.len() > 0 ==> self.slots.last() is Some
    }

    /// One past the highest index that arrived, or the cursor if nothing is
    /// waiting.
    pub open spec fn received(self) -> int {
        self.consumed + self.slots.len()
    }

    /// Whether the blob with this index waits in the window.
    pub open spec fn holds(self, index: u64) -> bool {
        self.consumed <= index < self.received() && self.slots[index - self.consumed] is Some
    }

    /// What becomes of a blob that arrives now.
    pub open spec fn arrival(self, blob: BlobView) -> Arrival {
        if blob.index < self.consumed {
            Arrival::Stale
        } else if blob.index - self.consumed >= self.capacity || blob.index == u64::MAX {
            Arrival::Overrun
        } else if self.holds(blob.index) {
            Arrival::Duplicate
        } else {
            Arrival::Inserted
        }
    }

    /// The window after a blob arrived: it is put into its slot if it is
    /// new, and the window stays as it is otherwise.
    pub open spec fn insert(self, blob: BlobView) -> WindowView {
        let at = blob.index - self.consumed;
        if self.arrival(blob) != Arrival::Inserted {
            self
        } else if at < self.slots.len() {
            WindowView { slots: self.slots.update(at, Some(blob)), ..self }
        } else {
            WindowView {
                slots: self.slots + empty_slots(at - self.slots.len()) + seq![Some(blob)],
                ..self
            }
        }
    }

    /// The blobs that can be handed on now: those at the cursor and after it,
    /// up to the first that is missing.
    pub open spec fn ready(self) -> Seq<BlobView> {
        leading(self.slots)
    }

    /// The window after the ready blobs were handed on.
    pub open spec fn delivered(self) -> WindowView {
        let n = self.ready().len();
        WindowView {
            slots: self.slots.skip(n as int),
            consumed: (self.consumed + n) as u64,
            ..self
        }
    }

    /// The indices between the cursor and the highest index that arrived
    /// whose blobs are missing, in increasing order.
    pub open spec fn missing(self) -> Seq<u64> {
        gaps(self.slots, self.consumed as int)
    }
}

/// The ready blobs are as many as the slots at most, they have the indices
/// from the cursor on, and the slot after them is empty.
pub proof fn lemma_leading(slots: Seq<Option<BlobView>>)
    ensures
        leading(slots).len() <= slots.len(),
        forall|k: int| 0 <= k < leading(slots).len() ==> slots[k] == Some(#[trigger] leading(slots)[k]),
        leading(slots).len() < slots.len() ==> slots[leading(slots).len() as int] is None,
    decreases slots.len(),
{
    if slots.len() > 0 && slots[0] is Some {
        let rest = slots.drop_first();
        lemma_leading(rest);
        assert forall|k: int| 0 <= k < leading(slots).len() implies slots[k] == Some(
            #[trigger] leading(slots)[k],
        ) by {
            if k > 0 {
                assert(leading(slots)[k] == leading(rest)[k - 1]);
                assert(rest[k - 1] == slots[k]);
            }
        }
        if leading(slots).len() < slots.len() {
            assert(rest[leading(rest).len() as int] == slots[leading(slots).len() as int]);
        }
    }
}

/// A slot as a mathematical value.
pub open spec fn slot_view(slot: Option<Blob>) -> Option<BlobView> {
    match slot {
        Some(blob) => Some(blob@),
        None => None,
    }
}

/// The slots as mathematical values.
pub open spec fn slot_views(slots: Seq<Option<Blob>>) -> Seq<Option<BlobView>> {
    Seq::new(slots.len(), |i: int| slot_view(slots[i]))
}

/// The reorder buffer.
pub struct Window {
    slots: VecDeque<Option<Blob>>,
    consumed: u64,
    capacity: usize,
}

impl View for Window {
    type V = WindowView;

    closed spec fn view(&self) -> WindowView {
        WindowView {
            slots: slot_views(self.slots@),
            consumed: self.consumed,
            capacity: self.capacity,
        }
    }
}

impl Window {
    /// The invariant that every operation keeps.
    pub open spec fn wf(&self) -> bool {
        self@.valid()
    }

    /// An empty window of `capacity` slots whose cursor stands at `start`.
    pub fn new(capacity: usize, start: u64) -> (window: Window)
        ensures
            window.wf(),
            window@ == (WindowView { slots: Seq::empty(), consumed: start, capacity }),
    {
        let window = Window { slots: VecDeque::new(), consumed: start, capacity };
        assert(window@.slots =~= Seq::empty());
        window
    }

    /// The index of the next blob to hand on.
    pub fn consumed(&self) -> (index: u64)
        ensures
            index == self@.consumed,
    {
        self.consumed
    }

    /// One past the highest index that arrived, or the cursor if nothing is
    /// waiting.
    pub fn received(&self) -> (index: u64)
        requires
            self.wf(),
        ensures
            index == self@.received(),
    {
        self.consumed + self.slots.len() as u64
    }

    /// Takes in a blob that arrived. A new blob within the window is kept;
    /// one behind the cursor, beyond the window, or already there is
    /// dropped.
    pub fn insert(&mut self, blob: Blob) -> (arrival: Arrival)
        requires
            old(self).wf(),
        ensures
            final(self).wf(),
            arrival == old(self)@.arrival(blob@),
            final(self)@ == old(self)@.insert(blob@),
    {
        if blob.index < self.consumed {
            return Arrival::Stale;
        }
        let gap: u64 = blob.index - self.consumed;
        if gap >= self.capacity as u64 || blob.index == u64::MAX {
            return Arrival::Overrun;
        }
        let at: usize = gap as usize;
        let ghost before = self.slots@;
        if at < self.slots.len() {
            if self.slots[at].is_some() {
                return Arrival::Duplicate;
            }
            let _ = self.slots.remove(at);
            self.slots.insert(at, Some(blob));
            proof {
                assert(self.slots@ =~= before.update(at as int, Some(blob)));
                assert(self@.slots =~= old(self)@.insert(blob@).slots);
            }
        } else {
            while self.slots.len() < at
                invariant
                    before.len() <= self.slots@.len() <= at,
                    self.slots@ =~= before + Seq::new(
                        (self.slots@.len() - before.len()) as nat,
                        |i: int| None::<Blob>,
                    ),
                    self.consumed == old(self).consumed,
                    self.capacity == old(self).capacity,
                decreases at - self.slots@.len(),
            {
                self.slots.push_back(None);
            }
            self.slots.push_back(Some(blob));
            proof {
                assert(self@.slots =~= old(self)@.insert(blob@).slots);
            }
        }
        Arrival::Inserted
    }

    /// Hands on the blobs that are ready: those at the cursor and after it,
    /// in the order of their indices, up to the first that is missing. The
    /// cursor moves past them.
    pub fn deliver(&mut self) -> (blobs: Vec<Blob>)
        requires
            old(self).wf(),
        ensures
            final(self).wf(),
            blob_views(blobs@) == old(self)@.ready(),
            final(self)@ == old(self)@.delivered(),
            forall|k: int| 0 <= k < blobs@.len() ==> blobs@[k]@.index == old(self)@.consumed + k,
            !final(self)@.holds(final(self)@.consumed),
    {
        let mut blobs: Vec<Blob> = Vec::new();
        proof {
            assert(blob_views(blobs@) =~= Seq::empty());
            assert(self@.slots.skip(0) =~= self@.slots);
        }
        while self.slots.len() > 0 && self.slots[0].is_some()
            invariant
                self.wf(),
                self.capacity == old(self).capacity,
                blobs@.len() <= old(self)@.slots.len(),
                self.consumed == old(self).consumed + blobs@.len(),
                self@.slots == old(self)@.slots.skip(blobs@.len() as int),
                old(self)@.ready() == blob_views(blobs@) + leading(self@.slots),
                forall|k: int| 0 <= k < blobs@.len() ==> blobs@[k]@.index == old(self)@.consumed + k,
            decreases self.slots@.len(),
        {
            let ghost slots = self@.slots;
            let ghost earlier = blobs@;
            let front = self.slots.pop_front().unwrap();
            let blob = front.unwrap();
            assert(slots[0] == Some(blob@));
            blobs.push(blob);
            self.consumed = self.consumed + 1;
            proof {
                assert(self@.slots =~= slots.drop_first());
                assert(self@.slots =~= old(self)@.slots.skip(blobs@.len() as int));
                assert(blob_views(blobs@) =~= blob_views(earlier) + seq![blob@]);
                assert(old(self)@.ready() =~= blob_views(blobs@) + leading(self@.slots));
                assert forall|k: int| 0 <= k < self@.slots.len() implies (
                #[trigger] self@.slots[k] matches Some(b) ==> b.index == self@.consumed + k) by {
                    assert(self@.slots[k] == slots[k + 1]);
                }
                if self@.slots.len() > 0 {
                    assert(self@.slots.last() == slots.last());
                }
            }
        }
        proof {
            assert(leading(self@.slots) =~= Seq::empty());
            assert(old(self)@.ready() =~= blob_views(blobs@));
        }
        blobs
    }

    /// The indices between the cursor and the highest index that arrived
    /// whose blobs are missing, in increasing order.
    pub fn missing(&self) -> (indices: Vec<u64>)
        requires
            self.wf(),
        ensures
            indices@ == self@.missing(),
    {
        let mut indices: Vec<u64> = Vec::new();
        let mut k: usize = 0;
        proof {
            assert(self@.slots.take(0) =~= Seq::empty());
        }
        while k < self.slots.len()
            invariant
                self.wf(),
                k <= self.slots@.len(),
                indices@ == gaps(self@.slots.take(k as int), self.consumed as int),
            decreases self.slots@.len() - k,
        {
            proof {
                let next = self@.slots.take(k + 1);
                assert(next.drop_last() =~= self@.slots.take(k as int));
                assert(next.last() == self@.slots[k as int]);
            }
            if self.slots[k].is_none() {
                indices.push(self.consumed + k as u64);
            }
            k += 1;
        }
        proof {
            assert(self@.slots.take(k as int) =~= self@.slots);
        }
        indices
    }

    /// The repairs to ask for: the missing indices, once the window spans
    /// more than `threshold` indices, and none before.
    pub fn repair_requests(&self, threshold: u64) -> (indices: Vec<u64>)
        requires
            self.wf(),
        ensures
            indices@ == if self@.slots.len() > threshold {
                self@.missing()
            } else {
                Seq::empty()
            },
    {
        if self.slots.len() as u64 > threshold {
            self.missing()
        } else {
            Vec::new()
        }
    }
}

} // verus!
