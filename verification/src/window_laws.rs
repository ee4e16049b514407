//! What holds of the window on every sequence of arrivals: the blobs leave
//! it in the order of their indices, without gaps.

use crate::packet::BlobView;
use crate::retransmit_stage::{ready_blobs, window_after};
use crate::window::{lemma_leading, Arrival, WindowView};
use vstd::prelude::*;

verus! {

/// An arrival keeps the window valid and leaves the cursor where it is.
pub proof fn lemma_insert_valid(window: WindowView, blob: BlobView)
    requires
        window.valid(),
    ensures
        window.insert(blob).valid(),
        window.insert(blob).consumed == window.consumed,
        window.insert(blob).capacity == window.capacity,
        window.arrival(blob) == Arrival::Inserted ==> window.insert(blob).holds(blob.index),
{
    let after = window.insert(blob);
    if window.arrival(blob) == Arrival::Inserted {
        let at = blob.index - window.consumed;
        assert(after.slots[at] == Some(blob));
        assert forall|k: int| 0 <= k < after.slots.len() implies (
        #[trigger] after.slots[k] matches Some(b) ==> b.index == after.consumed + k) by {
            if k != at && k < window.slots.len() {
                assert(after.slots[k] == window.slots[k]);
            }
        }
    }
}

/// Handing on the ready blobs keeps the window valid. The blobs handed on
/// have the indices from the cursor on, the cursor moves past them, and the
/// blob at the new cursor is missing.
pub proof fn lemma_delivered_valid(window: WindowView)
    requires
        window.valid(),
    ensures
        window.delivered().valid(),
        window.delivered().consumed == window.consumed + window.ready().len(),
        window.delivered().capacity == window.capacity,
        forall|k: int|
            0 <= k < window.ready().len() ==> (#[trigger] window.ready()[k]).index
                == window.consumed + k,
        !window.delivered().holds(window.delivered().consumed),
{
    lemma_leading(window.slots);
    let n = window.ready().len() as int;
    let after = window.delivered();
    assert forall|k: int| 0 <= k < n implies (#[trigger] window.ready()[k]).index
        == window.consumed + k by {
        assert(window.slots[k] == Some(window.ready()[k]));
    }
    assert forall|k: int| 0 <= k < after.slots.len() implies (
    #[trigger] after.slots[k] matches Some(b) ==> b.index == after.consumed + k) by {
        assert(after.slots[k] == window.slots[k + n]);
    }
    if after.slots.len() > 0 {
        assert(after.slots.last() == window.slots.last());
        assert(after.slots[0] == window.slots[n]);
    }
}

/// Window ordering: whatever arrives, in whatever order, the blobs that the
/// window hands on have the indices from the first cursor on, one after the
/// other: strictly increasing and without a gap. The cursor ends just past
/// the last of them.
pub proof fn law_window_order(window: WindowView, blobs: Seq<BlobView>)
    requires
        window.valid(),
    ensures
        window_after(window, blobs).valid(),
        window_after(window, blobs).capacity == window.capacity,
        window_after(window, blobs).consumed == window.consumed + ready_blobs(window, blobs).len(),
        forall|k: int|
            0 <= k < ready_blobs(window, blobs).len() ==> (#[trigger] ready_blobs(
                window,
                blobs,
            )[k]).index == window.consumed + k,
    decreases blobs.len(),
{
    if blobs.len() > 0 {
        law_window_order(window, blobs.drop_last());
        let prior = window_after(window, blobs.drop_last());
        lemma_insert_valid(prior, blobs.last());
        lemma_delivered_valid(prior.insert(blobs.last()));
    }
}

/// Nothing is handed on twice: a blob whose index lies behind the cursor
/// never enters the window again.
pub proof fn law_no_redelivery(window: WindowView, blob: BlobView)
    requires
        blob.index < window.consumed,
    ensures
        window.arrival(blob) == Arrival::Stale,
        window.insert(blob) == window,
{
}

} // verus!
