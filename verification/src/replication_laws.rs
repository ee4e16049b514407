//! What holds of a leader and a validator across the network: whatever the
//! order in which the blobs of the leader arrive, and however often, the
//! validator replays them in the order in which the leader emitted them, and
//! ends with the bank of the leader.

use crate::ledger_model::BankView;
use crate::packet::BlobView;
use crate::pipeline_laws::{
    batches_fit, blob_stream, law_validator_follows, lead_all, lemma_replay_all_valid, LeaderStep,
};
use crate::replicate_stage::{lemma_replayed_bound, lemma_stays_forked, replay_all, replayed};
use crate::retransmit_stage::{ready_blobs, window_after};
use crate::tpu::TpuView;
use crate::tvu::TvuView;
use crate::window::{lemma_leading, Arrival, WindowView};
use crate::window_laws::{law_window_order, lemma_delivered_valid, lemma_insert_valid};
use vstd::prelude::*;

verus! {

/// Whether `blob` is the blob of the stream that has its index, where the
/// first blob of the stream has the index `start`.
pub open spec fn in_stream(stream: Seq<BlobView>, start: int, blob: BlobView) -> bool {
    start <= blob.index < start + stream.len() && stream[blob.index - start] == blob
}

/// Whether all the blobs are blobs of the stream.
pub open spec fn all_in_stream(stream: Seq<BlobView>, start: int, blobs: Seq<BlobView>) -> bool {
    forall|j: int| 0 <= j < blobs.len() ==> in_stream(stream, start, #[trigger] blobs[j])
}

/// Whether all the blobs that wait in the window are blobs of the stream.
pub open spec fn window_in_stream(window: WindowView, stream: Seq<BlobView>, start: int) -> bool {
    forall|k: int|
        0 <= k < window.slots.len() ==> (#[trigger] window.slots[k] matches Some(blob)
            ==> in_stream(stream, start, blob))
}

/// The window puts the stream back in order: if only blobs of the stream
/// arrive, in whatever order and however often, the blobs that the window
/// hands on are a stretch of the stream, from the cursor on.
pub proof fn law_window_restores_stream(
    window: WindowView,
    stream: Seq<BlobView>,
    start: int,
    blobs: Seq<BlobView>,
)
    requires
        window.valid(),
        start <= window.consumed <= start + stream.len(),
        window_in_stream(window, stream, start),
        all_in_stream(stream, start, blobs),
    ensures
        window_after(window, blobs).valid(),
        window_in_stream(window_after(window, blobs), stream, start),
        window.consumed <= window_after(window, blobs).consumed <= start + stream.len(),
        ready_blobs(window, blobs) == stream.subrange(
            window.consumed - start,
            window_after(window, blobs).consumed - start,
        ),
    decreases blobs.len(),
{
    if blobs.len() == 0 {
        assert(ready_blobs(window, blobs) =~= stream.subrange(
            window.consumed - start,
            window.consumed - start,
        ));
    } else {
        let earlier = blobs.drop_last();
        assert(all_in_stream(stream, start, earlier)) by {
            assert forall|j: int| 0 <= j < earlier.len() implies in_stream(
                stream,
                start,
                #[trigger] earlier[j],
            ) by {
                assert(earlier[j] == blobs[j]);
            }
        }
        law_window_restores_stream(window, stream, start, earlier);
        law_window_order(window, earlier);
        let prior = window_after(window, earlier);
        let blob = blobs.last();
        assert(in_stream(stream, start, blob)) by {
            assert(blobs[blobs.len() - 1] == blob);
        }
        let taken = prior.insert(blob);
        lemma_insert_valid(prior, blob);
        assert(window_in_stream(taken, stream, start)) by {
            assert forall|k: int| 0 <= k < taken.slots.len() implies (
            #[trigger] taken.slots[k] matches Some(b) ==> in_stream(stream, start, b)) by {
                if prior.arrival(blob) == Arrival::Inserted {
                    let at = blob.index - prior.consumed;
                    if k != at && k < prior.slots.len() {
                        assert(taken.slots[k] == prior.slots[k]);
                    }
                }
            }
        }
        lemma_delivered_valid(taken);
        lemma_leading(taken.slots);
        let handed = taken.ready();
        let after = taken.delivered();
        assert forall|k: int| 0 <= k < handed.len() implies handed[k] == stream[taken.consumed
            - start + k] by {
            assert(taken.slots[k] == Some(handed[k]));
            assert(handed[k].index == taken.consumed + k);
        }
        if handed.len() > 0 {
            assert(in_stream(stream, start, handed[handed.len() - 1])) by {
                assert(taken.slots[handed.len() - 1] == Some(handed[handed.len() - 1]));
            }
        }
        assert(window_in_stream(after, stream, start)) by {
            assert forall|k: int| 0 <= k < after.slots.len() implies (
            #[trigger] after.slots[k] matches Some(b) ==> in_stream(stream, start, b)) by {
                assert(after.slots[k] == taken.slots[k + handed.len()]);
            }
        }
        assert(handed =~= stream.subrange(taken.consumed - start, after.consumed - start));
        assert(ready_blobs(window, blobs) =~= stream.subrange(
            window.consumed - start,
            after.consumed - start,
        ));
    }
}

/// Replaying one stretch of blobs after another is replaying both in one
/// go, as long as the first stretch does not fork.
pub proof fn lemma_replay_in_stretches(bank: BankView, first: Seq<BlobView>, second: Seq<BlobView>)
    requires
        replayed(bank, first) == first.len(),
    ensures
        replay_all(bank, first + second) == replay_all(replay_all(bank, first), second),
        replayed(bank, first + second) == first.len() + replayed(
            replay_all(bank, first),
            second,
        ),
    decreases second.len(),
{
    let middle = replay_all(bank, first);
    if second.len() == 0 {
        assert(first + second =~= first);
    } else {
        lemma_replay_in_stretches(bank, first, second.drop_last());
        lemma_replayed_bound(middle, second.drop_last());
        assert((first + second).drop_last() =~= first + second.drop_last());
        assert((first + second).last() == second.last());
    }
}

/// A stream that is replayed to its end is replayed up to each of its
/// blobs.
pub proof fn lemma_replayed_prefix(bank: BankView, stream: Seq<BlobView>, n: int)
    requires
        replayed(bank, stream) == stream.len(),
        0 <= n <= stream.len(),
    ensures
        replayed(bank, stream.take(n)) == n,
{
    lemma_replayed_bound(bank, stream.take(n));
    if replayed(bank, stream.take(n)) < n {
        lemma_stays_forked(bank, stream, n);
    }
}

/// The blobs of the leader carry the indices from the first free index on,
/// as long as the indices last.
pub proof fn law_stream_is_numbered(tpu: TpuView, steps: Seq<LeaderStep>)
    requires
        tpu.writer.next_index + steps.len() <= u64::MAX,
    ensures
        blob_stream(tpu, steps).len() <= steps.len(),
        lead_all(tpu, steps).writer.next_index == tpu.writer.next_index + blob_stream(
            tpu,
            steps,
        ).len(),
        lead_all(tpu, steps).writer.id == tpu.writer.id,
        forall|i: int|
            0 <= i < blob_stream(tpu, steps).len() ==> (#[trigger] blob_stream(tpu, steps)[i]).index
                == tpu.writer.next_index + i,
        forall|i: int|
            0 <= i < blob_stream(tpu, steps).len() ==> (#[trigger] blob_stream(tpu, steps)[i]).id
                == tpu.writer.id,
    decreases steps.len(),
{
    if steps.len() > 0 {
        law_stream_is_numbered(tpu, steps.drop_last());
        let earlier = blob_stream(tpu, steps.drop_last());
        let all = blob_stream(tpu, steps);
        assert forall|i: int| 0 <= i < all.len() implies (#[trigger] all[i]).index
            == tpu.writer.next_index + i && all[i].id == tpu.writer.id by {
            if i < earlier.len() {
                assert(all[i] == earlier[i]);
            }
        }
    }
}

/// Whether the validator has followed the leader so far: it has replayed
/// the blobs of the stream up to the cursor of its window, without a fork,
/// and only blobs of the stream wait in its window.
pub open spec fn in_sync(bank: BankView, stream: Seq<BlobView>, start: int, tvu: TvuView) -> bool {
    &&& tvu.valid()
    &&& !tvu.exit
    &&& start <= tvu.window.consumed <= start + stream.len()
    &&& window_in_stream(tvu.window, stream, start)
    &&& tvu.bank == replay_all(bank, stream.take(tvu.window.consumed - start))
}

/// Replication: take a leader and a validator that start from the same
/// bank, the window of the validator empty and its cursor at the first free
/// index of the leader. Whatever the leader does, and in whatever order and
/// however often its blobs arrive at the validator, the validator stays in
/// step: it never sees a fork, and its bank is the bank that the leader had
/// when it emitted the blob before the cursor. Once the cursor has passed
/// the last blob, the bank of the validator is the bank of the leader.
pub proof fn law_replication(
    tpu: TpuView,
    steps: Seq<LeaderStep>,
    tvu: TvuView,
    arrivals: Seq<BlobView>,
)
    requires
        tpu.valid(),
        batches_fit(steps),
        tpu.writer.next_index + steps.len() <= u64::MAX,
        in_sync(tpu.bank, blob_stream(tpu, steps), tpu.writer.next_index as int, tvu),
        all_in_stream(blob_stream(tpu, steps), tpu.writer.next_index as int, arrivals),
    ensures
        in_sync(
            tpu.bank,
            blob_stream(tpu, steps),
            tpu.writer.next_index as int,
            tvu.received(arrivals),
        ),
        tvu.received(arrivals).window.consumed == tpu.writer.next_index + blob_stream(
            tpu,
            steps,
        ).len() ==> tvu.received(arrivals).bank == lead_all(tpu, steps).bank,
{
    let stream = blob_stream(tpu, steps);
    let start = tpu.writer.next_index as int;
    let after = tvu.received(arrivals);
    let from = tvu.window.consumed - start;
    let to = after.window.consumed - start;
    law_validator_follows(tpu, steps);
    law_window_restores_stream(tvu.window, stream, start, arrivals);
    let handed = ready_blobs(tvu.window, arrivals);
    assert(handed == stream.subrange(from, to));
    lemma_replayed_prefix(tpu.bank, stream, from);
    lemma_replayed_prefix(tpu.bank, stream, to);
    assert(stream.take(from) + handed =~= stream.take(to));
    lemma_replay_in_stretches(tpu.bank, stream.take(from), handed);
    lemma_replay_all_valid(tvu.bank, handed);
    if to == stream.len() {
        assert(stream.take(to) =~= stream);
    }
}

/// A validator that starts from the bank of the leader, with an empty
/// window whose cursor stands at the first free index of the leader, is in
/// step with the leader.
pub proof fn law_replication_starts(tpu: TpuView, steps: Seq<LeaderStep>, tvu: TvuView)
    requires
        tpu.valid(),
        tvu.bank == tpu.bank,
        !tvu.exit,
        tvu.window.slots.len() == 0,
        tvu.window.consumed == tpu.writer.next_index,
    ensures
        in_sync(tpu.bank, blob_stream(tpu, steps), tpu.writer.next_index as int, tvu),
{
    let stream = blob_stream(tpu, steps);
    assert(stream.take(0) =~= Seq::empty());
}

} // verus!
