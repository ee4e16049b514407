//! What holds of the two pipelines together: a validator that replays the
//! blobs of a leader ends with the bank of the leader.

use crate::banking_stage::{accepted, lemma_batch_counts};
use crate::entry::{
    entry_well_formed, lemma_entry_bytes_injective, lemma_entry_layout, parsed_entry, EntryView,
};
use crate::ledger_model::BankView;
use crate::packet::{BlobView, Packet};
use crate::replicate_stage::{forks, replay_all, replay_payload, replayed};
use crate::sigverify_stage::batch_marks;
use crate::tpu::TpuView;
use crate::transaction::Transaction;
use vstd::prelude::*;

verus! {

/// Submitting only the transactions that the bank accepts leads to the same
/// bank as submitting all of them: what is turned down leaves no trace.
pub proof fn law_accepted_suffice(bank: BankView, txs: Seq<Transaction>)
    ensures
        bank.process_all(accepted(bank, txs)) == bank.process_all(txs),
        accepted(bank, txs).len() <= txs.len(),
    decreases txs.len(),
{
    if txs.len() > 0 {
        let earlier = txs.drop_last();
        law_accepted_suffice(bank, earlier);
        if bank.process_all(earlier).check(txs.last()) is Ok {
            assert(accepted(bank, earlier).push(txs.last()).drop_last() =~= accepted(bank, earlier));
        }
    }
}

/// An entry is read back from its serialized form.
pub proof fn law_entry_roundtrip(entry: EntryView)
    requires
        entry.transactions.len() <= u64::MAX,
    ensures
        entry_well_formed(entry.bytes_spec()),
        parsed_entry(entry.bytes_spec()) == entry,
{
    lemma_entry_layout(entry);
    lemma_entry_bytes_injective(entry, parsed_entry(entry.bytes_spec()));
}

/// Replaying the blob of a batch takes the bank of a validator to the bank
/// of the leader, if the two banks were the same before the batch.
pub proof fn law_batch_replicates(tpu: TpuView, packets: Seq<Packet>)
    requires
        tpu.valid(),
        packets.len() <= usize::MAX,
    ensures
        !forks(tpu.bank, tpu.blob(tpu.batch_entry(packets)).data),
        replay_payload(tpu.bank, tpu.blob(tpu.batch_entry(packets)).data) == tpu.processed(
            packets,
        ).bank,
{
    let entry = tpu.batch_entry(packets);
    lemma_batch_counts(tpu.bank, packets, batch_marks(packets, tpu.sigverify_disabled));
    law_accepted_suffice(tpu.bank, tpu.submitted(packets));
    law_entry_roundtrip(entry);
}

/// Replaying the blob of a tick takes the bank of a validator to the bank of
/// the leader, if the two banks were the same before the tick.
pub proof fn law_tick_replicates(tpu: TpuView)
    requires
        tpu.valid(),
    ensures
        !forks(tpu.bank, tpu.blob(tpu.recorder.tick_entry()).data),
        replay_payload(tpu.bank, tpu.blob(tpu.recorder.tick_entry()).data) == tpu.ticked().bank,
{
    law_entry_roundtrip(tpu.recorder.tick_entry());
}

/// Submitting transactions keeps the bank valid.
pub proof fn lemma_process_all_valid(bank: BankView, txs: Seq<Transaction>)
    requires
        bank.valid(),
    ensures
        bank.process_all(txs).valid(),
        bank.process_all(txs).last_id == bank.last_id,
    decreases txs.len(),
{
    if txs.len() > 0 {
        lemma_process_all_valid(bank, txs.drop_last());
        let prior = bank.process_all(txs.drop_last());
        if prior.check(txs.last()) is Ok {
            crate::bank_laws::law_transfer(prior, txs.last());
        }
    }
}

/// One thing that the leader does.
pub enum LeaderStep {
    /// A batch of packets goes through the pipeline.
    Batch(Seq<Packet>),
    /// The recorder is given the time, in milliseconds since the start.
    Tick(u64),
    /// The hasher makes one step.
    Hash,
}

/// Whether the step makes the leader emit a blob.
pub open spec fn emits(tpu: TpuView, step: LeaderStep) -> bool {
    !tpu.exit && match step {
        LeaderStep::Batch(packets) => true,
        LeaderStep::Tick(elapsed) => tpu.recorder.tick_due(elapsed),
        LeaderStep::Hash => false,
    }
}

/// The blob that the step makes the leader emit, if it emits one.
pub open spec fn emitted_blob(tpu: TpuView, step: LeaderStep) -> BlobView {
    match step {
        LeaderStep::Batch(packets) => tpu.blob(tpu.batch_entry(packets)),
        _ => tpu.blob(tpu.recorder.tick_entry()),
    }
}

/// The leader after one step.
pub open spec fn lead(tpu: TpuView, step: LeaderStep) -> TpuView {
    if tpu.exit {
        tpu
    } else {
        match step {
            LeaderStep::Batch(packets) => tpu.processed(packets),
            LeaderStep::Tick(elapsed) => if tpu.recorder.tick_due(elapsed) {
                tpu.ticked()
            } else {
                tpu
            },
            LeaderStep::Hash => TpuView { recorder: tpu.recorder.hashed(), ..tpu },
        }
    }
}

/// The leader after a sequence of steps.
pub open spec fn lead_all(tpu: TpuView, steps: Seq<LeaderStep>) -> TpuView
    decreases steps.len(),
{
    if steps.len() == 0 {
        tpu
    } else {
        lead(lead_all(tpu, steps.drop_last()), steps.last())
    }
}

/// The blobs that the leader emits over a sequence of steps, in order.
pub open spec fn blob_stream(tpu: TpuView, steps: Seq<LeaderStep>) -> Seq<BlobView>
    decreases steps.len(),
{
    if steps.len() == 0 {
        Seq::empty()
    } else {
        let prior = lead_all(tpu, steps.drop_last());
        let earlier = blob_stream(tpu, steps.drop_last());
        if emits(prior, steps.last()) {
            earlier.push(emitted_blob(prior, steps.last()))
        } else {
            earlier
        }
    }
}

/// Every batch among the steps has a number of packets that a list can
/// hold.
pub open spec fn batches_fit(steps: Seq<LeaderStep>) -> bool {
    forall|i: int|
        0 <= i < steps.len() ==> (#[trigger] steps[i] matches LeaderStep::Batch(packets)
            ==> packets.len() <= usize::MAX)
}

/// Determinism across the two pipelines: whatever the leader does, a
/// validator that starts from the bank of the leader and replays the blobs
/// of the leader in their order replays every one of them, and ends with the
/// bank of the leader: the same balances, signatures, recent ids, last id
/// and transaction count.
pub proof fn law_validator_follows(tpu: TpuView, steps: Seq<LeaderStep>)
    requires
        tpu.valid(),
        batches_fit(steps),
    ensures
        lead_all(tpu, steps).valid(),
        replayed(tpu.bank, blob_stream(tpu, steps)) == blob_stream(tpu, steps).len(),
        replay_all(tpu.bank, blob_stream(tpu, steps)) == lead_all(tpu, steps).bank,
    decreases steps.len(),
{
    if steps.len() > 0 {
        let earlier_steps = steps.drop_last();
        assert(batches_fit(earlier_steps)) by {
            assert forall|i: int| 0 <= i < earlier_steps.len() implies (
            #[trigger] earlier_steps[i] matches LeaderStep::Batch(packets) ==> packets.len()
                <= usize::MAX) by {
                assert(earlier_steps[i] == steps[i]);
            }
        }
        law_validator_follows(tpu, earlier_steps);
        let prior = lead_all(tpu, earlier_steps);
        let earlier = blob_stream(tpu, earlier_steps);
        let step = steps.last();
        assert(steps[steps.len() - 1] == step);
        if emits(prior, step) {
            let blob = emitted_blob(prior, step);
            assert(earlier.push(blob).drop_last() =~= earlier);
            match step {
                LeaderStep::Batch(packets) => {
                    law_batch_replicates(prior, packets);
                    lemma_process_all_valid(prior.bank, prior.submitted(packets));
                },
                _ => {
                    law_tick_replicates(prior);
                },
            }
        }
    }
}

/// Replaying a payload keeps the bank valid.
pub proof fn lemma_replay_payload_valid(bank: BankView, data: Seq<u8>)
    requires
        bank.valid(),
    ensures
        replay_payload(bank, data).valid(),
{
    if entry_well_formed(data) && !forks(bank, data) {
        lemma_process_all_valid(bank, parsed_entry(data).transactions);
    }
}

/// Replaying blobs keeps the bank valid.
pub proof fn lemma_replay_all_valid(bank: BankView, blobs: Seq<BlobView>)
    requires
        bank.valid(),
    ensures
        replay_all(bank, blobs).valid(),
    decreases blobs.len(),
{
    if blobs.len() > 0 {
        lemma_replay_all_valid(bank, blobs.drop_last());
        lemma_replay_payload_valid(replay_all(bank, blobs.drop_last()), blobs.last().data);
    }
}

} // verus!
