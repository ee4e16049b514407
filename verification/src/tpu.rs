//! The transaction processing unit: the pipeline of the leader. Packets are
//! verified, their transactions are submitted to the bank, the accepted ones
//! are recorded as an entry of the hash chain, and the entry is written to
//! the ledger and framed as a blob for the validators.
//!
//! ```text
//! packets -> verify -> bank -> record -> write -> blob
//! ```

use crate::bank::Bank;
use crate::banking_stage::{accepted, lemma_batch_counts, process_packets, submissions};
use crate::counter::{add_capped, capped_sum};
use crate::entry::EntryView;
use crate::keys::Pubkey;
use crate::ledger_model::BankView;
use crate::packet::{Blob, BlobView, Packet};
use crate::recorder::{Recorder, RecorderView};
use crate::sigverify_stage::{batch_marks, count_malformed, malformed, verify_batch};
use crate::transaction::Transaction;
use crate::write_stage::{ledger_record, Writer, WriterView};
use vstd::prelude::*;

verus! {

/// The state of the pipeline as mathematical values.
pub struct TpuView {
    pub bank: BankView,
    pub recorder: RecorderView,
    pub writer: WriterView,
    /// Whether packets are taken as verified without a check.
    pub sigverify_disabled: bool,
    /// How many packets were dropped because they carried no transaction.
    pub decode_errors: u64,
    /// How many transactions were dropped because their signature did not
    /// verify or the bank turned them down.
    pub rejected: u64,
    /// Whether the pipeline was closed.
    pub exit: bool,
}

impl TpuView {
    /// The invariant of the pipeline: the bank is valid, and the chain
    /// continues at the id that the bank registered last.
    pub open spec fn valid(self) -> bool {
        &&& self.bank.valid()
        &&& self.recorder.last_id == self.bank.last_id
    }

    /// The transactions that a batch of packets submits to the bank.
    pub open spec fn submitted(self, packets: Seq<Packet>) -> Seq<Transaction> {
        submissions(packets, batch_marks(packets, self.sigverify_disabled))
    }

    /// The entry that records a batch of packets: it carries the
    /// transactions that the bank accepts.
    pub open spec fn batch_entry(self, packets: Seq<Packet>) -> EntryView {
        self.recorder.record_entry(accepted(self.bank, self.submitted(packets)))
    }

    /// The blob that carries `entry`.
    pub open spec fn blob(self, entry: EntryView) -> BlobView {
        BlobView { index: self.writer.next_index, id: self.writer.id, data: entry.bytes_spec() }
    }

    /// The state after `entry` was written: the bank has registered its id,
    /// and the next blob has the next index.
    pub open spec fn written(self, entry: EntryView) -> TpuView {
        TpuView {
            bank: self.bank.register(entry.id()),
            writer: WriterView { next_index: (self.writer.next_index + 1) as u64, ..self.writer },
            ..self
        }
    }

    /// How many transactions of a batch are dropped: those of the packets
    /// that carry one and are not recorded.
    pub open spec fn dropped(self, packets: Seq<Packet>) -> nat {
        (packets.len() - malformed(packets) - accepted(self.bank, self.submitted(packets)).len()) as nat
    }

    /// The state after a batch of packets went through the pipeline.
    pub open spec fn processed(self, packets: Seq<Packet>) -> TpuView {
        TpuView {
            bank: self.bank.process_all(self.submitted(packets)),
            recorder: self.recorder.recorded(accepted(self.bank, self.submitted(packets))),
            decode_errors: capped_sum(self.decode_errors, malformed(packets)),
            rejected: capped_sum(self.rejected, self.dropped(packets)),
            ..self
        }.written(self.batch_entry(packets))
    }

    /// The state after a tick went through the pipeline.
    pub open spec fn ticked(self) -> TpuView {
        TpuView { recorder: self.recorder.ticked(), ..self }.written(self.recorder.tick_entry())
    }
}

/// The pipeline of the leader.
pub struct Tpu {
    bank: Bank,
    recorder: Recorder,
    writer: Writer,
    sigverify_disabled: bool,
    decode_errors: u64,
    rejected: u64,
    exit: bool,
}

impl View for Tpu {
    type V = TpuView;

    closed spec fn view(&self) -> TpuView {
        TpuView {
            bank: self.bank@,
            recorder: self.recorder@,
            writer: self.writer@,
            sigverify_disabled: self.sigverify_disabled,
            decode_errors: self.decode_errors,
            rejected: self.rejected,
            exit: self.exit,
        }
    }
}

impl Tpu {
    /// The invariant that every operation keeps.
    pub open spec fn wf(&self) -> bool {
        self@.valid()
    }

    /// A pipeline for the node `id` over `bank`. The chain starts at the id
    /// that the bank registered last and the first blob has the index 0.
    /// With a tick interval, in milliseconds, the clock drives the recorder.
    pub fn new(id: Pubkey, bank: Bank, tick_duration: Option<u64>, sigverify_disabled: bool) -> (tpu:
        Tpu)
        requires
            bank.wf(),
        ensures
            tpu.wf(),
            tpu@ == (TpuView {
                bank: bank@,
                recorder: RecorderView {
                    last_id: bank@.last_id,
                    current: bank@.last_id,
                    num_hashes: 0,
                    tick_duration,
                    num_ticks: 0,
                },
                writer: WriterView { id, next_index: 0 },
                sigverify_disabled,
                decode_errors: 0,
                rejected: 0,
                exit: false,
            }),
    {
        let start = bank.last_id();
        let recorder = match tick_duration {
            Some(interval) => Recorder::new_with_clock(&start, interval),
            None => Recorder::new(&start),
        };
        Tpu {
            bank,
            recorder,
            writer: Writer::new(id, 0),
            sigverify_disabled,
            decode_errors: 0,
            rejected: 0,
            exit: false,
        }
    }

    /// The bank of the pipeline.
    pub fn bank(&self) -> (bank: &Bank)
        ensures
            bank@ == self@.bank,
    {
        &self.bank
    }

    /// Whether the pipeline was closed.
    pub fn is_closed(&self) -> (closed: bool)
        ensures
            closed == self@.exit,
    {
        self.exit
    }

    /// How many packets were dropped because they carried no transaction.
    pub fn decode_errors(&self) -> (count: u64)
        ensures
            count == self@.decode_errors,
    {
        self.decode_errors
    }

    /// How many transactions were dropped because their signature did not
    /// verify or the bank turned them down.
    pub fn rejected(&self) -> (count: u64)
        ensures
            count == self@.rejected,
    {
        self.rejected
    }

    /// Whether one more blob can be numbered.
    pub fn has_room(&self) -> (room: bool)
        ensures
            room == (self@.writer.next_index < u64::MAX),
    {
        self.writer.has_room()
    }

    /// Closes the pipeline: from now on it takes in packets and ticks
    /// without producing anything.
    pub fn close(&mut self)
        ensures
            final(self)@ == (TpuView { exit: true, ..old(self)@ }),
    {
        self.exit = true;
    }

    /// One step of the hasher of the recorder. A closed pipeline does not
    /// hash.
    pub fn hash(&mut self)
        ensures
            final(self)@ == if old(self)@.exit {
                old(self)@
            } else {
                TpuView { recorder: old(self)@.recorder.hashed(), ..old(self)@ }
            },
    {
        if !self.exit {
            self.recorder.hash();
        }
    }

    fn write_entry(&mut self, entry: &crate::entry::Entry, ledger: &mut Vec<u8>) -> (blob: Blob)
        requires
            old(self).bank.wf(),
            old(self)@.writer.next_index < u64::MAX,
            old(self)@.recorder.last_id == entry@.id(),
        ensures
            final(self).wf(),
            final(self)@ == old(self)@.written(entry@),
            blob@ == old(self)@.blob(entry@),
            final(ledger)@ == old(ledger)@ + ledger_record(entry@),
    {
        let id = self.recorder.last_id();
        self.bank.register_entry_id(&id);
        self.writer.write(entry, ledger)
    }

    /// Takes a batch of packets through the pipeline. The packets are
    /// verified, their transactions are submitted to the bank in the order
    /// of arrival, and those that the bank accepted are recorded as one
    /// entry. The id of the entry is registered with the bank, its record is
    /// appended to the ledger, and the blob that carries it is returned.
    /// What was dropped on the way is counted. A closed pipeline produces
    /// nothing and changes nothing.
    pub fn process_packets(&mut self, packets: &Vec<Packet>, ledger: &mut Vec<u8>) -> (blob: Option<
        Blob,
    >)
        requires
            old(self).wf(),
            old(self)@.writer.next_index < u64::MAX,
        ensures
            final(self).wf(),
            blob is None <==> old(self)@.exit,
            old(self)@.exit ==> final(self)@ == old(self)@ && final(ledger)@ == old(ledger)@,
            !old(self)@.exit ==> {
                let entry = old(self)@.batch_entry(packets@);
                &&& final(self)@ == old(self)@.processed(packets@)
                &&& blob matches Some(b) && b@ == old(self)@.blob(entry)
                &&& final(ledger)@ == old(ledger)@ + ledger_record(entry)
            },
    {
        if self.exit {
            return None;
        }
        let marks = verify_batch(packets, self.sigverify_disabled);
        let strays = count_malformed(packets);
        let taken = process_packets(&mut self.bank, packets, &marks);
        proof {
            lemma_batch_counts(old(self)@.bank, packets@, marks@);
        }
        self.decode_errors = add_capped(self.decode_errors, strays);
        self.rejected = add_capped(self.rejected, packets.len() - strays - taken.len());
        let entry = self.recorder.record(taken);
        let blob = self.write_entry(&entry, ledger);
        Some(blob)
    }

    /// Gives the recorder the time. If a tick is due `elapsed_ms`
    /// milliseconds after the start, the tick entry goes the way of every
    /// entry: its id is registered with the bank, its record is appended to
    /// the ledger, and the blob that carries it is returned. A closed
    /// pipeline produces nothing and changes nothing.
    pub fn tick(&mut self, elapsed_ms: u64, ledger: &mut Vec<u8>) -> (blob: Option<Blob>)
        requires
            old(self).wf(),
            old(self)@.writer.next_index < u64::MAX,
        ensures
            final(self).wf(),
            blob is Some <==> !old(self)@.exit && old(self)@.recorder.tick_due(elapsed_ms),
            blob is None ==> final(self)@ == old(self)@ && final(ledger)@ == old(ledger)@,
            blob matches Some(b) ==> {
                let entry = old(self)@.recorder.tick_entry();
                &&& final(self)@ == old(self)@.ticked()
                &&& b@ == old(self)@.blob(entry)
                &&& final(ledger)@ == old(ledger)@ + ledger_record(entry)
            },
    {
        if self.exit {
            return None;
        }
        match self.recorder.tick(elapsed_ms) {
            Some(entry) => {
                let blob = self.write_entry(&entry, ledger);
                Some(blob)
            },
            None => None,
        }
    }
}

} // verus!
