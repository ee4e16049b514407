//! The sequencer: it owns the hash chain and turns accepted transactions,
//! and the passing of time, into entries that each name the one before.

use crate::crypto::{hash_of_hash, sha256};
use crate::entry::{Entry, EntryView};
use crate::keys;
use crate::transaction::Transaction;
use vstd::prelude::*;

verus! {

/// The state of the sequencer as mathematical values.
pub struct RecorderView {
    /// The id of the entry emitted last, or the id that the chain starts at.
    pub last_id: keys::Hash,
    /// The hash that the hasher has reached.
    pub current: keys::Hash,
    /// How many hashes were computed since the last entry.
    pub num_hashes: u64,
    /// The tick interval in milliseconds, if the clock drives the sequencer.
    pub tick_duration: Option<u64>,
    /// How many ticks were emitted.
    pub num_ticks: u64,
}

/// One more, but never beyond the largest value.
pub open spec fn bump(count: u64) -> u64 {
    if count < u64::MAX {
        (count + 1) as u64
    } else {
        count
    }
}

impl RecorderView {
    /// The state after one more hash: the current hash is hashed and the
    /// count grows, up to the largest value.
    pub open spec fn stepped(self) -> RecorderView {
        RecorderView { current: sha256(self.current@), num_hashes: bump(self.num_hashes), ..self }
    }

    /// The state after the hasher made one step. Only a sequencer with a
    /// clock has a hasher that runs between the entries.
    pub open spec fn hashed(self) -> RecorderView {
        if self.tick_duration is Some {
            self.stepped()
        } else {
            self
        }
    }

    /// The entry that would be emitted now with these transactions.
    pub open spec fn entry(self, transactions: Seq<Transaction>, is_tick: bool) -> EntryView {
        EntryView { prev_hash: self.last_id, num_hashes: self.num_hashes, transactions, is_tick }
    }

    /// The state after `entry` was emitted: the chain continues at its id and
    /// the hash count starts again.
    pub open spec fn emitted(self, entry: EntryView) -> RecorderView {
        RecorderView {
            last_id: entry.id(),
            current: entry.id(),
            num_hashes: 0,
            ..self
        }
    }

    /// The state in which a batch of transactions is recorded: without a
    /// clock one fresh hash is computed first, with a clock the hasher's
    /// count stands as it is.
    pub open spec fn ready(self) -> RecorderView {
        if self.tick_duration is None {
            self.stepped()
        } else {
            self
        }
    }

    /// The entry that records a batch of transactions.
    pub open spec fn record_entry(self, transactions: Seq<Transaction>) -> EntryView {
        self.ready().entry(transactions, false)
    }

    /// The state after a batch of transactions was recorded.
    pub open spec fn recorded(self, transactions: Seq<Transaction>) -> RecorderView {
        self.ready().emitted(self.record_entry(transactions))
    }

    /// Whether a tick is due when `elapsed` milliseconds have passed since
    /// the start: the clock drives the sequencer and fewer ticks were emitted
    /// than whole intervals have passed. With an interval of zero a tick is
    /// always due.
    pub open spec fn tick_due(self, elapsed: u64) -> bool {
        match self.tick_duration {
            Some(interval) => interval == 0 || elapsed / interval > self.num_ticks,
            None => false,
        }
    }

    /// The tick entry that would be emitted now.
    pub open spec fn tick_entry(self) -> EntryView {
        self.entry(Seq::empty(), true)
    }

    /// The state after a tick was emitted.
    pub open spec fn ticked(self) -> RecorderView {
        RecorderView { num_ticks: bump(self.num_ticks), ..self.emitted(self.tick_entry()) }
    }
}

/// The sequencer.
pub struct Recorder {
    last_id: keys::Hash,
    current: keys::Hash,
    num_hashes: u64,
    tick_duration: Option<u64>,
    num_ticks: u64,
}

impl View for Recorder {
    type V = RecorderView;

    closed spec fn view(&self) -> RecorderView {
        RecorderView {
            last_id: self.last_id,
            current: self.current,
            num_hashes: self.num_hashes,
            tick_duration: self.tick_duration,
            num_ticks: self.num_ticks,
        }
    }
}

impl Recorder {
    /// A sequencer without a clock, whose chain starts at `start`.
    pub fn new(start: &keys::Hash) -> (recorder: Recorder)
        ensures
            recorder@ == (RecorderView {
                last_id: *start,
                current: *start,
                num_hashes: 0,
                tick_duration: None,
                num_ticks: 0,
            }),
    {
        Recorder {
            last_id: *start,
            current: *start,
            num_hashes: 0,
            tick_duration: None,
            num_ticks: 0,
        }
    }

    /// A sequencer driven by the clock, with a tick every `tick_ms`
    /// milliseconds, whose chain starts at `start`.
    pub fn new_with_clock(start: &keys::Hash, tick_ms: u64) -> (recorder: Recorder)
        ensures
            recorder@ == (RecorderView {
                last_id: *start,
                current: *start,
                num_hashes: 0,
                tick_duration: Some(tick_ms),
                num_ticks: 0,
            }),
    {
        Recorder {
            last_id: *start,
            current: *start,
            num_hashes: 0,
            tick_duration: Some(tick_ms),
            num_ticks: 0,
        }
    }

    /// The id that the next entry will name as the one before it.
    pub fn last_id(&self) -> (id: keys::Hash)
        ensures
            id == self@.last_id,
    {
        self.last_id
    }

    /// How many hashes were computed since the last entry.
    pub fn num_hashes(&self) -> (count: u64)
        ensures
            count == self@.num_hashes,
    {
        self.num_hashes
    }

    /// How many ticks were emitted.
    pub fn num_ticks(&self) -> (count: u64)
        ensures
            count == self@.num_ticks,
    {
        self.num_ticks
    }

    fn step(&mut self)
        ensures
            final(self)@ == old(self)@.stepped(),
    {
        self.current = hash_of_hash(&self.current);
        if self.num_hashes < u64::MAX {
            self.num_hashes = self.num_hashes + 1;
        }
    }

    /// One step of the hasher: with a clock, the current hash is hashed and
    /// the count grows, up to the largest value. Without a clock there is no
    /// hasher between the entries, and nothing changes.
    pub fn hash(&mut self)
        ensures
            final(self)@ == old(self)@.hashed(),
    {
        if self.tick_duration.is_some() {
            self.step();
        }
    }

    fn emit(&mut self, transactions: Vec<Transaction>, is_tick: bool) -> (entry: Entry)
        ensures
            entry@ == old(self)@.entry(transactions@, is_tick),
            final(self)@ == old(self)@.emitted(entry@),
    {
        let entry = Entry::new(&self.last_id, self.num_hashes, transactions, is_tick);
        let id = entry.id();
        self.last_id = id;
        self.current = id;
        self.num_hashes = 0;
        entry
    }

    /// Records a batch of accepted transactions as one entry that names the
    /// entry before it.
    pub fn record(&mut self, transactions: Vec<Transaction>) -> (entry: Entry)
        ensures
            entry@ == old(self)@.record_entry(transactions@),
            final(self)@ == old(self)@.recorded(transactions@),
    {
        if self.tick_duration.is_none() {
            self.step();
        }
        self.emit(transactions, false)
    }

    /// Emits a tick if one is due `elapsed_ms` milliseconds after the start,
    /// and nothing otherwise.
    pub fn tick(&mut self, elapsed_ms: u64) -> (entry: Option<Entry>)
        ensures
            entry is Some <==> old(self)@.tick_due(elapsed_ms),
            entry matches Some(e) ==> e@ == old(self)@.tick_entry() && final(self)@ == old(
                self,
            )@.ticked(),
            entry is None ==> final(self)@ == old(self)@,
    {
        let due = match self.tick_duration {
            Some(interval) => interval == 0 || elapsed_ms / interval > self.num_ticks,
            None => false,
        };
        if !due {
            return None;
        }
        let entry = self.emit(Vec::new(), true);
        if self.num_ticks < u64::MAX {
            self.num_ticks = self.num_ticks + 1;
        }
        Some(entry)
    }
}

} // verus!
