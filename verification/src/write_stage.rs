//! The stage that appends entries to the ledger and frames them as blobs for
//! broadcast.

use crate::entry::{Entry, EntryView};
use crate::keys::Pubkey;
use crate::packet::{Blob, BlobView};
use crate::wire::{le64, put_bytes, put_u64};
use vstd::prelude::*;

verus! {

/// The record of an entry in the ledger: the length of the serialized entry,
/// then the serialized entry.
pub open spec fn ledger_record(entry: EntryView) -> Seq<u8> {
    le64(entry.bytes_spec().len() as u64) + entry.bytes_spec()
}

/// The state of the writer as mathematical values.
pub struct WriterView {
    /// The node that signs off the blobs.
    pub id: Pubkey,
    /// The index of the next blob.
    pub next_index: u64,
}

/// The writer: it numbers the blobs of this node.
pub struct Writer {
    id: Pubkey,
    next_index: u64,
}

impl View for Writer {
    type V = WriterView;

    closed spec fn view(&self) -> WriterView {
        WriterView { id: self.id, next_index: self.next_index }
    }
}

impl Writer {
    /// A writer for the node `id` whose first blob has the index `start`.
    pub fn new(id: Pubkey, start: u64) -> (writer: Writer)
        ensures
            writer@ == (WriterView { id, next_index: start }),
    {
        Writer { id, next_index: start }
    }

    /// The index of the next blob.
    pub fn next_index(&self) -> (index: u64)
        ensures
            index == self@.next_index,
    {
        self.next_index
    }

    /// Whether one more blob can be numbered.
    pub fn has_room(&self) -> (room: bool)
        ensures
            room == (self@.next_index < u64::MAX),
    {
        self.next_index < u64::MAX
    }

    /// Appends the record of `entry` to the ledger and returns the blob that
    /// carries the entry. The blob has the next index, and the index after it
    /// is one higher.
    pub fn write(&mut self, entry: &Entry, ledger: &mut Vec<u8>) -> (blob: Blob)
        requires
            old(self)@.next_index < u64::MAX,
        ensures
            final(ledger)@ == old(ledger)@ + ledger_record(entry@),
            blob@ == (BlobView {
                index: old(self)@.next_index,
                id: old(self)@.id,
                data: entry@.bytes_spec(),
            }),
            final(self)@ == (WriterView {
                next_index: (old(self)@.next_index + 1) as u64,
                ..old(self)@
            }),
    {
        let data = entry.to_bytes();
        put_u64(ledger, data.len() as u64);
        put_bytes(ledger, data.as_slice());
        assert(ledger@ =~= old(ledger)@ + ledger_record(entry@));
        let blob = Blob::new(self.next_index, self.id, data);
        self.next_index = self.next_index + 1;
        blob
    }
}

} // verus!
