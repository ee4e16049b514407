//! The ledger: the records of the entries, one after the other, each made
//! of the length of the serialized entry and the serialized entry.

use crate::entry::{
    entry_well_formed, lemma_entry_bytes_injective, lemma_entry_layout, parsed_entry, Entry,
    EntryView,
};
use crate::wire::{get_u64, le64, lemma_le64_roundtrip, word_at};
use crate::write_stage::ledger_record;
use vstd::prelude::*;
use vstd::slice::slice_subrange;

verus! {

/// Length of the length prefix of a record.
pub const RECORD_PREFIX_BYTES: usize = 8;

/// The entries of a list as mathematical values.
pub open spec fn entry_views(entries: Seq<Entry>) -> Seq<EntryView> {
    Seq::new(entries.len(), |i: int| entries[i]@)
}

/// The ledger that holds the entries, in order.
pub open spec fn ledger_bytes(entries: Seq<EntryView>) -> Seq<u8>
    decreases entries.len(),
{
    if entries.len() == 0 {
        Seq::empty()
    } else {
        ledger_bytes(entries.drop_last()) + ledger_record(entries.last())
    }
}

/// Whether `data` starts with a record: a length, that many bytes after it,
/// and these bytes a well-formed entry.
pub open spec fn starts_with_record(data: Seq<u8>) -> bool {
    &&& data.len() >= RECORD_PREFIX_BYTES
    &&& word_at(data, 0) <= data.len() - RECORD_PREFIX_BYTES
    &&& entry_well_formed(data.subrange(8, 8 + word_at(data, 0)))
}

/// The entries that a ledger holds, read from the front, if the ledger is
/// made of records from its first byte to its last.
pub open spec fn ledger_entries(data: Seq<u8>) -> Option<Seq<EntryView>>
    decreases data.len(),
{
    if data.len() == 0 {
        Some(Seq::empty())
    } else if !starts_with_record(data) {
        None
    } else {
        let end = 8 + word_at(data, 0);
        match ledger_entries(data.skip(end)) {
            Some(rest) => Some(seq![parsed_entry(data.subrange(8, end))] + rest),
            None => None,
        }
    }
}

/// Whether the serialized entry has a length that a record can state.
pub open spec fn fits_record(entry: EntryView) -> bool {
    49 + 168 * entry.transactions.len() <= u64::MAX
}

/// Reads a ledger from the front. A ledger that is made of records from
/// its first byte to its last gives its entries, in order; any other gives
/// nothing.
pub fn read_ledger(data: &[u8]) -> (parsed: Option<Vec<Entry>>)
    ensures
        parsed is Some <==> ledger_entries(data@) is Some,
        parsed matches Some(entries) ==> ledger_entries(data@) == Some(entry_views(entries@)),
{
    let len: usize = data.len();
    let mut entries: Vec<Entry> = Vec::new();
    let mut at: usize = 0;
    proof {
        assert(data@.skip(0) =~= data@);
        assert(entry_views(entries@) =~= Seq::empty());
        lemma_prepend_nothing(ledger_entries(data@));
    }
    while at < len
        invariant
            at <= len,
            len == data@.len(),
            ledger_entries(data@) == prepend(entry_views(entries@), ledger_entries(data@.skip(at as int))),
        decreases len - at,
    {
        let ghost rest = data@.skip(at as int);
        if len - at < RECORD_PREFIX_BYTES {
            return None;
        }
        let size: u64 = get_u64(data, at);
        proof {
            assert(rest.subrange(0, 8) =~= data@.subrange(at as int, at + 8));
        }
        if size > (len - at - RECORD_PREFIX_BYTES) as u64 {
            return None;
        }
        let start: usize = at + RECORD_PREFIX_BYTES;
        let end: usize = start + size as usize;
        proof {
            assert(rest.subrange(8, 8 + size) =~= data@.subrange(start as int, end as int));
            assert(rest.skip(8 + size) =~= data@.skip(end as int));
        }
        match Entry::from_bytes(slice_subrange(data, start, end)) {
            Some(entry) => {
                let ghost earlier = entry_views(entries@);
                entries.push(entry);
                proof {
                    assert(entry_views(entries@) =~= earlier.push(entry@));
                    lemma_prepend_one(earlier, entry@, ledger_entries(data@.skip(end as int)));
                }
                at = end;
            },
            None => {
                return None;
            },
        }
    }
    proof {
        assert(data@.skip(at as int) =~= Seq::empty());
        assert(entry_views(entries@) + Seq::<EntryView>::empty() =~= entry_views(entries@));
    }
    Some(entries)
}

/// The entries read so far, followed by those that the rest of the ledger
/// holds, if the rest can be read.
pub open spec fn prepend(earlier: Seq<EntryView>, rest: Option<Seq<EntryView>>) -> Option<
    Seq<EntryView>,
> {
    match rest {
        Some(entries) => Some(earlier + entries),
        None => None,
    }
}

proof fn lemma_prepend_nothing(rest: Option<Seq<EntryView>>)
    ensures
        prepend(Seq::empty(), rest) == rest,
{
    if let Some(entries) = rest {
        assert(Seq::<EntryView>::empty() + entries =~= entries);
    }
}

proof fn lemma_prepend_one(earlier: Seq<EntryView>, entry: EntryView, rest: Option<Seq<EntryView>>)
    ensures
        prepend(earlier, prepend(seq![entry], rest)) == prepend(earlier.push(entry), rest),
{
    if let Some(entries) = rest {
        assert(earlier + (seq![entry] + entries) =~= earlier.push(entry) + entries);
    }
}

/// A ledger that starts with the record of an entry is read as that entry,
/// followed by what the rest of the ledger holds.
pub proof fn lemma_read_record(entry: EntryView, rest: Seq<u8>)
    requires
        fits_record(entry),
    ensures
        ledger_entries(ledger_record(entry) + rest) == prepend(seq![entry], ledger_entries(rest)),
{
    let bytes = entry.bytes_spec();
    let data = ledger_record(entry) + rest;
    lemma_entry_layout(entry);
    lemma_le64_roundtrip(bytes.len() as u64);
    assert(data.subrange(0, 8) =~= le64(bytes.len() as u64));
    assert(le64(bytes.len() as u64).subrange(0, 8) =~= le64(bytes.len() as u64));
    assert(word_at(data, 0) == bytes.len());
    let end = 8 + bytes.len() as int;
    assert(data.subrange(8, end) =~= bytes);
    assert(data.skip(end) =~= rest);
    lemma_entry_bytes_injective(entry, parsed_entry(bytes));
}

/// The ledger of a list of entries is the record of the first, followed by
/// the ledger of the others.
pub proof fn lemma_ledger_front(entries: Seq<EntryView>)
    requires
        entries.len() > 0,
    ensures
        ledger_bytes(entries) == ledger_record(entries[0]) + ledger_bytes(entries.drop_first()),
    decreases entries.len(),
{
    if entries.len() == 1 {
        assert(entries.drop_last() =~= Seq::empty());
        assert(entries.drop_first() =~= Seq::empty());
        assert(ledger_bytes(entries) =~= ledger_record(entries[0]) + ledger_bytes(
            entries.drop_first(),
        ));
    } else {
        lemma_ledger_front(entries.drop_last());
        assert(entries.drop_last().drop_first() =~= entries.drop_first().drop_last());
        assert(ledger_bytes(entries) =~= ledger_record(entries[0]) + ledger_bytes(
            entries.drop_first(),
        ));
    }
}

/// What was written can be read: the ledger of a list of entries is read
/// as these entries.
pub proof fn law_ledger_roundtrip(entries: Seq<EntryView>)
    requires
        forall|i: int| 0 <= i < entries.len() ==> fits_record(#[trigger] entries[i]),
    ensures
        ledger_entries(ledger_bytes(entries)) == Some(entries),
    decreases entries.len(),
{
    if entries.len() > 0 {
        let rest = entries.drop_first();
        assert forall|i: int| 0 <= i < rest.len() implies fits_record(#[trigger] rest[i]) by {
            assert(rest[i] == entries[i + 1]);
        }
        law_ledger_roundtrip(rest);
        lemma_ledger_front(entries);
        lemma_read_record(entries[0], ledger_bytes(rest));
        assert(seq![entries[0]] + rest =~= entries);
    }
}

} // verus!
