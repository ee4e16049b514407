//! Entries: the links of the hash chain. An entry names the entry before it,
//! counts the hashes since then, and carries the transactions that were
//! accepted in between.

use crate::crypto::{hash, sha256};
use crate::keys;
use crate::transaction::{lemma_transaction_bytes_injective, lemma_transaction_fields, Transaction};
use crate::wire::{get_u64, le64, lemma_le64_roundtrip, lemma_word_at_encodes, put_bytes, put_u64, word_at};
use vstd::prelude::*;
use vstd::slice::slice_subrange;

verus! {

/// Length of the fixed part of a serialized entry.
pub const ENTRY_HEADER_BYTES: usize = 49;

/// One link of the chain.
#[derive(Clone, Debug, PartialEq, Eq)]
pub struct Entry {
    /// The id of the entry before this one.
    pub prev_hash: keys::Hash,
    /// How many hashes were computed since the entry before this one.
    pub num_hashes: u64,
    /// The transactions that this entry records; none in a tick.
    pub transactions: Vec<Transaction>,
    /// Whether this entry only marks the passing of time.
    pub is_tick: bool,
}

/// An entry as a mathematical value.
pub struct EntryView {
    pub prev_hash: keys::Hash,
    pub num_hashes: u64,
    pub transactions: Seq<Transaction>,
    pub is_tick: bool,
}

/// The signatures of the transactions, one after the other.
pub open spec fn fingerprint(txs: Seq<Transaction>) -> Seq<u8>
    decreases txs.len(),
{
    if txs.len() == 0 {
        Seq::empty()
    } else {
        fingerprint(txs.drop_last()) + txs.last().signature@
    }
}

/// The serialized transactions, one after the other.
pub open spec fn transactions_bytes(txs: Seq<Transaction>) -> Seq<u8>
    decreases txs.len(),
{
    if txs.len() == 0 {
        Seq::empty()
    } else {
        transactions_bytes(txs.drop_last()) + txs.last().bytes_spec()
    }
}

impl EntryView {
    /// What is hashed to identify the entry: the id before it, the hash
    /// count, and the fingerprint of its transactions.
    pub open spec fn id_input(self) -> Seq<u8> {
        self.prev_hash@ + le64(self.num_hashes) + fingerprint(self.transactions)
    }

    /// The id of the entry.
    pub open spec fn id(self) -> keys::Hash {
        sha256(self.id_input())
    }

    /// The fixed part of the serialized entry.
    pub open spec fn header_bytes(self) -> Seq<u8> {
        self.prev_hash@ + le64(self.num_hashes) + seq![if self.is_tick { 1u8 } else { 0u8 }]
            + le64(self.transactions.len() as u64)
    }

    /// The serialized entry.
    pub open spec fn bytes_spec(self) -> Seq<u8> {
        self.header_bytes() + transactions_bytes(self.transactions)
    }
}

impl View for Entry {
    type V = EntryView;

    open spec fn view(&self) -> EntryView {
        EntryView {
            prev_hash: self.prev_hash,
            num_hashes: self.num_hashes,
            transactions: self.transactions@,
            is_tick: self.is_tick,
        }
    }
}

/// Whether `data` has the shape of a serialized entry: the fixed part is
/// there, the tick flag is 0 or 1, and the rest is as many transactions as
/// the count says.
pub open spec fn entry_well_formed(data: Seq<u8>) -> bool {
    &&& data.len() >= ENTRY_HEADER_BYTES
    &&& data[40] <= 1
    &&& word_at(data, 41) * 168 + ENTRY_HEADER_BYTES == data.len()
}

/// The entry that a well-formed byte string spells.
pub open spec fn parsed_entry(data: Seq<u8>) -> EntryView {
    choose|entry: EntryView| entry.transactions.len() <= u64::MAX && entry.bytes_spec() == data
}

/// The serialized transactions take 168 bytes each.
pub proof fn lemma_transactions_bytes_len(txs: Seq<Transaction>)
    ensures
        transactions_bytes(txs).len() == 168 * txs.len(),
    decreases txs.len(),
{
    if txs.len() > 0 {
        lemma_transactions_bytes_len(txs.drop_last());
        lemma_transaction_fields(txs.last());
    }
}

/// Transactions can be read off their serialized form.
pub proof fn lemma_transactions_bytes_injective(a: Seq<Transaction>, b: Seq<Transaction>)
    requires
        transactions_bytes(a) == transactions_bytes(b),
    ensures
        a == b,
    decreases a.len(),
{
    lemma_transactions_bytes_len(a);
    lemma_transactions_bytes_len(b);
    if a.len() > 0 {
        lemma_transactions_bytes_len(a.drop_last());
        lemma_transactions_bytes_len(b.drop_last());
        lemma_transaction_fields(a.last());
        lemma_transaction_fields(b.last());
        let n = 168 * (a.len() - 1);
        let whole = transactions_bytes(a);
        assert(whole.subrange(0, n) =~= transactions_bytes(a.drop_last()));
        assert(whole.subrange(0, n) =~= transactions_bytes(b.drop_last()));
        assert(whole.subrange(n, n + 168) =~= a.last().bytes_spec());
        assert(whole.subrange(n, n + 168) =~= b.last().bytes_spec());
        lemma_transaction_bytes_injective(a.last(), b.last());
        lemma_transactions_bytes_injective(a.drop_last(), b.drop_last());
        assert(a =~= a.drop_last().push(a.last()));
        assert(b =~= b.drop_last().push(b.last()));
    } else {
        assert(a =~= b);
    }
}

impl Entry {
    /// Puts the four fields together.
    pub fn new(prev_hash: &keys::Hash, num_hashes: u64, transactions: Vec<Transaction>, is_tick: bool) -> (entry:
        Entry)
        ensures
            entry@ == (EntryView {
                prev_hash: *prev_hash,
                num_hashes,
                transactions: transactions@,
                is_tick,
            }),
    {
        Entry { prev_hash: *prev_hash, num_hashes, transactions, is_tick }
    }

    /// The id of the entry: the hash of the id before it, the hash count and
    /// the signatures of its transactions.
    pub fn id(&self) -> (id: keys::Hash)
        ensures
            id == self@.id(),
    {
        let input = self.id_input();
        hash(input.as_slice())
    }

    /// What is hashed to identify the entry: the id before it, the hash
    /// count in little-endian bytes, and the signatures of its transactions.
    pub fn id_input(&self) -> (input: Vec<u8>)
        ensures
            input@ == self@.id_input(),
    {
        let mut input: Vec<u8> = Vec::new();
        put_bytes(&mut input, self.prev_hash.bytes.as_slice());
        put_u64(&mut input, self.num_hashes);
        let ghost prefix = input@;
        let mut i: usize = 0;
        while i < self.transactions.len()
            invariant
                i <= self.transactions@.len(),
                prefix == self.prev_hash@ + le64(self.num_hashes),
                input@ == prefix + fingerprint(self.transactions@.take(i as int)),
            decreases self.transactions@.len() - i,
        {
            put_bytes(&mut input, self.transactions[i].signature.bytes.as_slice());
            proof {
                let next = self.transactions@.take(i + 1);
                assert(next.drop_last() =~= self.transactions@.take(i as int));
                assert(input@ =~= prefix + fingerprint(next));
            }
            i += 1;
        }
        proof {
            assert(self.transactions@.take(i as int) =~= self.transactions@);
        }
        input
    }

    /// Serializes the entry: the id before it, the hash count, the tick flag,
    /// the number of transactions, and the transactions.
    pub fn to_bytes(&self) -> (data: Vec<u8>)
        ensures
            data@ == self@.bytes_spec(),
            entry_well_formed(data@),
    {
        let mut data: Vec<u8> = Vec::new();
        put_bytes(&mut data, self.prev_hash.bytes.as_slice());
        put_u64(&mut data, self.num_hashes);
        data.push(if self.is_tick { 1u8 } else { 0u8 });
        put_u64(&mut data, self.transactions.len() as u64);
        assert(data@ =~= self@.header_bytes());
        let mut i: usize = 0;
        while i < self.transactions.len()
            invariant
                i <= self.transactions@.len(),
                data@ == self@.header_bytes() + transactions_bytes(self.transactions@.take(i as int)),
            decreases self.transactions@.len() - i,
        {
            let bytes = self.transactions[i].to_bytes();
            put_bytes(&mut data, bytes.as_slice());
            proof {
                let next = self.transactions@.take(i + 1);
                assert(next.drop_last() =~= self.transactions@.take(i as int));
                assert(data@ =~= self@.header_bytes() + transactions_bytes(next));
            }
            i += 1;
        }
        proof {
            assert(self.transactions@.take(i as int) =~= self.transactions@);
            lemma_entry_layout(self@);
        }
        data
    }

    /// Whether `data` has the shape of a serialized entry.
    pub fn is_well_formed(data: &[u8]) -> (well_formed: bool)
        ensures
            well_formed == entry_well_formed(data@),
    {
        let len: usize = data.len();
        if len < ENTRY_HEADER_BYTES {
            return false;
        }
        let flag: u8 = data[40];
        let count: u64 = get_u64(data, 41);
        let room: usize = (len - ENTRY_HEADER_BYTES) / 168;
        flag <= 1 && (len - ENTRY_HEADER_BYTES) % 168 == 0 && count == room as u64
    }

    /// Reads a serialized entry. Exactly the well-formed byte strings are
    /// accepted, and the result is the entry that they spell.
    pub fn from_bytes(data: &[u8]) -> (parsed: Option<Entry>)
        ensures
            parsed is Some <==> entry_well_formed(data@),
            parsed matches Some(entry) ==> entry@.bytes_spec() == data@,
            parsed matches Some(entry) ==> entry@ == parsed_entry(data@),
    {
        if !Entry::is_well_formed(data) {
            return None;
        }
        let len: usize = data.len();
        let flag: u8 = data[40];
        let room: usize = (len - ENTRY_HEADER_BYTES) / 168;
        let prev_hash = keys::Hash::new(slice_subrange(data, 0, 32));
        let num_hashes: u64 = get_u64(data, 32);
        let mut transactions: Vec<Transaction> = Vec::new();
        let mut i: usize = 0;
        while i < room
            invariant
                i <= room,
                len == data@.len(),
                room * 168 + ENTRY_HEADER_BYTES == len,
                transactions@.len() == i,
                transactions_bytes(transactions@) == data@.subrange(
                    ENTRY_HEADER_BYTES as int,
                    ENTRY_HEADER_BYTES + 168 * i,
                ),
            decreases room - i,
        {
            let start: usize = ENTRY_HEADER_BYTES + 168 * i;
            let tx = Transaction::from_bytes(slice_subrange(data, start, start + 168)).unwrap();
            let ghost earlier = transactions@;
            transactions.push(tx);
            proof {
                assert(transactions@.drop_last() =~= earlier);
                assert(transactions_bytes(transactions@) =~= data@.subrange(
                    ENTRY_HEADER_BYTES as int,
                    ENTRY_HEADER_BYTES + 168 * (i + 1),
                ));
            }
            i += 1;
        }
        let entry = Entry { prev_hash, num_hashes, transactions, is_tick: flag == 1 };
        proof {
            lemma_word_at_encodes(data@, 32);
            lemma_word_at_encodes(data@, 41);
            assert(entry@.header_bytes() =~= data@.subrange(0, ENTRY_HEADER_BYTES as int));
            assert(entry@.bytes_spec() =~= data@);
            assert(entry@.transactions.len() == room);
            lemma_entry_bytes_injective(entry@, parsed_entry(data@));
        }
        Some(entry)
    }
}

/// Where the fields stand in a serialized entry.
pub proof fn lemma_entry_layout(entry: EntryView)
    requires
        entry.transactions.len() <= u64::MAX,
    ensures
        entry.header_bytes().len() == ENTRY_HEADER_BYTES,
        entry.bytes_spec().len() == ENTRY_HEADER_BYTES + 168 * entry.transactions.len(),
        entry.bytes_spec().subrange(0, 32) == entry.prev_hash@,
        word_at(entry.bytes_spec(), 32) == entry.num_hashes,
        entry.bytes_spec()[40] == (if entry.is_tick { 1u8 } else { 0u8 }),
        word_at(entry.bytes_spec(), 41) == entry.transactions.len(),
        entry.bytes_spec().subrange(ENTRY_HEADER_BYTES as int, entry.bytes_spec().len() as int)
            == transactions_bytes(entry.transactions),
        entry_well_formed(entry.bytes_spec()),
{
    let b = entry.bytes_spec();
    let count = entry.transactions.len() as u64;
    lemma_le64_roundtrip(entry.num_hashes);
    lemma_le64_roundtrip(count);
    lemma_transactions_bytes_len(entry.transactions);
    keys::lemma_hash_ext(entry.prev_hash, entry.prev_hash);
    assert(b.subrange(0, 32) =~= entry.prev_hash@);
    assert(b.subrange(32, 40) =~= le64(entry.num_hashes));
    assert(le64(entry.num_hashes).subrange(0, 8) =~= le64(entry.num_hashes));
    assert(b.subrange(41, 49) =~= le64(count));
    assert(le64(count).subrange(0, 8) =~= le64(count));
    assert(b.subrange(ENTRY_HEADER_BYTES as int, b.len() as int) =~= transactions_bytes(
        entry.transactions,
    ));
}

/// Serialization loses nothing: two entries with the same bytes are the same
/// entry.
pub proof fn lemma_entry_bytes_injective(a: EntryView, b: EntryView)
    requires
        a.transactions.len() <= u64::MAX,
        b.transactions.len() <= u64::MAX,
        a.bytes_spec() == b.bytes_spec(),
    ensures
        a == b,
{
    lemma_entry_layout(a);
    lemma_entry_layout(b);
    keys::lemma_hash_ext(a.prev_hash, b.prev_hash);
    lemma_transactions_bytes_injective(a.transactions, b.transactions);
}

} // verus!
