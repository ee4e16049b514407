//! The two kinds of datagram: packets, which bring transactions from
//! clients, and blobs, which carry entries between nodes.

use crate::keys;
use crate::keys::Pubkey;
use crate::transaction::{
    lemma_transaction_bytes_injective, lemma_transaction_fields, Transaction, TRANSACTION_BYTES,
};
use crate::wire::{get_u64, le64, lemma_le64_roundtrip, lemma_word_at_encodes, put_bytes, put_u64, word_at};
use vstd::prelude::*;
use vstd::slice::slice_subrange;

verus! {

/// Length of the length prefix of a packet.
pub const PACKET_PREFIX_BYTES: usize = 8;

/// Length of a packet that carries one transaction.
pub const PACKET_BYTES: usize = 176;

/// Length of the fixed part of a blob.
pub const BLOB_HEADER_BYTES: usize = 48;

/// A datagram as it came from a client.
#[derive(Clone, Debug, PartialEq, Eq)]
pub struct Packet {
    pub data: Vec<u8>,
}

/// A datagram that carries a payload between nodes.
#[derive(Clone, Debug, PartialEq, Eq)]
pub struct Blob {
    /// The place of the blob in its sender's stream.
    pub index: u64,
    /// The sender.
    pub id: Pubkey,
    /// The payload.
    pub data: Vec<u8>,
}

/// A blob as a mathematical value.
pub struct BlobView {
    pub index: u64,
    pub id: Pubkey,
    pub data: Seq<u8>,
}

impl View for Blob {
    type V = BlobView;

    open spec fn view(&self) -> BlobView {
        BlobView { index: self.index, id: self.id, data: self.data@ }
    }
}

/// The blobs of a list as mathematical values.
pub open spec fn blob_views(blobs: Seq<Blob>) -> Seq<BlobView> {
    Seq::new(blobs.len(), |i: int| blobs[i]@)
}

impl BlobView {
    /// The serialized blob: index, sender, payload size, payload.
    pub open spec fn bytes_spec(self) -> Seq<u8> {
        le64(self.index) + self.id@ + le64(self.data.len() as u64) + self.data
    }
}

/// The bytes of a packet that carries `tx`: the length of the serialized
/// transaction, then the serialized transaction.
pub open spec fn packet_bytes(tx: Transaction) -> Seq<u8> {
    le64(TRANSACTION_BYTES as u64) + tx.bytes_spec()
}

/// Whether `data` starts with a length prefix that announces one
/// transaction, followed by at least that many bytes.
pub open spec fn packet_well_formed(data: Seq<u8>) -> bool {
    &&& data.len() >= PACKET_BYTES
    &&& word_at(data, 0) == TRANSACTION_BYTES
}

/// The transaction that a well-formed packet carries.
pub open spec fn packet_transaction(data: Seq<u8>) -> Transaction {
    choose|tx: Transaction| packet_bytes(tx) == data.subrange(0, PACKET_BYTES as int)
}

/// Whether `data` starts with a blob header whose payload size fits in what
/// follows.
pub open spec fn blob_well_formed(data: Seq<u8>) -> bool {
    &&& data.len() >= BLOB_HEADER_BYTES
    &&& word_at(data, 40) <= data.len() - BLOB_HEADER_BYTES
}

impl Packet {
    /// The packet that carries `tx`.
    pub fn from_transaction(tx: &Transaction) -> (packet: Packet)
        ensures
            packet.data@ == packet_bytes(*tx),
            packet_well_formed(packet.data@),
    {
        let mut data: Vec<u8> = Vec::new();
        put_u64(&mut data, TRANSACTION_BYTES as u64);
        let bytes = tx.to_bytes();
        put_bytes(&mut data, bytes.as_slice());
        proof {
            lemma_le64_roundtrip(TRANSACTION_BYTES as u64);
            assert(data@.subrange(0, 8) =~= le64(TRANSACTION_BYTES as u64));
            assert(le64(TRANSACTION_BYTES as u64).subrange(0, 8) =~= le64(TRANSACTION_BYTES as u64));
        }
        Packet { data }
    }

    /// Whether the packet carries a transaction.
    pub fn is_well_formed(&self) -> (well_formed: bool)
        ensures
            well_formed == packet_well_formed(self.data@),
    {
        let data = self.data.as_slice();
        data.len() >= PACKET_BYTES && get_u64(data, 0) == TRANSACTION_BYTES as u64
    }

    /// Reads the transaction at the start of the packet. Exactly the
    /// well-formed packets are accepted; bytes after the transaction are
    /// ignored.
    pub fn transaction(&self) -> (parsed: Option<Transaction>)
        ensures
            parsed is Some <==> packet_well_formed(self.data@),
            parsed matches Some(tx) ==> packet_bytes(tx) == self.data@.subrange(0, PACKET_BYTES as int),
            parsed matches Some(tx) ==> tx == packet_transaction(self.data@),
    {
        let data = self.data.as_slice();
        if data.len() < PACKET_BYTES {
            return None;
        }
        let announced: u64 = get_u64(data, 0);
        if announced != TRANSACTION_BYTES as u64 {
            return None;
        }
        let parsed = Transaction::from_bytes(slice_subrange(data, PACKET_PREFIX_BYTES, PACKET_BYTES));
        proof {
            lemma_word_at_encodes(data@, 0);
            let tx = parsed.unwrap();
            assert(packet_bytes(tx) =~= data@.subrange(0, PACKET_BYTES as int));
            lemma_packet_bytes_injective(tx, packet_transaction(data@));
        }
        parsed
    }
}

impl Blob {
    /// Puts the three fields together.
    pub fn new(index: u64, id: Pubkey, data: Vec<u8>) -> (blob: Blob)
        ensures
            blob@ == (BlobView { index, id, data: data@ }),
    {
        Blob { index, id, data }
    }

    /// A second blob with the same contents.
    pub fn duplicate(&self) -> (copy: Blob)
        ensures
            copy@ == self@,
    {
        let mut data: Vec<u8> = Vec::new();
        put_bytes(&mut data, self.data.as_slice());
        assert(data@ =~= self.data@);
        Blob { index: self.index, id: self.id, data }
    }

    /// Serializes the blob.
    pub fn to_bytes(&self) -> (bytes: Vec<u8>)
        ensures
            bytes@ == self@.bytes_spec(),
            blob_well_formed(bytes@),
    {
        let mut bytes: Vec<u8> = Vec::new();
        put_u64(&mut bytes, self.index);
        put_bytes(&mut bytes, self.id.bytes.as_slice());
        put_u64(&mut bytes, self.data.len() as u64);
        put_bytes(&mut bytes, self.data.as_slice());
        proof {
            lemma_blob_layout(self@);
        }
        bytes
    }

    /// Reads a serialized blob. Exactly the well-formed byte strings are
    /// accepted; what follows the payload is ignored.
    pub fn from_bytes(bytes: &[u8]) -> (parsed: Option<Blob>)
        ensures
            parsed is Some <==> blob_well_formed(bytes@),
            parsed matches Some(blob) ==> blob@.bytes_spec() == bytes@.subrange(
                0,
                BLOB_HEADER_BYTES + blob@.data.len(),
            ),
    {
        let len: usize = bytes.len();
        if len < BLOB_HEADER_BYTES {
            return None;
        }
        let size: u64 = get_u64(bytes, 40);
        if size > (len - BLOB_HEADER_BYTES) as u64 {
            return None;
        }
        let size: usize = size as usize;
        let index: u64 = get_u64(bytes, 0);
        let id = Pubkey::new(slice_subrange(bytes, 8, 40));
        let mut data: Vec<u8> = Vec::new();
        put_bytes(&mut data, slice_subrange(bytes, BLOB_HEADER_BYTES, BLOB_HEADER_BYTES + size));
        let blob = Blob { index, id, data };
        proof {
            lemma_word_at_encodes(bytes@, 0);
            lemma_word_at_encodes(bytes@, 40);
            assert(blob@.bytes_spec() =~= bytes@.subrange(0, BLOB_HEADER_BYTES + blob@.data.len()));
        }
        Some(blob)
    }
}

/// Where the fields stand in a serialized blob.
pub proof fn lemma_blob_layout(blob: BlobView)
    requires
        blob.data.len() <= u64::MAX,
    ensures
        blob.bytes_spec().len() == BLOB_HEADER_BYTES + blob.data.len(),
        word_at(blob.bytes_spec(), 0) == blob.index,
        blob.bytes_spec().subrange(8, 40) == blob.id@,
        word_at(blob.bytes_spec(), 40) == blob.data.len(),
        blob.bytes_spec().subrange(BLOB_HEADER_BYTES as int, blob.bytes_spec().len() as int)
            == blob.data,
        blob_well_formed(blob.bytes_spec()),
{
    let b = blob.bytes_spec();
    let size = blob.data.len() as u64;
    lemma_le64_roundtrip(blob.index);
    lemma_le64_roundtrip(size);
    assert(b.subrange(0, 8) =~= le64(blob.index));
    assert(le64(blob.index).subrange(0, 8) =~= le64(blob.index));
    assert(b.subrange(8, 40) =~= blob.id@);
    assert(b.subrange(40, 48) =~= le64(size));
    assert(le64(size).subrange(0, 8) =~= le64(size));
    assert(b.subrange(BLOB_HEADER_BYTES as int, b.len() as int) =~= blob.data);
}

/// Serialization loses nothing: two blobs with the same bytes are the same
/// blob.
pub proof fn law_blob_bytes_injective(a: BlobView, b: BlobView)
    requires
        a.data.len() <= u64::MAX,
        b.data.len() <= u64::MAX,
        a.bytes_spec() == b.bytes_spec(),
    ensures
        a == b,
{
    lemma_blob_layout(a);
    lemma_blob_layout(b);
    keys::lemma_pubkey_ext(a.id, b.id);
}

/// Two transactions with the same packet bytes are the same transaction.
pub proof fn lemma_packet_bytes_injective(a: Transaction, b: Transaction)
    requires
        packet_bytes(a) == packet_bytes(b),
    ensures
        a == b,
{
    lemma_transaction_fields(a);
    lemma_transaction_fields(b);
    lemma_le64_roundtrip(TRANSACTION_BYTES as u64);
    assert(packet_bytes(a).subrange(8, 176) =~= a.bytes_spec());
    assert(packet_bytes(b).subrange(8, 176) =~= b.bytes_spec());
    lemma_transaction_bytes_injective(a, b);
}

/// A packet is read back as the transaction that it was made from.
pub proof fn law_packet_roundtrip(tx: Transaction)
    ensures
        packet_well_formed(packet_bytes(tx)),
        packet_transaction(packet_bytes(tx)) == tx,
{
    lemma_transaction_fields(tx);
    lemma_le64_roundtrip(TRANSACTION_BYTES as u64);
    let data = packet_bytes(tx);
    assert(data.subrange(0, PACKET_BYTES as int) =~= data);
    assert(data.subrange(0, 8) =~= le64(TRANSACTION_BYTES as u64));
    assert(le64(TRANSACTION_BYTES as u64).subrange(0, 8) =~= le64(TRANSACTION_BYTES as u64));
    lemma_packet_bytes_injective(tx, packet_transaction(data));
}

} // verus!
