//! Transfers of tokens between accounts, and their fixed binary layout.

use crate::crypto::{ed25519_verifies, signature_verifies};
use crate::keys;
use crate::keys::{Pubkey, Signature};
use crate::wire::{
    get_i64, le64_signed, lemma_le64_signed_roundtrip, lemma_word_at_encodes, put_bytes, put_i64,
    signed_word_at,
};
use vstd::prelude::*;
use vstd::slice::slice_subrange;

verus! {

/// Length of the part of a transaction that its signature covers.
pub const SIGN_DATA_BYTES: usize = 104;

/// Length of a serialized transaction.
pub const TRANSACTION_BYTES: usize = 168;

/// A signed order to move `tokens` from one account to another. It names a
/// recent entry of the chain, `last_id`, which bounds how long it stays
/// acceptable.
#[derive(Clone, Copy, Debug, PartialEq, Eq)]
pub struct Transaction {
    pub from: Pubkey,
    pub to: Pubkey,
    pub tokens: i64,
    pub last_id: keys::Hash,
    pub signature: Signature,
}

impl Transaction {
    /// The bytes that the signature covers: payer, recipient, amount and
    /// `last_id`, in that order.
    pub open spec fn sign_data_spec(&self) -> Seq<u8> {
        self.from@ + self.to@ + le64_signed(self.tokens) + self.last_id@
    }

    /// The serialized transaction: the signed bytes, then the signature.
    pub open spec fn bytes_spec(&self) -> Seq<u8> {
        self.sign_data_spec() + self.signature@
    }

    /// Whether the signature is the payer's signature of the signed bytes.
    pub open spec fn signed(&self) -> bool {
        ed25519_verifies(self.from@, self.sign_data_spec(), self.signature@)
    }

    /// Puts the five fields together.
    pub fn new(from: Pubkey, to: Pubkey, tokens: i64, last_id: keys::Hash, signature: Signature) -> (tx:
        Transaction)
        ensures
            tx == (Transaction { from, to, tokens, last_id, signature }),
    {
        Transaction { from, to, tokens, last_id, signature }
    }

    /// The bytes that the payer signs.
    pub fn sign_data(&self) -> (data: Vec<u8>)
        ensures
            data@ == self.sign_data_spec(),
            data@.len() == SIGN_DATA_BYTES,
    {
        let mut data: Vec<u8> = Vec::new();
        put_bytes(&mut data, self.from.bytes.as_slice());
        put_bytes(&mut data, self.to.bytes.as_slice());
        put_i64(&mut data, self.tokens);
        put_bytes(&mut data, self.last_id.bytes.as_slice());
        proof {
            lemma_le64_signed_roundtrip(self.tokens);
            assert(data@ =~= self.sign_data_spec());
        }
        data
    }

    /// Checks the signature against the payer's key.
    pub fn verify_signature(&self) -> (ok: bool)
        ensures
            ok == self.signed(),
    {
        let data = self.sign_data();
        signature_verifies(&self.from, data.as_slice(), &self.signature)
    }

    /// Serializes the transaction.
    pub fn to_bytes(&self) -> (data: Vec<u8>)
        ensures
            data@ == self.bytes_spec(),
            data@.len() == TRANSACTION_BYTES,
    {
        let mut data = self.sign_data();
        put_bytes(&mut data, self.signature.bytes.as_slice());
        data
    }

    /// Reads a serialized transaction. Exactly the byte strings of the right
    /// length are accepted, and the result is the transaction that they
    /// spell.
    pub fn from_bytes(data: &[u8]) -> (parsed: Option<Transaction>)
        ensures
            parsed is Some <==> data@.len() == TRANSACTION_BYTES,
            parsed matches Some(tx) ==> tx.bytes_spec() == data@,
    {
        if data.len() != TRANSACTION_BYTES {
            return None;
        }
        let from = Pubkey::new(slice_subrange(data, 0, 32));
        let to = Pubkey::new(slice_subrange(data, 32, 64));
        let tokens: i64 = get_i64(data, 64);
        let last_id = keys::Hash::new(slice_subrange(data, 72, 104));
        let signature = Signature::new(slice_subrange(data, 104, 168));
        let tx = Transaction { from, to, tokens, last_id, signature };
        proof {
            lemma_word_at_encodes(data@, 64);
            assert(tx.bytes_spec() =~= data@);
        }
        Some(tx)
    }
}

/// The fields of a transaction can be read off its serialized form.
pub proof fn lemma_transaction_fields(tx: Transaction)
    ensures
        tx.sign_data_spec().len() == SIGN_DATA_BYTES,
        tx.bytes_spec().len() == TRANSACTION_BYTES,
        tx.bytes_spec().subrange(0, 32) == tx.from@,
        tx.bytes_spec().subrange(32, 64) == tx.to@,
        signed_word_at(tx.bytes_spec(), 64) == tx.tokens,
        tx.bytes_spec().subrange(72, 104) == tx.last_id@,
        tx.bytes_spec().subrange(104, 168) == tx.signature@,
        tx.bytes_spec().subrange(0, 104) == tx.sign_data_spec(),
{
    lemma_le64_signed_roundtrip(tx.tokens);
    let b = tx.bytes_spec();
    assert(b.subrange(0, 32) =~= tx.from@);
    assert(b.subrange(32, 64) =~= tx.to@);
    assert(b.subrange(64, 72) =~= le64_signed(tx.tokens));
    assert(le64_signed(tx.tokens).subrange(0, 8) =~= le64_signed(tx.tokens));
    assert(b.subrange(72, 104) =~= tx.last_id@);
    assert(b.subrange(104, 168) =~= tx.signature@);
    assert(b.subrange(0, 104) =~= tx.sign_data_spec());
}

/// Serialization loses nothing: two transactions with the same bytes are the
/// same transaction.
pub proof fn lemma_transaction_bytes_injective(a: Transaction, b: Transaction)
    requires
        a.bytes_spec() == b.bytes_spec(),
    ensures
        a == b,
{
    lemma_transaction_fields(a);
    lemma_transaction_fields(b);
    keys::lemma_pubkey_ext(a.from, b.from);
    keys::lemma_pubkey_ext(a.to, b.to);
    keys::lemma_hash_ext(a.last_id, b.last_id);
    keys::lemma_signature_ext(a.signature, b.signature);
}

} // verus!
