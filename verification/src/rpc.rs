//! The read-only queries that a node answers about its bank. Keys and
//! signatures travel as base58 text.

use crate::bank::Bank;
use crate::keys::{pubkey_of, signature_of, Pubkey, Signature, PUBKEY_BYTES, SIGNATURE_BYTES};
use crate::ledger_model::BankView;
use vstd::prelude::*;

verus! {

/// The port on which a node answers queries unless told otherwise.
pub const RPC_PORT: u16 = 8899;

/// The bytes that a text spells in base58, if it is base58 at all.
pub uninterp spec fn base58_decoded(text: Seq<char>) -> Option<Seq<u8>>;

/// The base58 text that spells the bytes.
pub uninterp spec fn base58_encoded(bytes: Seq<u8>) -> Seq<char>;

/// Declares `bs58::decode::Error`, the error of `bs58::decode`. Nothing is
/// claimed of its values; a query only needs to know that decoding failed.
#[verifier::external_type_specification]
#[verifier::external_body]
pub struct ExBase58DecodeError(bs58::decode::Error);

/// Calls `bs58::decode(..).into_vec()` with the default alphabet. Trusted: it
/// fails exactly on the texts that are no base58, and the bytes it returns
/// depend on the text alone.
#[verifier::external_body]
fn decode_base58(text: &str) -> (decoded: Result<Vec<u8>, bs58::decode::Error>)
    ensures
        decoded is Ok <==> base58_decoded(text@) is Some,
        decoded matches Ok(bytes) ==> base58_decoded(text@) == Some(bytes@),
{
    bs58::decode(text).into_vec()
}

/// Calls `bs58::encode(..).into_string()` with the default alphabet.
/// Trusted: the text it returns depends on the bytes alone.
#[verifier::external_body]
fn encode_base58(bytes: &[u8]) -> (text: String)
    ensures
        text@ == base58_encoded(bytes@),
{
    bs58::encode(bytes).into_string()
}

/// Why a query was turned down.
#[derive(Clone, Copy, Debug, PartialEq, Eq, Structural)]
pub enum RpcError {
    /// The argument is no base58 text, or it spells the wrong number of
    /// bytes.
    InvalidRequest,
}

impl RpcError {
    /// The JSON-RPC code of the error.
    pub fn code(&self) -> (code: i64)
        ensures
            code == -32600,
    {
        -32600
    }

    /// The JSON-RPC message of the error.
    pub fn message(&self) -> (message: String)
        ensures
            message@ == "Invalid request"@,
    {
        "Invalid request".to_owned()
    }
}

/// Answers queries from the bank that it wraps.
#[derive(Clone, Copy)]
pub struct JsonRpcRequestProcessor<'a> {
    bank: &'a Bank,
}

/// What a query is answered with: the processor of the node.
#[derive(Clone, Copy)]
pub struct Meta<'a> {
    pub request_processor: JsonRpcRequestProcessor<'a>,
}

/// The queries by their JSON-RPC names.
pub struct RpcSolImpl;

/// A decoded argument as a mathematical value.
pub open spec fn decoded_view(decoded: Option<Vec<u8>>) -> Option<Seq<u8>> {
    match decoded {
        Some(bytes) => Some(bytes@),
        None => None,
    }
}

/// The answer to `confirmTransaction` for a decoded argument: whether the
/// bank has seen the signature, if the argument spells 64 bytes.
pub open spec fn confirm_answer(bank: BankView, decoded: Option<Seq<u8>>) -> Result<bool, RpcError> {
    match decoded {
        Some(bytes) => if bytes.len() == SIGNATURE_BYTES {
            Ok(bank.has_signature(signature_of(bytes)))
        } else {
            Err(RpcError::InvalidRequest)
        },
        None => Err(RpcError::InvalidRequest),
    }
}

/// The answer to `getBalance` for a decoded argument: what the account
/// holds, if the argument spells 32 bytes.
pub open spec fn balance_answer(bank: BankView, decoded: Option<Seq<u8>>) -> Result<i64, RpcError> {
    match decoded {
        Some(bytes) => if bytes.len() == PUBKEY_BYTES {
            Ok(bank.balance(pubkey_of(bytes)) as i64)
        } else {
            Err(RpcError::InvalidRequest)
        },
        None => Err(RpcError::InvalidRequest),
    }
}

impl<'a> JsonRpcRequestProcessor<'a> {
    /// Create a new request processor that wraps the given Bank.
    pub fn new(bank: &'a Bank) -> (processor: Self)
        ensures
            processor.bank() == bank,
    {
        JsonRpcRequestProcessor { bank }
    }

    /// The bank that the processor wraps.
    pub closed spec fn bank(&self) -> &Bank {
        self.bank
    }

    /// What the account holds.
    pub fn get_balance(&self, pubkey: Pubkey) -> (answer: Result<i64, RpcError>)
        requires
            self.bank().wf(),
        ensures
            answer == Ok::<i64, RpcError>(self.bank()@.balance(pubkey) as i64),
            i64::MIN <= self.bank()@.balance(pubkey) <= i64::MAX,
    {
        Ok(self.bank.get_balance(&pubkey))
    }

    /// Milliseconds since the bank last made progress.
    pub fn get_finality(&self) -> (answer: Result<u64, RpcError>)
        ensures
            answer == Ok::<u64, RpcError>(self.bank()@.finality as u64),
            self.bank()@.finality <= u64::MAX,
    {
        Ok(self.bank.finality())
    }

    /// The id that the bank registered last, as base58 text.
    pub fn get_last_id(&self) -> (answer: Result<String, RpcError>)
        ensures
            answer matches Ok(text) && text@ == base58_encoded(self.bank()@.last_id@),
    {
        let id = self.bank.last_id();
        Ok(encode_base58(id.bytes.as_slice()))
    }

    /// Whether the bank has seen the signature.
    pub fn get_signature_status(&self, signature: Signature) -> (answer: Result<bool, RpcError>)
        ensures
            answer == Ok::<bool, RpcError>(self.bank()@.has_signature(signature)),
    {
        Ok(self.bank.has_signature(&signature))
    }

    /// How many transactions the bank has applied.
    pub fn get_transaction_count(&self) -> (answer: Result<u64, RpcError>)
        ensures
            answer == Ok::<u64, RpcError>(self.bank()@.transaction_count as u64),
            self.bank()@.transaction_count <= u64::MAX,
    {
        Ok(self.bank.transaction_count() as u64)
    }
}

impl RpcSolImpl {
    /// Answers `confirmTransaction` for an argument that was decoded
    /// already; `None` stands for an argument that is no base58 text.
    pub fn confirm_decoded(&self, meta: Meta, decoded: Option<Vec<u8>>) -> (answer: Result<
        bool,
        RpcError,
    >)
        ensures
            answer == confirm_answer(meta.request_processor.bank()@, decoded_view(decoded)),
    {
        match decoded {
            Some(signature_vec) => {
                if signature_vec.len() != SIGNATURE_BYTES {
                    return Err(RpcError::InvalidRequest);
                }
                let signature = Signature::new(signature_vec.as_slice());
                meta.request_processor.get_signature_status(signature)
            },
            None => Err(RpcError::InvalidRequest),
        }
    }

    /// Answers `getBalance` for an argument that was decoded already; `None`
    /// stands for an argument that is no base58 text.
    pub fn balance_decoded(&self, meta: Meta, decoded: Option<Vec<u8>>) -> (answer: Result<
        i64,
        RpcError,
    >)
        requires
            meta.request_processor.bank().wf(),
        ensures
            answer == balance_answer(meta.request_processor.bank()@, decoded_view(decoded)),
    {
        match decoded {
            Some(pubkey_vec) => {
                if pubkey_vec.len() != PUBKEY_BYTES {
                    return Err(RpcError::InvalidRequest);
                }
                let pubkey = Pubkey::new(pubkey_vec.as_slice());
                meta.request_processor.get_balance(pubkey)
            },
            None => Err(RpcError::InvalidRequest),
        }
    }

    /// `confirmTransaction`: whether the bank has seen the signature that
    /// the base58 text `id` spells. A text that is no base58, or that does
    /// not spell 64 bytes, is an invalid request.
    pub fn confirm_transaction(&self, meta: Meta, id: String) -> (answer: Result<bool, RpcError>)
        ensures
            answer == confirm_answer(meta.request_processor.bank()@, base58_decoded(id@)),
    {
        let decoded = match decode_base58(id.as_str()) {
            Ok(bytes) => Some(bytes),
            Err(_) => None,
        };
        self.confirm_decoded(meta, decoded)
    }

    /// `getBalance`: what the account holds whose key the base58 text `id`
    /// spells; an unknown account holds nothing. A text that is no base58,
    /// or that does not spell 32 bytes, is an invalid request.
    pub fn get_balance(&self, meta: Meta, id: String) -> (answer: Result<i64, RpcError>)
        requires
            meta.request_processor.bank().wf(),
        ensures
            answer == balance_answer(meta.request_processor.bank()@, base58_decoded(id@)),
    {
        let decoded = match decode_base58(id.as_str()) {
            Ok(bytes) => Some(bytes),
            Err(_) => None,
        };
        self.balance_decoded(meta, decoded)
    }

    /// `getFinality`: milliseconds since the bank last made progress.
    pub fn get_finality(&self, meta: Meta) -> (answer: Result<u64, RpcError>)
        ensures
            answer == Ok::<u64, RpcError>(meta.request_processor.bank()@.finality as u64),
            meta.request_processor.bank()@.finality <= u64::MAX,
    {
        meta.request_processor.get_finality()
    }

    /// `getLastId`: the id that the bank registered last, as base58 text.
    pub fn get_last_id(&self, meta: Meta) -> (answer: Result<String, RpcError>)
        ensures
            answer matches Ok(text) && text@ == base58_encoded(
                meta.request_processor.bank()@.last_id@,
            ),
    {
        meta.request_processor.get_last_id()
    }

    /// `getTransactionCount`: how many transactions the bank has applied.
    pub fn get_transaction_count(&self, meta: Meta) -> (answer: Result<u64, RpcError>)
        ensures
            answer == Ok::<u64, RpcError>(
                meta.request_processor.bank()@.transaction_count as u64,
            ),
            meta.request_processor.bank()@.transaction_count <= u64::MAX,
    {
        meta.request_processor.get_transaction_count()
    }
}

} // verus!
