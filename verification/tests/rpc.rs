use fullnode::bank::Bank;
use fullnode::crypto::hash;
use fullnode::keys;
use fullnode::keys::{Pubkey, Signature};
use fullnode::rpc::{JsonRpcRequestProcessor, Meta, RpcError, RpcSolImpl, RPC_PORT};
use fullnode::transaction::Transaction;
use jsonrpc_core::{Error, ErrorCode, IoHandler, Params, Response, Value};
use ring::signature::{Ed25519KeyPair, KeyPair};
use std::sync::Arc;

fn keypair(seed: u8) -> Ed25519KeyPair {
    Ed25519KeyPair::from_seed_unchecked(&[seed; 32]).expect("seed")
}

fn pubkey(pair: &Ed25519KeyPair) -> Pubkey {
    Pubkey::new(pair.public_key().as_ref())
}

fn transfer(from: &Ed25519KeyPair, to: Pubkey, tokens: i64, last_id: keys::Hash) -> Transaction {
    let unsigned = Transaction::new(pubkey(from), to, tokens, last_id, Signature { bytes: [0u8; 64] });
    let signature = Signature::new(from.sign(&unsigned.sign_data()).as_ref());
    Transaction::new(pubkey(from), to, tokens, last_id, signature)
}

fn genesis() -> keys::Hash {
    hash(b"genesis")
}

fn to_core(error: RpcError) -> Error {
    Error { code: ErrorCode::from(error.code()), message: error.message(), data: None }
}

fn text_param(params: Params) -> Result<String, Error> {
    let (id,): (String,) = params.parse()?;
    Ok(id)
}

fn handler(bank: Bank) -> IoHandler {
    let bank = Arc::new(bank);
    let mut io = IoHandler::new();
    let shared = bank.clone();
    io.add_sync_method("confirmTransaction", move |params: Params| {
        let id = text_param(params)?;
        let meta = Meta { request_processor: JsonRpcRequestProcessor::new(&shared) };
        RpcSolImpl.confirm_transaction(meta, id).map(Value::from).map_err(to_core)
    });
    let shared = bank.clone();
    io.add_sync_method("getBalance", move |params: Params| {
        let id = text_param(params)?;
        let meta = Meta { request_processor: JsonRpcRequestProcessor::new(&shared) };
        RpcSolImpl.get_balance(meta, id).map(Value::from).map_err(to_core)
    });
    let shared = bank.clone();
    io.add_sync_method("getFinality", move |_params: Params| {
        let meta = Meta { request_processor: JsonRpcRequestProcessor::new(&shared) };
        RpcSolImpl.get_finality(meta).map(Value::from).map_err(to_core)
    });
    let shared = bank.clone();
    io.add_sync_method("getLastId", move |_params: Params| {
        let meta = Meta { request_processor: JsonRpcRequestProcessor::new(&shared) };
        RpcSolImpl.get_last_id(meta).map(Value::from).map_err(to_core)
    });
    let shared = bank;
    io.add_sync_method("getTransactionCount", move |_params: Params| {
        let meta = Meta { request_processor: JsonRpcRequestProcessor::new(&shared) };
        RpcSolImpl.get_transaction_count(meta).map(Value::from).map_err(to_core)
    });
    io
}

#[test]
fn test_rpc_request() {
    let alice = keypair(1);
    let bob_pubkey = pubkey(&keypair(2));
    let mut bank = Bank::new(pubkey(&alice), 10_000, genesis());

    let last_id = bank.last_id();
    let tx = transfer(&alice, bob_pubkey, 20, last_id);
    bank.process_transaction(&tx).expect("process transaction");

    let io = handler(bank);

    let req = format!(
        r#"{{"jsonrpc":"2.0","id":1,"method":"getBalance","params":["{}"]}}"#,
        bs58::encode(bob_pubkey.bytes).into_string()
    );
    let res = io.handle_request_sync(&req);
    let expected = format!(r#"{{"jsonrpc":"2.0","result":20,"id":1}}"#);
    let expected: Response =
        serde_json::from_str(&expected).expect("expected response deserialization");

    let result: Response = serde_json::from_str(&res.expect("actual response"))
        .expect("actual response deserialization");
    assert_eq!(expected, result);

    let req = format!(r#"{{"jsonrpc":"2.0","id":1,"method":"getTransactionCount"}}"#);
    let res = io.handle_request_sync(&req);
    let expected = format!(r#"{{"jsonrpc":"2.0","result":1,"id":1}}"#);
    let expected: Response =
        serde_json::from_str(&expected).expect("expected response deserialization");

    let result: Response = serde_json::from_str(&res.expect("actual response"))
        .expect("actual response deserialization");
    assert_eq!(expected, result);
}

#[test]
fn test_rpc_request_bad_parameter_type() {
    let alice = keypair(1);
    let bank = Bank::new(pubkey(&alice), 10_000, genesis());

    let io = handler(bank);
    let req = r#"{"jsonrpc":"2.0","id":1,"method":"confirmTransaction","params":[1234567890]}"#;

    let res = io.handle_request_sync(req);
    let expected = r#"{"jsonrpc":"2.0","error":{"code":-32602,"message":"Invalid params: invalid type: integer `1234567890`, expected a string."},"id":1}"#;
    let expected: Response =
        serde_json::from_str(expected).expect("expected response deserialization");

    let result: Response = serde_json::from_str(&res.expect("actual response"))
        .expect("actual response deserialization");
    assert_eq!(expected, result);
}

#[test]
fn test_rpc_request_bad_signature() {
    let alice = keypair(1);
    let bank = Bank::new(pubkey(&alice), 10_000, genesis());

    let io = handler(bank);
    let req =
        r#"{"jsonrpc":"2.0","id":1,"method":"confirmTransaction","params":["a1b2c3d4e5"]}"#;

    let res = io.handle_request_sync(req);
    let expected =
        r#"{"jsonrpc":"2.0","error":{"code":-32600,"message":"Invalid request"},"id":1}"#;
    let expected: Response =
        serde_json::from_str(expected).expect("expected response deserialization");

    let result: Response = serde_json::from_str(&res.expect("actual response"))
        .expect("actual response deserialization");
    assert_eq!(expected, result);
}

#[test]
fn rpc_port_is_8899() {
    assert_eq!(RPC_PORT, 8899);
}

#[test]
fn invalid_request_has_the_json_rpc_code() {
    assert_eq!(RpcError::InvalidRequest.code(), -32600);
    assert_eq!(RpcError::InvalidRequest.message(), "Invalid request");
}

#[test]
fn confirm_transaction_tells_seen_from_unseen() {
    let alice = keypair(1);
    let bob = pubkey(&keypair(2));
    let mut bank = Bank::new(pubkey(&alice), 10_000, genesis());
    let seen = transfer(&alice, bob, 20, genesis());
    let unseen = transfer(&alice, bob, 21, genesis());
    bank.process_transaction(&seen).expect("process transaction");
    let meta = Meta { request_processor: JsonRpcRequestProcessor::new(&bank) };
    let text = |s: &Signature| bs58::encode(s.bytes).into_string();
    assert_eq!(RpcSolImpl.confirm_transaction(meta, text(&seen.signature)), Ok(true));
    assert_eq!(RpcSolImpl.confirm_transaction(meta, text(&unseen.signature)), Ok(false));
    assert_eq!(RpcSolImpl.confirm_decoded(meta, Some(seen.signature.bytes.to_vec())), Ok(true));
    assert_eq!(RpcSolImpl.confirm_decoded(meta, Some(unseen.signature.bytes.to_vec())), Ok(false));
    assert_eq!(meta.request_processor.get_signature_status(seen.signature), Ok(true));
}

#[test]
fn arguments_of_the_wrong_length_are_invalid() {
    let alice = keypair(1);
    let bank = Bank::new(pubkey(&alice), 10_000, genesis());
    let meta = Meta { request_processor: JsonRpcRequestProcessor::new(&bank) };
    let key_text = bs58::encode(pubkey(&alice).bytes).into_string();
    let signature_text = bs58::encode([7u8; 64]).into_string();
    assert_eq!(RpcSolImpl.confirm_transaction(meta, key_text.clone()), Err(RpcError::InvalidRequest));
    assert_eq!(RpcSolImpl.get_balance(meta, signature_text), Err(RpcError::InvalidRequest));
    assert_eq!(RpcSolImpl.get_balance(meta, String::new()), Err(RpcError::InvalidRequest));
    assert_eq!(RpcSolImpl.get_balance(meta, key_text), Ok(10_000));
    assert_eq!(RpcSolImpl.confirm_decoded(meta, Some(vec![0; 63])), Err(RpcError::InvalidRequest));
    assert_eq!(RpcSolImpl.confirm_decoded(meta, Some(vec![0; 65])), Err(RpcError::InvalidRequest));
    assert_eq!(RpcSolImpl.confirm_decoded(meta, None), Err(RpcError::InvalidRequest));
    assert_eq!(RpcSolImpl.balance_decoded(meta, Some(vec![0; 31])), Err(RpcError::InvalidRequest));
    assert_eq!(RpcSolImpl.balance_decoded(meta, None), Err(RpcError::InvalidRequest));
    assert_eq!(RpcSolImpl.balance_decoded(meta, Some(vec![0; 32])), Ok(0));
}

#[test]
fn text_that_is_no_base58_is_invalid() {
    let alice = keypair(1);
    let bank = Bank::new(pubkey(&alice), 10_000, genesis());
    let meta = Meta { request_processor: JsonRpcRequestProcessor::new(&bank) };
    assert_eq!(RpcSolImpl.get_balance(meta, "0OIl".to_string()), Err(RpcError::InvalidRequest));
    assert_eq!(RpcSolImpl.confirm_transaction(meta, "not base58!".to_string()), Err(RpcError::InvalidRequest));
}

#[test]
fn get_balance_of_an_unknown_account_is_zero() {
    let alice = keypair(1);
    let bank = Bank::new(pubkey(&alice), 10_000, genesis());
    let meta = Meta { request_processor: JsonRpcRequestProcessor::new(&bank) };
    let stranger = bs58::encode([9u8; 32]).into_string();
    assert_eq!(RpcSolImpl.get_balance(meta, stranger), Ok(0));
    assert_eq!(meta.request_processor.get_balance(Pubkey { bytes: [9u8; 32] }), Ok(0));
}

#[test]
fn last_id_is_spelt_in_base58() {
    let alice = keypair(1);
    let mut bank = Bank::new(pubkey(&alice), 10_000, keys::Hash { bytes: [0u8; 32] });
    {
        let meta = Meta { request_processor: JsonRpcRequestProcessor::new(&bank) };
        assert_eq!(RpcSolImpl.get_last_id(meta), Ok("1".repeat(32)));
    }
    let mut id = [0u8; 32];
    id[31] = 58;
    bank.register_entry_id(&keys::Hash { bytes: id });
    let meta = Meta { request_processor: JsonRpcRequestProcessor::new(&bank) };
    assert_eq!(RpcSolImpl.get_last_id(meta), Ok(format!("{}21", "1".repeat(31))));
}

#[test]
fn finality_and_count_are_read_from_the_bank() {
    let alice = keypair(1);
    let mut bank = Bank::new(pubkey(&alice), 10_000, genesis());
    bank.set_finality(42);
    bank.process_transaction(&transfer(&alice, pubkey(&keypair(2)), 1, genesis())).expect("transfer");
    bank.process_transaction(&transfer(&alice, pubkey(&keypair(2)), 2, genesis())).expect("transfer");
    let meta = Meta { request_processor: JsonRpcRequestProcessor::new(&bank) };
    assert_eq!(RpcSolImpl.get_finality(meta), Ok(42));
    assert_eq!(RpcSolImpl.get_transaction_count(meta), Ok(2));
    assert_eq!(meta.request_processor.get_finality(), Ok(42));
    assert_eq!(meta.request_processor.get_transaction_count(), Ok(2));
}
