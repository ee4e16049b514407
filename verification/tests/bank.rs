use fullnode::bank::Bank;
use fullnode::crypto::hash;
use fullnode::keys;
use fullnode::keys::{Pubkey, Signature};
use fullnode::ledger_model::{BankError, MAX_ENTRY_IDS};
use fullnode::transaction::Transaction;
use ring::signature::{Ed25519KeyPair, KeyPair};

fn keypair(seed: u8) -> Ed25519KeyPair {
    Ed25519KeyPair::from_seed_unchecked(&[seed; 32]).expect("seed")
}

fn pubkey(pair: &Ed25519KeyPair) -> Pubkey {
    Pubkey::new(pair.public_key().as_ref())
}

fn transfer(from: &Ed25519KeyPair, to: Pubkey, tokens: i64, last_id: keys::Hash) -> Transaction {
    let unsigned = Transaction::new(pubkey(from), to, tokens, last_id, Signature { bytes: [0u8; 64] });
    let signature = Signature::new(from.sign(&unsigned.sign_data()).as_ref());
    Transaction::new(pubkey(from), to, tokens, last_id, signature)
}

fn genesis() -> keys::Hash {
    hash(b"genesis")
}

#[test]
fn new_bank_holds_the_emission() {
    let mint = keypair(1);
    let bank = Bank::new(pubkey(&mint), 10_000, genesis());
    assert_eq!(bank.get_balance(&pubkey(&mint)), 10_000);
    assert_eq!(bank.get_balance(&pubkey(&keypair(2))), 0);
    assert_eq!(bank.transaction_count(), 0);
    assert_eq!(bank.last_id(), genesis());
    assert_eq!(bank.finality(), 0);
    assert!(bank.is_recent(&genesis()));
}

#[test]
fn transfer_moves_the_amount() {
    let mint = keypair(1);
    let bob = pubkey(&keypair(2));
    let mut bank = Bank::new(pubkey(&mint), 10_000, genesis());
    let tx = transfer(&mint, bob, 20, genesis());
    assert_eq!(bank.process_transaction(&tx), Ok(()));
    assert_eq!(bank.get_balance(&bob), 20);
    assert_eq!(bank.get_balance(&pubkey(&mint)), 9_980);
    assert_eq!(bank.transaction_count(), 1);
    assert!(bank.has_signature(&tx.signature));
}

#[test]
fn balances_always_sum_to_the_emission() {
    let mint = keypair(1);
    let alice = keypair(2);
    let bob = keypair(3);
    let keys = [pubkey(&mint), pubkey(&alice), pubkey(&bob)];
    let mut bank = Bank::new(keys[0], 1_000, genesis());
    let txs = vec![
        transfer(&mint, keys[1], 400, genesis()),
        transfer(&alice, keys[2], 150, genesis()),
        transfer(&bob, keys[0], 50, genesis()),
        transfer(&bob, keys[1], 500, genesis()),
        transfer(&alice, keys[1], 10, genesis()),
        transfer(&mint, keys[2], 650, genesis()),
    ];
    for tx in &txs {
        let _ = bank.process_transaction(tx);
        let sum: i64 = keys.iter().map(|k| bank.get_balance(k)).sum();
        assert_eq!(sum, 1_000);
    }
    assert_eq!(bank.get_balance(&keys[0]), 0);
    assert_eq!(bank.get_balance(&keys[1]), 250);
    assert_eq!(bank.get_balance(&keys[2]), 750);
    assert_eq!(bank.transaction_count(), 5);
}

#[test]
fn bad_signature_is_turned_down() {
    let mint = keypair(1);
    let bob = pubkey(&keypair(2));
    let mut bank = Bank::new(pubkey(&mint), 10_000, genesis());
    let mut tx = transfer(&mint, bob, 20, genesis());
    tx.tokens = 21;
    assert_eq!(bank.process_transaction(&tx), Err(BankError::SignatureInvalid));
    assert_eq!(bank.get_balance(&bob), 0);
    assert_eq!(bank.transaction_count(), 0);
    assert!(!bank.has_signature(&tx.signature));
}

#[test]
fn unknown_last_id_is_turned_down() {
    let mint = keypair(1);
    let bob = pubkey(&keypair(2));
    let mut bank = Bank::new(pubkey(&mint), 10_000, genesis());
    let tx = transfer(&mint, bob, 20, hash(b"elsewhere"));
    assert_eq!(bank.process_transaction(&tx), Err(BankError::LastIdNotFound));
    assert_eq!(bank.get_balance(&pubkey(&mint)), 10_000);
}

#[test]
fn overdraft_is_turned_down() {
    let mint = keypair(1);
    let alice = keypair(2);
    let bob = pubkey(&keypair(3));
    let mut bank = Bank::new(pubkey(&mint), 10_000, genesis());
    assert_eq!(
        bank.process_transaction(&transfer(&mint, bob, 10_001, genesis())),
        Err(BankError::InsufficientFunds)
    );
    assert_eq!(
        bank.process_transaction(&transfer(&alice, bob, 1, genesis())),
        Err(BankError::InsufficientFunds)
    );
    assert_eq!(bank.process_transaction(&transfer(&mint, bob, 10_000, genesis())), Ok(()));
    assert_eq!(bank.get_balance(&pubkey(&mint)), 0);
    assert_eq!(bank.get_balance(&bob), 10_000);
}

#[test]
fn negative_amount_is_turned_down() {
    let mint = keypair(1);
    let bob = pubkey(&keypair(2));
    let mut bank = Bank::new(pubkey(&mint), 10_000, genesis());
    let tx = transfer(&mint, bob, -5, genesis());
    assert_eq!(bank.process_transaction(&tx), Err(BankError::InsufficientFunds));
    assert_eq!(bank.get_balance(&pubkey(&mint)), 10_000);
    assert_eq!(bank.get_balance(&bob), 0);
}

#[test]
fn transfer_to_oneself_changes_no_balance() {
    let mint = keypair(1);
    let mut bank = Bank::new(pubkey(&mint), 10_000, genesis());
    let tx = transfer(&mint, pubkey(&mint), 7_000, genesis());
    assert_eq!(bank.process_transaction(&tx), Ok(()));
    assert_eq!(bank.get_balance(&pubkey(&mint)), 10_000);
    assert_eq!(bank.transaction_count(), 1);
}

#[test]
fn nothing_moves_from_a_mint_in_debt() {
    let mint = keypair(1);
    let bob = pubkey(&keypair(2));
    let mut bank = Bank::new(pubkey(&mint), -100, genesis());
    assert_eq!(bank.get_balance(&pubkey(&mint)), -100);
    assert_eq!(
        bank.process_transaction(&transfer(&mint, bob, 1, genesis())),
        Err(BankError::InsufficientFunds)
    );
    assert_eq!(bank.process_transaction(&transfer(&mint, bob, 0, genesis())), Err(BankError::InsufficientFunds));
    assert_eq!(bank.get_balance(&pubkey(&mint)), -100);
}

#[test]
fn second_submission_is_a_duplicate() {
    let mint = keypair(1);
    let bob = pubkey(&keypair(2));
    let mut bank = Bank::new(pubkey(&mint), 10_000, genesis());
    let tx = transfer(&mint, bob, 20, genesis());
    assert_eq!(bank.process_transaction(&tx), Ok(()));
    assert_eq!(bank.process_transaction(&tx), Err(BankError::DuplicateSignature));
    assert_eq!(bank.get_balance(&bob), 20);
    assert_eq!(bank.transaction_count(), 1);
    assert!(bank.has_signature(&tx.signature));
}

#[test]
fn replay_is_a_duplicate_until_the_last_id_expires() {
    let mint = keypair(1);
    let bob = pubkey(&keypair(2));
    let mut bank = Bank::new(pubkey(&mint), 10_000, genesis());
    let tx = transfer(&mint, bob, 20, genesis());
    assert_eq!(bank.process_transaction(&tx), Ok(()));
    let mut id = genesis();
    for _ in 0..MAX_ENTRY_IDS - 1 {
        id = hash(&id.bytes);
        bank.register_entry_id(&id);
        assert_eq!(bank.process_transaction(&tx), Err(BankError::DuplicateSignature));
    }
    id = hash(&id.bytes);
    bank.register_entry_id(&id);
    assert!(!bank.is_recent(&genesis()));
    assert_eq!(bank.process_transaction(&tx), Err(BankError::LastIdNotFound));
    assert!(bank.has_signature(&tx.signature));
    assert_eq!(bank.get_balance(&bob), 20);
    assert_eq!(bank.last_id(), id);
}

#[test]
fn replay_of_a_payer_who_spent_all_is_an_overdraft() {
    let mint = keypair(1);
    let bob = pubkey(&keypair(2));
    let mut bank = Bank::new(pubkey(&mint), 30, genesis());
    let tx = transfer(&mint, bob, 20, genesis());
    assert_eq!(bank.process_transaction(&tx), Ok(()));
    assert_eq!(bank.process_transaction(&tx), Err(BankError::InsufficientFunds));
    assert_eq!(bank.get_balance(&bob), 20);
}

#[test]
fn register_entry_id_keeps_the_newest_ids() {
    let mint = pubkey(&keypair(1));
    let mut bank = Bank::new(mint, 1, genesis());
    let first = hash(b"first");
    bank.register_entry_id(&first);
    assert_eq!(bank.last_id(), first);
    assert!(bank.is_recent(&genesis()));
    assert!(bank.is_recent(&first));
    let mut id = first;
    for _ in 0..MAX_ENTRY_IDS - 1 {
        id = hash(&id.bytes);
        bank.register_entry_id(&id);
    }
    assert!(!bank.is_recent(&genesis()));
    assert!(bank.is_recent(&first));
    assert!(bank.is_recent(&id));
    let next = hash(&id.bytes);
    bank.register_entry_id(&next);
    assert!(!bank.is_recent(&first));
    assert!(bank.is_recent(&id));
    assert_eq!(bank.last_id(), next);
}

#[test]
fn finality_is_what_was_reported() {
    let mint = pubkey(&keypair(1));
    let mut bank = Bank::new(mint, 1, genesis());
    bank.set_finality(250);
    assert_eq!(bank.finality(), 250);
    assert_eq!(bank.get_balance(&mint), 1);
}
