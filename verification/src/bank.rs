//! The bank: account balances, the signatures already applied, and the
//! window of recent entry ids that transactions may refer to.

use crate::keys;
use crate::keys::{Pubkey, Signature};
use crate::bank_laws::law_transfer;
use crate::ledger_model::{
    bounded_below, credit, debit, distinct_keys, has_account, lemma_one_bound, lemma_pair_bound,
    lemma_position_unique, lemma_total_push, position, Account, BankError, BankView,
    MAX_ENTRY_IDS,
};
use crate::transaction::Transaction;
use vstd::prelude::*;

verus! {

/// The account state machine shared by both pipelines.
pub struct Bank {
    accounts: Vec<Account>,
    signatures: Vec<Signature>,
    entry_ids: Vec<keys::Hash>,
    last_id: keys::Hash,
    transaction_count: usize,
    finality_time: u64,
    mint: Pubkey,
    emission: i64,
}

impl View for Bank {
    type V = BankView;

    closed spec fn view(&self) -> BankView {
        BankView {
            accounts: self.accounts@,
            signatures: self.signatures@,
            entry_ids: self.entry_ids@,
            last_id: self.last_id,
            transaction_count: self.transaction_count as nat,
            finality: self.finality_time as nat,
            mint: self.mint,
            emission: self.emission as int,
        }
    }
}

impl Bank {
    /// The invariant that every operation keeps.
    pub open spec fn wf(&self) -> bool {
        self@.valid()
    }

    /// A bank whose mint holds `tokens` and whose chain starts at `genesis`.
    pub fn new(mint: Pubkey, tokens: i64, genesis: keys::Hash) -> (bank: Bank)
        ensures
            bank.wf(),
            bank@ == (BankView {
                accounts: seq![Account { key: mint, balance: tokens }],
                signatures: Seq::empty(),
                entry_ids: seq![genesis],
                last_id: genesis,
                transaction_count: 0,
                finality: 0,
                mint,
                emission: tokens as int,
            }),
    {
        let mut accounts: Vec<Account> = Vec::new();
        accounts.push(Account { key: mint, balance: tokens });
        let mut entry_ids: Vec<keys::Hash> = Vec::new();
        entry_ids.push(genesis);
        let bank = Bank {
            accounts,
            signatures: Vec::new(),
            entry_ids,
            last_id: genesis,
            transaction_count: 0,
            finality_time: 0,
            mint,
            emission: tokens,
        };
        proof {
            lemma_total_push(Seq::empty(), Account { key: mint, balance: tokens });
            assert(bank@.accounts =~= seq![Account { key: mint, balance: tokens }]);
            assert(bank@.signatures =~= Seq::empty());
            assert(bank@.entry_ids =~= seq![genesis]);
        }
        bank
    }

    fn find_account(&self, key: &Pubkey) -> (found: Option<usize>)
        requires
            distinct_keys(self.accounts@),
        ensures
            found is Some <==> has_account(self.accounts@, *key),
            found matches Some(at) ==> at < self.accounts@.len() && position(self.accounts@, *key)
                == at && self.accounts@[at as int].key == *key,
    {
        let mut i: usize = 0;
        while i < self.accounts.len()
            invariant
                i <= self.accounts@.len(),
                distinct_keys(self.accounts@),
                forall|k: int| 0 <= k < i ==> self.accounts@[k].key != *key,
            decreases self.accounts@.len() - i,
        {
            if self.accounts[i].key.equals(key) {
                proof {
                    lemma_position_unique(self.accounts@, *key, i as int);
                }
                return Some(i);
            }
            i += 1;
        }
        None
    }

    /// Whether a transaction with this signature was applied.
    pub fn has_signature(&self, signature: &Signature) -> (seen: bool)
        ensures
            seen == self@.has_signature(*signature),
    {
        let mut i: usize = 0;
        while i < self.signatures.len()
            invariant
                i <= self.signatures@.len(),
                forall|k: int| 0 <= k < i ==> self.signatures@[k] != *signature,
            decreases self.signatures@.len() - i,
        {
            if self.signatures[i].equals(signature) {
                return true;
            }
            i += 1;
        }
        false
    }

    /// Whether a transaction may still refer to this entry id.
    pub fn is_recent(&self, id: &keys::Hash) -> (recent: bool)
        ensures
            recent == self@.is_recent(*id),
    {
        let mut i: usize = 0;
        while i < self.entry_ids.len()
            invariant
                i <= self.entry_ids@.len(),
                forall|k: int| 0 <= k < i ==> self.entry_ids@[k] != *id,
            decreases self.entry_ids@.len() - i,
        {
            if self.entry_ids[i].equals(id) {
                return true;
            }
            i += 1;
        }
        false
    }

    /// What the account holds; an unknown account holds nothing.
    pub fn get_balance(&self, key: &Pubkey) -> (balance: i64)
        requires
            self.wf(),
        ensures
            balance == self@.balance(*key),
    {
        match self.find_account(key) {
            Some(at) => self.accounts[at].balance,
            None => 0,
        }
    }

    /// The id registered last.
    pub fn last_id(&self) -> (id: keys::Hash)
        ensures
            id == self@.last_id,
    {
        self.last_id
    }

    /// How many transactions were applied.
    pub fn transaction_count(&self) -> (count: usize)
        ensures
            count == self@.transaction_count,
    {
        self.transaction_count
    }

    /// Milliseconds since the bank last made progress, as last reported.
    pub fn finality(&self) -> (ms: u64)
        ensures
            ms == self@.finality,
    {
        self.finality_time
    }

    /// Records how long ago the bank last made progress.
    pub fn set_finality(&mut self, ms: u64)
        ensures
            final(self)@ == (BankView { finality: ms as nat, ..old(self)@ }),
    {
        self.finality_time = ms;
    }

    /// Appends `id` to the recent entry ids and makes it the last id. Beyond
    /// the limit the oldest id leaves.
    pub fn register_entry_id(&mut self, id: &keys::Hash)
        requires
            old(self).wf(),
        ensures
            final(self).wf(),
            final(self)@ == old(self)@.register(*id),
    {
        self.entry_ids.push(*id);
        if self.entry_ids.len() > MAX_ENTRY_IDS {
            let _ = self.entry_ids.remove(0);
        }
        self.last_id = *id;
        proof {
            assert(self@.entry_ids =~= old(self)@.register(*id).entry_ids);
        }
    }

    /// Submits a transaction. It is applied if it passes the four checks, in
    /// this order: the signature is the payer's, the entry it refers to is
    /// recent, the payer holds the amount, the signature is new. Otherwise the
    /// first failing check is reported and nothing changes.
    pub fn process_transaction(&mut self, tx: &Transaction) -> (outcome: Result<(), BankError>)
        requires
            old(self).wf(),
        ensures
            final(self).wf(),
            outcome == old(self)@.check(*tx),
            final(self)@ == old(self)@.process(*tx),
    {
        let signed = tx.verify_signature();
        self.process_verified(tx, signed)
    }

    /// Submits a transaction whose signature was checked already, with the
    /// result `signed`. The transaction is applied if `signed` holds, the
    /// entry it refers to is recent, the payer holds the amount, and the
    /// signature is new. Otherwise the first failing check is reported and
    /// nothing changes.
    pub fn process_verified(&mut self, tx: &Transaction, signed: bool) -> (outcome: Result<
        (),
        BankError,
    >)
        requires
            old(self).wf(),
        ensures
            final(self).wf(),
            outcome == old(self)@.check_given(*tx, signed),
            final(self)@ == if outcome is Ok {
                old(self)@.apply(*tx)
            } else {
                old(self)@
            },
    {
        if !signed {
            return Err(BankError::SignatureInvalid);
        }
        if !self.is_recent(&tx.last_id) {
            return Err(BankError::LastIdNotFound);
        }
        let payer = self.find_account(&tx.from);
        let funds: i64 = match payer {
            Some(at) => self.accounts[at].balance,
            None => 0,
        };
        if tx.tokens < 0 || funds < tx.tokens {
            return Err(BankError::InsufficientFunds);
        }
        if self.has_signature(&tx.signature) {
            return Err(BankError::DuplicateSignature);
        }
        let ghost before = self.accounts@;
        let ghost floor: int = if self.emission < 0 {
            self.emission as int
        } else {
            0
        };
        assert(bounded_below(before, floor));
        if let Some(at) = payer {
            self.accounts[at] = Account { key: tx.from, balance: funds - tx.tokens };
        }
        let ghost debited = self.accounts@;
        assert(debited == debit(before, tx.from, tx.tokens as int));
        match self.find_account(&tx.to) {
            Some(to) => {
                let held: i64 = self.accounts[to].balance;
                proof {
                    lemma_one_bound(before, floor, to as int);
                    if let Some(at) = payer {
                        if at < to {
                            lemma_pair_bound(before, floor, at as int, to as int);
                        } else if to < at {
                            lemma_pair_bound(before, floor, to as int, at as int);
                        }
                    }
                }
                self.accounts[to] = Account { key: tx.to, balance: held + tx.tokens };
            },
            None => {
                self.accounts.push(Account { key: tx.to, balance: tx.tokens });
            },
        }
        assert(self.accounts@ == credit(debited, tx.to, tx.tokens as int));
        self.signatures.push(tx.signature);
        self.transaction_count = self.signatures.len();
        proof {
            law_transfer(old(self)@, *tx);
        }
        Ok(())
    }
}

} // verus!
