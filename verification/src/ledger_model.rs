//! The mathematical model of the account state machine: what a bank holds,
//! when it accepts a transaction, and what accepting one changes.

use crate::keys;
use crate::keys::{Pubkey, Signature};
use crate::transaction::Transaction;
use vstd::prelude::*;

verus! {

/// How many recent entry ids a transaction may refer to.
pub const MAX_ENTRY_IDS: usize = 32;

/// One account: its address and what it holds.
#[derive(Clone, Copy, Debug, PartialEq, Eq)]
pub struct Account {
    pub key: Pubkey,
    pub balance: i64,
}

/// Why a transaction was turned down.
#[derive(Clone, Copy, Debug, PartialEq, Eq, Structural)]
pub enum BankError {
    /// The signature is not the payer's signature of the transaction.
    SignatureInvalid,
    /// The entry that the transaction refers to is not among the recent ones.
    LastIdNotFound,
    /// The payer does not hold the amount, or the amount is negative.
    InsufficientFunds,
    /// A transaction with this signature was applied before.
    DuplicateSignature,
}

/// No two accounts share an address.
pub open spec fn distinct_keys(accounts: Seq<Account>) -> bool {
    forall|i: int, j: int| 0 <= i < j < accounts.len() ==> accounts[i].key != accounts[j].key
}

/// Whether an account with this address exists.
pub open spec fn has_account(accounts: Seq<Account>, key: Pubkey) -> bool {
    exists|i: int| 0 <= i < accounts.len() && accounts[i].key == key
}

/// Where the account with this address stands, if it exists.
pub open spec fn position(accounts: Seq<Account>, key: Pubkey) -> int {
    choose|i: int| 0 <= i < accounts.len() && accounts[i].key == key
}

/// What the account with this address holds; an unknown account holds
/// nothing.
pub open spec fn balance_of(accounts: Seq<Account>, key: Pubkey) -> int {
    if has_account(accounts, key) {
        accounts[position(accounts, key)].balance as int
    } else {
        0
    }
}

/// The sum of all balances.
pub open spec fn total(accounts: Seq<Account>) -> int
    decreases accounts.len(),
{
    if accounts.len() == 0 {
        0
    } else {
        total(accounts.drop_last()) + accounts.last().balance
    }
}

/// Takes `amount` out of an account. An unknown account is left unknown.
pub open spec fn debit(accounts: Seq<Account>, key: Pubkey, amount: int) -> Seq<Account> {
    if has_account(accounts, key) {
        let at = position(accounts, key);
        accounts.update(at, Account { key, balance: (accounts[at].balance - amount) as i64 })
    } else {
        accounts
    }
}

/// Puts `amount` into an account, which is created if it is unknown.
pub open spec fn credit(accounts: Seq<Account>, key: Pubkey, amount: int) -> Seq<Account> {
    if has_account(accounts, key) {
        let at = position(accounts, key);
        accounts.update(at, Account { key, balance: (accounts[at].balance + amount) as i64 })
    } else {
        accounts.push(Account { key, balance: amount as i64 })
    }
}

/// Everything a bank holds, as plain mathematical values.
pub struct BankView {
    /// The accounts in the order of their creation; the mint comes first.
    pub accounts: Seq<Account>,
    /// The signatures of the applied transactions, oldest first.
    pub signatures: Seq<Signature>,
    /// The recent entry ids, oldest first.
    pub entry_ids: Seq<keys::Hash>,
    /// The id registered last.
    pub last_id: keys::Hash,
    /// How many transactions were applied.
    pub transaction_count: nat,
    /// Milliseconds since the bank last made progress, as last reported.
    pub finality: nat,
    /// The address of the mint.
    pub mint: Pubkey,
    /// The number of tokens that the mint was created with.
    pub emission: int,
}

impl BankView {
    /// The invariant of the state machine. The mint comes first and no two
    /// accounts share an address. No account holds less than nothing, but
    /// for a mint that was created in debt, which is never deeper in debt
    /// than at first. The balances sum to the emission. No signature was
    /// applied twice, and the counter counts the signatures. At least one
    /// entry id is recent, at most `MAX_ENTRY_IDS` are, and the newest of
    /// them is the last id.
    pub open spec fn valid(self) -> bool {
        &&& self.accounts.len() >= 1
        &&& self.accounts[0].key == self.mint
        &&& distinct_keys(self.accounts)
        &&& self.accounts[0].balance >= 0 || self.accounts[0].balance >= self.emission
        &&& forall|i: int| 1 <= i < self.accounts.len() ==> self.accounts[i].balance >= 0
        &&& total(self.accounts) == self.emission
        &&& i64::MIN <= self.emission <= i64::MAX
        &&& self.signatures.no_duplicates()
        &&& self.transaction_count == self.signatures.len()
        &&& 1 <= self.entry_ids.len() <= MAX_ENTRY_IDS
        &&& self.last_id == self.entry_ids.last()
    }

    /// What the account `key` holds.
    pub open spec fn balance(self, key: Pubkey) -> int {
        balance_of(self.accounts, key)
    }

    /// Whether a transaction with this signature was applied.
    pub open spec fn has_signature(self, signature: Signature) -> bool {
        self.signatures.contains(signature)
    }

    /// Whether a transaction may still refer to this entry id.
    pub open spec fn is_recent(self, id: keys::Hash) -> bool {
        self.entry_ids.contains(id)
    }

    /// The verdict on a transaction whose signature was checked with the
    /// result `signed`: the first of the four checks that it fails, in their
    /// fixed order, or `Ok`.
    pub open spec fn check_given(self, tx: Transaction, signed: bool) -> Result<(), BankError> {
        if !signed {
            Err(BankError::SignatureInvalid)
        } else if !self.is_recent(tx.last_id) {
            Err(BankError::LastIdNotFound)
        } else if !(0 <= tx.tokens <= self.balance(tx.from)) {
            Err(BankError::InsufficientFunds)
        } else if self.has_signature(tx.signature) {
            Err(BankError::DuplicateSignature)
        } else {
            Ok(())
        }
    }

    /// The verdict on a transaction.
    pub open spec fn check(self, tx: Transaction) -> Result<(), BankError> {
        self.check_given(tx, tx.signed())
    }

    /// The state after an accepted transaction.
    pub open spec fn apply(self, tx: Transaction) -> BankView {
        BankView {
            accounts: credit(debit(self.accounts, tx.from, tx.tokens as int), tx.to, tx.tokens as int),
            signatures: self.signatures.push(tx.signature),
            transaction_count: self.transaction_count + 1,
            ..self
        }
    }

    /// The state after a transaction was submitted: changed if it was
    /// accepted, the same if it was turned down.
    pub open spec fn process(self, tx: Transaction) -> BankView {
        if self.check(tx) is Ok {
            self.apply(tx)
        } else {
            self
        }
    }

    /// The state after a batch of transactions was submitted in order.
    pub open spec fn process_all(self, txs: Seq<Transaction>) -> BankView
        decreases txs.len(),
    {
        if txs.len() == 0 {
            self
        } else {
            self.process_all(txs.drop_last()).process(txs.last())
        }
    }

    /// The entry ids after one more was registered: the new one is appended
    /// and, beyond the limit, the oldest leaves.
    pub open spec fn register(self, id: keys::Hash) -> BankView {
        let appended = self.entry_ids.push(id);
        BankView {
            entry_ids: if appended.len() > MAX_ENTRY_IDS {
                appended.subrange(1, appended.len() as int)
            } else {
                appended
            },
            last_id: id,
            ..self
        }
    }
}

/// Every balance but the first is at least zero, and the first is at least
/// `floor`.
pub open spec fn bounded_below(accounts: Seq<Account>, floor: int) -> bool {
    forall|k: int|
        0 <= k < accounts.len() ==> accounts[k].balance >= (if k == 0 {
            floor
        } else {
            0
        })
}

/// With distinct addresses, an account stands where its address is found.
pub proof fn lemma_position_unique(accounts: Seq<Account>, key: Pubkey, at: int)
    requires
        distinct_keys(accounts),
        0 <= at < accounts.len(),
        accounts[at].key == key,
    ensures
        has_account(accounts, key),
        position(accounts, key) == at,
        balance_of(accounts, key) == accounts[at].balance,
{
    let found = position(accounts, key);
    assert(0 <= found < accounts.len() && accounts[found].key == key);
    if found < at {
        assert(accounts[found].key != accounts[at].key);
    } else if at < found {
        assert(accounts[at].key != accounts[found].key);
    }
}

/// Appending an account adds its balance to the sum.
pub proof fn lemma_total_push(accounts: Seq<Account>, account: Account)
    ensures
        total(accounts.push(account)) == total(accounts) + account.balance,
{
    assert(accounts.push(account).drop_last() =~= accounts);
}

/// Replacing an account changes the sum by the difference of the balances.
pub proof fn lemma_total_update(accounts: Seq<Account>, at: int, account: Account)
    requires
        0 <= at < accounts.len(),
    ensures
        total(accounts.update(at, account)) == total(accounts) - accounts[at].balance
            + account.balance,
    decreases accounts.len(),
{
    let updated = accounts.update(at, account);
    if at == accounts.len() - 1 {
        assert(updated.drop_last() =~= accounts.drop_last());
    } else {
        assert(updated.drop_last() =~= accounts.drop_last().update(at, account));
        lemma_total_update(accounts.drop_last(), at, account);
    }
}

/// The sum is at least the floor.
pub proof fn lemma_total_floor(accounts: Seq<Account>, floor: int)
    requires
        floor <= 0,
        bounded_below(accounts, floor),
    ensures
        total(accounts) >= floor,
    decreases accounts.len(),
{
    if accounts.len() > 0 {
        lemma_total_floor(accounts.drop_last(), floor);
    }
}

/// No balance exceeds the sum less the floor.
pub proof fn lemma_one_bound(accounts: Seq<Account>, floor: int, i: int)
    requires
        floor <= 0,
        bounded_below(accounts, floor),
        0 <= i < accounts.len(),
    ensures
        accounts[i].balance + floor <= total(accounts),
    decreases accounts.len(),
{
    if i == accounts.len() - 1 {
        lemma_total_floor(accounts.drop_last(), floor);
    } else {
        lemma_one_bound(accounts.drop_last(), floor, i);
    }
}

/// No two balances together exceed the sum less the floor.
pub proof fn lemma_pair_bound(accounts: Seq<Account>, floor: int, i: int, j: int)
    requires
        floor <= 0,
        bounded_below(accounts, floor),
        0 <= i < j < accounts.len(),
    ensures
        accounts[i].balance + accounts[j].balance + floor <= total(accounts),
    decreases accounts.len(),
{
    if j == accounts.len() - 1 {
        lemma_one_bound(accounts.drop_last(), floor, i);
    } else {
        lemma_pair_bound(accounts.drop_last(), floor, i, j);
    }
}

} // verus!
