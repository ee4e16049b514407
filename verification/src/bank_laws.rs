//! What holds of the account state machine on every input: tokens are
//! conserved, an applied signature stays applied and is never applied again,
//! and a transaction that is submitted again is turned down.

use crate::keys;
use crate::keys::{Pubkey, Signature};
use crate::ledger_model::{
    balance_of, bounded_below, credit, debit, distinct_keys, has_account, lemma_one_bound,
    lemma_pair_bound, lemma_position_unique, lemma_total_push, lemma_total_update, position,
    total, Account, BankError, BankView,
};
use crate::transaction::Transaction;
use vstd::prelude::*;

verus! {

/// Replacing the balance of one account changes what that account holds and
/// nothing else.
pub proof fn lemma_update_balance(accounts: Seq<Account>, at: int, balance: i64)
    requires
        distinct_keys(accounts),
        0 <= at < accounts.len(),
    ensures
        ({
            let updated = accounts.update(at, Account { key: accounts[at].key, balance });
            &&& distinct_keys(updated)
            &&& forall|k: Pubkey| #[trigger] has_account(updated, k) == has_account(accounts, k)
            &&& forall|k: Pubkey|
                has_account(accounts, k) ==> #[trigger] position(updated, k) == position(
                    accounts,
                    k,
                )
            &&& forall|k: Pubkey| #[trigger]
                balance_of(updated, k) == if k == accounts[at].key {
                    balance as int
                } else {
                    balance_of(accounts, k)
                }
        }),
{
    let updated = accounts.update(at, Account { key: accounts[at].key, balance });
    assert(distinct_keys(updated));
    assert forall|k: Pubkey| #[trigger] has_account(updated, k) == has_account(accounts, k) by {
        if has_account(accounts, k) {
            let i = position(accounts, k);
            assert(updated[i].key == k);
        }
        if has_account(updated, k) {
            let i = position(updated, k);
            assert(accounts[i].key == k);
        }
    }
    assert forall|k: Pubkey| has_account(accounts, k) implies #[trigger] position(updated, k)
        == position(accounts, k) by {
        let i = position(accounts, k);
        assert(updated[i].key == k);
        lemma_position_unique(updated, k, i);
    }
    assert forall|k: Pubkey| #[trigger]
        balance_of(updated, k) == if k == accounts[at].key {
            balance as int
        } else {
            balance_of(accounts, k)
        } by {
        if has_account(accounts, k) {
            let i = position(accounts, k);
            lemma_position_unique(accounts, k, i);
            assert(updated[i].key == k);
            lemma_position_unique(updated, k, i);
            if k == accounts[at].key {
                lemma_position_unique(accounts, k, at);
            }
        }
    }
}

/// Appending an account with a new address adds that account and changes
/// nothing else.
pub proof fn lemma_push_balance(accounts: Seq<Account>, account: Account)
    requires
        distinct_keys(accounts),
        !has_account(accounts, account.key),
    ensures
        distinct_keys(accounts.push(account)),
        forall|k: Pubkey| #[trigger]
            has_account(accounts.push(account), k) == (has_account(accounts, k) || k
                == account.key),
        forall|k: Pubkey| #[trigger]
            balance_of(accounts.push(account), k) == if k == account.key {
                account.balance as int
            } else {
                balance_of(accounts, k)
            },
{
    let pushed = accounts.push(account);
    assert forall|i: int, j: int| 0 <= i < j < pushed.len() implies pushed[i].key
        != pushed[j].key by {
        if j == accounts.len() {
            assert(accounts[i].key == pushed[i].key);
        }
    }
    assert forall|k: Pubkey| #[trigger]
        has_account(pushed, k) == (has_account(accounts, k) || k == account.key) by {
        if has_account(accounts, k) {
            let i = position(accounts, k);
            assert(pushed[i].key == k);
        }
        if k == account.key {
            assert(pushed[accounts.len() as int].key == k);
        }
        if has_account(pushed, k) {
            let i = position(pushed, k);
            if i < accounts.len() {
                assert(accounts[i].key == k);
            }
        }
    }
    assert forall|k: Pubkey| #[trigger]
        balance_of(pushed, k) == if k == account.key {
            account.balance as int
        } else {
            balance_of(accounts, k)
        } by {
        if k == account.key {
            lemma_position_unique(pushed, k, accounts.len() as int);
        } else if has_account(accounts, k) {
            let i = position(accounts, k);
            assert(pushed[i].key == k);
            lemma_position_unique(pushed, k, i);
        }
    }
}

/// The lowest balance that the mint may have in a bank with this emission.
pub open spec fn mint_floor(emission: int) -> int {
    if emission < 0 {
        emission
    } else {
        0
    }
}

/// An accepted transaction moves its amount from the payer to the recipient
/// and touches no other account; the invariant survives, and with it the sum
/// of all balances.
pub proof fn law_transfer(view: BankView, tx: Transaction)
    requires
        view.valid(),
        view.check_given(tx, true) is Ok,
    ensures
        view.apply(tx).valid(),
        total(view.apply(tx).accounts) == total(view.accounts),
        forall|k: Pubkey| #[trigger]
            view.apply(tx).balance(k) == view.balance(k) - (if k == tx.from {
                tx.tokens as int
            } else {
                0
            }) + (if k == tx.to {
                tx.tokens as int
            } else {
                0
            }),
        view.apply(tx).has_signature(tx.signature),
        view.apply(tx).transaction_count == view.transaction_count + 1,
{
    let before = view.accounts;
    let amount = tx.tokens as int;
    let floor = mint_floor(view.emission);
    assert(bounded_below(before, floor));
    let debited = debit(before, tx.from, amount);
    if has_account(before, tx.from) {
        let p = position(before, tx.from);
        lemma_position_unique(before, tx.from, p);
        lemma_update_balance(before, p, (before[p].balance - amount) as i64);
        lemma_total_update(before, p, debited[p]);
    }
    assert(distinct_keys(debited));
    assert(total(debited) == total(before) - (if has_account(before, tx.from) {
        amount
    } else {
        0
    }));
    assert forall|k: Pubkey| #[trigger]
        balance_of(debited, k) == balance_of(before, k) - (if k == tx.from {
            amount
        } else {
            0
        }) by {}
    let after = credit(debited, tx.to, amount);
    if has_account(debited, tx.to) {
        let r = position(debited, tx.to);
        lemma_position_unique(debited, tx.to, r);
        lemma_one_bound(before, floor, r);
        if has_account(before, tx.from) {
            let p = position(before, tx.from);
            if p < r {
                lemma_pair_bound(before, floor, p, r);
            } else if r < p {
                lemma_pair_bound(before, floor, r, p);
            }
        }
        lemma_update_balance(debited, r, (debited[r].balance + amount) as i64);
        lemma_total_update(debited, r, after[r]);
    } else {
        lemma_push_balance(debited, Account { key: tx.to, balance: amount as i64 });
        lemma_total_push(debited, Account { key: tx.to, balance: amount as i64 });
    }
    assert forall|k: Pubkey| #[trigger]
        balance_of(after, k) == balance_of(debited, k) + (if k == tx.to {
            amount
        } else {
            0
        }) by {}
    let applied = view.apply(tx);
    assert(applied.accounts == after);
    assert(applied.signatures.no_duplicates()) by {
        assert forall|i: int, j: int|
            0 <= i < applied.signatures.len() && 0 <= j < applied.signatures.len() && i
                != j implies applied.signatures[i] != applied.signatures[j] by {
            if i < view.signatures.len() && j < view.signatures.len() {
                assert(view.signatures[i] != view.signatures[j]);
            } else if i < view.signatures.len() {
                assert(view.signatures[i] == applied.signatures[i]);
            } else {
                assert(view.signatures[j] == applied.signatures[j]);
            }
        }
    }
    assert(applied.signatures[view.signatures.len() as int] == tx.signature);
    assert(after[0].key == view.mint);
    assert(after[0].balance >= 0 || after[0].balance >= view.emission);
    assert(forall|i: int| 1 <= i < after.len() ==> after[i].balance >= 0);
}

/// One operation on a bank.
pub enum Step {
    /// A transaction is submitted.
    Submit(Transaction),
    /// An entry id is registered.
    Register(keys::Hash),
    /// The time since the last progress is reported.
    Finality(u64),
}

/// The state after one operation.
pub open spec fn step(view: BankView, s: Step) -> BankView {
    match s {
        Step::Submit(tx) => view.process(tx),
        Step::Register(id) => view.register(id),
        Step::Finality(ms) => BankView { finality: ms as nat, ..view },
    }
}

/// The state after a sequence of operations.
pub open spec fn run(view: BankView, steps: Seq<Step>) -> BankView
    decreases steps.len(),
{
    if steps.len() == 0 {
        view
    } else {
        step(run(view, steps.drop_last()), steps.last())
    }
}

/// Conservation: whatever is done to a bank, the sum of its balances stays
/// the number of tokens that its mint was created with.
pub proof fn law_conservation(view: BankView, steps: Seq<Step>)
    requires
        view.valid(),
    ensures
        run(view, steps).valid(),
        run(view, steps).emission == view.emission,
        run(view, steps).mint == view.mint,
        total(run(view, steps).accounts) == view.emission,
    decreases steps.len(),
{
    if steps.len() > 0 {
        law_conservation(view, steps.drop_last());
        let prior = run(view, steps.drop_last());
        match steps.last() {
            Step::Submit(tx) => {
                if prior.check(tx) is Ok {
                    law_transfer(prior, tx);
                }
            },
            Step::Register(id) => {},
            Step::Finality(ms) => {},
        }
    }
}

/// A signature that the bank has seen stays seen, whatever is done next.
pub proof fn law_signature_stays(view: BankView, steps: Seq<Step>, signature: Signature)
    requires
        view.has_signature(signature),
    ensures
        run(view, steps).has_signature(signature),
    decreases steps.len(),
{
    if steps.len() > 0 {
        law_signature_stays(view, steps.drop_last(), signature);
        let prior = run(view, steps.drop_last());
        let at = choose|i: int| 0 <= i < prior.signatures.len() && prior.signatures[i] == signature;
        match steps.last() {
            Step::Submit(tx) => {
                if prior.check(tx) is Ok {
                    assert(prior.apply(tx).signatures[at] == signature);
                }
            },
            Step::Register(id) => {},
            Step::Finality(ms) => {},
        }
    }
}

/// No double spend: a transaction whose signature the bank has seen is turned
/// down and changes nothing, and a signature enters the bank only with the
/// transaction that carries it.
pub proof fn law_applied_once(view: BankView, tx: Transaction, signature: Signature)
    ensures
        view.has_signature(tx.signature) ==> view.check(tx) is Err && view.process(tx) == view,
        view.process(tx).has_signature(signature) && !view.has_signature(signature) ==> tx.signature
            == signature && view.check(tx) is Ok,
{
    if view.process(tx).has_signature(signature) && !view.has_signature(signature) {
        let after = view.process(tx);
        let at = choose|i: int| 0 <= i < after.signatures.len() && after.signatures[i] == signature;
        if at < view.signatures.len() {
            assert(view.signatures[at] == signature);
        }
    }
}

/// Replay safety: once a transaction was applied, submitting it again is
/// turned down in every later state. While the entry that it refers to is
/// recent and the payer still holds the amount, the reason is the duplicate
/// signature; once that entry has left the window, the reason is the unknown
/// entry id.
pub proof fn law_replay(view: BankView, tx: Transaction, steps: Seq<Step>)
    requires
        view.valid(),
        view.check(tx) is Ok,
    ensures
        ({
            let later = run(view.apply(tx), steps);
            &&& later.process(tx) == later
            &&& later.check(tx) == if !later.is_recent(tx.last_id) {
                Err::<(), BankError>(BankError::LastIdNotFound)
            } else if !(0 <= tx.tokens <= later.balance(tx.from)) {
                Err(BankError::InsufficientFunds)
            } else {
                Err(BankError::DuplicateSignature)
            }
        }),
{
    law_transfer(view, tx);
    law_signature_stays(view.apply(tx), steps, tx.signature);
}

} // verus!
