//! The stage that replays the entries of the leader against the local bank.

use crate::bank::Bank;
use crate::entry::{entry_well_formed, parsed_entry, Entry, EntryView};
use crate::ledger_model::BankView;
use crate::packet::{blob_views, Blob, BlobView};
use crate::transaction::Transaction;
use vstd::prelude::*;

verus! {

/// Why replaying stopped.
#[derive(Clone, Copy, Debug, PartialEq, Eq, Structural)]
pub enum ReplicateError {
    /// An entry does not name the entry replayed before it.
    LedgerForked,
}

/// The bank after an entry was replayed: its transactions were submitted in
/// order and its id was registered.
pub open spec fn replay_entry(bank: BankView, entry: EntryView) -> BankView {
    bank.process_all(entry.transactions).register(entry.id())
}

/// Whether the payload carries an entry that does not continue the chain of
/// the bank.
pub open spec fn forks(bank: BankView, data: Seq<u8>) -> bool {
    entry_well_formed(data) && parsed_entry(data).prev_hash != bank.last_id
}

/// The bank after one payload arrived: an entry that continues the chain is
/// replayed; a payload that carries no entry, or an entry that forks,
/// changes nothing.
pub open spec fn replay_payload(bank: BankView, data: Seq<u8>) -> BankView {
    if entry_well_formed(data) && !forks(bank, data) {
        replay_entry(bank, parsed_entry(data))
    } else {
        bank
    }
}

/// How many of the blobs are replayed before one forks: all of them if none
/// does.
pub open spec fn replayed(bank: BankView, blobs: Seq<BlobView>) -> nat
    decreases blobs.len(),
{
    if blobs.len() == 0 {
        0
    } else {
        let n = replayed(bank, blobs.drop_last());
        if n == blobs.len() - 1 && !forks(replay_all(bank, blobs.drop_last()), blobs.last().data) {
            n + 1
        } else {
            n
        }
    }
}

/// The bank after the blobs arrived in order, up to the first that forks.
pub open spec fn replay_all(bank: BankView, blobs: Seq<BlobView>) -> BankView
    decreases blobs.len(),
{
    if blobs.len() == 0 {
        bank
    } else if replayed(bank, blobs.drop_last()) < blobs.len() - 1 {
        replay_all(bank, blobs.drop_last())
    } else {
        replay_payload(replay_all(bank, blobs.drop_last()), blobs.last().data)
    }
}

/// How many of the blobs carry a payload that is no entry.
pub open spec fn stray_payloads(blobs: Seq<BlobView>) -> nat
    decreases blobs.len(),
{
    if blobs.len() == 0 {
        0
    } else if entry_well_formed(blobs.last().data) {
        stray_payloads(blobs.drop_last())
    } else {
        stray_payloads(blobs.drop_last()) + 1
    }
}

/// Counts the blobs whose payload is no entry.
pub fn count_stray_payloads(blobs: &Vec<Blob>) -> (count: usize)
    ensures
        count == stray_payloads(blob_views(blobs@)),
{
    let ghost views = blob_views(blobs@);
    let mut count: usize = 0;
    let mut i: usize = 0;
    proof {
        assert(views.take(0) =~= Seq::empty());
    }
    while i < blobs.len()
        invariant
            i <= blobs@.len(),
            views == blob_views(blobs@),
            count <= i,
            count == stray_payloads(views.take(i as int)),
        decreases blobs@.len() - i,
    {
        proof {
            let next = views.take(i + 1);
            assert(next.drop_last() =~= views.take(i as int));
            assert(next.last() == blobs@[i as int]@);
        }
        if !Entry::is_well_formed(blobs[i].data.as_slice()) {
            count += 1;
        }
        i += 1;
    }
    proof {
        assert(views.take(i as int) =~= views);
    }
    count
}

/// Submits the transactions of an entry in order. What the bank turns down
/// leaves no trace.
pub fn process_entry_transactions(bank: &mut Bank, transactions: &Vec<Transaction>)
    requires
        old(bank).wf(),
    ensures
        final(bank).wf(),
        final(bank)@ == old(bank)@.process_all(transactions@),
{
    let mut i: usize = 0;
    proof {
        assert(transactions@.take(0) =~= Seq::empty());
    }
    while i < transactions.len()
        invariant
            i <= transactions@.len(),
            bank.wf(),
            bank@ == old(bank)@.process_all(transactions@.take(i as int)),
        decreases transactions@.len() - i,
    {
        proof {
            let next = transactions@.take(i + 1);
            assert(next.drop_last() =~= transactions@.take(i as int));
        }
        let _ = bank.process_transaction(&transactions[i]);
        i += 1;
    }
    proof {
        assert(transactions@.take(i as int) =~= transactions@);
    }
}

/// Replays one entry: checks that it names the id that the bank registered
/// last, submits its transactions, and registers its id.
pub fn replicate_entry(bank: &mut Bank, entry: &Entry) -> (outcome: Result<(), ReplicateError>)
    requires
        old(bank).wf(),
    ensures
        final(bank).wf(),
        outcome is Err <==> entry@.prev_hash != old(bank)@.last_id,
        outcome is Ok ==> final(bank)@ == replay_entry(old(bank)@, entry@),
        outcome is Err ==> final(bank)@ == old(bank)@,
{
    let last = bank.last_id();
    if !entry.prev_hash.equals(&last) {
        return Err(ReplicateError::LedgerForked);
    }
    process_entry_transactions(bank, &entry.transactions);
    let id = entry.id();
    bank.register_entry_id(&id);
    Ok(())
}

/// Replays the entries that the blobs carry, in the order of the blobs. A
/// blob whose payload is no entry is skipped. The first entry that does not
/// continue the chain stops the replay with `LedgerForked`; what was
/// replayed before it stays.
pub fn replicate(bank: &mut Bank, blobs: &Vec<Blob>) -> (outcome: Result<(), ReplicateError>)
    requires
        old(bank).wf(),
    ensures
        final(bank).wf(),
        final(bank)@ == replay_all(old(bank)@, blob_views(blobs@)),
        outcome is Ok <==> replayed(old(bank)@, blob_views(blobs@)) == blobs@.len(),
{
    let ghost views = blob_views(blobs@);
    let mut i: usize = 0;
    proof {
        assert(views.take(0) =~= Seq::empty());
    }
    while i < blobs.len()
        invariant
            i <= blobs@.len(),
            views == blob_views(blobs@),
            bank.wf(),
            bank@ == replay_all(old(bank)@, views.take(i as int)),
            replayed(old(bank)@, views.take(i as int)) == i,
        decreases blobs@.len() - i,
    {
        proof {
            let next = views.take(i + 1);
            assert(next.drop_last() =~= views.take(i as int));
            assert(next.last() == blobs@[i as int]@);
        }
        let ghost data = blobs@[i as int].data@;
        match Entry::from_bytes(blobs[i].data.as_slice()) {
            Some(entry) => {
                if replicate_entry(bank, &entry).is_err() {
                    proof {
                        lemma_stays_forked(old(bank)@, views, i as int + 1);
                    }
                    return Err(ReplicateError::LedgerForked);
                }
            },
            None => {},
        }
        i += 1;
    }
    proof {
        assert(views.take(i as int) =~= views);
    }
    Ok(())
}

/// No more blobs are replayed than there are.
pub proof fn lemma_replayed_bound(bank: BankView, blobs: Seq<BlobView>)
    ensures
        replayed(bank, blobs) <= blobs.len(),
    decreases blobs.len(),
{
    if blobs.len() > 0 {
        lemma_replayed_bound(bank, blobs.drop_last());
    }
}

/// Once a blob forks, the blobs after it change nothing.
pub proof fn lemma_stays_forked(bank: BankView, blobs: Seq<BlobView>, n: int)
    requires
        0 <= n <= blobs.len(),
        replayed(bank, blobs.take(n)) < n,
    ensures
        replayed(bank, blobs) == replayed(bank, blobs.take(n)),
        replay_all(bank, blobs) == replay_all(bank, blobs.take(n)),
    decreases blobs.len() - n,
{
    if n < blobs.len() {
        let next = blobs.take(n + 1);
        assert(next.drop_last() =~= blobs.take(n));
        lemma_stays_forked(bank, blobs, n + 1);
    } else {
        assert(blobs.take(n) =~= blobs);
    }
}

} // verus!
