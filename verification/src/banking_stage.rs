//! The stage that submits verified transactions to the bank and passes on
//! those that the bank accepted.

use crate::bank::Bank;
use crate::ledger_model::BankView;
use crate::packet::{packet_transaction, packet_well_formed, Packet};
use crate::sigverify_stage::malformed;
use crate::transaction::Transaction;
use vstd::prelude::*;

verus! {

/// Whether the packet at `i` is submitted: it is marked as verified and it
/// carries a transaction. A packet without a mark counts as unverified.
pub open spec fn is_submitted(packets: Seq<Packet>, marks: Seq<bool>, i: int) -> bool {
    i < marks.len() && marks[i] && packet_well_formed(packets[i].data@)
}

/// The transactions that a batch submits, in the order of arrival.
pub open spec fn submissions(packets: Seq<Packet>, marks: Seq<bool>) -> Seq<Transaction>
    decreases packets.len(),
{
    if packets.len() == 0 {
        Seq::empty()
    } else {
        let earlier = submissions(packets.drop_last(), marks);
        if is_submitted(packets, marks, packets.len() - 1) {
            earlier.push(packet_transaction(packets.last().data@))
        } else {
            earlier
        }
    }
}

/// The transactions among `txs` that the bank accepts when they are
/// submitted in order, each seeing the effects of those before it.
pub open spec fn accepted(view: BankView, txs: Seq<Transaction>) -> Seq<Transaction>
    decreases txs.len(),
{
    if txs.len() == 0 {
        Seq::empty()
    } else {
        let earlier = accepted(view, txs.drop_last());
        if view.process_all(txs.drop_last()).check(txs.last()) is Ok {
            earlier.push(txs.last())
        } else {
            earlier
        }
    }
}

/// The packets that are submitted carry a transaction, and no more are
/// accepted than are submitted.
pub proof fn lemma_batch_counts(view: BankView, packets: Seq<Packet>, marks: Seq<bool>)
    ensures
        submissions(packets, marks).len() + malformed(packets) <= packets.len(),
        accepted(view, submissions(packets, marks)).len() <= submissions(packets, marks).len(),
{
    lemma_submissions_count(packets, marks);
    lemma_accepted_count(view, submissions(packets, marks));
}

proof fn lemma_submissions_count(packets: Seq<Packet>, marks: Seq<bool>)
    ensures
        submissions(packets, marks).len() + malformed(packets) <= packets.len(),
    decreases packets.len(),
{
    if packets.len() > 0 {
        lemma_submissions_count(packets.drop_last(), marks);
    }
}

proof fn lemma_accepted_count(view: BankView, txs: Seq<Transaction>)
    ensures
        accepted(view, txs).len() <= txs.len(),
    decreases txs.len(),
{
    if txs.len() > 0 {
        lemma_accepted_count(view, txs.drop_last());
    }
}

/// Submits each verified transaction of the batch to the bank, in the order
/// of arrival, and returns those that were accepted, in the same order.
/// Packets that are unverified or carry no transaction, and transactions
/// that the bank turns down, leave no trace.
pub fn process_packets(bank: &mut Bank, packets: &Vec<Packet>, marks: &Vec<bool>) -> (taken: Vec<
    Transaction,
>)
    requires
        old(bank).wf(),
    ensures
        final(bank).wf(),
        final(bank)@ == old(bank)@.process_all(submissions(packets@, marks@)),
        taken@ == accepted(old(bank)@, submissions(packets@, marks@)),
{
    let mut taken: Vec<Transaction> = Vec::new();
    let mut i: usize = 0;
    proof {
        assert(packets@.take(0) =~= Seq::empty());
    }
    while i < packets.len()
        invariant
            i <= packets@.len(),
            bank.wf(),
            bank@ == old(bank)@.process_all(submissions(packets@.take(i as int), marks@)),
            taken@ == accepted(old(bank)@, submissions(packets@.take(i as int), marks@)),
        decreases packets@.len() - i,
    {
        let ghost earlier = submissions(packets@.take(i as int), marks@);
        proof {
            let next = packets@.take(i + 1);
            assert(next.drop_last() =~= packets@.take(i as int));
            assert(next.last() == packets@[i as int]);
        }
        if i < marks.len() && marks[i] {
            if let Some(tx) = packets[i].transaction() {
                proof {
                    assert(earlier.push(tx).drop_last() =~= earlier);
                }
                if bank.process_transaction(&tx).is_ok() {
                    taken.push(tx);
                }
            }
        }
        i += 1;
    }
    proof {
        assert(packets@.take(i as int) =~= packets@);
    }
    taken
}

} // verus!
