//! Signature verification of packet batches.

use crate::packet::{packet_transaction, packet_well_formed, Packet};
use vstd::prelude::*;

verus! {

/// Whether a packet carries a transaction whose signature is its payer's.
pub open spec fn packet_verifies(data: Seq<u8>) -> bool {
    packet_well_formed(data) && packet_transaction(data).signed()
}

/// The marks of a batch: one for each packet, in the order of the packets.
/// With verification disabled every mark says "verified".
pub open spec fn batch_marks(packets: Seq<Packet>, sigverify_disabled: bool) -> Seq<bool> {
    Seq::new(packets.len(), |i: int| sigverify_disabled || packet_verifies(packets[i].data@))
}

/// How many of the packets carry no transaction.
pub open spec fn malformed(packets: Seq<Packet>) -> nat
    decreases packets.len(),
{
    if packets.len() == 0 {
        0
    } else if packet_well_formed(packets.last().data@) {
        malformed(packets.drop_last())
    } else {
        malformed(packets.drop_last()) + 1
    }
}

/// No more packets are malformed than there are.
pub proof fn lemma_malformed_bound(packets: Seq<Packet>)
    ensures
        malformed(packets) <= packets.len(),
    decreases packets.len(),
{
    if packets.len() > 0 {
        lemma_malformed_bound(packets.drop_last());
    }
}

/// Counts the packets that carry no transaction.
pub fn count_malformed(packets: &Vec<Packet>) -> (count: usize)
    ensures
        count == malformed(packets@),
{
    let mut count: usize = 0;
    let mut i: usize = 0;
    proof {
        assert(packets@.take(0) =~= Seq::empty());
    }
    while i < packets.len()
        invariant
            i <= packets@.len(),
            count <= i,
            count == malformed(packets@.take(i as int)),
        decreases packets@.len() - i,
    {
        proof {
            let next = packets@.take(i + 1);
            assert(next.drop_last() =~= packets@.take(i as int));
        }
        if !packets[i].is_well_formed() {
            count += 1;
        }
        i += 1;
    }
    proof {
        assert(packets@.take(i as int) =~= packets@);
    }
    count
}

/// Checks one packet: it must carry a transaction, and the signature of the
/// transaction must verify.
pub fn verify_packet(packet: &Packet) -> (ok: bool)
    ensures
        ok == packet_verifies(packet.data@),
{
    match packet.transaction() {
        Some(tx) => tx.verify_signature(),
        None => false,
    }
}

/// Checks a batch of packets and returns one mark for each, in the order of
/// the packets. With verification disabled every packet is marked as
/// verified and no signature is checked.
pub fn verify_batch(packets: &Vec<Packet>, sigverify_disabled: bool) -> (marks: Vec<bool>)
    ensures
        marks@ == batch_marks(packets@, sigverify_disabled),
{
    let mut marks: Vec<bool> = Vec::new();
    let mut i: usize = 0;
    while i < packets.len()
        invariant
            i <= packets@.len(),
            marks@.len() == i,
            forall|k: int|
                0 <= k < i ==> marks@[k] == (sigverify_disabled || packet_verifies(
                    packets@[k].data@,
                )),
        decreases packets@.len() - i,
    {
        let ok = sigverify_disabled || verify_packet(&packets[i]);
        marks.push(ok);
        i += 1;
    }
    assert(marks@ =~= batch_marks(packets@, sigverify_disabled));
    marks
}

} // verus!
