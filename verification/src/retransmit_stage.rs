//! The stage in front of the replay: it puts the blobs that arrive into the
//! window, passes new ones on to the other validators, and hands the blobs
//! that are ready to the replay.

use crate::keys::Pubkey;
use crate::packet::{blob_views, Blob, BlobView};
use crate::window::{Arrival, Window, WindowView};
use vstd::prelude::*;

verus! {

/// The peers to pass a blob on to: all but this node and the node that the
/// blob came from, in the order of the list.
pub open spec fn others(peers: Seq<Pubkey>, me: Pubkey, originator: Pubkey) -> Seq<Pubkey>
    decreases peers.len(),
{
    if peers.len() == 0 {
        Seq::empty()
    } else if peers.last() == me || peers.last() == originator {
        others(peers.drop_last(), me, originator)
    } else {
        others(peers.drop_last(), me, originator).push(peers.last())
    }
}

/// The window after the blobs arrived in order, where after each arrival the
/// blobs that are ready were handed on.
pub open spec fn window_after(window: WindowView, blobs: Seq<BlobView>) -> WindowView
    decreases blobs.len(),
{
    if blobs.len() == 0 {
        window
    } else {
        window_after(window, blobs.drop_last()).insert(blobs.last()).delivered()
    }
}

/// The blobs among those that arrived that were new to the window, in the
/// order of arrival.
pub open spec fn fresh_blobs(window: WindowView, blobs: Seq<BlobView>) -> Seq<BlobView>
    decreases blobs.len(),
{
    if blobs.len() == 0 {
        Seq::empty()
    } else {
        let earlier = fresh_blobs(window, blobs.drop_last());
        if window_after(window, blobs.drop_last()).arrival(blobs.last()) == Arrival::Inserted {
            earlier.push(blobs.last())
        } else {
            earlier
        }
    }
}

/// The blobs that were handed on while the blobs arrived, in the order in
/// which they were handed on.
pub open spec fn ready_blobs(window: WindowView, blobs: Seq<BlobView>) -> Seq<BlobView>
    decreases blobs.len(),
{
    if blobs.len() == 0 {
        Seq::empty()
    } else {
        ready_blobs(window, blobs.drop_last()) + window_after(window, blobs.drop_last()).insert(
            blobs.last(),
        ).ready()
    }
}

/// What became of a batch of blobs.
pub struct Reception {
    /// The blobs that were new, to be passed on to the other validators.
    pub fresh: Vec<Blob>,
    /// The blobs that are ready for the replay, in the order of their
    /// indices.
    pub ready: Vec<Blob>,
}

/// Picks the peers to pass a blob on to.
pub fn retransmit_peers(peers: &Vec<Pubkey>, me: &Pubkey, originator: &Pubkey) -> (targets: Vec<
    Pubkey,
>)
    ensures
        targets@ == others(peers@, *me, *originator),
{
    let mut targets: Vec<Pubkey> = Vec::new();
    let mut i: usize = 0;
    proof {
        assert(peers@.take(0) =~= Seq::empty());
    }
    while i < peers.len()
        invariant
            i <= peers@.len(),
            targets@ == others(peers@.take(i as int), *me, *originator),
        decreases peers@.len() - i,
    {
        proof {
            let next = peers@.take(i + 1);
            assert(next.drop_last() =~= peers@.take(i as int));
        }
        if !peers[i].equals(me) && !peers[i].equals(originator) {
            targets.push(peers[i]);
        }
        i += 1;
    }
    proof {
        assert(peers@.take(i as int) =~= peers@);
    }
    targets
}

/// Takes in a batch of blobs in the order of arrival. Each blob is put into
/// the window if it is new; after each arrival the blobs that are ready
/// leave the window.
pub fn receive(window: &mut Window, blobs: &Vec<Blob>) -> (reception: Reception)
    requires
        old(window).wf(),
    ensures
        final(window).wf(),
        final(window)@ == window_after(old(window)@, blob_views(blobs@)),
        blob_views(reception.fresh@) == fresh_blobs(old(window)@, blob_views(blobs@)),
        blob_views(reception.ready@) == ready_blobs(old(window)@, blob_views(blobs@)),
{
    let ghost views = blob_views(blobs@);
    let mut fresh: Vec<Blob> = Vec::new();
    let mut ready: Vec<Blob> = Vec::new();
    let mut i: usize = 0;
    proof {
        assert(views.take(0) =~= Seq::empty());
        assert(blob_views(fresh@) =~= Seq::empty());
        assert(blob_views(ready@) =~= Seq::empty());
    }
    while i < blobs.len()
        invariant
            i <= blobs@.len(),
            views == blob_views(blobs@),
            window.wf(),
            window@ == window_after(old(window)@, views.take(i as int)),
            blob_views(fresh@) == fresh_blobs(old(window)@, views.take(i as int)),
            blob_views(ready@) == ready_blobs(old(window)@, views.take(i as int)),
        decreases blobs@.len() - i,
    {
        proof {
            let next = views.take(i + 1);
            assert(next.drop_last() =~= views.take(i as int));
            assert(next.last() == blobs@[i as int]@);
        }
        let ghost fresh_before = fresh@;
        let ghost ready_before = ready@;
        let arrival = window.insert(blobs[i].duplicate());
        if arrival == Arrival::Inserted {
            fresh.push(blobs[i].duplicate());
            proof {
                assert(blob_views(fresh@) =~= blob_views(fresh_before).push(blobs@[i as int]@));
            }
        }
        let mut handed = window.deliver();
        let ghost handed_views = blob_views(handed@);
        ready.append(&mut handed);
        proof {
            assert(blob_views(ready@) =~= blob_views(ready_before) + handed_views);
        }
        i += 1;
    }
    proof {
        assert(views.take(i as int) =~= views);
    }
    Reception { fresh, ready }
}

} // verus!
