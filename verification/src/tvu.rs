//! The transaction validation unit: the pipeline of a validator. Blobs that
//! arrive are put in order by the window, new ones are passed on to the
//! other validators, and the entries of those that are ready are replayed
//! against the bank.
//!
//! ```text
//! blobs -> window -> replay -> bank
//!            |
//!            +-> retransmit, repair
//! ```

use crate::bank::Bank;
use crate::keys::Pubkey;
use crate::ledger_model::BankView;
use crate::packet::{blob_views, Blob, BlobView};
use crate::counter::{add_capped, capped_sum};
use crate::replicate_stage::{
    count_stray_payloads, lemma_replayed_bound, replay_all, replayed, replicate, stray_payloads,
    ReplicateError,
};
use crate::retransmit_stage::{fresh_blobs, ready_blobs, receive, window_after};
use crate::window::{Window, WindowView};
use vstd::prelude::*;

verus! {

/// The state of the pipeline as mathematical values.
pub struct TvuView {
    pub bank: BankView,
    pub window: WindowView,
    /// This node.
    pub id: Pubkey,
    /// How many indices the window may span before repairs are asked for.
    pub repair_threshold: u64,
    /// The place in the list of peers at which the next repair is asked for.
    pub repair_cursor: usize,
    /// How many blobs were dropped because their payload was no entry.
    pub decode_errors: u64,
    /// Whether the pipeline was closed, or stopped at a fork.
    pub exit: bool,
}

impl TvuView {
    /// The invariant of the pipeline.
    pub open spec fn valid(self) -> bool {
        self.bank.valid() && self.window.valid()
    }

    /// The blobs that a batch hands to the replay.
    pub open spec fn handed(self, blobs: Seq<BlobView>) -> Seq<BlobView> {
        ready_blobs(self.window, blobs)
    }

    /// Whether the replay of a batch runs into a fork.
    pub open spec fn forks_on(self, blobs: Seq<BlobView>) -> bool {
        replayed(self.bank, self.handed(blobs)) < self.handed(blobs).len()
    }

    /// The state after a batch of blobs arrived.
    pub open spec fn received(self, blobs: Seq<BlobView>) -> TvuView {
        TvuView {
            bank: replay_all(self.bank, self.handed(blobs)),
            window: window_after(self.window, blobs),
            decode_errors: capped_sum(self.decode_errors, stray_payloads(self.handed(blobs))),
            exit: self.forks_on(blobs),
            ..self
        }
    }

    /// The peer to ask for the next repair, among `peers` peers: the one at
    /// the cursor, or the first once the cursor is past the last.
    pub open spec fn repair_peer(self, peers: usize) -> usize {
        if self.repair_cursor < peers {
            self.repair_cursor
        } else {
            0
        }
    }
}

/// What a batch of blobs leads to.
pub struct TvuOutput {
    /// The blobs that were new, to be passed on to the other validators.
    pub retransmit: Vec<Blob>,
    /// The indices of the blobs to ask a peer for.
    pub repairs: Vec<u64>,
    /// Whether the replay went through or stopped at a fork.
    pub outcome: Result<(), ReplicateError>,
}

/// The pipeline of a validator.
pub struct Tvu {
    bank: Bank,
    window: Window,
    id: Pubkey,
    repair_threshold: u64,
    repair_cursor: usize,
    decode_errors: u64,
    exit: bool,
}

impl View for Tvu {
    type V = TvuView;

    closed spec fn view(&self) -> TvuView {
        TvuView {
            bank: self.bank@,
            window: self.window@,
            id: self.id,
            repair_threshold: self.repair_threshold,
            repair_cursor: self.repair_cursor,
            decode_errors: self.decode_errors,
            exit: self.exit,
        }
    }
}

impl Tvu {
    /// The invariant that every operation keeps.
    pub open spec fn wf(&self) -> bool {
        self@.valid()
    }

    /// A pipeline for the node `id` over `bank`. The window holds up to
    /// `window_size` blobs and expects the blob with the index
    /// `entry_height` first.
    pub fn new(id: Pubkey, bank: Bank, entry_height: u64, window_size: usize, repair_threshold: u64) -> (tvu:
        Tvu)
        requires
            bank.wf(),
        ensures
            tvu.wf(),
            tvu@ == (TvuView {
                bank: bank@,
                window: WindowView {
                    slots: Seq::empty(),
                    consumed: entry_height,
                    capacity: window_size,
                },
                id,
                repair_threshold,
                repair_cursor: 0,
                decode_errors: 0,
                exit: false,
            }),
    {
        Tvu {
            bank,
            window: Window::new(window_size, entry_height),
            id,
            repair_threshold,
            repair_cursor: 0,
            decode_errors: 0,
            exit: false,
        }
    }

    /// This node.
    pub fn id(&self) -> (id: Pubkey)
        ensures
            id == self@.id,
    {
        self.id
    }

    /// The bank of the pipeline.
    pub fn bank(&self) -> (bank: &Bank)
        ensures
            bank@ == self@.bank,
    {
        &self.bank
    }

    /// How many blobs were dropped because their payload was no entry.
    pub fn decode_errors(&self) -> (count: u64)
        ensures
            count == self@.decode_errors,
    {
        self.decode_errors
    }

    /// The window of the pipeline.
    pub fn window(&self) -> (window: &Window)
        ensures
            window@ == self@.window,
    {
        &self.window
    }

    /// Whether the pipeline was closed, or stopped at a fork.
    pub fn is_closed(&self) -> (closed: bool)
        ensures
            closed == self@.exit,
    {
        self.exit
    }

    /// Closes the pipeline: from now on it takes in blobs without producing
    /// anything.
    pub fn close(&mut self)
        ensures
            final(self)@ == (TvuView { exit: true, ..old(self)@ }),
    {
        self.exit = true;
    }

    /// Picks the peer to ask for the next repair, going round the `peers`
    /// peers in turn. Without peers there is nobody to ask.
    pub fn next_repair_peer(&mut self, peers: usize) -> (peer: Option<usize>)
        ensures
            peers == 0 ==> peer is None && final(self)@ == old(self)@,
            peers > 0 ==> peer == Some(old(self)@.repair_peer(peers)) && final(self)@ == (TvuView {
                repair_cursor: (old(self)@.repair_peer(peers) + 1) as usize,
                ..old(self)@
            }),
    {
        if peers == 0 {
            return None;
        }
        let peer: usize = if self.repair_cursor < peers {
            self.repair_cursor
        } else {
            0
        };
        self.repair_cursor = peer + 1;
        Some(peer)
    }

    /// Takes in a batch of blobs in the order of arrival. New blobs go into
    /// the window and are returned for the other validators; the blobs that
    /// are ready are replayed in the order of their indices; those whose
    /// payload is no entry are counted and skipped. A fork stops the replay
    /// and closes the pipeline. The repairs to ask for are those
    /// of the window as it stands afterwards. A closed pipeline produces
    /// nothing and changes nothing.
    pub fn receive(&mut self, blobs: &Vec<Blob>) -> (output: TvuOutput)
        requires
            old(self).wf(),
        ensures
            final(self).wf(),
            old(self)@.exit ==> {
                &&& final(self)@ == old(self)@
                &&& output.retransmit@.len() == 0
                &&& output.repairs@.len() == 0
                &&& output.outcome is Ok
            },
            !old(self)@.exit ==> {
                &&& final(self)@ == old(self)@.received(blob_views(blobs@))
                &&& blob_views(output.retransmit@) == fresh_blobs(
                    old(self)@.window,
                    blob_views(blobs@),
                )
                &&& output.repairs@ == if final(self)@.window.slots.len() > old(
                    self,
                )@.repair_threshold {
                    final(self)@.window.missing()
                } else {
                    Seq::empty()
                }
                &&& output.outcome is Err <==> old(self)@.forks_on(blob_views(blobs@))
            },
    {
        if self.exit {
            return TvuOutput { retransmit: Vec::new(), repairs: Vec::new(), outcome: Ok(()) };
        }
        let reception = receive(&mut self.window, blobs);
        self.decode_errors = add_capped(self.decode_errors, count_stray_payloads(&reception.ready));
        let outcome = replicate(&mut self.bank, &reception.ready);
        proof {
            lemma_replayed_bound(old(self)@.bank, blob_views(reception.ready@));
        }
        if outcome.is_err() {
            self.exit = true;
        }
        let repairs = self.window.repair_requests(self.repair_threshold);
        TvuOutput { retransmit: reception.fresh, repairs, outcome }
    }
}

} // verus!
