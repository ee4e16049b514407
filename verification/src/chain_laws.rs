//! What holds of the entries that the recorder emits: each names the one
//! before it, and with a clock there is one tick for every interval that has
//! passed.

use crate::entry::EntryView;
use crate::keys;
use crate::recorder::RecorderView;
use crate::transaction::Transaction;
use vstd::prelude::*;

verus! {

/// One thing that happens to the recorder.
pub enum Event {
    /// The hasher makes one step.
    Hash,
    /// A batch of accepted transactions arrives.
    Record(Seq<Transaction>),
    /// The recorder is given the time, in milliseconds since the start.
    Tick(u64),
}

/// Whether the event makes the recorder emit an entry.
pub open spec fn emits(recorder: RecorderView, event: Event) -> bool {
    match event {
        Event::Hash => false,
        Event::Record(transactions) => true,
        Event::Tick(elapsed) => recorder.tick_due(elapsed),
    }
}

/// The entry that the event makes the recorder emit, if it emits one.
pub open spec fn emitted_entry(recorder: RecorderView, event: Event) -> EntryView {
    match event {
        Event::Record(transactions) => recorder.record_entry(transactions),
        _ => recorder.tick_entry(),
    }
}

/// The recorder after one event.
pub open spec fn after(recorder: RecorderView, event: Event) -> RecorderView {
    match event {
        Event::Hash => recorder.hashed(),
        Event::Record(transactions) => recorder.recorded(transactions),
        Event::Tick(elapsed) => if recorder.tick_due(elapsed) {
            recorder.ticked()
        } else {
            recorder
        },
    }
}

/// The recorder after a sequence of events.
pub open spec fn after_all(recorder: RecorderView, events: Seq<Event>) -> RecorderView
    decreases events.len(),
{
    if events.len() == 0 {
        recorder
    } else {
        after(after_all(recorder, events.drop_last()), events.last())
    }
}

/// The entries that the recorder emits over a sequence of events, in order.
pub open spec fn entries_of(recorder: RecorderView, events: Seq<Event>) -> Seq<EntryView>
    decreases events.len(),
{
    if events.len() == 0 {
        Seq::empty()
    } else {
        let prior = after_all(recorder, events.drop_last());
        let earlier = entries_of(recorder, events.drop_last());
        if emits(prior, events.last()) {
            earlier.push(emitted_entry(prior, events.last()))
        } else {
            earlier
        }
    }
}

/// Whether the entries form a chain that starts at `start`: the first names
/// `start`, and each of the others names the id of the one before it.
pub open spec fn linked(start: keys::Hash, entries: Seq<EntryView>) -> bool {
    &&& entries.len() > 0 ==> entries[0].prev_hash == start
    &&& forall|i: int|
        0 <= i < entries.len() - 1 ==> (#[trigger] entries[i + 1]).prev_hash == entries[i].id()
}

/// The id at which a chain stands after the entries.
pub open spec fn head(start: keys::Hash, entries: Seq<EntryView>) -> keys::Hash {
    if entries.len() == 0 {
        start
    } else {
        entries.last().id()
    }
}

/// Chain linkage: whatever happens to the recorder, the entries that it
/// emits form a chain that starts where the recorder stood, and the recorder
/// stands at the id of the last of them.
pub proof fn law_chain_linkage(recorder: RecorderView, events: Seq<Event>)
    ensures
        linked(recorder.last_id, entries_of(recorder, events)),
        after_all(recorder, events).last_id == head(recorder.last_id, entries_of(recorder, events)),
    decreases events.len(),
{
    if events.len() > 0 {
        law_chain_linkage(recorder, events.drop_last());
        let prior = after_all(recorder, events.drop_last());
        let earlier = entries_of(recorder, events.drop_last());
        let all = entries_of(recorder, events);
        if emits(prior, events.last()) {
            let entry = emitted_entry(prior, events.last());
            assert(entry.prev_hash == prior.last_id);
            assert forall|i: int| 0 <= i < all.len() - 1 implies (#[trigger] all[i + 1]).prev_hash
                == all[i].id() by {
                if i + 1 < earlier.len() {
                    assert(all[i + 1] == earlier[i + 1]);
                    assert(all[i] == earlier[i]);
                } else {
                    assert(all[i] == earlier.last());
                }
            }
        }
    }
}

/// The recorder after it was given the same time `times` times in a row.
pub open spec fn polled(recorder: RecorderView, elapsed: u64, times: nat) -> RecorderView
    decreases times,
{
    if times == 0 {
        recorder
    } else {
        after(polled(recorder, elapsed, (times - 1) as nat), Event::Tick(elapsed))
    }
}

/// Ticks keep up with the clock: a recorder with a tick interval that is
/// given the time again and again emits one tick each time, until it has
/// emitted as many ticks as whole intervals have passed, and none after
/// that.
pub proof fn law_ticks_keep_up(recorder: RecorderView, elapsed: u64, times: nat)
    requires
        recorder.tick_duration matches Some(interval) && interval > 0,
    ensures
        ({
            let due = elapsed / recorder.tick_duration->0;
            let reached = polled(recorder, elapsed, times).num_ticks;
            &&& recorder.num_ticks >= due ==> reached == recorder.num_ticks
            &&& recorder.num_ticks < due ==> reached == if recorder.num_ticks + times < due {
                recorder.num_ticks + times
            } else {
                due as int
            }
        }),
        polled(recorder, elapsed, times).tick_duration == recorder.tick_duration,
    decreases times,
{
    if times > 0 {
        law_ticks_keep_up(recorder, elapsed, (times - 1) as nat);
    }
}

} // verus!
