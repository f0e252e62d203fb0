//! Carrying the MIDI input of one block out of the callback.

use vstd::prelude::*;
use crate::channel::{after_sends, lemma_sends_then_send, BoundedQueue};
use crate::midi::{MidiCopy, RawMidi};

verus! {

/// The snapshots of `messages`, one for each, in the same order.
pub open spec fn snapshots<'a, const C: usize>(messages: Seq<RawMidi<'a>>) -> Seq<MidiCopy<C>> {
    Seq::new(messages.len(), |i: int| MidiCopy::<C>::snapshot(messages[i].time, messages[i].bytes@))
}

/// Each snapshot holds the offset of its message and the first
/// `min(len, C)` bytes of it.
pub proof fn lemma_snapshots_are_copies<'a, const C: usize>(messages: Seq<RawMidi<'a>>)
    ensures
        snapshots::<C>(messages).len() == messages.len(),
        forall|i: int|
            0 <= i < messages.len() ==> (#[trigger] snapshots::<C>(messages)[i]).is_copy_of(
                messages[i].time,
                messages[i].bytes@,
            ),
{
    assert forall|i: int| 0 <= i < messages.len() implies (#[trigger] snapshots::<C>(
        messages,
    )[i]).is_copy_of(messages[i].time, messages[i].bytes@) by {
        MidiCopy::<C>::lemma_snapshot_is_copy(messages[i].time, messages[i].bytes@);
    }
}

/// Snapshots every message of a block, in the order the server presents
/// them, and offers each snapshot to `out` without waiting. A snapshot that
/// finds the queue full is dropped; those that are queued keep their order.
/// Returns the number of snapshots dropped.
pub fn relay_snapshots<const C: usize>(
    messages: &[RawMidi<'_>],
    out: &mut BoundedQueue<MidiCopy<C>>,
) -> (dropped: usize)
    ensures
        final(out).spec_capacity() == old(out).spec_capacity(),
        final(out)@ == after_sends(
            old(out)@,
            old(out).spec_capacity() as nat,
            snapshots::<C>(messages@),
        ),
        dropped + final(out)@.len() == old(out)@.len() + messages@.len(),
        old(out).within_capacity() ==> final(out).within_capacity(),
{
    let ghost all = snapshots::<C>(messages@);
    let ghost capacity = old(out).spec_capacity() as nat;
    let mut dropped: usize = 0;
    let mut i: usize = 0;
    while i < messages.len()
        invariant
            i <= messages@.len(),
            dropped <= i,
            all == snapshots::<C>(messages@),
            capacity == old(out).spec_capacity(),
            out.spec_capacity() == old(out).spec_capacity(),
            out@ == after_sends(old(out)@, capacity, all.take(i as int)),
            dropped + out@.len() == old(out)@.len() + i,
            old(out).within_capacity() ==> out.within_capacity(),
        decreases messages@.len() - i,
    {
        let copy = MidiCopy::<C>::new(messages[i]);
        proof {
            assert(copy == all[i as int]);
            assert(all.take(i as int).push(copy) =~= all.take(i + 1));
            lemma_sends_then_send(old(out)@, capacity, all.take(i as int), copy);
        }
        match out.try_send(copy) {
            Ok(_) => {},
            Err(_) => {
                dropped += 1;
            },
        }
        i += 1;
    }
    proof {
        assert(all.take(messages@.len() as int) =~= all);
    }
    dropped
}

} // verus!
