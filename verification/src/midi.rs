//! Borrowed MIDI messages and the fixed-size snapshot that outlives them.

use vstd::prelude::*;
use vstd::std_specs::cmp::PartialEqSpecImpl;
use vstd::std_specs::convert::FromSpecImpl;
use crate::control::Frames;

verus! {

/// A MIDI message as the server presents it: a frame offset and a borrowed
/// byte payload. It is valid only during the callback invocation that
/// received it and must not be kept past that call.
#[derive(Clone, Copy)]
pub struct RawMidi<'a> {
    /// The frame at which the message occurs, relative to the block's start.
    pub time: Frames,
    /// The message's bytes.
    pub bytes: &'a [u8],
}

/// The number of bytes a snapshot of capacity `capacity` keeps of a message
/// of `n` bytes.
pub open spec fn copied_len(n: nat, capacity: nat) -> nat {
    if n <= capacity {
        n
    } else {
        capacity
    }
}

/// A snapshot of a borrowed message: at most `C` of its bytes, stored inline,
/// with the frame offset it came with. A longer message is cut to its first
/// `C` bytes. The value owns everything it holds, so it may leave the
/// callback.
#[derive(Clone, Copy)]
pub struct MidiCopy<const C: usize> {
    len: usize,
    data: [u8; C],
    time: Frames,
}

impl<const C: usize> View for MidiCopy<C> {
    type V = Seq<u8>;

    /// The valid bytes: the first `len` bytes of the storage.
    closed spec fn view(&self) -> Seq<u8> {
        self.data@.take(self.len as int)
    }
}

impl<const C: usize> MidiCopy<C> {
    /// At most `C` bytes are valid, and the storage behind them is zero.
    #[verifier::type_invariant]
    pub closed spec fn well_formed(&self) -> bool {
        &&& self.len <= C
        &&& forall|i: int| self.len <= i < C ==> self.data@[i] == 0
    }

    /// The frame offset the message came with.
    pub closed spec fn spec_time(&self) -> Frames {
        self.time
    }

    /// Whether this value is the snapshot of a message with offset `time`
    /// and payload `bytes`: it holds the offset and the first
    /// `min(bytes.len(), C)` bytes, in order.
    pub open spec fn is_copy_of(&self, time: Frames, bytes: Seq<u8>) -> bool {
        &&& self.spec_time() == time
        &&& self@ == bytes.take(copied_len(bytes.len(), C as nat) as int)
    }

    /// The snapshot of a message with offset `time` and payload `bytes`.
    /// There is exactly one: see `lemma_determined_by_content`.
    pub open spec fn snapshot(time: Frames, bytes: Seq<u8>) -> Self {
        choose|m: Self| m.well_formed() && m.is_copy_of(time, bytes)
    }

    /// Storage that holds the first `n` bytes of `bytes` and zero behind
    /// them.
    spec fn stored(bytes: Seq<u8>, n: nat) -> [u8; C]
        decreases n,
    {
        if n == 0 {
            vstd::array::spec_array_fill_for_copy_type::<u8, C>(0u8)
        } else {
            vstd::array::spec_array_update(Self::stored(bytes, (n - 1) as nat), n - 1, bytes[n - 1])
        }
    }

    proof fn lemma_stored(bytes: Seq<u8>, n: nat)
        requires
            n <= C,
            n <= bytes.len(),
        ensures
            Self::stored(bytes, n)@.len() == C,
            forall|j: int| 0 <= j < n ==> Self::stored(bytes, n)@[j] == bytes[j],
            forall|j: int| n <= j < C ==> Self::stored(bytes, n)@[j] == 0,
        decreases n,
    {
        if n > 0 {
            Self::lemma_stored(bytes, (n - 1) as nat);
        }
    }

    /// Every message has its snapshot: the value that `snapshot` names holds
    /// the message's offset and its first `min(bytes.len(), C)` bytes.
    pub proof fn lemma_snapshot_is_copy(time: Frames, bytes: Seq<u8>)
        ensures
            Self::snapshot(time, bytes).well_formed(),
            Self::snapshot(time, bytes).is_copy_of(time, bytes),
            Self::snapshot(time, bytes)@.len() == copied_len(bytes.len(), C as nat),
    {
        let n = copied_len(bytes.len(), C as nat);
        Self::lemma_stored(bytes, n);
        let witness = MidiCopy::<C> { len: n as usize, data: Self::stored(bytes, n), time };
        assert(witness@ =~= bytes.take(n as int));
        assert(witness.well_formed() && witness.is_copy_of(time, bytes));
    }

    /// Snapshots `midi`: keeps its frame offset and its first
    /// `min(midi.bytes.len(), C)` bytes. Nothing is allocated.
    pub fn new(midi: RawMidi<'_>) -> (copy: Self)
        ensures
            copy == Self::snapshot(midi.time, midi.bytes@),
            copy.is_copy_of(midi.time, midi.bytes@),
            copy@.len() == copied_len(midi.bytes@.len(), C as nat),
    {
        let n = midi.bytes.len();
        let len = if n < C { n } else { C };
        let mut data = [0u8; C];
        let mut i: usize = 0;
        while i < len
            invariant
                i <= len,
                len <= C,
                len <= midi.bytes@.len(),
                data@.len() == C,
                forall|j: int| 0 <= j < i ==> data@[j] == midi.bytes@[j],
                forall|j: int| i <= j < C ==> data@[j] == 0,
            decreases len - i,
        {
            data[i] = midi.bytes[i];
            i += 1;
        }
        let copy = MidiCopy { len, data, time: midi.time };
        proof {
            assert(copy@ =~= midi.bytes@.take(len as int));
            assert(copy.well_formed() && copy.is_copy_of(midi.time, midi.bytes@));
            copy.lemma_determined_by_content(Self::snapshot(midi.time, midi.bytes@));
        }
        copy
    }

    /// The number of valid bytes, never more than `C`.
    pub fn len(&self) -> (n: usize)
        ensures
            n == self@.len(),
            n <= C,
    {
        proof {
            use_type_invariant(self);
        }
        self.len
    }

    /// Whether no byte is valid.
    pub fn is_empty(&self) -> (b: bool)
        ensures
            b == (self@.len() == 0),
    {
        proof {
            use_type_invariant(self);
        }
        self.len == 0
    }

    /// The fixed capacity `C`.
    pub fn capacity(&self) -> (n: usize)
        ensures
            n == C,
    {
        C
    }

    /// The frame offset the message came with.
    #[verifier::when_used_as_spec(spec_time)]
    pub fn time(&self) -> (t: Frames)
        ensures
            t == self.spec_time(),
    {
        self.time
    }

    /// The valid bytes, and only those.
    pub fn bytes(&self) -> (b: &[u8])
        ensures
            b@ == self@,
    {
        proof {
            use_type_invariant(self);
        }
        vstd::slice::slice_subrange(self.data.as_slice(), 0, self.len)
    }

    /// The valid byte at `index`, or `None` past the valid bytes.
    pub fn get(&self, index: usize) -> (b: Option<u8>)
        ensures
            b == (if index < self@.len() {
                Some(self@[index as int])
            } else {
                None
            }),
    {
        proof {
            use_type_invariant(self);
        }
        if index < self.len {
            Some(self.data[index])
        } else {
            None
        }
    }

    /// Two snapshots with the same offset and the same valid bytes are the
    /// same value: the storage past the valid bytes carries no information.
    pub proof fn lemma_determined_by_content(self, other: Self)
        requires
            self.well_formed(),
            other.well_formed(),
            self.spec_time() == other.spec_time(),
            self@ == other@,
        ensures
            self == other,
    {
        assert(self.data@.len() == C && other.data@.len() == C);
        assert(self@.len() == self.len && other@.len() == other.len);
        assert forall|i: int| 0 <= i < C implies self.data@[i] == other.data@[i] by {
            if i < self.len {
                assert(self@[i] == self.data@[i]);
                assert(other@[i] == other.data@[i]);
            }
        }
        assert(self.data =~= other.data);
    }
}

impl<'a, const C: usize> FromSpecImpl<RawMidi<'a>> for MidiCopy<C> {
    open spec fn obeys_from_spec() -> bool {
        true
    }

    open spec fn from_spec(midi: RawMidi<'a>) -> Self {
        Self::snapshot(midi.time, midi.bytes@)
    }
}

impl<'a, const C: usize> From<RawMidi<'a>> for MidiCopy<C> {
    /// Snapshots `midi`, as `MidiCopy::new` does.
    fn from(midi: RawMidi<'a>) -> (copy: Self)
        ensures
            copy.is_copy_of(midi.time, midi.bytes@),
            copy@.len() == copied_len(midi.bytes@.len(), C as nat),
    {
        MidiCopy::new(midi)
    }
}

impl<const C: usize> PartialEqSpecImpl for MidiCopy<C> {
    open spec fn obeys_eq_spec() -> bool {
        true
    }

    /// Equal offsets and equal valid bytes.
    open spec fn eq_spec(&self, other: &MidiCopy<C>) -> bool {
        self.spec_time() == other.spec_time() && self@ == other@
    }
}

impl<const C: usize> PartialEq for MidiCopy<C> {
    fn eq(&self, other: &MidiCopy<C>) -> (r: bool) {
        proof {
            use_type_invariant(self);
            use_type_invariant(other);
        }
        if self.time != other.time || self.len != other.len {
            assert(self.len != other.len ==> self@.len() != other@.len());
            return false;
        }
        let mut i: usize = 0;
        while i < self.len
            invariant
                i <= self.len,
                self.len == other.len,
                self.len <= C,
                forall|j: int| 0 <= j < i ==> self.data@[j] == other.data@[j],
            decreases self.len - i,
        {
            if self.data[i] != other.data[i] {
                assert(self@[i as int] != other@[i as int]);
                return false;
            }
            i += 1;
        }
        assert(self@ =~= other@);
        true
    }
}

} // verus!
