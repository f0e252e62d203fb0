//! The handles the audio server passes to every callback.

use vstd::prelude::*;
use crate::control::Frames;

verus! {

/// The handle of the client on whose behalf a callback runs.
pub struct Client {
    sample_rate: u32,
    buffer_size: Frames,
}

impl Client {
    /// A handle for a client running at `sample_rate` with blocks of
    /// `buffer_size` frames.
    pub fn new(sample_rate: u32, buffer_size: Frames) -> (c: Client)
        ensures
            c.spec_sample_rate() == sample_rate,
            c.spec_buffer_size() == buffer_size,
    {
        Client { sample_rate, buffer_size }
    }

    pub closed spec fn spec_sample_rate(&self) -> u32 {
        self.sample_rate
    }

    pub closed spec fn spec_buffer_size(&self) -> Frames {
        self.buffer_size
    }

    /// The negotiated sample rate, in frames per second.
    #[verifier::when_used_as_spec(spec_sample_rate)]
    pub fn sample_rate(&self) -> (r: u32)
        ensures
            r == self.spec_sample_rate(),
    {
        self.sample_rate
    }

    /// The negotiated block size, in frames.
    #[verifier::when_used_as_spec(spec_buffer_size)]
    pub fn buffer_size(&self) -> (n: Frames)
        ensures
            n == self.spec_buffer_size(),
    {
        self.buffer_size
    }
}

/// The call-scoped handle of one block. It is valid only for the duration of
/// the callback invocation that receives it.
pub struct ProcessScope {
    n_frames: Frames,
}

impl ProcessScope {
    /// The scope of a block of `n_frames` frames.
    pub fn new(n_frames: Frames) -> (ps: ProcessScope)
        ensures
            ps.spec_n_frames() == n_frames,
    {
        ProcessScope { n_frames }
    }

    pub closed spec fn spec_n_frames(&self) -> Frames {
        self.n_frames
    }

    /// The number of frames in this block.
    #[verifier::when_used_as_spec(spec_n_frames)]
    pub fn n_frames(&self) -> (n: Frames)
        ensures
            n == self.spec_n_frames(),
    {
        self.n_frames
    }

    /// Whether `frame` lies strictly within this block, as the offset of
    /// every message written to an output must.
    pub fn contains_frame(&self, frame: Frames) -> (b: bool)
        ensures
            b == (frame < self.spec_n_frames()),
    {
        frame < self.n_frames
    }
}

} // verus!
