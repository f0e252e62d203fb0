//! The directive a callback hands back to the audio server.

use vstd::prelude::*;

verus! {

/// A sample offset within the current block, counted from the block's start.
pub type Frames = u32;

/// The outcome of one callback invocation.
#[derive(Clone, Copy, Debug, PartialEq, Eq, Structural)]
pub enum Control {
    /// Keep processing: the server invokes the handler again on the next block.
    Continue,
    /// Request deactivation: the server stops invoking the handler.
    Quit,
}

impl Control {
    /// Whether this directive asks the server to stop.
    pub fn is_quit(&self) -> (b: bool)
        ensures
            b == (*self == Control::Quit),
    {
        match self {
            Control::Continue => false,
            Control::Quit => true,
        }
    }
}

} // verus!
