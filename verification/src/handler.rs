//! The two roles a handler can play: notifications and per-block processing.

use vstd::prelude::*;
use crate::client::{Client, ProcessScope};
use crate::control::{Control, Frames};

verus! {

/// Receives informational lifecycle events. Every operation defaults to
/// doing nothing; an implementer overrides what it cares about.
///
/// These callbacks must not panic: a panic here is fatal to the hosting
/// thread and is a programming error, not a recoverable condition.
pub trait NotificationHandler {
    /// The server is shutting down. No further callbacks follow.
    fn shutdown(&mut self) {
    }

    /// The server changed its block size to `size` frames.
    fn buffer_size_changed(&mut self, client: &Client, size: Frames) {
    }

    /// The ports `port_a` and `port_b` were connected or disconnected.
    fn ports_connected(&mut self, client: &Client, port_a: u32, port_b: u32, are_connected: bool) {
    }
}

/// The real-time-critical role. Both operations run on the server's callback
/// thread: they must finish within the block's budget and must not block,
/// allocate or perform blocking I/O.
///
/// An implementer says in `processed` and `resized` what an invocation
/// does, and its two operations are held to that. One that says nothing
/// there has promised a handler that stays as it was and returns
/// `Control::Continue`, as the unit handler does.
pub trait ProcessHandler {
    /// Whether the server may invoke this handler. A handler that is ready
    /// stays ready: the server invokes it block after block. Unless an
    /// implementer says otherwise, a handler is always ready.
    open spec fn ready(&self) -> bool {
        true
    }

    /// What an invocation of `process` does: `after` is the handler it
    /// leaves behind and `r` the directive it returns. Unless the
    /// implementer says otherwise, the handler stays as it was and the
    /// directive is `Control::Continue`.
    open spec fn processed(
        &self,
        client: &Client,
        scope: &ProcessScope,
        after: &Self,
        r: Control,
    ) -> bool {
        r == Control::Continue && after == self
    }

    /// What an invocation of `buffer_size` does: `after` is the handler it
    /// leaves behind and `r` the directive it returns. Unless the
    /// implementer says otherwise, the handler stays as it was and the
    /// directive is `Control::Continue`.
    open spec fn resized(&self, client: &Client, size: Frames, after: &Self, r: Control) -> bool {
        r == Control::Continue && after == self
    }

    /// Invoked once per block.
    fn process(&mut self, client: &Client, scope: &ProcessScope) -> (r: Control)
        requires
            old(self).ready(),
        ensures
            final(self).ready(),
            old(self).processed(client, scope, final(self), r),
    ;

    /// Invoked when the server changes its block size to `size` frames.
    fn buffer_size(&mut self, client: &Client, size: Frames) -> (r: Control)
        requires
            old(self).ready(),
        ensures
            final(self).ready(),
            old(self).resized(client, size, final(self), r),
    ;
}

/// The trivial notification handler: ignores every event.
impl NotificationHandler for () {
}

/// The trivial process handler: always continues, so the client stays
/// activated.
impl ProcessHandler for () {
    fn process(&mut self, client: &Client, scope: &ProcessScope) -> (r: Control)
        ensures
            r == Control::Continue,
    {
        Control::Continue
    }

    fn buffer_size(&mut self, client: &Client, size: Frames) -> (r: Control)
        ensures
            r == Control::Continue,
    {
        Control::Continue
    }
}

} // verus!
