//! A process handler assembled from owned state and two plain behaviors.

use vstd::prelude::*;
use crate::client::{Client, ProcessScope};
use crate::control::{Control, Frames};
use crate::handler::ProcessHandler;

verus! {

/// A buffer-size behavior that can be called on every state, client and size:
/// the server may invoke it at any time while the client is active.
pub open spec fn buffer_fn_callable<T, B: FnMut(&mut T, &Client, Frames) -> Control>(f: B) -> bool {
    forall|s: &mut T, c: &Client, size: Frames| #[trigger] call_requires(f, (s, c, size))
}

/// A per-block behavior that can be called on every state, client and scope:
/// the server invokes it once per block for as long as the client is active.
pub open spec fn process_fn_callable<T, P: FnMut(&mut T, &Client, &ProcessScope) -> Control>(
    f: P,
) -> bool {
    forall|s: &mut T, c: &Client, ps: &ProcessScope| #[trigger] call_requires(f, (s, c, ps))
}

/// The buffer-size behavior of an adapter that was given none: leaves the
/// state alone and continues.
pub fn default_buffer_fn<T>(state: &mut T, client: &Client, size: Frames) -> (r: Control)
    ensures
        r == Control::Continue,
        *final(state) == *old(state),
{
    Control::Continue
}

/// The per-block behavior of an adapter that was given none: leaves the state
/// alone and continues.
pub fn default_process_fn<T>(state: &mut T, client: &Client, scope: &ProcessScope) -> (r: Control)
    ensures
        r == Control::Continue,
        *final(state) == *old(state),
{
    Control::Continue
}

/// Owned state together with a buffer-size behavior and a per-block behavior.
///
/// Built with `new` and reconfigured with `with_buffer_fn` and
/// `with_process_fn`, each of which consumes the adapter and returns a new
/// one. As a `ProcessHandler` it calls the stored behavior directly, with the
/// stored state.
pub struct ClosureProcessHandler<T, B, P> {
    inner: T,
    buffer_fn: B,
    process_fn: P,
}

impl<T, B, P> ClosureProcessHandler<T, B, P> {
    /// The owned state.
    pub closed spec fn state(&self) -> T {
        self.inner
    }

    /// The stored buffer-size behavior.
    pub closed spec fn buffer_behavior(&self) -> B {
        self.buffer_fn
    }

    /// The stored per-block behavior.
    pub closed spec fn process_behavior(&self) -> P {
        self.process_fn
    }

    /// This adapter with its buffer-size behavior replaced by `f`.
    pub closed spec fn replace_buffer_fn<F>(self, f: F) -> ClosureProcessHandler<T, F, P> {
        ClosureProcessHandler { inner: self.inner, buffer_fn: f, process_fn: self.process_fn }
    }

    /// This adapter with its per-block behavior replaced by `f`.
    pub closed spec fn replace_process_fn<F>(self, f: F) -> ClosureProcessHandler<T, B, F> {
        ClosureProcessHandler { inner: self.inner, buffer_fn: self.buffer_fn, process_fn: f }
    }

    /// Replacing the buffer-size behavior changes that behavior and nothing
    /// else.
    pub proof fn lemma_replace_buffer_fn<F>(self, f: F)
        ensures
            self.replace_buffer_fn(f).state() == self.state(),
            self.replace_buffer_fn(f).buffer_behavior() == f,
            self.replace_buffer_fn(f).process_behavior() == self.process_behavior(),
    {
    }

    /// Replacing the per-block behavior changes that behavior and nothing
    /// else.
    pub proof fn lemma_replace_process_fn<F>(self, f: F)
        ensures
            self.replace_process_fn(f).state() == self.state(),
            self.replace_process_fn(f).buffer_behavior() == self.buffer_behavior(),
            self.replace_process_fn(f).process_behavior() == f,
    {
    }

    /// The two replacements can be made in either order: the result holds
    /// the same state and the two supplied behaviors.
    pub proof fn lemma_builder_order<F, G>(self, b: F, p: G)
        ensures
            self.replace_buffer_fn(b).replace_process_fn(p) == self.replace_process_fn(
                p,
            ).replace_buffer_fn(b),
            self.replace_buffer_fn(b).replace_process_fn(p).state() == self.state(),
            self.replace_buffer_fn(b).replace_process_fn(p).buffer_behavior() == b,
            self.replace_buffer_fn(b).replace_process_fn(p).process_behavior() == p,
    {
    }

    /// Of two behaviors supplied for the same role, the later one is stored;
    /// the earlier one leaves no trace.
    pub proof fn lemma_last_supplied_wins<F1, F2, G1, G2>(
        self,
        first_b: F1,
        last_b: F2,
        first_p: G1,
        last_p: G2,
    )
        ensures
            self.replace_buffer_fn(first_b).replace_buffer_fn(last_b) == self.replace_buffer_fn(
                last_b,
            ),
            self.replace_process_fn(first_p).replace_process_fn(last_p) == self.replace_process_fn(
                last_p,
            ),
    {
    }

    /// The owned state.
    pub fn inner(&self) -> (s: &T)
        ensures
            *s == self.state(),
    {
        &self.inner
    }
}

impl<T> ClosureProcessHandler<
    T,
    fn(&mut T, &Client, Frames) -> Control,
    fn(&mut T, &Client, &ProcessScope) -> Control,
> {
    /// An adapter that owns `inner` and holds the default behaviors: both
    /// leave the state alone and continue.
    pub fn new(inner: T) -> (h: ClosureProcessHandler<
        T,
        impl FnMut(&mut T, &Client, Frames) -> Control,
        impl FnMut(&mut T, &Client, &ProcessScope) -> Control,
    >)
        ensures
            h.state() == inner,
            h.callable(),
            h.ready(),
            forall|s: &mut T, c: &Client, size: Frames, r: Control| #[trigger]
                call_ensures(h.buffer_behavior(), (s, c, size), r) ==> r == Control::Continue
                    && *final(s) == *s,
            forall|s: &mut T, c: &Client, ps: &ProcessScope, r: Control| #[trigger]
                call_ensures(h.process_behavior(), (s, c, ps), r) ==> r == Control::Continue
                    && *final(s) == *s,
    {
        let h = ClosureProcessHandler {
            inner,
            buffer_fn: default_buffer_fn,
            process_fn: default_process_fn,
        };
        assert(buffer_fn_callable::<T, _>(h.buffer_fn));
        assert(process_fn_callable::<T, _>(h.process_fn));
        h
    }
}

impl<
    T,
    B: FnMut(&mut T, &Client, Frames) -> Control,
    P: FnMut(&mut T, &Client, &ProcessScope) -> Control,
> ClosureProcessHandler<T, B, P> {
    /// Whether both behaviors can be called on every state, so that the
    /// server may invoke either at any time.
    pub open spec fn callable(&self) -> bool {
        &&& buffer_fn_callable::<T, B>(self.buffer_behavior())
        &&& process_fn_callable::<T, P>(self.process_behavior())
    }

    /// An adapter is ready to be invoked exactly when both of its behaviors
    /// can be called.
    pub proof fn lemma_ready_when_callable(&self)
        ensures
            self.ready() == self.callable(),
    {
    }

    /// What the adapter says of an invocation of `process`: the behaviors
    /// stay as they were, and the directive is one that the per-block
    /// behavior returns when called on the stored state.
    pub proof fn lemma_processed(
        &self,
        client: &Client,
        scope: &ProcessScope,
        after: &Self,
        r: Control,
    )
        ensures
            self.processed(client, scope, after, r) == (after.buffer_behavior()
                == self.buffer_behavior() && after.process_behavior() == self.process_behavior()
                && exists|s: &mut T|
                *s == self.state() && call_ensures(self.process_behavior(), (s, client, scope), r)),
    {
    }

    /// What the adapter says of an invocation of `buffer_size`: the
    /// behaviors stay as they were, and the directive is one that the
    /// buffer-size behavior returns when called on the stored state.
    pub proof fn lemma_resized(&self, client: &Client, size: Frames, after: &Self, r: Control)
        ensures
            self.resized(client, size, after, r) == (after.buffer_behavior()
                == self.buffer_behavior() && after.process_behavior() == self.process_behavior()
                && exists|s: &mut T|
                *s == self.state() && call_ensures(self.buffer_behavior(), (s, client, size), r)),
    {
    }

    /// The same adapter with its buffer-size behavior replaced by `f`. The
    /// result is ready to be invoked if `f` and the per-block behavior can be
    /// called.
    pub fn with_buffer_fn<F>(self, f: F) -> (h: ClosureProcessHandler<T, F, P>) where
        F: FnMut(&mut T, &Client, Frames) -> Control,

        ensures
            h.ready() == h.callable(),
            h == self.replace_buffer_fn(f),
            h.state() == self.state(),
            h.buffer_behavior() == f,
            h.process_behavior() == self.process_behavior(),
    {
        ClosureProcessHandler { inner: self.inner, buffer_fn: f, process_fn: self.process_fn }
    }

    /// The same adapter with its per-block behavior replaced by `f`. The
    /// result is ready to be invoked if `f` and the buffer-size behavior can
    /// be called.
    pub fn with_process_fn<F>(self, f: F) -> (h: ClosureProcessHandler<T, B, F>) where
        F: FnMut(&mut T, &Client, &ProcessScope) -> Control,

        ensures
            h.ready() == h.callable(),
            h == self.replace_process_fn(f),
            h.state() == self.state(),
            h.buffer_behavior() == self.buffer_behavior(),
            h.process_behavior() == f,
    {
        ClosureProcessHandler { inner: self.inner, buffer_fn: self.buffer_fn, process_fn: f }
    }
}

impl<
    T,
    B: FnMut(&mut T, &Client, Frames) -> Control,
    P: FnMut(&mut T, &Client, &ProcessScope) -> Control,
> ProcessHandler for ClosureProcessHandler<T, B, P> {
    open spec fn ready(&self) -> bool {
        self.callable()
    }

    /// The behaviors stay as they were, and the directive is one that the
    /// per-block behavior returns when called on the stored state.
    open spec fn processed(
        &self,
        client: &Client,
        scope: &ProcessScope,
        after: &Self,
        r: Control,
    ) -> bool {
        &&& after.buffer_behavior() == self.buffer_behavior()
        &&& after.process_behavior() == self.process_behavior()
        &&& exists|s: &mut T|
            *s == self.state() && call_ensures(self.process_behavior(), (s, client, scope), r)
    }

    /// The behaviors stay as they were, and the directive is one that the
    /// buffer-size behavior returns when called on the stored state.
    open spec fn resized(&self, client: &Client, size: Frames, after: &Self, r: Control) -> bool {
        &&& after.buffer_behavior() == self.buffer_behavior()
        &&& after.process_behavior() == self.process_behavior()
        &&& exists|s: &mut T|
            *s == self.state() && call_ensures(self.buffer_behavior(), (s, client, size), r)
    }

    /// Calls the stored per-block behavior on the stored state: the directive
    /// and the new state are what that one call produced. The behaviors stay
    /// as they were.
    fn process(&mut self, client: &Client, scope: &ProcessScope) -> (r: Control)
        ensures
            final(self).buffer_behavior() == old(self).buffer_behavior(),
            final(self).process_behavior() == old(self).process_behavior(),
            exists|s: &mut T|
                *s == old(self).state() && *final(s) == final(self).state() && call_ensures(
                    old(self).process_behavior(),
                    (s, client, scope),
                    r,
                ),
    {
        (self.process_fn)(&mut self.inner, client, scope)
    }

    /// Calls the stored buffer-size behavior on the stored state: the
    /// directive and the new state are what that one call produced. The
    /// behaviors stay as they were.
    fn buffer_size(&mut self, client: &Client, size: Frames) -> (r: Control)
        ensures
            final(self).buffer_behavior() == old(self).buffer_behavior(),
            final(self).process_behavior() == old(self).process_behavior(),
            exists|s: &mut T|
                *s == old(self).state() && *final(s) == final(self).state() && call_ensures(
                    old(self).buffer_behavior(),
                    (s, client, size),
                    r,
                ),
    {
        (self.buffer_fn)(&mut self.inner, client, size)
    }
}

} // verus!
