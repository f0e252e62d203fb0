//! When the server invokes a process handler, and when it stops.
//!
//! A client starts inactive, is activated once, and is then invoked block
//! after block for as long as every invocation returns `Control::Continue`.
//! The first `Control::Quit`, or a deactivation from outside, ends the
//! session for good: a deactivated client is never invoked again.

use vstd::prelude::*;
use crate::client::{Client, ProcessScope};
use crate::control::Control;
use crate::handler::ProcessHandler;

verus! {

/// Where a client stands in its life.
#[derive(Clone, Copy, Debug, PartialEq, Eq, Structural)]
pub enum Lifecycle {
    /// Created, not yet activated: the handler is not invoked.
    Inactive,
    /// Activated: the handler is invoked once per block.
    Activated,
    /// Deactivated: the handler is not invoked, and never will be again.
    Deactivated,
}

/// The state that follows `state` when an invocation returns `directive`.
/// Only an activated client is invoked, so only its state can change, and
/// only a quit changes it.
pub open spec fn next_state(state: Lifecycle, directive: Control) -> Lifecycle {
    if state == Lifecycle::Activated && directive == Control::Quit {
        Lifecycle::Deactivated
    } else {
        state
    }
}

/// The state after the directives `directives`, taken first to last.
pub open spec fn state_after(state: Lifecycle, directives: Seq<Control>) -> Lifecycle
    decreases directives.len(),
{
    if directives.len() == 0 {
        state
    } else {
        state_after(next_state(state, directives[0]), directives.drop_first())
    }
}

/// Whether `directives` can be the directives of one session, in order:
/// nothing follows a quit.
pub open spec fn stops_at_quit(directives: Seq<Control>) -> bool {
    forall|i: int| 0 <= i < directives.len() - 1 ==> directives[i] == Control::Continue
}

/// Deactivation is final: whatever directives follow, a deactivated client
/// stays deactivated.
pub proof fn lemma_deactivated_is_terminal(directives: Seq<Control>)
    ensures
        state_after(Lifecycle::Deactivated, directives) == Lifecycle::Deactivated,
    decreases directives.len(),
{
    if directives.len() > 0 {
        lemma_deactivated_is_terminal(directives.drop_first());
    }
}

/// An activated client is still activated after its directives exactly when
/// none of them was a quit; otherwise it is deactivated.
pub proof fn lemma_quit_deactivates(directives: Seq<Control>)
    ensures
        state_after(Lifecycle::Activated, directives) == (if directives.contains(Control::Quit) {
            Lifecycle::Deactivated
        } else {
            Lifecycle::Activated
        }),
    decreases directives.len(),
{
    if directives.len() > 0 {
        let rest = directives.drop_first();
        if directives[0] == Control::Quit {
            lemma_deactivated_is_terminal(rest);
        } else {
            lemma_quit_deactivates(rest);
            if rest.contains(Control::Quit) {
                let i = choose|i: int| 0 <= i < rest.len() && rest[i] == Control::Quit;
                assert(directives[i + 1] == Control::Quit);
            }
            if directives.contains(Control::Quit) {
                let i = choose|i: int|
                    0 <= i < directives.len() && directives[i] == Control::Quit;
                assert(rest[i - 1] == Control::Quit);
            }
        }
    }
}

impl Lifecycle {
    /// The state of a client that was just created.
    pub fn new() -> (s: Lifecycle)
        ensures
            s == Lifecycle::Inactive,
    {
        Lifecycle::Inactive
    }

    /// Whether the server invokes the handler in this state.
    pub open spec fn spec_invokes(&self) -> bool {
        *self == Lifecycle::Activated
    }

    /// Whether the server invokes the handler in this state.
    #[verifier::when_used_as_spec(spec_invokes)]
    pub fn invokes(&self) -> (b: bool)
        ensures
            b == self.spec_invokes(),
    {
        match self {
            Lifecycle::Activated => true,
            _ => false,
        }
    }

    /// Activates an inactive client. An activated client stays activated and
    /// a deactivated one stays deactivated.
    pub fn activate(self) -> (s: Lifecycle)
        ensures
            s == (if self == Lifecycle::Inactive {
                Lifecycle::Activated
            } else {
                self
            }),
    {
        match self {
            Lifecycle::Inactive => Lifecycle::Activated,
            other => other,
        }
    }

    /// Deactivates an activated client from outside the callback. An
    /// inactive client stays inactive.
    pub fn deactivate(self) -> (s: Lifecycle)
        ensures
            s == (if self == Lifecycle::Activated {
                Lifecycle::Deactivated
            } else {
                self
            }),
    {
        match self {
            Lifecycle::Activated => Lifecycle::Deactivated,
            other => other,
        }
    }

    /// The state after an invocation returned `directive`.
    pub fn on_directive(self, directive: Control) -> (s: Lifecycle)
        ensures
            s == next_state(self, directive),
    {
        match (self, directive) {
            (Lifecycle::Activated, Control::Quit) => Lifecycle::Deactivated,
            (other, _) => other,
        }
    }
}

/// Whether `handlers` and `directives` record a run of invocations of
/// `process`: each handler is what the invocation before it left behind, and
/// each directive is what the invocation on the handler at its position
/// returned.
pub open spec fn is_run<H: ProcessHandler>(
    handlers: Seq<H>,
    client: &Client,
    scope: &ProcessScope,
    directives: Seq<Control>,
) -> bool {
    &&& handlers.len() == directives.len() + 1
    &&& forall|i: int|
        #![trigger directives[i]]
        0 <= i < directives.len() ==> handlers[i].processed(
            client,
            scope,
            &handlers[i + 1],
            directives[i],
        )
}

/// Taking one more directive is one more step of the state machine.
pub proof fn lemma_state_after_push(state: Lifecycle, directives: Seq<Control>, last: Control)
    ensures
        state_after(state, directives.push(last)) == next_state(
            state_after(state, directives),
            last,
        ),
    decreases directives.len(),
{
    let all = directives.push(last);
    if directives.len() == 0 {
        assert(all.drop_first() =~= Seq::<Control>::empty());
        assert(state_after(next_state(state, last), all.drop_first()) == next_state(state, last));
    } else {
        assert(all.drop_first() =~= directives.drop_first().push(last));
        lemma_state_after_push(next_state(state, directives[0]), directives.drop_first(), last);
    }
}

/// A handler that, run from `handlers[0]`, quits on its `q`-th invocation
/// and on none before it, is invoked exactly `q` times by a server that
/// allows at least `q` blocks: the first `q - 1` directives are continues,
/// the last is the quit, and no invocation follows it.
pub proof fn lemma_run_ends_at_first_quit<H: ProcessHandler>(
    handlers: Seq<H>,
    client: &Client,
    scope: &ProcessScope,
    directives: Seq<Control>,
    blocks: nat,
    q: nat,
)
    requires
        1 <= q <= blocks,
        is_run(handlers, client, scope, directives),
        directives.len() <= blocks,
        stops_at_quit(directives),
        directives.len() < blocks ==> directives.len() > 0 && directives.last() == Control::Quit,
        forall|others: Seq<H>, given: Seq<Control>, i: int|
            #![trigger is_run(others, client, scope, given), given[i]]
            others[0] == handlers[0] && is_run(others, client, scope, given) && 0 <= i
                < given.len() && i < q ==> (given[i] == Control::Quit <==> i == q - 1),
    ensures
        directives.len() == q,
        forall|i: int| 0 <= i < q - 1 ==> directives[i] == Control::Continue,
        directives[q - 1] == Control::Quit,
{
    let n = directives.len() as int;
    if n < q {
        assert(n > 0 && directives.last() == Control::Quit);
        assert(directives[n - 1] == Control::Quit <==> n - 1 == q - 1);
    } else if n > q {
        assert(directives[q - 1] == Control::Quit <==> q - 1 == q - 1);
    } else {
        assert(directives[q - 1] == Control::Quit <==> q - 1 == q - 1);
    }
}

/// Plays the server for at most `blocks` blocks: activates, then invokes
/// `handler.process` once per block for as long as the client is activated.
/// Returns the directives received, in order.
///
/// The directives are those that the invocations returned, each made on the
/// handler that the one before it left behind, and `handler` ends as the
/// last of them left it. Every invocation is made on an activated client,
/// so nothing follows a quit, and the run is cut short of `blocks`
/// invocations only by a quit.
pub fn run_blocks<H: ProcessHandler>(
    handler: &mut H,
    client: &Client,
    scope: &ProcessScope,
    blocks: usize,
) -> (directives: Vec<Control>)
    requires
        old(handler).ready(),
    ensures
        final(handler).ready(),
        exists|handlers: Seq<H>|
            handlers[0] == *old(handler) && handlers.last() == *final(handler) && is_run(
                handlers,
                client,
                scope,
                directives@,
            ),
        directives@.len() <= blocks,
        forall|k: int|
            0 <= k < directives@.len() ==> #[trigger] state_after(
                Lifecycle::Activated,
                directives@.take(k),
            ).spec_invokes(),
        directives@.len() == blocks || state_after(Lifecycle::Activated, directives@)
            == Lifecycle::Deactivated,
        stops_at_quit(directives@),
        directives@.len() < blocks ==> directives@.len() > 0 && directives@.last()
            == Control::Quit,
{
    let mut state = Lifecycle::new().activate();
    let mut directives: Vec<Control> = Vec::new();
    let ghost mut handlers: Seq<H> = seq![*handler];
    while state.invokes() && directives.len() < blocks
        invariant
            handler.ready(),
            handlers[0] == *old(handler),
            handlers.last() == *handler,
            is_run(handlers, client, scope, directives@),
            directives@.len() <= blocks,
            state == state_after(Lifecycle::Activated, directives@),
            forall|k: int|
                0 <= k < directives@.len() ==> #[trigger] state_after(
                    Lifecycle::Activated,
                    directives@.take(k),
                ).spec_invokes(),
            stops_at_quit(directives@),
            state == Lifecycle::Activated || state == Lifecycle::Deactivated,
            state == Lifecycle::Activated ==> !directives@.contains(Control::Quit),
            state == Lifecycle::Deactivated ==> directives@.len() > 0 && directives@.last()
                == Control::Quit,
        decreases blocks - directives@.len(),
    {
        let directive = handler.process(client, scope);
        proof {
            let before = directives@;
            let after = before.push(directive);
            let earlier = handlers;
            handlers = handlers.push(*handler);
            assert forall|i: int| #![trigger after[i]] 0 <= i < after.len() implies handlers[i].processed(
                client,
                scope,
                &handlers[i + 1],
                after[i],
            ) by {
                if i < before.len() {
                    assert(before[i] == after[i]);
                    assert(handlers[i] == earlier[i] && handlers[i + 1] == earlier[i + 1]);
                }
            }
            lemma_state_after_push(Lifecycle::Activated, before, directive);
            assert forall|k: int| 0 <= k < after.len() implies #[trigger] state_after(
                Lifecycle::Activated,
                after.take(k),
            ).spec_invokes() by {
                if k < before.len() {
                    assert(after.take(k) =~= before.take(k));
                } else {
                    assert(after.take(k) =~= before);
                }
            }
            assert forall|i: int| 0 <= i < after.len() - 1 implies after[i]
                == Control::Continue by {
                assert(before.contains(before[i]));
            }
            if directive != Control::Quit {
                assert forall|i: int| 0 <= i < after.len() implies after[i] != Control::Quit by {
                    if i < before.len() {
                        assert(before.contains(before[i]));
                    }
                }
            }
        }
        directives.push(directive);
        state = state.on_directive(directive);
    }
    directives
}

} // verus!
