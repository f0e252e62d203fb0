//! The bounded, non-blocking queue discipline of the conduits between the
//! callback and ordinary threads.
//!
//! Capacity is fixed at creation. A send never waits and never grows the
//! queue: when the queue is full the offered item is turned away and the
//! items already queued stay, in order. A receive never waits: it reports an
//! empty queue at once.

use vstd::prelude::*;
use std::collections::VecDeque;

verus! {

/// What a queue of capacity `capacity` holding `contents` holds after one
/// send of `value`: the value is appended if there is room, and turned away
/// otherwise.
pub open spec fn after_send<T>(contents: Seq<T>, capacity: nat, value: T) -> Seq<T> {
    if contents.len() < capacity {
        contents.push(value)
    } else {
        contents
    }
}

/// What a queue holds after sending `values` one by one, first to last, with
/// no receive in between.
pub open spec fn after_sends<T>(contents: Seq<T>, capacity: nat, values: Seq<T>) -> Seq<T>
    decreases values.len(),
{
    if values.len() == 0 {
        contents
    } else {
        after_sends(after_send(contents, capacity, values[0]), capacity, values.drop_first())
    }
}

/// The value in force after draining a queue that holds `contents`: the last
/// one received, or `current` if nothing was queued.
pub open spec fn latest<T>(contents: Seq<T>, current: T) -> T {
    if contents.len() == 0 {
        current
    } else {
        contents.last()
    }
}

/// Sending `values` and then `value` is sending `values` first and `value`
/// after them.
pub proof fn lemma_sends_then_send<T>(contents: Seq<T>, capacity: nat, values: Seq<T>, value: T)
    ensures
        after_sends(contents, capacity, values.push(value)) == after_send(
            after_sends(contents, capacity, values),
            capacity,
            value,
        ),
    decreases values.len(),
{
    let all = values.push(value);
    if values.len() == 0 {
        assert(all.drop_first() =~= Seq::<T>::empty());
        assert(after_sends(after_send(contents, capacity, value), capacity, all.drop_first())
            == after_send(contents, capacity, value));
    } else {
        assert(all.drop_first() =~= values.drop_first().push(value));
        lemma_sends_then_send(
            after_send(contents, capacity, values[0]),
            capacity,
            values.drop_first(),
            value,
        );
    }
}

/// Sends into a queue with room to spare keep everything; sends beyond the
/// capacity are turned away. Starting from `contents`, which fits, the queue
/// ends up holding the first `capacity` items of `contents` followed by
/// `values`.
pub proof fn lemma_sends_keep_earliest<T>(contents: Seq<T>, capacity: nat, values: Seq<T>)
    requires
        contents.len() <= capacity,
    ensures
        after_sends(contents, capacity, values).len() == (if contents.len() + values.len()
            <= capacity {
            contents.len() + values.len()
        } else {
            capacity
        }),
        after_sends(contents, capacity, values) == (contents + values).take(
            after_sends(contents, capacity, values).len() as int,
        ),
    decreases values.len(),
{
    if values.len() == 0 {
        assert(contents + values =~= contents);
        assert(contents.take(contents.len() as int) =~= contents);
    } else {
        let next = after_send(contents, capacity, values[0]);
        let rest = values.drop_first();
        lemma_sends_keep_earliest(next, capacity, rest);
        let kept = after_sends(contents, capacity, values);
        assert(kept == after_sends(next, capacity, rest));
        if contents.len() < capacity {
            assert(next + rest =~= contents + values);
        } else {
            assert(kept.len() == capacity);
            assert((next + rest).take(capacity as int) =~= (contents + values).take(
                capacity as int,
            ));
        }
    }
}

/// More sends than the capacity, into an empty queue and with no receive:
/// exactly `capacity` items are kept, and they are the earliest ones, in the
/// order in which they were sent.
pub proof fn lemma_overflow_keeps_first<T>(capacity: nat, values: Seq<T>)
    requires
        values.len() > capacity,
    ensures
        after_sends(Seq::<T>::empty(), capacity, values).len() == capacity,
        after_sends(Seq::<T>::empty(), capacity, values) == values.take(capacity as int),
{
    lemma_sends_keep_earliest(Seq::<T>::empty(), capacity, values);
    assert(Seq::<T>::empty() + values =~= values);
}

/// Sending `values` into an empty queue and then draining it: when all of
/// them fit, the value in force is the last one sent; when they do not, it
/// is the last one that found room, the one at position `capacity - 1`; when
/// nothing was kept, the current value stays.
pub proof fn lemma_drain_after_sends<T>(capacity: nat, values: Seq<T>, current: T)
    ensures
        latest(after_sends(Seq::<T>::empty(), capacity, values), current) == (if values.len() == 0
            || capacity == 0 {
            current
        } else if values.len() <= capacity {
            values.last()
        } else {
            values[capacity - 1]
        }),
{
    lemma_sends_keep_earliest(Seq::<T>::empty(), capacity, values);
    assert(Seq::<T>::empty() + values =~= values);
}

/// A first-in, first-out queue of fixed capacity whose operations never wait.
pub struct BoundedQueue<T> {
    items: VecDeque<T>,
    capacity: usize,
}

impl<T> View for BoundedQueue<T> {
    type V = Seq<T>;

    /// The queued items, oldest first.
    closed spec fn view(&self) -> Seq<T> {
        self.items@
    }
}

impl<T> BoundedQueue<T> {
    /// The capacity fixed at creation.
    pub closed spec fn spec_capacity(&self) -> usize {
        self.capacity
    }

    /// The queue holds no more than its capacity. Every queue made by `new`
    /// satisfies this, and every operation keeps it.
    pub open spec fn within_capacity(&self) -> bool {
        self@.len() <= self.spec_capacity()
    }

    /// An empty queue that will hold at most `capacity` items. All storage
    /// is set aside here; no later operation allocates.
    pub fn new(capacity: usize) -> (q: Self)
        ensures
            q@ == Seq::<T>::empty(),
            q.spec_capacity() == capacity,
            q.within_capacity(),
    {
        BoundedQueue { items: VecDeque::with_capacity(capacity), capacity }
    }

    /// The capacity fixed at creation.
    #[verifier::when_used_as_spec(spec_capacity)]
    pub fn capacity(&self) -> (n: usize)
        ensures
            n == self.spec_capacity(),
    {
        self.capacity
    }

    /// The number of queued items.
    pub fn len(&self) -> (n: usize)
        ensures
            n == self@.len(),
    {
        self.items.len()
    }

    /// Whether nothing is queued.
    pub fn is_empty(&self) -> (b: bool)
        ensures
            b == (self@.len() == 0),
    {
        self.items.len() == 0
    }

    /// Whether a send would be turned away.
    pub fn is_full(&self) -> (b: bool)
        ensures
            b == (self@.len() >= self.spec_capacity()),
    {
        self.items.len() >= self.capacity
    }

    /// Offers `value` without waiting. With room, the value joins the back of
    /// the queue. With the queue full, the queue is left as it was and the
    /// value comes back in `Err`: the caller drops it or keeps it.
    pub fn try_send(&mut self, value: T) -> (r: Result<(), T>)
        ensures
            final(self).spec_capacity() == old(self).spec_capacity(),
            final(self)@ == after_send(old(self)@, old(self).spec_capacity() as nat, value),
            r.is_ok() == (old(self)@.len() < old(self).spec_capacity()),
            r.is_err() ==> r == Err::<(), T>(value),
            old(self).within_capacity() ==> final(self).within_capacity(),
    {
        if self.items.len() < self.capacity {
            self.items.push_back(value);
            Ok(())
        } else {
            Err(value)
        }
    }

    /// Takes the oldest item without waiting, or reports the queue empty
    /// with `None`.
    pub fn try_recv(&mut self) -> (r: Option<T>)
        ensures
            final(self).spec_capacity() == old(self).spec_capacity(),
            r == (if old(self)@.len() == 0 {
                None
            } else {
                Some(old(self)@[0])
            }),
            final(self)@ == (if old(self)@.len() == 0 {
                old(self)@
            } else {
                old(self)@.drop_first()
            }),
            old(self).within_capacity() ==> final(self).within_capacity(),
    {
        let r = self.items.pop_front();
        proof {
            if old(self)@.len() > 0 {
                assert(old(self)@.drop_first() =~= old(self)@.subrange(
                    1,
                    old(self)@.len() as int,
                ));
            }
        }
        r
    }

    /// Receives until the queue reports empty, each value overriding the one
    /// before it, and returns the value then in force: the last one queued,
    /// or `current` if nothing was queued. The queue is left empty.
    pub fn drain_latest(&mut self, current: T) -> (v: T)
        ensures
            final(self).spec_capacity() == old(self).spec_capacity(),
            final(self)@ == Seq::<T>::empty(),
            v == latest(old(self)@, current),
    {
        let mut value = current;
        loop
            invariant
                self.spec_capacity() == old(self).spec_capacity(),
                value == latest(old(self)@.take(old(self)@.len() - self@.len()), current),
                self@.len() <= old(self)@.len(),
                self@ == old(self)@.skip(old(self)@.len() - self@.len()),
            ensures
                self@.len() == 0,
            decreases self@.len(),
        {
            let ghost before = self@;
            match self.try_recv() {
                Some(next) => {
                    proof {
                        let k = old(self)@.len() - before.len();
                        assert(self@ =~= old(self)@.skip(k + 1));
                        assert(old(self)@.take(k + 1).last() == old(self)@[k]);
                        assert(before[0] == old(self)@[k]);
                    }
                    value = next;
                },
                None => {
                    break ;
                },
            }
        }
        proof {
            assert(old(self)@.take(old(self)@.len() as int) =~= old(self)@);
            assert(self@ =~= Seq::<T>::empty());
        }
        value
    }
}

} // verus!
