//! A bounded newest-first history: new values enter at the front and the
//! oldest leave from the back once the capacity is exceeded.
use std::collections::VecDeque;
use vstd::prelude::*;

verus! {

/// What pushing `x` onto the history `s` of capacity `cap` leaves.
pub open spec fn bounded_push<T>(s: Seq<T>, x: T, cap: nat) -> Seq<T> {
    let t = seq![x] + s;
    if t.len() > cap {
        t.take(cap as int)
    } else {
        t
    }
}

/// What pushing each of `items` in turn onto `s` leaves.
pub open spec fn push_all<T>(s: Seq<T>, items: Seq<T>, cap: nat) -> Seq<T>
    decreases items.len(),
{
    if items.len() == 0 {
        s
    } else {
        bounded_push(push_all(s, items.drop_last(), cap), items.last(), cap)
    }
}

/// Bounded newest-first history; its view lists the entries newest first.
pub struct History<T> {
    items: VecDeque<T>,
    capacity: usize,
}

impl<T> View for History<T> {
    type V = Seq<T>;

    closed spec fn view(&self) -> Seq<T> {
        self.items@
    }
}

impl<T> History<T> {
    pub closed spec fn cap(&self) -> nat {
        self.capacity as nat
    }

    pub closed spec fn wf(&self) -> bool {
        self.items@.len() <= self.capacity
    }

    pub fn new(capacity: usize) -> (r: History<T>)
        ensures
            r.wf(),
            r@ == Seq::<T>::empty(),
            r.cap() == capacity,
    {
        History { items: VecDeque::new(), capacity }
    }

    pub fn capacity(&self) -> (r: usize)
        ensures
            r == self.cap(),
    {
        self.capacity
    }

    pub fn len(&self) -> (r: usize)
        requires
            self.wf(),
        ensures
            r == self@.len(),
            r <= self.cap(),
    {
        self.items.len()
    }

    /// The entry `i` steps back from the newest (0 is the newest).
    pub fn get(&self, i: usize) -> (r: &T)
        requires
            i < self@.len(),
        ensures
            *r == self@[i as int],
    {
        &self.items[i]
    }

    /// Pushes `x` as the newest entry, evicting the oldest when over capacity.
    pub fn push(&mut self, x: T)
        requires
            old(self).wf(),
        ensures
            final(self).wf(),
            final(self).cap() == old(self).cap(),
            final(self)@ == bounded_push(old(self)@, x, old(self).cap()),
    {
        self.items.push_front(x);
        if self.items.len() > self.capacity {
            let _ = self.items.pop_back();
        }
        proof {
            let t = seq![x] + old(self)@;
            if t.len() > self.capacity {
                assert(self.items@ =~= t.take(self.capacity as int));
            }
        }
    }
}

/// A history never holds more than its capacity, and after any run of pushes
/// onto an empty history it holds the most recent `min(n, capacity)` values,
/// newest first.
pub proof fn lemma_history_window<T>(items: Seq<T>, cap: nat)
    ensures
        push_all(Seq::<T>::empty(), items, cap).len() == if items.len() < cap {
            items.len()
        } else {
            cap
        },
        forall|k: int|
            0 <= k < push_all(Seq::<T>::empty(), items, cap).len() ==> #[trigger] push_all(
                Seq::<T>::empty(),
                items,
                cap,
            )[k] == items[items.len() - 1 - k],
    decreases items.len(),
{
    if items.len() > 0 {
        let prev = items.drop_last();
        lemma_history_window(prev, cap);
        let p = push_all(Seq::<T>::empty(), prev, cap);
        let r = push_all(Seq::<T>::empty(), items, cap);
        assert(r == bounded_push(p, items.last(), cap));
        assert forall|k: int| 0 <= k < r.len() implies #[trigger] r[k] == items[items.len() - 1 - k] by {
            if k > 0 {
                assert(r[k] == p[k - 1]);
                assert(prev[prev.len() - 1 - (k - 1)] == items[items.len() - 1 - k]);
            }
        }
    }
}

} // verus!
