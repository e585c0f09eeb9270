//! The backlog: a bounded, insertion-ordered buffer that drops its oldest
//! entry to make room for a new one.
use vstd::prelude::*;
use std::collections::VecDeque;

verus! {

broadcast use vstd::std_specs::vecdeque::group_vec_dequeue_axioms;

/// The contents after pushing `x` into a buffer of capacity `cap` holding `q`:
/// when full, the front entry leaves first.
pub open spec fn pushed<T>(cap: nat, q: Seq<T>, x: T) -> Seq<T> {
    if cap == 0 {
        q
    } else if q.len() >= cap {
        q.drop_first().push(x)
    } else {
        q.push(x)
    }
}

/// The contents after pushing each of `xs`, in order.
pub open spec fn pushed_all<T>(cap: nat, q: Seq<T>, xs: Seq<T>) -> Seq<T>
    decreases xs.len(),
{
    if xs.len() == 0 {
        q
    } else {
        pushed_all(cap, pushed(cap, q, xs[0]), xs.drop_first())
    }
}

/// What popping a buffer holding `q` until it is empty returns, in order:
/// each pop returns the front entry and leaves the rest.
pub open spec fn drained<T>(q: Seq<T>) -> Seq<T>
    decreases q.len(),
{
    if q.len() == 0 {
        Seq::empty()
    } else {
        seq![q[0]] + drained(q.drop_first())
    }
}

/// Popping everything returns the entries in the order they are held.
pub proof fn lemma_drained<T>(q: Seq<T>)
    ensures
        drained(q) == q,
    decreases q.len(),
{
    if q.len() > 0 {
        lemma_drained(q.drop_first());
        assert(seq![q[0]] + q.drop_first() =~= q);
    }
}

/// The last `n` entries of `s` (all of them when it has fewer).
pub open spec fn last_n<T>(s: Seq<T>, n: nat) -> Seq<T> {
    if s.len() <= n {
        s
    } else {
        s.subrange(s.len() - n, s.len() as int)
    }
}

/// A bounded first-in first-out buffer.
#[derive(Debug)]
pub struct Queue<T> {
    queue: VecDeque<T>,
    size: usize,
}

impl<T> View for Queue<T> {
    type V = Seq<T>;

    closed spec fn view(&self) -> Seq<T> {
        self.queue@
    }
}

impl<T> Queue<T> {
    /// The number of entries the buffer holds at most.
    pub closed spec fn capacity(&self) -> nat {
        self.size as nat
    }

    /// An empty buffer holding at most `size` entries.
    pub fn new(size: usize) -> (r: Self)
        ensures
            r@ == Seq::<T>::empty(),
            r.capacity() == size,
    {
        Queue { queue: VecDeque::with_capacity(size), size }
    }

    /// Appends `data`; when the buffer is full its oldest entry is removed
    /// first and returned. A buffer of capacity zero keeps nothing and hands
    /// `data` back.
    pub fn push(&mut self, data: T) -> (r: Option<T>)
        ensures
            final(self)@ == pushed(old(self).capacity(), old(self)@, data),
            final(self).capacity() == old(self).capacity(),
            old(self)@.len() <= old(self).capacity() ==> final(self)@.len() <= final(self).capacity(),
            old(self).capacity() == 0 ==> r == Some(data),
            old(self).capacity() > 0 && old(self)@.len() >= old(self).capacity() ==> r == Some(
                old(self)@[0],
            ),
            old(self).capacity() > 0 && old(self)@.len() < old(self).capacity() ==> r is None,
    {
        if self.size == 0 {
            return Some(data);
        }
        let out = if self.queue.len() >= self.size {
            self.queue.pop_front()
        } else {
            None
        };
        self.queue.push_back(data);
        proof {
            assert(old(self)@.len() >= old(self).capacity() ==> self.queue@ =~= old(self)@.drop_first().push(data));
        }
        out
    }

    /// Removes and returns the oldest entry.
    pub fn pop(&mut self) -> (r: Option<T>)
        ensures
            final(self).capacity() == old(self).capacity(),
            old(self)@.len() == 0 ==> r is None && final(self)@ == old(self)@,
            old(self)@.len() > 0 ==> r == Some(old(self)@[0]) && final(self)@ == old(self)@.drop_first(),
    {
        let r = self.queue.pop_front();
        proof {
            if old(self)@.len() > 0 {
                assert(self.queue@ =~= old(self)@.drop_first());
            }
        }
        r
    }

    /// The newest entry.
    pub fn back(&self) -> (r: Option<&T>)
        ensures
            self@.len() == 0 ==> r is None,
            self@.len() > 0 ==> r == Some(&self@[self@.len() - 1]),
    {
        let n = self.queue.len();
        if n == 0 {
            None
        } else {
            Some(&self.queue[n - 1])
        }
    }

    /// The entry `n` places before the newest (the newest itself for zero).
    pub fn nth_from_end(&self, n: usize) -> (r: Option<&T>)
        ensures
            n >= self@.len() ==> r is None,
            n < self@.len() ==> r == Some(&self@[self@.len() - 1 - n]),
    {
        let len = self.queue.len();
        if n >= len {
            None
        } else {
            Some(&self.queue[len - 1 - n])
        }
    }

    /// The number of entries held.
    pub fn len(&self) -> (r: usize)
        ensures
            r == self@.len(),
    {
        self.queue.len()
    }

    pub fn is_empty(&self) -> (r: bool)
        ensures
            r == (self@.len() == 0),
    {
        self.queue.len() == 0
    }

    /// Removes every entry.
    pub fn clear(&mut self)
        ensures
            final(self)@ == Seq::<T>::empty(),
            final(self).capacity() == old(self).capacity(),
    {
        self.queue.clear();
    }

    /// The entries, oldest first.
    pub fn iter(&self) -> (r: Vec<&T>)
        ensures
            r@.len() == self@.len(),
            forall|i: int| 0 <= i < r@.len() ==> *r@[i] == self@[i],
    {
        let n = self.queue.len();
        let mut out: Vec<&T> = Vec::new();
        let mut i: usize = 0;
        while i < n
            invariant
                n == self@.len(),
                i <= n,
                out@.len() == i,
                forall|j: int| 0 <= j < i ==> *out@[j] == self@[j],
            decreases n - i,
        {
            out.push(&self.queue[i]);
            i += 1;
        }
        out
    }
}

/// Pushing into a buffer never takes it past its capacity.
pub proof fn lemma_never_over<T>(cap: nat, q: Seq<T>, xs: Seq<T>)
    requires
        q.len() <= cap,
    ensures
        pushed_all(cap, q, xs).len() <= cap,
    decreases xs.len(),
{
    if xs.len() > 0 {
        lemma_never_over(cap, pushed(cap, q, xs[0]), xs.drop_first());
    }
}

/// Pushing a sequence of entries into a buffer leaves exactly the newest
/// `cap` of everything it held and received, in the order they came.
pub proof fn lemma_keeps_newest<T>(cap: nat, q: Seq<T>, xs: Seq<T>)
    requires
        q.len() <= cap,
    ensures
        pushed_all(cap, q, xs) == last_n(q + xs, cap),
    decreases xs.len(),
{
    if cap == 0 {
        assert(q =~= Seq::<T>::empty());
        if xs.len() > 0 {
            lemma_keeps_newest(cap, pushed(cap, q, xs[0]), xs.drop_first());
            assert(last_n(q + xs, cap) =~= Seq::<T>::empty());
            assert(last_n(pushed(cap, q, xs[0]) + xs.drop_first(), cap) =~= Seq::<T>::empty());
        }
        assert(last_n(q + xs, cap) =~= Seq::<T>::empty());
    } else if xs.len() == 0 {
        assert(q + xs =~= q);
    } else {
        let q2 = pushed(cap, q, xs[0]);
        lemma_keeps_newest(cap, q2, xs.drop_first());
        let all = q + xs;
        let all2 = q2 + xs.drop_first();
        if q.len() >= cap {
            assert(all2 =~= all.subrange(1, all.len() as int));
        } else {
            assert(all2 =~= all);
        }
        assert(last_n(all2, cap) =~= last_n(all, cap));
    }
}

/// A buffer of capacity `n` that is handed `n + 1` entries, starting empty,
/// holds exactly the last `n` of them, and popping it returns them in the
/// order they were pushed.
pub proof fn lemma_overflow_by_one<T>(n: nat, xs: Seq<T>)
    requires
        xs.len() == n + 1,
    ensures
        pushed_all(n, Seq::<T>::empty(), xs) == xs.subrange(1, xs.len() as int),
        pushed_all(n, Seq::<T>::empty(), xs).len() == n,
        drained(pushed_all(n, Seq::<T>::empty(), xs)) == xs.subrange(1, xs.len() as int),
{
    lemma_keeps_newest(n, Seq::<T>::empty(), xs);
    assert(Seq::<T>::empty() + xs =~= xs);
    lemma_drained(pushed_all(n, Seq::<T>::empty(), xs));
}

} // verus!
