//! A bounded, insertion-ordered set of strings that drops its oldest entry
//! to make room for a new one.
use vstd::prelude::*;
use std::collections::VecDeque;
use crate::text::same_text;

verus! {

broadcast use vstd::std_specs::vecdeque::group_vec_dequeue_axioms;

/// The entries after inserting `x` into a set of capacity `max` holding `s`:
/// an entry already present changes nothing; otherwise, when full, the
/// oldest entry leaves first.
pub open spec fn inserted(max: nat, s: Seq<Seq<char>>, x: Seq<char>) -> Seq<Seq<char>> {
    if s.contains(x) || max == 0 {
        s
    } else if s.len() >= max {
        s.drop_first().push(x)
    } else {
        s.push(x)
    }
}

/// Distinct strings, oldest first, at most `max` of them.
#[derive(Debug)]
pub struct BoundedSet {
    data: VecDeque<String>,
    max: usize,
}

impl View for BoundedSet {
    type V = Seq<Seq<char>>;

    closed spec fn view(&self) -> Seq<Seq<char>> {
        self.data@.map_values(|s: String| s@)
    }
}

impl BoundedSet {
    /// The number of entries kept at most.
    pub closed spec fn capacity(&self) -> nat {
        self.max as nat
    }

    /// Entries are distinct and within capacity.
    pub open spec fn wf(&self) -> bool {
        &&& self@.no_duplicates()
        &&& self@.len() <= self.capacity()
    }

    /// An empty set keeping at most `max` entries.
    pub fn new(max: usize) -> (r: Self)
        ensures
            r.wf(),
            r@ == Seq::<Seq<char>>::empty(),
            r.capacity() == max,
    {
        let r = BoundedSet { data: VecDeque::new(), max };
        assert(r@ =~= Seq::<Seq<char>>::empty());
        r
    }

    /// Removes every entry.
    pub fn clear(&mut self)
        ensures
            final(self).wf(),
            final(self)@ == Seq::<Seq<char>>::empty(),
            final(self).capacity() == old(self).capacity(),
    {
        self.data.clear();
        assert(self@ =~= Seq::<Seq<char>>::empty());
    }

    /// The number of entries.
    pub fn len(&self) -> (r: usize)
        ensures
            r == self@.len(),
    {
        self.data.len()
    }

    pub fn is_empty(&self) -> (r: bool)
        ensures
            r == (self@.len() == 0),
    {
        self.data.len() == 0
    }

    fn contains(&self, item: &str) -> (r: bool)
        ensures
            r == self@.contains(item@),
    {
        let n = self.data.len();
        let mut i: usize = 0;
        while i < n
            invariant
                n == self@.len(),
                i <= n,
                forall|j: int| 0 <= j < i ==> self@[j] != item@,
            decreases n - i,
        {
            if same_text(self.data[i].as_str(), item) {
                assert(self@[i as int] == item@);
                return true;
            }
            i += 1;
        }
        false
    }

    /// Adds `item` unless it is present. When the set is full its oldest
    /// entry is removed first and returned.
    pub fn insert(&mut self, item: String) -> (r: Option<String>)
        requires
            old(self).wf(),
        ensures
            final(self).wf(),
            final(self)@ == inserted(old(self).capacity(), old(self)@, item@),
            final(self).capacity() == old(self).capacity(),
            match r {
                Some(s) => !old(self)@.contains(item@) && old(self).capacity() > 0
                    && old(self)@.len() >= old(self).capacity() && s@ == old(self)@[0],
                None => old(self)@.contains(item@) || old(self).capacity() == 0
                    || old(self)@.len() < old(self).capacity(),
            },
    {
        if self.contains(item.as_str()) || self.max == 0 {
            return None;
        }
        let ghost s0 = self@;
        let out = if self.data.len() >= self.max {
            self.data.pop_front()
        } else {
            None
        };
        let ghost s1 = self@;
        proof {
            if s0.len() >= self.max {
                assert(s1 =~= s0.drop_first());
            } else {
                assert(s1 =~= s0);
            }
        }
        self.data.push_back(item);
        proof {
            assert(self@ =~= s1.push(item@));
            assert forall|i: int, j: int|
                0 <= i < self@.len() && 0 <= j < self@.len() && i != j implies self@[i]
                != self@[j] by {
                if i < s1.len() && j < s1.len() {
                    if s0.len() >= self.max {
                        assert(s1[i] == s0[i + 1] && s1[j] == s0[j + 1]);
                    }
                } else if i < s1.len() {
                    if s0.len() >= self.max {
                        assert(s1[i] == s0[i + 1]);
                    } else {
                        assert(s1[i] == s0[i]);
                    }
                } else {
                    if s0.len() >= self.max {
                        assert(s1[j] == s0[j + 1]);
                    } else {
                        assert(s1[j] == s0[j]);
                    }
                }
            }
        }
        out
    }

    /// The entries, oldest first.
    pub fn iter(&self) -> (r: Vec<&String>)
        ensures
            r@.len() == self@.len(),
            forall|i: int| 0 <= i < r@.len() ==> r@[i]@ == self@[i],
    {
        let n = self.data.len();
        let mut out: Vec<&String> = Vec::new();
        let mut i: usize = 0;
        while i < n
            invariant
                n == self@.len(),
                i <= n,
                out@.len() == i,
                forall|j: int| 0 <= j < i ==> out@[j]@ == self@[j],
            decreases n - i,
        {
            out.push(&self.data[i]);
            i += 1;
        }
        out
    }

    /// The entry `n` places before the newest (the newest itself for zero).
    pub fn nth_from_end(&self, n: usize) -> (r: Option<&String>)
        ensures
            n >= self@.len() ==> r is None,
            n < self@.len() ==> r is Some && r.unwrap()@ == self@[self@.len() - 1 - n],
    {
        let len = self.data.len();
        if n >= len {
            None
        } else {
            Some(&self.data[len - 1 - n])
        }
    }
}

} // verus!
