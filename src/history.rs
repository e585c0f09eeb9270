//! The recall history of entered lines: distinct lines, newest last, with a
//! cursor that walks from the newest towards the oldest and back.
use vstd::prelude::*;
use crate::boundedset::{inserted, BoundedSet};

verus! {

/// How many lines the history keeps.
pub const HISTORY_SIZE: usize = 32;

/// What a step of the cursor shows: the entry `cursor` places before the
/// newest, if there is one.
pub open spec fn shown(entries: Seq<Seq<char>>, cursor: int) -> Option<Seq<char>> {
    if 0 <= cursor < entries.len() {
        Some(entries[entries.len() - 1 - cursor])
    } else {
        None
    }
}

/// The cursor after a step back: it stops one past the oldest entry.
pub open spec fn back_cursor(len: int, cursor: int) -> int {
    if len == 0 || cursor == len {
        cursor
    } else {
        cursor + 1
    }
}

/// The cursor after a step forward: it stops at the newest entry.
pub open spec fn forward_cursor(cursor: int) -> int {
    if cursor > 0 {
        cursor - 1
    } else {
        cursor
    }
}

#[derive(Debug)]
pub struct History {
    queue: BoundedSet,
    pos: i32,
}

impl History {
    /// The lines, oldest first.
    pub closed spec fn entries(&self) -> Seq<Seq<char>> {
        self.queue@
    }

    /// How far the cursor stands from the newest entry; -1 before the first step.
    pub closed spec fn cursor(&self) -> int {
        self.pos as int
    }

    pub closed spec fn wf(&self) -> bool {
        &&& self.queue.wf()
        &&& self.queue.capacity() == HISTORY_SIZE
        &&& -1 <= self.pos <= self.queue@.len()
    }

    /// An empty history.
    pub fn new() -> (r: History)
        ensures
            r.wf(),
            r.entries() == Seq::<Seq<char>>::empty(),
            r.cursor() == -1,
    {
        History { queue: BoundedSet::new(HISTORY_SIZE), pos: -1 }
    }

    /// Forgets every line.
    pub fn clear(&mut self)
        requires
            old(self).wf(),
        ensures
            final(self).wf(),
            final(self).entries() == Seq::<Seq<char>>::empty(),
            final(self).cursor() == -1,
    {
        self.queue.clear();
        self.pos = -1;
    }

    /// Records a line (a line already present is not repeated) and resets
    /// the cursor.
    pub fn append(&mut self, data: &str)
        requires
            old(self).wf(),
        ensures
            final(self).wf(),
            final(self).entries() == inserted(HISTORY_SIZE as nat, old(self).entries(), data@),
            final(self).cursor() == -1,
    {
        self.queue.insert(data.to_owned());
        self.pos = -1;
    }

    /// Steps towards older lines and returns the line reached.
    pub fn backward(&mut self) -> (r: Option<&String>)
        requires
            old(self).wf(),
        ensures
            final(self).wf(),
            final(self).entries() == old(self).entries(),
            final(self).cursor() == back_cursor(old(self).entries().len() as int, old(self).cursor()),
            back_cursor(old(self).entries().len() as int, old(self).cursor()) == old(self).cursor()
                ==> r is None,
            back_cursor(old(self).entries().len() as int, old(self).cursor()) != old(self).cursor()
                ==> match r {
                Some(s) => shown(final(self).entries(), final(self).cursor()) == Some(s@),
                None => shown(final(self).entries(), final(self).cursor()) is None,
            },
    {
        let len = self.queue.len();
        if len == 0 || self.pos == len as i32 {
            return None;
        }
        self.pos += 1;
        if self.pos < 0 {
            return None;
        }
        self.queue.nth_from_end(self.pos as usize)
    }

    /// Steps towards newer lines and returns the line reached.
    pub fn forward(&mut self) -> (r: Option<&String>)
        requires
            old(self).wf(),
        ensures
            final(self).wf(),
            final(self).entries() == old(self).entries(),
            old(self).entries().len() == 0 ==> r is None && final(self).cursor() == old(self).cursor(),
            old(self).entries().len() > 0 ==> final(self).cursor() == forward_cursor(old(self).cursor())
                && match r {
                Some(s) => shown(final(self).entries(), final(self).cursor()) == Some(s@),
                None => shown(final(self).entries(), final(self).cursor()) is None,
            },
    {
        if self.queue.len() == 0 {
            return None;
        }
        if self.pos > 0 {
            self.pos -= 1;
        }
        if self.pos < 0 {
            return None;
        }
        self.queue.nth_from_end(self.pos as usize)
    }

    /// The line editor's name for [`History::backward`].
    pub fn prev(&mut self) -> (r: Option<&String>)
        requires
            old(self).wf(),
        ensures
            final(self).wf(),
            final(self).entries() == old(self).entries(),
            final(self).cursor() == back_cursor(old(self).entries().len() as int, old(self).cursor()),
            back_cursor(old(self).entries().len() as int, old(self).cursor()) == old(self).cursor()
                ==> r is None,
            back_cursor(old(self).entries().len() as int, old(self).cursor()) != old(self).cursor()
                ==> match r {
                Some(s) => shown(final(self).entries(), final(self).cursor()) == Some(s@),
                None => shown(final(self).entries(), final(self).cursor()) is None,
            },
    {
        self.backward()
    }

    /// The line editor's name for [`History::forward`].
    pub fn next(&mut self) -> (r: Option<&String>)
        requires
            old(self).wf(),
        ensures
            final(self).wf(),
            final(self).entries() == old(self).entries(),
            old(self).entries().len() == 0 ==> r is None && final(self).cursor() == old(self).cursor(),
            old(self).entries().len() > 0 ==> final(self).cursor() == forward_cursor(old(self).cursor())
                && match r {
                Some(s) => shown(final(self).entries(), final(self).cursor()) == Some(s@),
                None => shown(final(self).entries(), final(self).cursor()) is None,
            },
    {
        self.forward()
    }
}

} // verus!
