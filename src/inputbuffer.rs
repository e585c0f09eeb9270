//! The input line editor: a line of characters with a cursor, editing and
//! motion commands, and recall of earlier lines. Every change is mirrored
//! on a window through [`MoveableCursor`].
use vstd::prelude::*;
use vstd::slice::slice_subrange;
use std::sync::Arc;
use crate::history::{back_cursor, forward_cursor, shown, History};
use crate::text::push_char;

verus! {

/// A window that shows the line being edited.
pub trait MoveableCursor {
    fn move_cursor(&self, pos: usize);

    fn clear(&self);

    fn delete_at(&self, pos: usize);

    fn insert_at(&self, pos: usize, ch: char);
}

/// A cursor motion.
#[derive(Debug, PartialEq, Eq, Clone, Copy, Structural)]
pub enum Move {
    EndOfLine,
    StartOfLine,
    ForwardWord,
    Forward,
    BackwardWord,
    Backward,
    Exact(usize),
}

/// An editing command.
#[derive(Debug, PartialEq, Eq, Clone, Copy, Structural)]
pub enum Command {
    /// Deletes the text between the cursor and where the motion leads.
    Delete(Move),
    /// Swaps the case of the text between the cursor and where the motion leads.
    SwapCase(Move),
    /// Inserts a character at a position.
    Insert(usize, char),
    /// Inserts a character at the cursor and moves past it.
    Append(char),
    Move(Move),
    /// Brings back an earlier line (`Backward`) or a later one (`Forward`).
    Recall(Move),
}

/// ASCII white space, as `char::is_ascii_whitespace` has it.
pub open spec fn space(c: char) -> bool {
    c == ' ' || c == '\t' || c == '\n' || c == '\x0C' || c == '\r'
}

/// ASCII punctuation, as `char::is_ascii_punctuation` has it.
pub open spec fn punct(c: char) -> bool {
    (0x21 <= c as u32 <= 0x2F) || (0x3A <= c as u32 <= 0x40) || (0x5B <= c as u32 <= 0x60) || (0x7B
        <= c as u32 <= 0x7E)
}

/// The Alphabetic or Numeric property of a character.
pub uninterp spec fn alphanumeric(c: char) -> bool;

pub open spec fn ascii_upper(c: char) -> bool {
    'A' <= c && c <= 'Z'
}

pub open spec fn to_lower(c: char) -> char {
    if ascii_upper(c) {
        ((c as int) + 32) as char
    } else {
        c
    }
}

pub open spec fn to_upper(c: char) -> char {
    if 'a' <= c && c <= 'z' {
        ((c as int) - 32) as char
    } else {
        c
    }
}

/// Where a forward word motion that has reached `p` stops: before
/// punctuation, or after a run of white space.
pub open spec fn fwd_scan(b: Seq<char>, p: int) -> int
    decreases b.len() - p,
{
    if p < 0 || p >= b.len() {
        p
    } else if punct(b[p]) {
        p
    } else if space(b[p]) {
        if p + 1 < b.len() && space(b[p + 1]) {
            fwd_scan(b, p + 1)
        } else {
            p + 1
        }
    } else {
        fwd_scan(b, p + 1)
    }
}

/// Where a forward word motion from `pos` stops.
pub open spec fn forward_word(b: Seq<char>, pos: int) -> int {
    if pos >= b.len() {
        pos
    } else if space(b[pos]) || punct(b[pos]) {
        fwd_scan(b, pos + 1)
    } else {
        fwd_scan(b, pos)
    }
}

/// Where a backward word motion that has reached `p` stops: after the white
/// space that precedes a word it has crossed.
pub open spec fn bwd_scan(b: Seq<char>, p: int, found: bool) -> int
    decreases p,
{
    if p <= 0 || p > b.len() {
        0
    } else if space(b[p - 1]) && found {
        p
    } else {
        bwd_scan(b, p - 1, found || alphanumeric(b[p - 1]))
    }
}

/// Where a backward word motion from `pos` stops.
pub open spec fn backward_word(b: Seq<char>, pos: int) -> int {
    if pos <= 0 {
        0
    } else {
        bwd_scan(b, pos - 1, false)
    }
}

/// Where motion `mv` from `pos` leads in line `b`.
pub open spec fn moved(b: Seq<char>, pos: int, mv: Move) -> int {
    match mv {
        Move::EndOfLine => b.len() as int,
        Move::StartOfLine => 0,
        Move::Forward => if pos != b.len() {
            pos + 1
        } else {
            pos
        },
        Move::ForwardWord => forward_word(b, pos),
        Move::Backward => if pos != 0 {
            pos - 1
        } else {
            pos
        },
        Move::BackwardWord => backward_word(b, pos),
        Move::Exact(sz) => if sz < b.len() {
            sz as int
        } else {
            b.len() as int
        },
    }
}

/// Whether a deletion or case swap with motion `mv` has anything to act on.
pub open spec fn acts(b: Seq<char>, pos: int, mv: Move) -> bool {
    b.len() > 0 && match mv {
        Move::Backward | Move::BackwardWord | Move::StartOfLine => pos != 0,
        Move::Forward | Move::ForwardWord | Move::EndOfLine => pos != b.len(),
        Move::Exact(_) => false,
    }
}

pub open spec fn min(a: int, b: int) -> int {
    if a <= b {
        a
    } else {
        b
    }
}

pub open spec fn max(a: int, b: int) -> int {
    if a <= b {
        b
    } else {
        a
    }
}

/// The line and cursor after command `cmd` (recall aside).
pub open spec fn edited(b: Seq<char>, pos: int, cmd: Command) -> (Seq<char>, int) {
    match cmd {
        Command::Delete(mv) => if acts(b, pos, mv) {
            let (lo, hi) = (min(pos, moved(b, pos, mv)), max(pos, moved(b, pos, mv)));
            (b.subrange(0, lo) + b.subrange(hi, b.len() as int), lo)
        } else {
            (b, pos)
        },
        Command::SwapCase(mv) => if acts(b, pos, mv) {
            let (lo, hi) = (min(pos, moved(b, pos, mv)), max(pos, moved(b, pos, mv)));
            let run = b.subrange(lo, hi);
            let changed = if ascii_upper(b[lo]) {
                run.map_values(|c: char| to_lower(c))
            } else {
                run.map_values(|c: char| to_upper(c))
            };
            (b.subrange(0, lo) + changed + b.subrange(hi, b.len() as int), pos)
        } else {
            (b, pos)
        },
        Command::Insert(index, ch) => if index < b.len() {
            (b.insert(index as int, ch), index as int)
        } else {
            (b.push(ch), b.len() as int)
        },
        Command::Append(ch) => (b.insert(pos, ch), pos + 1),
        Command::Move(mv) => (b, moved(b, pos, mv)),
        Command::Recall(_) => (b, pos),
    }
}

/// The history cursor after a recall, and the line it brings back, if any.
pub open spec fn recalled(entries: Seq<Seq<char>>, cursor: int, mv: Move) -> (int, Option<Seq<char>>) {
    match mv {
        Move::Backward => if back_cursor(entries.len() as int, cursor) == cursor {
            (cursor, None)
        } else {
            (cursor + 1, shown(entries, cursor + 1))
        },
        Move::Forward => if entries.len() == 0 {
            (cursor, None)
        } else {
            (forward_cursor(cursor), shown(entries, forward_cursor(cursor)))
        },
        _ => (cursor, None),
    }
}

/// Relies on `char::is_alphanumeric`: whether the character is Alphabetic
/// or Numeric in Unicode; among ASCII characters exactly the digits and the
/// letters are.
#[verifier::external_body]
fn is_alphanumeric(c: char) -> (r: bool)
    ensures
        r == alphanumeric(c),
        (c as u32) < 128 ==> (r <==> (('0' <= c && c <= '9') || ('a' <= c && c <= 'z') || ('A' <= c
            && c <= 'Z'))),
{
    c.is_alphanumeric()
}

fn is_space(c: char) -> (r: bool)
    ensures
        r == space(c),
{
    c == ' ' || c == '\t' || c == '\n' || c == '\x0C' || c == '\r'
}

fn is_punct(c: char) -> (r: bool)
    ensures
        r == punct(c),
{
    let u = c as u32;
    (0x21 <= u && u <= 0x2F) || (0x3A <= u && u <= 0x40) || (0x5B <= u && u <= 0x60) || (0x7B <= u
        && u <= 0x7E)
}

fn lower_char(c: char) -> (r: char)
    ensures
        r == to_lower(c),
{
    if 'A' <= c && c <= 'Z' {
        ((c as u8) + 32) as char
    } else {
        c
    }
}

pub(crate) fn upper_char(c: char) -> (r: char)
    ensures
        r == to_upper(c),
{
    if 'a' <= c && c <= 'z' {
        ((c as u8) - 32) as char
    } else {
        c
    }
}

fn forward_word_pos(b: &Vec<char>, pos: usize) -> (r: usize)
    requires
        pos <= b@.len(),
    ensures
        r == forward_word(b@, pos as int),
{
    let n = b.len();
    if pos == n {
        return pos;
    }
    let mut p = if is_space(b[pos]) || is_punct(b[pos]) {
        pos + 1
    } else {
        pos
    };
    loop
        invariant
            n == b@.len(),
            p <= n,
            fwd_scan(b@, p as int) == forward_word(b@, pos as int),
        decreases n - p,
    {
        if p >= n {
            return p;
        }
        let c = b[p];
        if is_punct(c) {
            return p;
        }
        if is_space(c) {
            if p + 1 < n && is_space(b[p + 1]) {
                p += 1;
            } else {
                return p + 1;
            }
        } else {
            p += 1;
        }
    }
}

fn backward_word_pos(b: &Vec<char>, pos: usize) -> (r: usize)
    requires
        pos <= b@.len(),
    ensures
        r == backward_word(b@, pos as int),
{
    if pos == 0 {
        return 0;
    }
    let mut p = pos - 1;
    let mut found = false;
    loop
        invariant
            p < pos <= b@.len(),
            bwd_scan(b@, p as int, found) == backward_word(b@, pos as int),
        decreases p,
    {
        if p == 0 {
            return 0;
        }
        let c = b[p - 1];
        if is_space(c) && found {
            return p;
        }
        if is_alphanumeric(c) {
            found = true;
        }
        p -= 1;
    }
}

/// `b` with `b[lo..hi]` replaced by `mid`.
fn splice(b: &Vec<char>, lo: usize, hi: usize, mid: &Vec<char>) -> (r: Vec<char>)
    requires
        lo <= hi <= b@.len(),
    ensures
        r@ == b@.subrange(0, lo as int) + mid@ + b@.subrange(hi as int, b@.len() as int),
{
    let mut out: Vec<char> = Vec::new();
    let mut i: usize = 0;
    while i < lo
        invariant
            i <= lo <= hi <= b@.len(),
            out@ == b@.subrange(0, i as int),
        decreases lo - i,
    {
        out.push(b[i]);
        i += 1;
        assert(out@ =~= b@.subrange(0, i as int));
    }
    let mut j: usize = 0;
    while j < mid.len()
        invariant
            j <= mid@.len(),
            out@ == b@.subrange(0, lo as int) + mid@.subrange(0, j as int),
        decreases mid@.len() - j,
    {
        out.push(mid[j]);
        j += 1;
        assert(out@ =~= b@.subrange(0, lo as int) + mid@.subrange(0, j as int));
    }
    let n = b.len();
    let mut k: usize = hi;
    assert(mid@.subrange(0, mid@.len() as int) =~= mid@);
    while k < n
        invariant
            hi <= k <= n,
            n == b@.len(),
            out@ == b@.subrange(0, lo as int) + mid@ + b@.subrange(hi as int, k as int),
        decreases n - k,
    {
        out.push(b[k]);
        k += 1;
        assert(out@ =~= b@.subrange(0, lo as int) + mid@ + b@.subrange(hi as int, k as int));
    }
    out
}

/// The characters of `s`.
fn chars_of(s: &str) -> (r: Vec<char>)
    ensures
        r@ == s@,
{
    let n = s.unicode_len();
    let mut out: Vec<char> = Vec::new();
    let mut i: usize = 0;
    while i < n
        invariant
            n == s@.len(),
            i <= n,
            out@ == s@.subrange(0, i as int),
        decreases n - i,
    {
        out.push(s.get_char(i));
        i += 1;
        assert(out@ =~= s@.subrange(0, i as int));
    }
    assert(out@ =~= s@);
    out
}

/// The line being edited, the cursor, the recall history and the window.
pub struct InputBuffer<M: MoveableCursor> {
    history: History,
    width: usize,
    buf: Vec<char>,
    position: usize,
    window: Arc<M>,
}

impl<M: MoveableCursor> InputBuffer<M> {
    /// The characters of the line.
    pub closed spec fn text(&self) -> Seq<char> {
        self.buf@
    }

    /// Where the cursor stands, between 0 and the line's length.
    pub closed spec fn cursor(&self) -> int {
        self.position as int
    }

    /// How many characters the window shows.
    pub closed spec fn shown_width(&self) -> nat {
        self.width as nat
    }

    /// The recalled lines, oldest first.
    pub closed spec fn recall_entries(&self) -> Seq<Seq<char>> {
        self.history.entries()
    }

    /// The recall cursor (see [`History`]).
    pub closed spec fn recall_cursor(&self) -> int {
        self.history.cursor()
    }

    pub closed spec fn wf(&self) -> bool {
        &&& self.position <= self.buf@.len()
        &&& self.history.wf()
    }

    /// An empty line shown `width` characters wide on `window`.
    pub fn new(width: usize, window: Arc<M>) -> (r: Self)
        ensures
            r.wf(),
            r.text() == Seq::<char>::empty(),
            r.cursor() == 0,
            r.shown_width() == width,
            r.recall_entries() == Seq::<Seq<char>>::empty(),
    {
        InputBuffer { history: History::new(), width, buf: Vec::new(), position: 0, window }
    }

    /// Records the current line in the recall history.
    pub fn add_history(&mut self)
        requires
            old(self).wf(),
        ensures
            final(self).wf(),
            final(self).recall_entries() == crate::boundedset::inserted(
                crate::history::HISTORY_SIZE as nat,
                old(self).recall_entries(),
                old(self).text(),
            ),
            final(self).recall_cursor() == -1,
            final(self).text() == old(self).text(),
            final(self).cursor() == old(self).cursor(),
    {
        let mut line = String::new();
        let mut i: usize = 0;
        while i < self.buf.len()
            invariant
                i <= self.buf@.len(),
                line@ == self.buf@.subrange(0, i as int),
            decreases self.buf@.len() - i,
        {
            push_char(&mut line, self.buf[i]);
            i += 1;
            assert(line@ =~= self.buf@.subrange(0, i as int));
        }
        assert(line@ =~= self.buf@);
        self.history.append(line.as_str());
    }

    /// Forgets the recall history.
    pub fn clear_history(&mut self)
        requires
            old(self).wf(),
        ensures
            final(self).wf(),
            final(self).recall_entries() == Seq::<Seq<char>>::empty(),
            final(self).text() == old(self).text(),
            final(self).cursor() == old(self).cursor(),
    {
        self.history.clear();
    }

    /// Empties the line and the window.
    pub fn clear(&mut self)
        requires
            old(self).wf(),
        ensures
            final(self).wf(),
            final(self).text() == Seq::<char>::empty(),
            final(self).cursor() == 0,
            final(self).recall_entries() == old(self).recall_entries(),
            final(self).recall_cursor() == old(self).recall_cursor(),
            final(self).shown_width() == old(self).shown_width(),
    {
        self.buf = Vec::new();
        self.position = 0;
        self.window.clear();
        self.window.move_cursor(0);
    }

    /// The part of the line the window shows: its last `width` characters.
    pub fn display(&self) -> (r: &[char])
        ensures
            self.text().len() <= self.shown_width() ==> r@ == self.text(),
            self.text().len() > self.shown_width() ==> r@ == self.text().subrange(
                self.text().len() - self.shown_width(),
                self.text().len() as int,
            ),
    {
        let n = self.buf.len();
        if n <= self.width {
            self.buf.as_slice()
        } else {
            slice_subrange(self.buf.as_slice(), n - self.width, n)
        }
    }

    /// The whole line.
    pub fn line(&self) -> (r: &[char])
        ensures
            r@ == self.text(),
    {
        self.buf.as_slice()
    }

    /// Moves the cursor and the window's cursor.
    pub fn move_cursor(&mut self, mv: &Move)
        requires
            old(self).wf(),
        ensures
            final(self).wf(),
            final(self).cursor() == moved(old(self).text(), old(self).cursor(), *mv),
            final(self).text() == old(self).text(),
            final(self).recall_entries() == old(self).recall_entries(),
            final(self).recall_cursor() == old(self).recall_cursor(),
            final(self).shown_width() == old(self).shown_width(),
    {
        let end = self.buf.len();
        match mv {
            Move::EndOfLine => self.position = end,
            Move::StartOfLine => self.position = 0,
            Move::Forward => {
                if self.position != end {
                    self.position += 1;
                }
            },
            Move::ForwardWord => self.position = forward_word_pos(&self.buf, self.position),
            Move::Backward => {
                if self.position != 0 {
                    self.position -= 1;
                }
            },
            Move::BackwardWord => self.position = backward_word_pos(&self.buf, self.position),
            Move::Exact(sz) => self.position = if *sz < end {
                *sz
            } else {
                end
            },
        }
        proof {
            if let Move::ForwardWord = *mv {
                lemma_forward_word_bounded(self.buf@, old(self).position as int);
            }
            if let Move::BackwardWord = *mv {
                lemma_backward_word_bounded(self.buf@, old(self).position as int);
            }
        }
        self.window.move_cursor(self.position);
    }

    fn acts(&self, mv: &Move) -> (r: bool)
        ensures
            r == acts(self.text(), self.cursor(), *mv),
    {
        if self.buf.len() == 0 {
            return false;
        }
        match mv {
            Move::Backward | Move::BackwardWord | Move::StartOfLine => self.position != 0,
            Move::Forward | Move::ForwardWord | Move::EndOfLine => self.position != self.buf.len(),
            Move::Exact(_) => false,
        }
    }

    /// Removes `n` characters at `at` from the window.
    fn erase_on_window(&self, at: usize, n: usize) {
        let mut k: usize = 0;
        while k < n
            decreases n - k,
        {
            self.window.delete_at(at);
            k += 1;
        }
    }

    /// Applies one editing command. A recall with a motion other than
    /// `Forward` or `Backward` does nothing; a case swap keeps the changed
    /// run in place, and the case of its first character decides the
    /// direction of the swap.
    pub fn handle_command(&mut self, cmd: &Command)
        requires
            old(self).wf(),
        ensures
            final(self).wf(),
            final(self).shown_width() == old(self).shown_width(),
            match *cmd {
                Command::Recall(mv) => {
                    let (c, got) = recalled(old(self).recall_entries(), old(self).recall_cursor(), mv);
                    &&& final(self).recall_entries() == old(self).recall_entries()
                    &&& final(self).recall_cursor() == c
                    &&& match got {
                        Some(l) => final(self).text() == l && final(self).cursor() == l.len(),
                        None => final(self).text() == old(self).text() && final(self).cursor()
                            == old(self).cursor(),
                    }
                },
                _ => {
                    &&& (final(self).text(), final(self).cursor()) == edited(
                        old(self).text(),
                        old(self).cursor(),
                        *cmd,
                    )
                    &&& final(self).recall_entries() == old(self).recall_entries()
                    &&& final(self).recall_cursor() == old(self).recall_cursor()
                },
            },
    {
        match *cmd {
            Command::Delete(mv) => {
                if !self.acts(&mv) {
                    return;
                }
                let start = self.position;
                self.move_cursor(&mv);
                let end = self.position;
                let (lo, hi) = if start <= end {
                    (start, end)
                } else {
                    (end, start)
                };
                self.erase_on_window(lo, hi - lo);
                let none: Vec<char> = Vec::new();
                self.buf = splice(&self.buf, lo, hi, &none);
                assert(self.buf@ =~= old(self).buf@.subrange(0, lo as int) + old(self).buf@.subrange(
                    hi as int,
                    old(self).buf@.len() as int,
                ));
                self.window.move_cursor(lo);
                self.position = lo;
                self.move_cursor(&Move::Exact(lo));
            },
            Command::SwapCase(mv) => {
                if !self.acts(&mv) {
                    return;
                }
                let start = self.position;
                self.move_cursor(&mv);
                let end = self.position;
                let (lo, hi) = if start <= end {
                    (start, end)
                } else {
                    (end, start)
                };
                self.erase_on_window(lo, hi - lo);
                let down = lo < self.buf.len() && 'A' <= self.buf[lo] && self.buf[lo] <= 'Z';
                let mut changed: Vec<char> = Vec::new();
                let mut i: usize = lo;
                while i < hi
                    invariant
                        lo <= i <= hi <= self.buf@.len(),
                        self.buf@ == old(self).buf@,
                        changed@.len() == i - lo,
                        forall|j: int|
                            0 <= j < i - lo ==> changed@[j] == if down {
                                to_lower(self.buf@[lo + j])
                            } else {
                                to_upper(self.buf@[lo + j])
                            },
                    decreases hi - i,
                {
                    let c = self.buf[i];
                    if down {
                        changed.push(lower_char(c));
                    } else {
                        changed.push(upper_char(c));
                    }
                    i += 1;
                }
                proof {
                    let run = old(self).buf@.subrange(lo as int, hi as int);
                    if lo == hi {
                        assert(run.map_values(|c: char| to_lower(c)) =~= run.map_values(
                            |c: char| to_upper(c),
                        ));
                    }
                    if down {
                        assert(changed@ =~= run.map_values(|c: char| to_lower(c)));
                    } else {
                        assert(changed@ =~= run.map_values(|c: char| to_upper(c)));
                    }
                }
                self.buf = splice(&self.buf, lo, hi, &changed);
                assert(self.buf@.len() == old(self).buf@.len());
                let mut n: usize = 0;
                while n < changed.len()
                    invariant
                        n <= changed@.len(),
                        lo <= hi,
                        changed@.len() == hi - lo,
                    decreases changed@.len() - n,
                {
                    self.window.insert_at(lo + n, changed[n]);
                    n += 1;
                }
                self.window.move_cursor(start);
                self.move_cursor(&Move::Exact(start));
            },
            Command::Insert(index, ch) => {
                let len = self.buf.len();
                if index < len {
                    self.buf.insert(index, ch);
                    self.position = index;
                } else {
                    self.buf.push(ch);
                    self.position = len;
                }
                self.window.insert_at(index, ch);
            },
            Command::Append(ch) => {
                let len = self.buf.len();
                let pos = self.position;
                if pos < len {
                    self.buf.insert(pos, ch);
                } else {
                    self.buf.push(ch);
                    assert(self.buf@ =~= old(self).buf@.insert(pos as int, ch));
                }
                self.window.insert_at(pos, ch);
                let new_len = self.buf.len();
                assert(pos < new_len);
                self.position = pos + 1;
            },
            Command::Move(mv) => self.move_cursor(&mv),
            Command::Recall(mv) => {
                let got: Option<String> = match mv {
                    Move::Forward => match self.history.next() {
                        Some(h) => Some(h.clone()),
                        None => None,
                    },
                    Move::Backward => match self.history.prev() {
                        Some(h) => Some(h.clone()),
                        None => None,
                    },
                    _ => None,
                };
                match got {
                    Some(h) => {
                        self.clear();
                        self.buf = chars_of(h.as_str());
                        self.position = self.buf.len();
                        let mut n: usize = 0;
                        while n < self.buf.len()
                            invariant
                                n <= self.buf@.len(),
                            decreases self.buf@.len() - n,
                        {
                            self.window.insert_at(n, self.buf[n]);
                            n += 1;
                        }
                    },
                    None => {},
                }
            },
        }
    }
}

proof fn lemma_fwd_scan_bounded(b: Seq<char>, p: int)
    requires
        0 <= p <= b.len(),
    ensures
        p <= fwd_scan(b, p) <= b.len(),
    decreases b.len() - p,
{
    if p < b.len() && !punct(b[p]) {
        if space(b[p]) {
            if p + 1 < b.len() && space(b[p + 1]) {
                lemma_fwd_scan_bounded(b, p + 1);
            }
        } else {
            lemma_fwd_scan_bounded(b, p + 1);
        }
    }
}

proof fn lemma_forward_word_bounded(b: Seq<char>, pos: int)
    requires
        0 <= pos <= b.len(),
    ensures
        pos <= forward_word(b, pos) <= b.len(),
{
    if pos < b.len() {
        if space(b[pos]) || punct(b[pos]) {
            lemma_fwd_scan_bounded(b, pos + 1);
        } else {
            lemma_fwd_scan_bounded(b, pos);
        }
    }
}

proof fn lemma_bwd_scan_bounded(b: Seq<char>, p: int, found: bool)
    requires
        0 <= p <= b.len(),
    ensures
        0 <= bwd_scan(b, p, found) <= p,
    decreases p,
{
    if p > 0 && !(space(b[p - 1]) && found) {
        lemma_bwd_scan_bounded(b, p - 1, found || alphanumeric(b[p - 1]));
    }
}

proof fn lemma_backward_word_bounded(b: Seq<char>, pos: int)
    requires
        0 <= pos <= b.len(),
    ensures
        0 <= backward_word(b, pos) <= pos,
{
    if pos > 0 {
        lemma_bwd_scan_bounded(b, pos - 1, false);
    }
}

} // verus!
