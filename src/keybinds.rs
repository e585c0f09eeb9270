//! Keys as the terminal reports them, and the table that binds key names to
//! editing and window requests.
use vstd::prelude::*;
use vstd::string::StringExecFns;
use crate::inputbuffer::{to_upper, upper_char, Command, Move};
use crate::text::{push_char, push_digit, same_text};

verus! {

/// A key's modifier.
#[derive(Debug, PartialEq, Eq, Clone, Copy, Structural)]
pub enum Mod {
    Ctrl,
    Alt,
    Shift,
    Plain,
}

/// What kind of key was pressed.
#[derive(Debug, PartialEq, Eq, Clone, Copy, Structural)]
pub enum KeyKind {
    Backspace,
    Enter,
    Tab,
    Num(usize),
    Char(char),
    Other(char),
}

/// A key with its modifier.
#[derive(Debug, PartialEq, Eq, Clone, Copy, Structural)]
pub struct Key {
    pub modifier: Mod,
    pub kind: KeyKind,
}

/// The low byte of a key code, as a character.
pub open spec fn low_char(v: u16, add: int) -> char {
    ((v % 256) as int + add) as char
}

/// The modifier and kind of the key with code `v`.
pub open spec fn decode(v: u16) -> (Mod, KeyKind) {
    if v == 0xECF8 {
        (Mod::Alt, KeyKind::Backspace)
    } else if v == 0x7F {
        (Mod::Ctrl, KeyKind::Backspace)
    } else if v == 0x08 {
        (Mod::Plain, KeyKind::Backspace)
    } else if v == 0xECEE {
        (Mod::Alt, KeyKind::Enter)
    } else if v == 0xED11 {
        (Mod::Ctrl, KeyKind::Enter)
    } else if v == 0x0A {
        (Mod::Plain, KeyKind::Enter)
    } else if v == 0xECE2 {
        (Mod::Ctrl, KeyKind::Tab)
    } else if v == 0xECED {
        (Mod::Shift, KeyKind::Tab)
    } else if v == 0x09 {
        (Mod::Plain, KeyKind::Tab)
    } else if 0xEC97 <= v <= 0xECA0 {
        (Mod::Alt, KeyKind::Num((v - 0xEC97) as usize))
    } else if 0xED37 <= v <= 0xED40 {
        (Mod::Ctrl, KeyKind::Num((v - 0xED37) as usize))
    } else if 0xECA1 <= v <= 0xECBA {
        (Mod::Alt, KeyKind::Char(low_char(v, -0x40)))
    } else if 0x01 <= v <= 0x1A {
        (Mod::Ctrl, KeyKind::Char(low_char(v, 0x60)))
    } else if (0x61 <= v <= 0x7A) || v == 0x40 {
        (Mod::Plain, KeyKind::Char(low_char(v, 0)))
    } else if 0x41 <= v <= 0x5A {
        (Mod::Shift, KeyKind::Char(low_char(v, 0x20)))
    } else {
        (Mod::Plain, KeyKind::Other(low_char(v, 0)))
    }
}

/// The character whose code is the low byte of `v` plus `add`.
fn byte_char(v: u16, add: i32) -> (r: char)
    requires
        0 <= (v % 256) as int + add < 256,
    ensures
        r == low_char(v, add as int),
{
    let b = ((v % 256) as i32 + add) as u8;
    b as char
}

impl KeyKind {
    /// Decodes key code `v`, setting `m` to its modifier.
    pub fn new(v: u16, m: &mut Mod) -> (r: Option<KeyKind>)
        ensures
            r == Some(decode(v).1),
            *final(m) == decode(v).0,
    {
        let (md, kind) = if v == 0xECF8 {
            (Mod::Alt, KeyKind::Backspace)
        } else if v == 0x7F {
            (Mod::Ctrl, KeyKind::Backspace)
        } else if v == 0x08 {
            (Mod::Plain, KeyKind::Backspace)
        } else if v == 0xECEE {
            (Mod::Alt, KeyKind::Enter)
        } else if v == 0xED11 {
            (Mod::Ctrl, KeyKind::Enter)
        } else if v == 0x0A {
            (Mod::Plain, KeyKind::Enter)
        } else if v == 0xECE2 {
            (Mod::Ctrl, KeyKind::Tab)
        } else if v == 0xECED {
            (Mod::Shift, KeyKind::Tab)
        } else if v == 0x09 {
            (Mod::Plain, KeyKind::Tab)
        } else if 0xEC97 <= v && v <= 0xECA0 {
            (Mod::Alt, KeyKind::Num((v - 0xEC97) as usize))
        } else if 0xED37 <= v && v <= 0xED40 {
            (Mod::Ctrl, KeyKind::Num((v - 0xED37) as usize))
        } else if 0xECA1 <= v && v <= 0xECBA {
            (Mod::Alt, KeyKind::Char(byte_char(v, -0x40)))
        } else if 0x01 <= v && v <= 0x1A {
            (Mod::Ctrl, KeyKind::Char(byte_char(v, 0x60)))
        } else if (0x61 <= v && v <= 0x7A) || v == 0x40 {
            (Mod::Plain, KeyKind::Char(byte_char(v, 0)))
        } else if 0x41 <= v && v <= 0x5A {
            (Mod::Shift, KeyKind::Char(byte_char(v, 0x20)))
        } else {
            (Mod::Plain, KeyKind::Other(byte_char(v, 0)))
        };
        *m = md;
        Some(kind)
    }
}

impl Key {
    /// Decodes key code `v`.
    pub fn parse(v: u16) -> (r: Option<Key>)
        ensures
            r == Some(Key { modifier: decode(v).0, kind: decode(v).1 }),
    {
        let mut modifier = Mod::Plain;
        let kind = match KeyKind::new(v, &mut modifier) {
            Some(k) => k,
            None => return None,
        };
        Some(Key { modifier, kind })
    }
}

/// The decimal digits of `n`.
pub open spec fn decimal(n: nat) -> Seq<char>
    decreases n,
{
    if n < 10 {
        seq![(n + '0' as int) as char]
    } else {
        decimal(n / 10).push(((n % 10) + '0' as int) as char)
    }
}

fn push_decimal(s: &mut String, n: usize)
    ensures
        final(s)@ == old(s)@ + decimal(n as nat),
    decreases n,
{
    if n >= 10 {
        push_decimal(s, n / 10);
    }
    push_digit(s, (n % 10) as u32);
    assert(final(s)@ =~= old(s)@ + decimal(n as nat));
}

/// The name of a key: a modifier prefix (`C-`, `A-`, `S-`) and the digit or
/// character; other keys have only the prefix.
pub open spec fn key_name(k: Key) -> Seq<char> {
    let prefix = match k.modifier {
        Mod::Ctrl => "C-"@,
        Mod::Alt => "A-"@,
        Mod::Shift => "S-"@,
        Mod::Plain => Seq::empty(),
    };
    prefix + match k.kind {
        KeyKind::Num(n) => decimal(n as nat),
        KeyKind::Char(c) => seq![c],
        KeyKind::Other(c) => seq![c],
        _ => Seq::empty(),
    }
}

/// The name under which a key is bound.
#[derive(Debug, PartialEq, Clone, Eq, Hash)]
pub struct KeyType(String);

impl View for KeyType {
    type V = Seq<char>;

    closed spec fn view(&self) -> Seq<char> {
        self.0@
    }
}

impl KeyType {
    /// The key name `s`.
    pub fn new(s: &str) -> (r: KeyType)
        ensures
            r@ == s@,
    {
        KeyType(s.to_owned())
    }

    /// The name of key `k`.
    pub fn from_key(k: Key) -> (r: KeyType)
        ensures
            r@ == key_name(k),
    {
        let mut buf = String::new();
        match k.modifier {
            Mod::Ctrl => buf.append("C-"),
            Mod::Alt => buf.append("A-"),
            Mod::Shift => buf.append("S-"),
            Mod::Plain => {},
        }
        match k.kind {
            KeyKind::Num(n) => push_decimal(&mut buf, n),
            KeyKind::Char(c) => push_char(&mut buf, c),
            KeyKind::Other(c) => push_char(&mut buf, c),
            _ => {},
        }
        assert(buf@ =~= key_name(k));
        KeyType(buf)
    }

    pub fn as_str(&self) -> (r: &str)
        ensures
            r@ == self@,
    {
        self.0.as_str()
    }
}

/// What a bound key asks for.
#[derive(Debug, PartialEq, Eq, Clone, Copy, Structural)]
pub enum KeyRequest {
    Clear,
    ToggleNickList,
    PrevBuffer,
    NextBuffer,
    RecallBackward,
    RecallForward,
    MoveForward,
    MoveBackward,
    MoveForwardWord,
    MoveBackwardWord,
    MoveStart,
    MoveEnd,
    DeleteForward,
    DeleteBackward,
    DeleteForwardWord,
    DeleteBackwardWord,
    DeleteStart,
    DeleteEnd,
    SwapCaseForward,
    SwapCaseBackward,
    SwapCaseForwardWord,
    SwapCaseBackwardWord,
    SwapCaseStart,
    SwapCaseEnd,
    SwitchBuffer0,
    SwitchBuffer1,
    SwitchBuffer2,
    SwitchBuffer3,
    SwitchBuffer4,
    SwitchBuffer5,
    SwitchBuffer6,
    SwitchBuffer7,
    SwitchBuffer8,
    SwitchBuffer9,
}

/// The view of a binding table: each request with the name of its key.
pub open spec fn binds_view(b: Seq<(KeyRequest, KeyType)>) -> Seq<(KeyRequest, Seq<char>)> {
    b.map_values(|e: (KeyRequest, KeyType)| (e.0, e.1@))
}

/// `i` is the first binding whose key is named `k`.
pub open spec fn first_key_at(b: Seq<(KeyRequest, Seq<char>)>, k: Seq<char>, i: int) -> bool {
    &&& 0 <= i < b.len()
    &&& b[i].1 == k
    &&& forall|j: int| 0 <= j < i ==> b[j].1 != k
}

/// The request of the first binding of key `k`.
pub open spec fn request_for(b: Seq<(KeyRequest, Seq<char>)>, k: Seq<char>) -> Option<KeyRequest> {
    if exists|i: int| first_key_at(b, k, i) {
        Some(b[choose|i: int| first_key_at(b, k, i)].0)
    } else {
        None
    }
}

/// `i` is the first binding of request `q`.
pub open spec fn first_request_at(b: Seq<(KeyRequest, Seq<char>)>, q: KeyRequest, i: int) -> bool {
    &&& 0 <= i < b.len()
    &&& b[i].0 == q
    &&& forall|j: int| 0 <= j < i ==> b[j].0 != q
}

/// The key of the first binding of request `q`.
pub open spec fn key_for(b: Seq<(KeyRequest, Seq<char>)>, q: KeyRequest) -> Option<Seq<char>> {
    if exists|i: int| first_request_at(b, q, i) {
        Some(b[choose|i: int| first_request_at(b, q, i)].1)
    } else {
        None
    }
}

/// The bindings after every binding of `q` is moved to key `k`.
pub open spec fn rebound(b: Seq<(KeyRequest, Seq<char>)>, k: Seq<char>, q: KeyRequest) -> Seq<
    (KeyRequest, Seq<char>),
> {
    b.map_values(
        |e: (KeyRequest, Seq<char>)|
            if e.0 == q {
                (q, k)
            } else {
                e
            },
    )
}

/// The bindings a fresh table holds; an empty key name leaves a request unbound.
pub open spec fn default_binds() -> Seq<(KeyRequest, Seq<char>)> {
    seq![
        (KeyRequest::Clear, "C-l"@),
        (KeyRequest::RecallBackward, "A-p"@),
        (KeyRequest::RecallForward, "A-n"@),
        (KeyRequest::ToggleNickList, "A-k"@),
        (KeyRequest::MoveForward, "C-f"@),
        (KeyRequest::MoveBackward, "C-b"@),
        (KeyRequest::MoveForwardWord, "A-f"@),
        (KeyRequest::MoveBackwardWord, "A-b"@),
        (KeyRequest::MoveStart, "C-a"@),
        (KeyRequest::MoveEnd, "C-e"@),
        (KeyRequest::DeleteForward, "C-d"@),
        (KeyRequest::DeleteForwardWord, "A-d"@),
        (KeyRequest::DeleteBackwardWord, "C-w"@),
        (KeyRequest::DeleteBackward, "A-w"@),
        (KeyRequest::DeleteStart, "C-u"@),
        (KeyRequest::DeleteEnd, "C-k"@),
        (KeyRequest::SwapCaseForward, ""@),
        (KeyRequest::SwapCaseForwardWord, "A-u"@),
        (KeyRequest::SwapCaseBackwardWord, ""@),
        (KeyRequest::SwapCaseBackward, ""@),
        (KeyRequest::SwapCaseStart, ""@),
        (KeyRequest::SwapCaseEnd, ""@),
        (KeyRequest::PrevBuffer, "C-p"@),
        (KeyRequest::NextBuffer, "C-n"@),
        (KeyRequest::SwitchBuffer0, "C-0"@),
        (KeyRequest::SwitchBuffer1, "C-1"@),
        (KeyRequest::SwitchBuffer2, "C-2"@),
        (KeyRequest::SwitchBuffer3, "C-3"@),
        (KeyRequest::SwitchBuffer4, "C-4"@),
        (KeyRequest::SwitchBuffer5, "C-5"@),
        (KeyRequest::SwitchBuffer6, "C-6"@),
        (KeyRequest::SwitchBuffer7, "C-7"@),
        (KeyRequest::SwitchBuffer8, "C-8"@),
        (KeyRequest::SwitchBuffer9, "C-9"@),
    ]
}

/// Which key each request is bound to, in a fixed order.
#[derive(Debug, PartialEq, Clone)]
pub struct Keybinds(Vec<(KeyRequest, KeyType)>);

impl View for Keybinds {
    type V = Seq<(KeyRequest, Seq<char>)>;

    closed spec fn view(&self) -> Seq<(KeyRequest, Seq<char>)> {
        binds_view(self.0@)
    }
}

impl Default for Keybinds {
    fn default() -> (r: Keybinds)
        ensures
            r@ == default_binds(),
    {
        let mut v: Vec<(KeyRequest, KeyType)> = Vec::new();
        v.push((KeyRequest::Clear, KeyType::new("C-l")));
        v.push((KeyRequest::RecallBackward, KeyType::new("A-p")));
        v.push((KeyRequest::RecallForward, KeyType::new("A-n")));
        v.push((KeyRequest::ToggleNickList, KeyType::new("A-k")));
        v.push((KeyRequest::MoveForward, KeyType::new("C-f")));
        v.push((KeyRequest::MoveBackward, KeyType::new("C-b")));
        v.push((KeyRequest::MoveForwardWord, KeyType::new("A-f")));
        v.push((KeyRequest::MoveBackwardWord, KeyType::new("A-b")));
        v.push((KeyRequest::MoveStart, KeyType::new("C-a")));
        v.push((KeyRequest::MoveEnd, KeyType::new("C-e")));
        v.push((KeyRequest::DeleteForward, KeyType::new("C-d")));
        v.push((KeyRequest::DeleteForwardWord, KeyType::new("A-d")));
        v.push((KeyRequest::DeleteBackwardWord, KeyType::new("C-w")));
        v.push((KeyRequest::DeleteBackward, KeyType::new("A-w")));
        v.push((KeyRequest::DeleteStart, KeyType::new("C-u")));
        v.push((KeyRequest::DeleteEnd, KeyType::new("C-k")));
        v.push((KeyRequest::SwapCaseForward, KeyType::new("")));
        v.push((KeyRequest::SwapCaseForwardWord, KeyType::new("A-u")));
        v.push((KeyRequest::SwapCaseBackwardWord, KeyType::new("")));
        v.push((KeyRequest::SwapCaseBackward, KeyType::new("")));
        v.push((KeyRequest::SwapCaseStart, KeyType::new("")));
        v.push((KeyRequest::SwapCaseEnd, KeyType::new("")));
        v.push((KeyRequest::PrevBuffer, KeyType::new("C-p")));
        v.push((KeyRequest::NextBuffer, KeyType::new("C-n")));
        v.push((KeyRequest::SwitchBuffer0, KeyType::new("C-0")));
        v.push((KeyRequest::SwitchBuffer1, KeyType::new("C-1")));
        v.push((KeyRequest::SwitchBuffer2, KeyType::new("C-2")));
        v.push((KeyRequest::SwitchBuffer3, KeyType::new("C-3")));
        v.push((KeyRequest::SwitchBuffer4, KeyType::new("C-4")));
        v.push((KeyRequest::SwitchBuffer5, KeyType::new("C-5")));
        v.push((KeyRequest::SwitchBuffer6, KeyType::new("C-6")));
        v.push((KeyRequest::SwitchBuffer7, KeyType::new("C-7")));
        v.push((KeyRequest::SwitchBuffer8, KeyType::new("C-8")));
        v.push((KeyRequest::SwitchBuffer9, KeyType::new("C-9")));
        let r = Keybinds(v);
        assert(r@ =~= default_binds());
        r
    }
}

impl Keybinds {
    /// The request bound to `key`; a key without a name is bound to nothing.
    pub fn get(&self, key: &KeyType) -> (r: Option<&KeyRequest>)
        ensures
            key@.len() == 0 ==> r is None,
            key@.len() > 0 ==> match r {
                Some(q) => request_for(self@, key@) == Some(*q),
                None => request_for(self@, key@) is None,
            },
    {
        if key.0.as_str().unicode_len() == 0 {
            return None;
        }
        self.lookup_key(key)
    }

    /// Moves every binding of `req` to `key`.
    pub fn insert(&mut self, key: KeyType, req: KeyRequest)
        ensures
            final(self)@ == rebound(old(self)@, key@, req),
    {
        let n = self.0.len();
        let mut i: usize = 0;
        while i < n
            invariant
                n == self.0@.len(),
                n == old(self).0@.len(),
                i <= n,
                forall|j: int| 0 <= j < i ==> binds_view(self.0@)[j] == rebound(old(self)@, key@, req)[j],
                forall|j: int| i <= j < n ==> self.0@[j] == old(self).0@[j],
            decreases n - i,
        {
            let ghost prev = self.0@;
            if self.0[i].0 == req {
                self.0.set(i, (req, KeyType(key.0.clone())));
            }
            proof {
                assert forall|j: int| 0 <= j < i + 1 implies binds_view(self.0@)[j] == rebound(
                    old(self)@,
                    key@,
                    req,
                )[j] by {
                    if j < i {
                        assert(self.0@[j] == prev[j]);
                        assert(binds_view(prev)[j] == rebound(old(self)@, key@, req)[j]);
                    }
                }
            }
            i += 1;
        }
        assert(self@ =~= rebound(old(self)@, key@, req));
    }

    /// The key bound to request `req`.
    pub fn lookup(&self, req: KeyRequest) -> (r: Option<&KeyType>)
        ensures
            match r {
                Some(k) => key_for(self@, req) == Some(k@),
                None => key_for(self@, req) is None,
            },
    {
        let n = self.0.len();
        let mut i: usize = 0;
        while i < n
            invariant
                n == self@.len(),
                i <= n,
                forall|j: int| 0 <= j < i ==> self@[j].0 != req,
            decreases n - i,
        {
            if self.0[i].0 == req {
                proof {
                    assert(first_request_at(self@, req, i as int));
                    let k = choose|k: int| first_request_at(self@, req, k);
                    if k < i {
                        assert(self@[k].0 != req);
                    }
                    if i < k {
                        assert(self@[i as int].0 != req);
                    }
                }
                return Some(&self.0[i].1);
            }
            i += 1;
        }
        None
    }

    /// The request of the first binding of `key`.
    pub fn lookup_key(&self, key: &KeyType) -> (r: Option<&KeyRequest>)
        ensures
            match r {
                Some(q) => request_for(self@, key@) == Some(*q),
                None => request_for(self@, key@) is None,
            },
    {
        let n = self.0.len();
        let mut i: usize = 0;
        while i < n
            invariant
                n == self@.len(),
                i <= n,
                forall|j: int| 0 <= j < i ==> self@[j].1 != key@,
            decreases n - i,
        {
            if same_text(self.0[i].1.0.as_str(), key.0.as_str()) {
                proof {
                    assert(first_key_at(self@, key@, i as int));
                    let k = choose|k: int| first_key_at(self@, key@, k);
                    if k < i {
                        assert(self@[k].1 != key@);
                    }
                    if i < k {
                        assert(self@[i as int].1 != key@);
                    }
                }
                return Some(&self.0[i].0);
            }
            i += 1;
        }
        None
    }

    /// The bindings, in order.
    pub fn iter(&self) -> (r: Vec<&(KeyRequest, KeyType)>)
        ensures
            r@.len() == self@.len(),
            forall|i: int| 0 <= i < r@.len() ==> (r@[i].0, r@[i].1@) == self@[i],
    {
        let n = self.0.len();
        let mut out: Vec<&(KeyRequest, KeyType)> = Vec::new();
        let mut i: usize = 0;
        while i < n
            invariant
                n == self@.len(),
                i <= n,
                out@.len() == i,
                forall|j: int| 0 <= j < i ==> (out@[j].0, out@[j].1@) == self@[j],
            decreases n - i,
        {
            out.push(&self.0[i]);
            i += 1;
        }
        out
    }
}


/// A request name written in snake case, turned to the variant's spelling:
/// the first character and each one after `_` upper-cased, the `_` dropped.
pub open spec fn unsnake(s: Seq<char>, i: int, after_mark: bool) -> Seq<char>
    decreases s.len() - i,
{
    if i < 0 || i >= s.len() {
        Seq::empty()
    } else if i == 0 || after_mark {
        seq![to_upper(s[i])] + unsnake(s, i + 1, false)
    } else if s[i] == '_' {
        unsnake(s, i + 1, true)
    } else {
        seq![s[i]] + unsnake(s, i + 1, false)
    }
}

/// The request whose variant is spelled `n`.
pub open spec fn request_named(n: Seq<char>) -> Option<KeyRequest> {
    if n == "Clear"@ {
        Some(KeyRequest::Clear)
    } else if n == "RecallBackward"@ {
        Some(KeyRequest::RecallBackward)
    } else if n == "RecallForward"@ {
        Some(KeyRequest::RecallForward)
    } else if n == "ToggleNickList"@ {
        Some(KeyRequest::ToggleNickList)
    } else if n == "PrevBuffer"@ {
        Some(KeyRequest::PrevBuffer)
    } else if n == "NextBuffer"@ {
        Some(KeyRequest::NextBuffer)
    } else if n == "MoveForward"@ {
        Some(KeyRequest::MoveForward)
    } else if n == "MoveBackward"@ {
        Some(KeyRequest::MoveBackward)
    } else if n == "MoveForwardWord"@ {
        Some(KeyRequest::MoveForwardWord)
    } else if n == "MoveBackwardWord"@ {
        Some(KeyRequest::MoveBackwardWord)
    } else if n == "MoveStart"@ {
        Some(KeyRequest::MoveStart)
    } else if n == "MoveEnd"@ {
        Some(KeyRequest::MoveEnd)
    } else if n == "DeleteForward"@ {
        Some(KeyRequest::DeleteForward)
    } else if n == "DeleteBackward"@ {
        Some(KeyRequest::DeleteBackward)
    } else if n == "DeleteForwardWord"@ {
        Some(KeyRequest::DeleteForwardWord)
    } else if n == "DeleteBackwardWord"@ {
        Some(KeyRequest::DeleteBackwardWord)
    } else if n == "DeleteStart"@ {
        Some(KeyRequest::DeleteStart)
    } else if n == "DeleteEnd"@ {
        Some(KeyRequest::DeleteEnd)
    } else if n == "SwapCaseForward"@ {
        Some(KeyRequest::SwapCaseForward)
    } else if n == "SwapCaseBackward"@ {
        Some(KeyRequest::SwapCaseBackward)
    } else if n == "SwapCaseForwardWord"@ {
        Some(KeyRequest::SwapCaseForwardWord)
    } else if n == "SwapCaseBackwardWord"@ {
        Some(KeyRequest::SwapCaseBackwardWord)
    } else if n == "SwapCaseStart"@ {
        Some(KeyRequest::SwapCaseStart)
    } else if n == "SwapCaseEnd"@ {
        Some(KeyRequest::SwapCaseEnd)
    } else if n == "SwitchBuffer0"@ {
        Some(KeyRequest::SwitchBuffer0)
    } else if n == "SwitchBuffer1"@ {
        Some(KeyRequest::SwitchBuffer1)
    } else if n == "SwitchBuffer2"@ {
        Some(KeyRequest::SwitchBuffer2)
    } else if n == "SwitchBuffer3"@ {
        Some(KeyRequest::SwitchBuffer3)
    } else if n == "SwitchBuffer4"@ {
        Some(KeyRequest::SwitchBuffer4)
    } else if n == "SwitchBuffer5"@ {
        Some(KeyRequest::SwitchBuffer5)
    } else if n == "SwitchBuffer6"@ {
        Some(KeyRequest::SwitchBuffer6)
    } else if n == "SwitchBuffer7"@ {
        Some(KeyRequest::SwitchBuffer7)
    } else if n == "SwitchBuffer8"@ {
        Some(KeyRequest::SwitchBuffer8)
    } else if n == "SwitchBuffer9"@ {
        Some(KeyRequest::SwitchBuffer9)
    } else {
        None
    }
}

fn request_by_name(n: &str) -> (r: Option<KeyRequest>)
    ensures
        r == request_named(n@),
{
    if same_text(n, "Clear") {
        Some(KeyRequest::Clear)
    } else if same_text(n, "RecallBackward") {
        Some(KeyRequest::RecallBackward)
    } else if same_text(n, "RecallForward") {
        Some(KeyRequest::RecallForward)
    } else if same_text(n, "ToggleNickList") {
        Some(KeyRequest::ToggleNickList)
    } else if same_text(n, "PrevBuffer") {
        Some(KeyRequest::PrevBuffer)
    } else if same_text(n, "NextBuffer") {
        Some(KeyRequest::NextBuffer)
    } else if same_text(n, "MoveForward") {
        Some(KeyRequest::MoveForward)
    } else if same_text(n, "MoveBackward") {
        Some(KeyRequest::MoveBackward)
    } else if same_text(n, "MoveForwardWord") {
        Some(KeyRequest::MoveForwardWord)
    } else if same_text(n, "MoveBackwardWord") {
        Some(KeyRequest::MoveBackwardWord)
    } else if same_text(n, "MoveStart") {
        Some(KeyRequest::MoveStart)
    } else if same_text(n, "MoveEnd") {
        Some(KeyRequest::MoveEnd)
    } else if same_text(n, "DeleteForward") {
        Some(KeyRequest::DeleteForward)
    } else if same_text(n, "DeleteBackward") {
        Some(KeyRequest::DeleteBackward)
    } else if same_text(n, "DeleteForwardWord") {
        Some(KeyRequest::DeleteForwardWord)
    } else if same_text(n, "DeleteBackwardWord") {
        Some(KeyRequest::DeleteBackwardWord)
    } else if same_text(n, "DeleteStart") {
        Some(KeyRequest::DeleteStart)
    } else if same_text(n, "DeleteEnd") {
        Some(KeyRequest::DeleteEnd)
    } else if same_text(n, "SwapCaseForward") {
        Some(KeyRequest::SwapCaseForward)
    } else if same_text(n, "SwapCaseBackward") {
        Some(KeyRequest::SwapCaseBackward)
    } else if same_text(n, "SwapCaseForwardWord") {
        Some(KeyRequest::SwapCaseForwardWord)
    } else if same_text(n, "SwapCaseBackwardWord") {
        Some(KeyRequest::SwapCaseBackwardWord)
    } else if same_text(n, "SwapCaseStart") {
        Some(KeyRequest::SwapCaseStart)
    } else if same_text(n, "SwapCaseEnd") {
        Some(KeyRequest::SwapCaseEnd)
    } else if same_text(n, "SwitchBuffer0") {
        Some(KeyRequest::SwitchBuffer0)
    } else if same_text(n, "SwitchBuffer1") {
        Some(KeyRequest::SwitchBuffer1)
    } else if same_text(n, "SwitchBuffer2") {
        Some(KeyRequest::SwitchBuffer2)
    } else if same_text(n, "SwitchBuffer3") {
        Some(KeyRequest::SwitchBuffer3)
    } else if same_text(n, "SwitchBuffer4") {
        Some(KeyRequest::SwitchBuffer4)
    } else if same_text(n, "SwitchBuffer5") {
        Some(KeyRequest::SwitchBuffer5)
    } else if same_text(n, "SwitchBuffer6") {
        Some(KeyRequest::SwitchBuffer6)
    } else if same_text(n, "SwitchBuffer7") {
        Some(KeyRequest::SwitchBuffer7)
    } else if same_text(n, "SwitchBuffer8") {
        Some(KeyRequest::SwitchBuffer8)
    } else if same_text(n, "SwitchBuffer9") {
        Some(KeyRequest::SwitchBuffer9)
    } else {
        None
    }
}

impl KeyRequest {
    /// The request named `s` in snake case (`move_forward_word`); the
    /// variant's own spelling is accepted too.
    pub fn parse(s: &str) -> (r: Option<KeyRequest>)
        ensures
            r == request_named(unsnake(s@, 0, false)),
    {
        let n = s.unicode_len();
        let mut buf = String::new();
        let mut after_mark = false;
        let mut i: usize = 0;
        while i < n
            invariant
                n == s@.len(),
                i <= n,
                buf@ + unsnake(s@, i as int, after_mark) == unsnake(s@, 0, false),
            decreases n - i,
        {
            let c = s.get_char(i);
            let ghost before = buf@;
            let ghost mark0 = after_mark;
            if i == 0 || after_mark {
                push_char(&mut buf, upper_char(c));
                after_mark = false;
            } else if c == '_' {
                after_mark = true;
            } else {
                push_char(&mut buf, c);
            }
            proof {
                assert(buf@ + unsnake(s@, i + 1, after_mark) =~= before + unsnake(s@, i as int, mark0));
            }
            i += 1;
        }
        request_by_name(buf.as_str())
    }

    /// The editing command this request stands for, if it is one.
    pub fn edit_command(self) -> (r: Option<Command>)
        ensures
            r == edit_command_of(self),
    {
        match self {
            KeyRequest::RecallForward => Some(Command::Recall(Move::Forward)),
            KeyRequest::RecallBackward => Some(Command::Recall(Move::Backward)),
            KeyRequest::MoveForward => Some(Command::Move(Move::Forward)),
            KeyRequest::MoveBackward => Some(Command::Move(Move::Backward)),
            KeyRequest::MoveForwardWord => Some(Command::Move(Move::ForwardWord)),
            KeyRequest::MoveBackwardWord => Some(Command::Move(Move::BackwardWord)),
            KeyRequest::MoveStart => Some(Command::Move(Move::StartOfLine)),
            KeyRequest::MoveEnd => Some(Command::Move(Move::EndOfLine)),
            KeyRequest::DeleteForward => Some(Command::Delete(Move::Forward)),
            KeyRequest::DeleteBackward => Some(Command::Delete(Move::Backward)),
            KeyRequest::DeleteForwardWord => Some(Command::Delete(Move::ForwardWord)),
            KeyRequest::DeleteBackwardWord => Some(Command::Delete(Move::BackwardWord)),
            KeyRequest::DeleteStart => Some(Command::Delete(Move::StartOfLine)),
            KeyRequest::DeleteEnd => Some(Command::Delete(Move::EndOfLine)),
            KeyRequest::SwapCaseForward => Some(Command::SwapCase(Move::Forward)),
            KeyRequest::SwapCaseBackward => Some(Command::SwapCase(Move::Backward)),
            KeyRequest::SwapCaseForwardWord => Some(Command::SwapCase(Move::ForwardWord)),
            KeyRequest::SwapCaseBackwardWord => Some(Command::SwapCase(Move::BackwardWord)),
            KeyRequest::SwapCaseStart => Some(Command::SwapCase(Move::StartOfLine)),
            KeyRequest::SwapCaseEnd => Some(Command::SwapCase(Move::EndOfLine)),
            _ => None,
        }
    }
}

/// The editing command that request `q` stands for.
pub open spec fn edit_command_of(q: KeyRequest) -> Option<Command> {
    match q {
        KeyRequest::RecallForward => Some(Command::Recall(Move::Forward)),
        KeyRequest::RecallBackward => Some(Command::Recall(Move::Backward)),
        KeyRequest::MoveForward => Some(Command::Move(Move::Forward)),
        KeyRequest::MoveBackward => Some(Command::Move(Move::Backward)),
        KeyRequest::MoveForwardWord => Some(Command::Move(Move::ForwardWord)),
        KeyRequest::MoveBackwardWord => Some(Command::Move(Move::BackwardWord)),
        KeyRequest::MoveStart => Some(Command::Move(Move::StartOfLine)),
        KeyRequest::MoveEnd => Some(Command::Move(Move::EndOfLine)),
        KeyRequest::DeleteForward => Some(Command::Delete(Move::Forward)),
        KeyRequest::DeleteBackward => Some(Command::Delete(Move::Backward)),
        KeyRequest::DeleteForwardWord => Some(Command::Delete(Move::ForwardWord)),
        KeyRequest::DeleteBackwardWord => Some(Command::Delete(Move::BackwardWord)),
        KeyRequest::DeleteStart => Some(Command::Delete(Move::StartOfLine)),
        KeyRequest::DeleteEnd => Some(Command::Delete(Move::EndOfLine)),
        KeyRequest::SwapCaseForward => Some(Command::SwapCase(Move::Forward)),
        KeyRequest::SwapCaseBackward => Some(Command::SwapCase(Move::Backward)),
        KeyRequest::SwapCaseForwardWord => Some(Command::SwapCase(Move::ForwardWord)),
        KeyRequest::SwapCaseBackwardWord => Some(Command::SwapCase(Move::BackwardWord)),
        KeyRequest::SwapCaseStart => Some(Command::SwapCase(Move::StartOfLine)),
        KeyRequest::SwapCaseEnd => Some(Command::SwapCase(Move::EndOfLine)),
        _ => None,
    }
}

} // verus!
