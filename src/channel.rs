//! The directory: the channels the session is in, each with its topic and
//! its members.
use vstd::prelude::*;
use crate::order::{sort_texts, sorted};
use crate::text::{same_text, views};

verus! {

broadcast use vstd::seq_lib::group_to_multiset_ensures;

/// The mathematical value of a [`Channel`].
pub struct ChannelView {
    pub topic: Option<Seq<char>>,
    pub users: Set<Seq<char>>,
}

/// One channel: an optional topic and the nicknames of its members.
#[derive(Debug)]
pub struct Channel {
    topic: Option<String>,
    users: Vec<String>,
}

/// `s` without the element at `i`, as a set, when `s` has no duplicates.
proof fn lemma_remove_to_set(s: Seq<Seq<char>>, i: int)
    requires
        s.no_duplicates(),
        0 <= i < s.len(),
    ensures
        s.remove(i).to_set() == s.to_set().remove(s[i]),
        s.remove(i).no_duplicates(),
{
    let t = s.remove(i);
    assert forall|a: Seq<char>| t.contains(a) implies s.contains(a) && a != s[i] by {
        let k = choose|k: int| 0 <= k < t.len() && t[k] == a;
        if k < i {
            assert(s[k] == a);
        } else {
            assert(s[k + 1] == a);
        }
    }
    assert forall|a: Seq<char>| s.contains(a) && a != s[i] implies t.contains(a) by {
        let k = choose|k: int| 0 <= k < s.len() && s[k] == a;
        if k < i {
            assert(t[k] == a);
        } else {
            assert(t[k - 1] == a);
        }
    }
    assert(t.to_set() =~= s.to_set().remove(s[i]));
}

/// Pushing a new element onto a sequence without duplicates.
proof fn lemma_push_to_set(s: Seq<Seq<char>>, x: Seq<char>)
    requires
        s.no_duplicates(),
        !s.contains(x),
    ensures
        s.push(x).to_set() == s.to_set().insert(x),
        s.push(x).no_duplicates(),
{
    let t = s.push(x);
    assert forall|a: Seq<char>| t.contains(a) implies s.contains(a) || a == x by {
        let k = choose|k: int| 0 <= k < t.len() && t[k] == a;
        if k < s.len() {
            assert(s[k] == a);
        }
    }
    assert forall|a: Seq<char>| s.contains(a) || a == x implies t.contains(a) by {
        if a == x {
            assert(t[s.len() as int] == a);
        } else {
            let k = choose|k: int| 0 <= k < s.len() && s[k] == a;
            assert(t[k] == a);
        }
    }
    assert(t.to_set() =~= s.to_set().insert(x));
}

/// The members after `from` is renamed to `to` (nothing changes when `from`
/// is not a member).
pub open spec fn renamed(users: Set<Seq<char>>, from: Seq<char>, to: Seq<char>) -> Set<Seq<char>> {
    if users.contains(from) {
        users.remove(from).insert(to)
    } else {
        users
    }
}

impl View for Channel {
    type V = ChannelView;

    closed spec fn view(&self) -> ChannelView {
        ChannelView {
            topic: match self.topic {
                Some(t) => Some(t@),
                None => None,
            },
            users: views(self.users@).to_set(),
        }
    }
}

impl Channel {
    /// The member list holds each nickname once.
    pub closed spec fn wf(&self) -> bool {
        views(self.users@).no_duplicates()
    }

    /// A channel with no topic and no members.
    pub fn new() -> (r: Channel)
        ensures
            r.wf(),
            r@.topic is None,
            r@.users == Set::<Seq<char>>::empty(),
    {
        let r = Channel { topic: None, users: Vec::new() };
        assert(views(r.users@).to_set() =~= Set::<Seq<char>>::empty());
        r
    }

    pub fn set_topic(&mut self, topic: &str)
        requires
            old(self).wf(),
        ensures
            final(self).wf(),
            final(self)@.topic == Some(topic@),
            final(self)@.users == old(self)@.users,
    {
        self.topic = Some(topic.to_owned());
    }

    pub fn topic(&self) -> (r: Option<String>)
        ensures
            match r {
                Some(t) => self@.topic == Some(t@),
                None => self@.topic is None,
            },
    {
        match &self.topic {
            Some(t) => Some(t.clone()),
            None => None,
        }
    }

    fn position(&self, nick: &str) -> (r: Option<usize>)
        ensures
            match r {
                Some(i) => i < self.users@.len() && self.users@[i as int]@ == nick@,
                None => !views(self.users@).contains(nick@),
            },
    {
        let n = self.users.len();
        let mut i: usize = 0;
        while i < n
            invariant
                n == self.users@.len(),
                i <= n,
                forall|j: int| 0 <= j < i ==> self.users@[j]@ != nick@,
            decreases n - i,
        {
            if same_text(self.users[i].as_str(), nick) {
                return Some(i);
            }
            i += 1;
        }
        assert forall|j: int| 0 <= j < views(self.users@).len() implies views(self.users@)[j]
            != nick@ by {
            assert(self.users@[j]@ != nick@);
        }
        None
    }

    /// Whether `nick` is a member.
    pub fn contains(&self, nick: &str) -> (r: bool)
        ensures
            r == self@.users.contains(nick@),
    {
        match self.position(nick) {
            Some(i) => {
                assert(views(self.users@)[i as int] == nick@);
                true
            },
            None => false,
        }
    }

    /// Adds `nick` to the members.
    pub fn add(&mut self, nick: &str)
        requires
            old(self).wf(),
        ensures
            final(self).wf(),
            final(self)@.users == old(self)@.users.insert(nick@),
            final(self)@.topic == old(self)@.topic,
    {
        if self.contains(nick) {
            assert(old(self)@.users.insert(nick@) =~= old(self)@.users);
            return;
        }
        let s = nick.to_owned();
        proof {
            assert(views(self.users@.push(s)) =~= views(self.users@).push(nick@));
            lemma_push_to_set(views(self.users@), nick@);
        }
        self.users.push(s);
    }

    /// Removes `nick` from the members.
    pub fn remove(&mut self, nick: &str)
        requires
            old(self).wf(),
        ensures
            final(self).wf(),
            final(self)@.users == old(self)@.users.remove(nick@),
            final(self)@.topic == old(self)@.topic,
    {
        match self.position(nick) {
            Some(i) => {
                proof {
                    assert(views(self.users@.remove(i as int)) =~= views(self.users@).remove(
                        i as int,
                    ));
                    lemma_remove_to_set(views(self.users@), i as int);
                }
                self.users.remove(i);
            },
            None => {
                assert(old(self)@.users.remove(nick@) =~= old(self)@.users);
            },
        }
    }

    /// Renames member `from` to `to`; nothing changes when `from` is not a member.
    pub fn update(&mut self, from: &str, to: &str)
        requires
            old(self).wf(),
        ensures
            final(self).wf(),
            final(self)@.users == renamed(old(self)@.users, from@, to@),
            final(self)@.topic == old(self)@.topic,
    {
        if self.contains(from) {
            self.remove(from);
            self.add(to);
        }
    }

    /// The members' nicknames, each once, in ascending order.
    pub fn users(&self) -> (r: Vec<String>)
        requires
            self.wf(),
        ensures
            views(r@).to_set() == self@.users,
            views(r@).no_duplicates(),
            sorted(views(r@)),
    {
        let n = self.users.len();
        let mut out: Vec<String> = Vec::new();
        let mut i: usize = 0;
        while i < n
            invariant
                n == self.users@.len(),
                i <= n,
                views(out@) == views(self.users@).subrange(0, i as int),
            decreases n - i,
        {
            let s = self.users[i].clone();
            proof {
                assert(views(out@.push(s)) =~= views(out@).push(s@));
                assert(views(out@).push(s@) =~= views(self.users@).subrange(0, i + 1));
            }
            out.push(s);
            i += 1;
        }
        assert(views(self.users@).subrange(0, n as int) =~= views(self.users@));
        let r = sort_texts(out);
        proof {
            let a = views(self.users@);
            let b = views(r@);
            a.lemma_multiset_has_no_duplicates();
            assert forall|x: Seq<char>| b.to_multiset().contains(x) implies b.to_multiset().count(x)
                == 1 by {
                assert(a.to_multiset().contains(x));
            }
            b.lemma_multiset_has_no_duplicates_conv();
            assert forall|x: Seq<char>| b.contains(x) <==> a.contains(x) by {
                assert(b.contains(x) <==> b.to_multiset().count(x) > 0);
                assert(a.contains(x) <==> a.to_multiset().count(x) > 0);
            }
            assert(b.to_set() =~= a.to_set());
        }
        r
    }
}

/// The names of the directory's entries, in order.
pub open spec fn names(d: Seq<(String, Channel)>) -> Seq<Seq<char>> {
    d.map_values(|e: (String, Channel)| e.0@)
}

/// The directory that a list of distinct (name, channel) entries stands for.
pub open spec fn dir_view(d: Seq<(String, Channel)>) -> Map<Seq<char>, ChannelView> {
    Map::new(|k: Seq<char>| names(d).contains(k), |k: Seq<char>| d[names(d).index_of(k)].1@)
}

/// Each entry of a directory with distinct names is found under its name.
proof fn lemma_entry(d: Seq<(String, Channel)>, i: int)
    requires
        names(d).no_duplicates(),
        0 <= i < d.len(),
    ensures
        dir_view(d).contains_key(d[i].0@),
        dir_view(d)[d[i].0@] == d[i].1@,
{
    assert(names(d)[i] == d[i].0@);
    let j = names(d).index_of(d[i].0@);
    assert(names(d)[j] == d[i].0@);
}

/// Changing every channel by `g`, keeping the names, changes the directory by `g`.
proof fn lemma_pointwise(
    d1: Seq<(String, Channel)>,
    d2: Seq<(String, Channel)>,
    g: spec_fn(ChannelView) -> ChannelView,
)
    requires
        names(d1).no_duplicates(),
        d1.len() == d2.len(),
        forall|i: int| 0 <= i < d1.len() ==> d2[i].0@ == d1[i].0@ && d2[i].1@ == g(d1[i].1@),
    ensures
        names(d2) == names(d1),
        dir_view(d2) == dir_view(d1).map_values(g),
{
    assert(names(d2) =~= names(d1));
    assert forall|k: Seq<char>| #[trigger] dir_view(d2).contains_key(k) implies dir_view(d2)[k]
        == g(dir_view(d1)[k]) by {
        let i = names(d2).index_of(k);
        lemma_entry(d2, i);
        lemma_entry(d1, i);
    }
    assert(dir_view(d2) =~= dir_view(d1).map_values(g));
}

/// Replacing the channel of one entry, keeping its name, replaces it in the directory.
proof fn lemma_replace_at(d1: Seq<(String, Channel)>, d2: Seq<(String, Channel)>, i: int)
    requires
        names(d1).no_duplicates(),
        d1.len() == d2.len(),
        0 <= i < d1.len(),
        d2[i].0@ == d1[i].0@,
        forall|j: int| 0 <= j < d1.len() && j != i ==> d2[j] == d1[j],
    ensures
        names(d2) == names(d1),
        dir_view(d2) == dir_view(d1).insert(d1[i].0@, d2[i].1@),
{
    assert(names(d2) =~= names(d1));
    let expected = dir_view(d1).insert(d1[i].0@, d2[i].1@);
    assert forall|k: Seq<char>| #[trigger] dir_view(d2).contains_key(k) implies dir_view(d2)[k]
        == expected[k] by {
        let j = names(d2).index_of(k);
        lemma_entry(d2, j);
        lemma_entry(d1, j);
        if j != i {
            assert(names(d1)[j] != names(d1)[i]);
        }
    }
    assert forall|k: Seq<char>| expected.contains_key(k) implies dir_view(d2).contains_key(k) by {
        if k == d1[i].0@ {
            lemma_entry(d2, i);
        } else {
            let j = names(d1).index_of(k);
            lemma_entry(d1, j);
            lemma_entry(d2, j);
        }
    }
    assert(dir_view(d2) =~= expected);
}

/// The directory after `nick` joins channel `ch` (nothing changes when `ch` is unknown).
pub open spec fn add_member(
    dir: Map<Seq<char>, ChannelView>,
    ch: Seq<char>,
    nick: Seq<char>,
) -> Map<Seq<char>, ChannelView> {
    if dir.contains_key(ch) {
        dir.insert(ch, ChannelView { topic: dir[ch].topic, users: dir[ch].users.insert(nick) })
    } else {
        dir
    }
}

/// The directory after `nick` leaves channel `ch` (nothing changes when `ch` is unknown).
pub open spec fn remove_member(
    dir: Map<Seq<char>, ChannelView>,
    ch: Seq<char>,
    nick: Seq<char>,
) -> Map<Seq<char>, ChannelView> {
    if dir.contains_key(ch) {
        dir.insert(ch, without_member(dir[ch], nick))
    } else {
        dir
    }
}

/// The channels the session is in, by name.
#[derive(Debug)]
pub struct Channels {
    data: Vec<(String, Channel)>,
}

impl View for Channels {
    type V = Map<Seq<char>, ChannelView>;

    closed spec fn view(&self) -> Map<Seq<char>, ChannelView> {
        dir_view(self.data@)
    }
}

/// The channel without member `nick`.
pub open spec fn without_member(c: ChannelView, nick: Seq<char>) -> ChannelView {
    ChannelView { topic: c.topic, users: c.users.remove(nick) }
}

/// The channel with member `from` renamed to `to`.
pub open spec fn with_renamed(c: ChannelView, from: Seq<char>, to: Seq<char>) -> ChannelView {
    ChannelView { topic: c.topic, users: renamed(c.users, from, to) }
}

impl Channels {
    /// Names are distinct and every channel is well formed.
    pub closed spec fn wf(&self) -> bool {
        &&& names(self.data@).no_duplicates()
        &&& forall|i: int| 0 <= i < self.data@.len() ==> (#[trigger] self.data@[i]).1.wf()
    }

    /// An empty directory.
    pub fn new() -> (r: Channels)
        ensures
            r.wf(),
            r@ == Map::<Seq<char>, ChannelView>::empty(),
    {
        let r = Channels { data: Vec::new() };
        assert(r@ =~= Map::<Seq<char>, ChannelView>::empty());
        r
    }

    fn position(&self, name: &str) -> (r: Option<usize>)
        ensures
            match r {
                Some(i) => i < self.data@.len() && self.data@[i as int].0@ == name@,
                None => !names(self.data@).contains(name@),
            },
    {
        let n = self.data.len();
        let mut i: usize = 0;
        while i < n
            invariant
                n == self.data@.len(),
                i <= n,
                forall|j: int| 0 <= j < i ==> self.data@[j].0@ != name@,
            decreases n - i,
        {
            if same_text(self.data[i].0.as_str(), name) {
                return Some(i);
            }
            i += 1;
        }
        assert forall|j: int| 0 <= j < names(self.data@).len() implies names(self.data@)[j]
            != name@ by {
            assert(self.data@[j].0@ != name@);
        }
        None
    }

    /// Whether the session is in channel `name`.
    pub fn contains(&self, name: &str) -> (r: bool)
        requires
            self.wf(),
        ensures
            r == self@.contains_key(name@),
    {
        match self.position(name) {
            Some(i) => {
                proof {
                    lemma_entry(self.data@, i as int);
                }
                true
            },
            None => false,
        }
    }

    /// The channel called `name`.
    pub fn get(&self, name: &str) -> (r: Option<&Channel>)
        requires
            self.wf(),
        ensures
            match r {
                Some(c) => self@.contains_key(name@) && c@ == self@[name@] && c.wf(),
                None => !self@.contains_key(name@),
            },
    {
        match self.position(name) {
            Some(i) => {
                proof {
                    lemma_entry(self.data@, i as int);
                }
                Some(&self.data[i].1)
            },
            None => None,
        }
    }

    /// Creates channel `name`, empty; nothing changes when it exists already.
    pub fn add(&mut self, name: &str)
        requires
            old(self).wf(),
        ensures
            final(self).wf(),
            old(self)@.contains_key(name@) ==> final(self)@ == old(self)@,
            !old(self)@.contains_key(name@) ==> final(self)@ == old(self)@.insert(
                name@,
                ChannelView { topic: None, users: Set::empty() },
            ),
    {
        if self.contains(name) {
            return;
        }
        let entry = (name.to_owned(), Channel::new());
        let ghost d1 = self.data@;
        self.data.push(entry);
        proof {
            let d2 = self.data@;
            assert(names(d2) =~= names(d1).push(name@));
            assert(names(d2).no_duplicates()) by {
                assert forall|i: int, j: int|
                    0 <= i < names(d2).len() && 0 <= j < names(d2).len() && i != j implies names(
                    d2,
                )[i] != names(d2)[j] by {
                    if i < d1.len() && j < d1.len() {
                        assert(names(d1)[i] != names(d1)[j]);
                    } else if i < d1.len() {
                        assert(names(d1)[i] != name@);
                    } else {
                        assert(names(d1)[j] != name@);
                    }
                }
            }
            assert forall|i: int| 0 <= i < d2.len() implies (#[trigger] d2[i]).1.wf() by {
                if i < d1.len() {
                    assert(d2[i] == d1[i]);
                }
            }
            let expected = dir_view(d1).insert(
                name@,
                ChannelView { topic: None, users: Set::empty() },
            );
            assert forall|k: Seq<char>| #[trigger] dir_view(d2).contains_key(k) implies dir_view(d2)[k]
                == expected[k] by {
                let i = names(d2).index_of(k);
                lemma_entry(d2, i);
                if i < d1.len() {
                    assert(d2[i] == d1[i]);
                    lemma_entry(d1, i);
                }
            }
            assert forall|k: Seq<char>| expected.contains_key(k) implies dir_view(d2).contains_key(
                k,
            ) by {
                if k == name@ {
                    lemma_entry(d2, d1.len() as int);
                } else {
                    let i = names(d1).index_of(k);
                    lemma_entry(d1, i);
                    assert(d2[i] == d1[i]);
                    lemma_entry(d2, i);
                }
            }
            assert(dir_view(d2) =~= expected);
        }
    }

    /// Drops channel `name`; nothing changes when it is unknown.
    pub fn remove(&mut self, name: &str)
        requires
            old(self).wf(),
        ensures
            final(self).wf(),
            final(self)@ == old(self)@.remove(name@),
    {
        match self.position(name) {
            Some(p) => {
                let ghost d1 = self.data@;
                self.data.remove(p);
                proof {
                    let d2 = self.data@;
                    assert(d2 =~= d1.remove(p as int));
                    assert(names(d2) =~= names(d1).remove(p as int));
                    lemma_remove_to_set(names(d1), p as int);
                    assert forall|i: int| 0 <= i < d2.len() implies (#[trigger] d2[i]).1.wf() by {
                        if i < p {
                            assert(d2[i] == d1[i]);
                        } else {
                            assert(d2[i] == d1[i + 1]);
                        }
                    }
                    let expected = dir_view(d1).remove(name@);
                    assert forall|k: Seq<char>| #[trigger] dir_view(d2).contains_key(k) implies expected.contains_key(k)
                        && dir_view(d2)[k] == expected[k] by {
                        let i = names(d2).index_of(k);
                        lemma_entry(d2, i);
                        let j = if i < p { i } else { i + 1 };
                        assert(d2[i] == d1[j]);
                        lemma_entry(d1, j);
                        assert(names(d1)[j] != names(d1)[p as int]);
                    }
                    assert forall|k: Seq<char>| expected.contains_key(k) implies dir_view(d2).contains_key(k) by {
                        let j = names(d1).index_of(k);
                        assert(j != p);
                        let i = if j < p { j } else { j - 1 };
                        assert(d2[i] == d1[j]);
                        lemma_entry(d2, i);
                    }
                    assert(dir_view(d2) =~= expected);
                }
            },
            None => {
                assert(old(self)@.remove(name@) =~= old(self)@);
            },
        }
    }

    /// Adds `nick` to the members of channel `channel`; nothing changes when
    /// the channel is unknown.
    pub fn add_nick(&mut self, channel: &str, nick: &str)
        requires
            old(self).wf(),
        ensures
            final(self).wf(),
            final(self)@ == add_member(old(self)@, channel@, nick@),
    {
        match self.position(channel) {
            Some(i) => {
                let ghost d1 = self.data@;
                proof {
                    lemma_entry(d1, i as int);
                }
                let mut entry = (String::new(), Channel::new());
                self.data.set_and_swap(i, &mut entry);
                entry.1.add(nick);
                self.data.set_and_swap(i, &mut entry);
                proof {
                    lemma_replace_at(d1, self.data@, i as int);
                    assert forall|j: int| 0 <= j < self.data@.len() implies (
                    #[trigger] self.data@[j]).1.wf() by {
                        if j != i {
                            assert(self.data@[j] == d1[j]);
                        }
                    }
                }
            },
            None => {},
        }
    }

    /// Removes `nick` from the members of channel `channel`; nothing changes
    /// when the channel is unknown.
    pub fn remove_nick(&mut self, channel: &str, nick: &str)
        requires
            old(self).wf(),
        ensures
            final(self).wf(),
            final(self)@ == remove_member(old(self)@, channel@, nick@),
    {
        match self.position(channel) {
            Some(i) => {
                let ghost d1 = self.data@;
                proof {
                    lemma_entry(d1, i as int);
                }
                let mut entry = (String::new(), Channel::new());
                self.data.set_and_swap(i, &mut entry);
                entry.1.remove(nick);
                self.data.set_and_swap(i, &mut entry);
                proof {
                    lemma_replace_at(d1, self.data@, i as int);
                    assert forall|j: int| 0 <= j < self.data@.len() implies (
                    #[trigger] self.data@[j]).1.wf() by {
                        if j != i {
                            assert(self.data@[j] == d1[j]);
                        }
                    }
                    assert(self.data@[i as int].1@ == without_member(d1[i as int].1@, nick@));
                }
            },
            None => {},
        }
    }

    /// The names of all channels, each once.
    pub fn list(&self) -> (r: Vec<String>)
        requires
            self.wf(),
        ensures
            views(r@).to_set() == self@.dom(),
            views(r@).no_duplicates(),
    {
        let n = self.data.len();
        let mut out: Vec<String> = Vec::new();
        let mut i: usize = 0;
        while i < n
            invariant
                n == self.data@.len(),
                i <= n,
                views(out@) == names(self.data@).subrange(0, i as int),
            decreases n - i,
        {
            let s = self.data[i].0.clone();
            proof {
                assert(views(out@.push(s)) =~= views(out@).push(s@));
                assert(views(out@).push(s@) =~= names(self.data@).subrange(0, i + 1));
            }
            out.push(s);
            i += 1;
        }
        assert(names(self.data@).subrange(0, n as int) =~= names(self.data@));
        assert(views(out@).to_set() =~= self@.dom());
        out
    }

    /// Removes `nick` from every channel; no channel is removed.
    pub fn clear_nick(&mut self, nick: &str)
        requires
            old(self).wf(),
        ensures
            final(self).wf(),
            final(self)@ == old(self)@.map_values(|c: ChannelView| without_member(c, nick@)),
    {
        let n = self.data.len();
        let ghost d0 = self.data@;
        let mut i: usize = 0;
        while i < n
            invariant
                n == self.data@.len(),
                d0.len() == n,
                i <= n,
                names(d0).no_duplicates(),
                forall|j: int| 0 <= j < n ==> (#[trigger] self.data@[j]).1.wf(),
                forall|j: int| 0 <= j < n ==> (#[trigger] self.data@[j]).0@ == d0[j].0@,
                forall|j: int| 0 <= j < i ==> (#[trigger] self.data@[j]).1@ == without_member(d0[j].1@, nick@),
                forall|j: int| i <= j < n ==> (#[trigger] self.data@[j]).1@ == d0[j].1@,
            decreases n - i,
        {
            let mut entry = (String::new(), Channel::new());
            self.data.set_and_swap(i, &mut entry);
            entry.1.remove(nick);
            self.data.set_and_swap(i, &mut entry);
            i += 1;
        }
        proof {
            lemma_pointwise(d0, self.data@, |c: ChannelView| without_member(c, nick@));
        }
    }

    /// Renames member `from` to `to` in every channel that has it.
    pub fn update_nick(&mut self, from: &str, to: &str)
        requires
            old(self).wf(),
        ensures
            final(self).wf(),
            final(self)@ == old(self)@.map_values(|c: ChannelView| with_renamed(c, from@, to@)),
    {
        let n = self.data.len();
        let ghost d0 = self.data@;
        let mut i: usize = 0;
        while i < n
            invariant
                n == self.data@.len(),
                d0.len() == n,
                i <= n,
                names(d0).no_duplicates(),
                forall|j: int| 0 <= j < n ==> (#[trigger] self.data@[j]).1.wf(),
                forall|j: int| 0 <= j < n ==> (#[trigger] self.data@[j]).0@ == d0[j].0@,
                forall|j: int| 0 <= j < i ==> (#[trigger] self.data@[j]).1@ == with_renamed(d0[j].1@, from@, to@),
                forall|j: int| i <= j < n ==> (#[trigger] self.data@[j]).1@ == d0[j].1@,
            decreases n - i,
        {
            let mut entry = (String::new(), Channel::new());
            self.data.set_and_swap(i, &mut entry);
            entry.1.update(from, to);
            self.data.set_and_swap(i, &mut entry);
            i += 1;
        }
        proof {
            lemma_pointwise(d0, self.data@, |c: ChannelView| with_renamed(c, from@, to@));
        }
    }
}

} // verus!
