//! The session: the current nickname, the directory of channels and the
//! backlog, and the reducer that applies each inbound message to them.
use vstd::prelude::*;
use vstd::string::StringExecFns;
use crate::channel::{
    add_member, remove_member, with_renamed, without_member, ChannelView, Channels,
};
use crate::command::{Command, CommandView};
use crate::ircclient::{format_nick, format_pong, nick_line, pong_line};
use crate::message::{Message, MessageView};
use crate::prefix::PrefixView;
use crate::queue::{pushed, Queue};

verus! {

/// How many messages the backlog keeps.
pub const MAX_BACKLOG: usize = 512;

/// The nickname of a message's origin, when a user sent it.
pub open spec fn origin(m: MessageView) -> Option<Seq<char>> {
    match m.prefix {
        Some(PrefixView::User { nick, .. }) => Some(nick),
        _ => None,
    }
}

/// Whether the message came from the session's own nickname `me`.
pub open spec fn from_self(me: Option<Seq<char>>, m: MessageView) -> bool {
    match (me, origin(m)) {
        (Some(a), Some(b)) => a == b,
        _ => false,
    }
}

/// The directory with channel `ch` created if it was not there.
pub open spec fn created(dir: Map<Seq<char>, ChannelView>, ch: Seq<char>) -> Map<
    Seq<char>,
    ChannelView,
> {
    if dir.contains_key(ch) {
        dir
    } else {
        dir.insert(ch, ChannelView { topic: None, users: Set::empty() })
    }
}

/// What applying one message leaves: the nickname, the directory, and the
/// line to send back, if any.
pub struct Reduced {
    pub nickname: Option<Seq<char>>,
    pub channels: Map<Seq<char>, ChannelView>,
    pub reply: Option<Seq<char>>,
}

/// The effect of message `m` on a session with nickname `me` and directory `dir`.
pub open spec fn reduce(
    me: Option<Seq<char>>,
    dir: Map<Seq<char>, ChannelView>,
    m: MessageView,
) -> Reduced {
    let same = Reduced { nickname: me, channels: dir, reply: None };
    match m.command {
        CommandView::Ping { token } => Reduced {
            nickname: me,
            channels: dir,
            reply: Some(pong_line(token)),
        },
        CommandView::Join { channel, .. } => match origin(m) {
            Some(who) => Reduced {
                nickname: me,
                channels: if from_self(me, m) {
                    add_member(created(dir, channel), channel, who)
                } else {
                    add_member(dir, channel, who)
                },
                reply: None,
            },
            None => same,
        },
        CommandView::Part { channel, .. } => match origin(m) {
            Some(who) => Reduced {
                nickname: me,
                channels: if from_self(me, m) {
                    dir.remove(channel)
                } else {
                    remove_member(dir, channel, who)
                },
                reply: None,
            },
            None => same,
        },
        CommandView::Quit { .. } => match origin(m) {
            Some(who) => if from_self(me, m) {
                same
            } else {
                Reduced {
                    nickname: me,
                    channels: dir.map_values(|c: ChannelView| without_member(c, who)),
                    reply: None,
                }
            },
            None => same,
        },
        CommandView::Nick { nickname } => match origin(m) {
            Some(who) => if from_self(me, m) {
                Reduced { nickname: Some(nickname), channels: dir, reply: None }
            } else {
                Reduced {
                    nickname: me,
                    channels: dir.map_values(|c: ChannelView| with_renamed(c, who, nickname)),
                    reply: None,
                }
            },
            None => same,
        },
        CommandView::Reply { numeric, params } => if numeric == 1 && params.len() > 0 {
            Reduced { nickname: Some(params[0]), channels: dir, reply: None }
        } else if numeric == 433 && params.len() > 1 {
            Reduced { nickname: me, channels: dir, reply: Some(nick_line(params[1] + "_"@)) }
        } else {
            same
        },
        _ => same,
    }
}

/// When the session's own user parts a channel, the channel leaves the
/// directory entirely and every other channel stays as it was.
pub proof fn lemma_self_part_drops_channel(
    me: Seq<char>,
    dir: Map<Seq<char>, ChannelView>,
    m: MessageView,
    channel: Seq<char>,
)
    requires
        m.command matches CommandView::Part { channel: c, .. } && c == channel,
        origin(m) == Some(me),
    ensures
        !reduce(Some(me), dir, m).channels.contains_key(channel),
        reduce(Some(me), dir, m).channels == dir.remove(channel),
{
}

/// When another user quits, that nickname leaves the members of every
/// channel, and no channel leaves the directory.
pub proof fn lemma_other_quit_clears_member(
    me: Option<Seq<char>>,
    dir: Map<Seq<char>, ChannelView>,
    m: MessageView,
    who: Seq<char>,
)
    requires
        m.command is Quit,
        origin(m) == Some(who),
        me != Some(who),
    ensures
        reduce(me, dir, m).channels.dom() == dir.dom(),
        forall|k: Seq<char>| #[trigger]
            reduce(me, dir, m).channels.contains_key(k) ==> !reduce(me, dir, m).channels[k].users.contains(who)
                && reduce(me, dir, m).channels[k].users == dir[k].users.remove(who)
                && reduce(me, dir, m).channels[k].topic == dir[k].topic,
{
    let after = reduce(me, dir, m).channels;
    assert(after.dom() =~= dir.dom());
}

/// The session state shared by the reader and the consumer.
#[derive(Debug)]
pub struct State {
    nickname: Option<String>,
    channels: Channels,
    backlog: Queue<(u64, Message)>,
}

impl State {
    pub closed spec fn wf(&self) -> bool {
        &&& self.channels.wf()
        &&& self.backlog@.len() <= self.backlog.capacity()
    }

    /// The current nickname, absent until the server confirms one.
    pub closed spec fn nick_view(&self) -> Option<Seq<char>> {
        match self.nickname {
            Some(n) => Some(n@),
            None => None,
        }
    }

    /// The directory of channels.
    pub closed spec fn dir(&self) -> Map<Seq<char>, ChannelView> {
        self.channels@
    }

    /// The backlog's entries, oldest first.
    pub closed spec fn log(&self) -> Seq<(u64, Message)> {
        self.backlog@
    }

    /// How many entries the backlog keeps.
    pub closed spec fn log_capacity(&self) -> nat {
        self.backlog.capacity()
    }

    /// A session with no nickname, no channels and an empty backlog of
    /// `MAX_BACKLOG` entries.
    pub fn new() -> (r: State)
        ensures
            r.wf(),
            r.nick_view() is None,
            r.dir() == Map::<Seq<char>, ChannelView>::empty(),
            r.log() == Seq::<(u64, Message)>::empty(),
            r.log_capacity() == MAX_BACKLOG,
    {
        State::with_backlog(MAX_BACKLOG)
    }

    /// A fresh session whose backlog keeps `size` entries.
    pub fn with_backlog(size: usize) -> (r: State)
        ensures
            r.wf(),
            r.nick_view() is None,
            r.dir() == Map::<Seq<char>, ChannelView>::empty(),
            r.log() == Seq::<(u64, Message)>::empty(),
            r.log_capacity() == size,
    {
        State { nickname: None, channels: Channels::new(), backlog: Queue::new(size) }
    }

    /// The directory, for lookups.
    pub fn channels(&self) -> (r: &Channels)
        requires
            self.wf(),
        ensures
            r@ == self.dir(),
            r.wf(),
    {
        &self.channels
    }

    /// The current nickname.
    pub fn nickname(&self) -> (r: Option<String>)
        ensures
            match r {
                Some(n) => self.nick_view() == Some(n@),
                None => self.nick_view() is None,
            },
    {
        match &self.nickname {
            Some(n) => Some(n.clone()),
            None => None,
        }
    }

    pub fn set_nickname(&mut self, nick: &str)
        requires
            old(self).wf(),
        ensures
            final(self).wf(),
            final(self).nick_view() == Some(nick@),
            final(self).dir() == old(self).dir(),
            final(self).log() == old(self).log(),
            final(self).log_capacity() == old(self).log_capacity(),
    {
        self.nickname = Some(nick.to_owned());
    }

    /// Appends a timestamped message to the backlog, dropping the oldest
    /// entry when it is full.
    pub fn push_message(&mut self, msg: (u64, Message))
        requires
            old(self).wf(),
        ensures
            final(self).wf(),
            final(self).log() == pushed(old(self).log_capacity(), old(self).log(), msg),
            final(self).log_capacity() == old(self).log_capacity(),
            final(self).nick_view() == old(self).nick_view(),
            final(self).dir() == old(self).dir(),
    {
        self.backlog.push(msg);
    }

    /// Takes the oldest message out of the backlog.
    pub fn next_message(&mut self) -> (r: Option<(u64, Message)>)
        requires
            old(self).wf(),
        ensures
            final(self).wf(),
            old(self).log().len() == 0 ==> r is None && final(self).log() == old(self).log(),
            old(self).log().len() > 0 ==> r == Some(old(self).log()[0]) && final(self).log()
                == old(self).log().drop_first(),
            final(self).log_capacity() == old(self).log_capacity(),
            final(self).nick_view() == old(self).nick_view(),
            final(self).dir() == old(self).dir(),
    {
        self.backlog.pop()
    }

    /// Whether `msg` came from the session's own nickname.
    pub fn is_from_self(&self, msg: &Message) -> (r: bool)
        ensures
            r == from_self(self.nick_view(), msg@),
    {
        match (&self.nickname, msg.nick()) {
            (Some(me), Some(who)) => *me == *who,
            _ => false,
        }
    }

    /// Applies one inbound message to the nickname and the directory, and
    /// returns the line to send back, if any.
    pub fn update(&mut self, msg: &Message) -> (r: Option<String>)
        requires
            old(self).wf(),
        ensures
            final(self).wf(),
            final(self).nick_view() == reduce(old(self).nick_view(), old(self).dir(), msg@).nickname,
            final(self).dir() == reduce(old(self).nick_view(), old(self).dir(), msg@).channels,
            match r {
                Some(line) => reduce(old(self).nick_view(), old(self).dir(), msg@).reply == Some(
                    line@,
                ),
                None => reduce(old(self).nick_view(), old(self).dir(), msg@).reply is None,
            },
            final(self).log() == old(self).log(),
            final(self).log_capacity() == old(self).log_capacity(),
    {
        let me = self.is_from_self(msg);
        match &msg.command {
            Command::Ping { token } => Some(format_pong(token.as_str())),
            Command::Join { channel, .. } => {
                if let Some(who) = msg.nick() {
                    if me {
                        self.channels.add(channel.as_str());
                    }
                    self.channels.add_nick(channel.as_str(), who.as_str());
                }
                None
            },
            Command::Part { channel, .. } => {
                if let Some(who) = msg.nick() {
                    if me {
                        self.channels.remove(channel.as_str());
                    } else {
                        self.channels.remove_nick(channel.as_str(), who.as_str());
                    }
                }
                None
            },
            Command::Quit { .. } => {
                if let Some(who) = msg.nick() {
                    if !me {
                        self.channels.clear_nick(who.as_str());
                    }
                }
                None
            },
            Command::Nick { nickname } => {
                if let Some(who) = msg.nick() {
                    if me {
                        self.nickname = Some(nickname.clone());
                    } else {
                        self.channels.update_nick(who.as_str(), nickname.as_str());
                    }
                }
                None
            },
            Command::Reply { numeric, params } => {
                if *numeric == 1 && params.len() > 0 {
                    self.nickname = Some(params[0].clone());
                    None
                } else if *numeric == 433 && params.len() > 1 {
                    let mut retry = params[1].clone();
                    retry.append("_");
                    Some(format_nick(retry.as_str()))
                } else {
                    None
                }
            },
            _ => None,
        }
    }

    /// Handles one inbound message as the reader does: applies it, then
    /// stores it in the backlog with its capture time `stamp`. Returns the
    /// line to send back, if any.
    pub fn receive(&mut self, stamp: u64, msg: Message) -> (r: Option<String>)
        requires
            old(self).wf(),
        ensures
            final(self).wf(),
            final(self).nick_view() == reduce(old(self).nick_view(), old(self).dir(), msg@).nickname,
            final(self).dir() == reduce(old(self).nick_view(), old(self).dir(), msg@).channels,
            match r {
                Some(line) => reduce(old(self).nick_view(), old(self).dir(), msg@).reply == Some(
                    line@,
                ),
                None => reduce(old(self).nick_view(), old(self).dir(), msg@).reply is None,
            },
            final(self).log() == pushed(old(self).log_capacity(), old(self).log(), (stamp, msg)),
            final(self).log_capacity() == old(self).log_capacity(),
    {
        let r = self.update(&msg);
        self.push_message((stamp, msg));
        r
    }
}

} // verus!
