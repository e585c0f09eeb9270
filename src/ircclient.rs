//! The outbound side: one function per verb that builds the wire line, and
//! the client interface that hands those lines to a connection.
use vstd::prelude::*;
use vstd::string::StringExecFns;
use crate::text::views;

verus! {

/// The line terminator.
pub open spec fn crlf() -> Seq<char> {
    "\r\n"@
}

/// `items` with `sep` between each two of them.
pub open spec fn joined(items: Seq<Seq<char>>, sep: Seq<char>) -> Seq<char>
    decreases items.len(),
{
    if items.len() == 0 {
        Seq::empty()
    } else if items.len() == 1 {
        items[0]
    } else {
        joined(items.drop_last(), sep) + sep + items.last()
    }
}

pub open spec fn privmsg_line(target: Seq<char>, data: Seq<char>) -> Seq<char> {
    "PRIVMSG "@ + target + " :"@ + data + crlf()
}

pub open spec fn pass_line(pass: Seq<char>) -> Seq<char> {
    "PASS "@ + pass + crlf()
}

pub open spec fn user_line(realname: Seq<char>, user: Seq<char>) -> Seq<char> {
    "USER "@ + user + " 8 * :"@ + realname + crlf()
}

pub open spec fn nick_line(nick: Seq<char>) -> Seq<char> {
    "NICK "@ + nick + crlf()
}

pub open spec fn ping_line(token: Seq<char>) -> Seq<char> {
    "PING "@ + token + crlf()
}

pub open spec fn pong_line(token: Seq<char>) -> Seq<char> {
    "PONG "@ + token + crlf()
}

/// The reason given when a quit names none.
pub open spec fn default_quit_reason() -> Seq<char> {
    "bye"@
}

pub open spec fn quit_line(reason: Option<Seq<char>>) -> Seq<char> {
    "QUIT :"@ + match reason {
        Some(r) => r,
        None => default_quit_reason(),
    } + crlf()
}

pub open spec fn join_line(channels: Seq<char>, keys: Option<Seq<char>>) -> Seq<char> {
    match keys {
        Some(k) => "JOIN "@ + channels + " "@ + k + crlf(),
        None => "JOIN "@ + channels + crlf(),
    }
}

pub open spec fn part_line(channels: Seq<char>, reason: Seq<char>) -> Seq<char> {
    "PART "@ + channels + " :"@ + reason + crlf()
}

/// `items` joined by `sep`.
pub fn join_with(items: &Vec<String>, sep: &str) -> (r: String)
    ensures
        r@ == joined(views(items@), sep@),
{
    let mut out = String::new();
    let mut i: usize = 0;
    while i < items.len()
        invariant
            i <= items@.len(),
            out@ == joined(views(items@).subrange(0, i as int), sep@),
        decreases items@.len() - i,
    {
        proof {
            let s = views(items@).subrange(0, i + 1);
            assert(s.drop_last() =~= views(items@).subrange(0, i as int));
        }
        if i > 0 {
            out.append(sep);
        }
        out.append(items[i].as_str());
        i += 1;
    }
    assert(views(items@).subrange(0, items@.len() as int) =~= views(items@));
    out
}

/// The line that sends `data` to `target`.
pub fn format_privmsg(target: &str, data: &str) -> (r: String)
    ensures
        r@ == privmsg_line(target@, data@),
{
    let mut s = String::from_str("PRIVMSG ");
    s.append(target);
    s.append(" :");
    s.append(data);
    s.append("\r\n");
    s
}

/// The line that gives the connection password.
pub fn format_pass(pass: &str) -> (r: String)
    ensures
        r@ == pass_line(pass@),
{
    let mut s = String::from_str("PASS ");
    s.append(pass);
    s.append("\r\n");
    s
}

/// The line that registers user name `user` with real name `realname`.
pub fn format_user(realname: &str, user: &str) -> (r: String)
    ensures
        r@ == user_line(realname@, user@),
{
    let mut s = String::from_str("USER ");
    s.append(user);
    s.append(" 8 * :");
    s.append(realname);
    s.append("\r\n");
    s
}

/// The line that asks for nickname `nick`.
pub fn format_nick(nick: &str) -> (r: String)
    ensures
        r@ == nick_line(nick@),
{
    let mut s = String::from_str("NICK ");
    s.append(nick);
    s.append("\r\n");
    s
}

pub fn format_ping(token: &str) -> (r: String)
    ensures
        r@ == ping_line(token@),
{
    let mut s = String::from_str("PING ");
    s.append(token);
    s.append("\r\n");
    s
}

pub fn format_pong(token: &str) -> (r: String)
    ensures
        r@ == pong_line(token@),
{
    let mut s = String::from_str("PONG ");
    s.append(token);
    s.append("\r\n");
    s
}

/// The line that leaves the server, with `reason` or the default one.
pub fn format_quit(reason: Option<&str>) -> (r: String)
    ensures
        r@ == quit_line(
            match reason {
                Some(t) => Some(t@),
                None => None,
            },
        ),
{
    let mut s = String::from_str("QUIT :");
    match reason {
        Some(t) => s.append(t),
        None => s.append("bye"),
    }
    s.append("\r\n");
    s
}

/// The line that joins `channel`, with `key` when one is given.
pub fn format_join(channel: &str, key: Option<&str>) -> (r: String)
    ensures
        r@ == join_line(
            channel@,
            match key {
                Some(k) => Some(k@),
                None => None,
            },
        ),
{
    let mut s = String::from_str("JOIN ");
    s.append(channel);
    match key {
        Some(k) => {
            s.append(" ");
            s.append(k);
        },
        None => {},
    }
    s.append("\r\n");
    s
}

/// The line that joins every one of `channels`, with the keys in order.
pub fn format_join_many(channels: &Vec<String>, keys: Option<&Vec<String>>) -> (r: String)
    ensures
        r@ == join_line(
            joined(views(channels@), ","@),
            match keys {
                Some(k) => Some(joined(views(k@), ","@)),
                None => None,
            },
        ),
{
    let names = join_with(channels, ",");
    match keys {
        Some(k) => {
            let k = join_with(k, ",");
            format_join(names.as_str(), Some(k.as_str()))
        },
        None => format_join(names.as_str(), None),
    }
}

/// The line that leaves `channel` with `reason`.
pub fn format_part(channel: &str, reason: &str) -> (r: String)
    ensures
        r@ == part_line(channel@, reason@),
{
    let mut s = String::from_str("PART ");
    s.append(channel);
    s.append(" :");
    s.append(reason);
    s.append("\r\n");
    s
}

/// The line that leaves every one of `channels` with `reason`.
pub fn format_part_many(channels: &Vec<String>, reason: &str) -> (r: String)
    ensures
        r@ == part_line(joined(views(channels@), ","@), reason@),
{
    let names = join_with(channels, ",");
    format_part(names.as_str(), reason)
}

/// A connection that takes outbound lines. Each send operation builds its
/// line and writes it whole; `quit` then closes the connection.
pub trait IrcClient {
    /// Writes one complete line.
    fn write(&self, data: &[u8]);

    /// Shuts the connection down.
    fn close(&self);

    fn privmsg(&self, target: &str, data: &str) {
        let line = format_privmsg(target, data);
        self.write(line.as_str().as_bytes());
    }

    fn pass(&self, password: &str) {
        let line = format_pass(password);
        self.write(line.as_str().as_bytes());
    }

    fn user(&self, realname: &str, username: &str) {
        let line = format_user(realname, username);
        self.write(line.as_str().as_bytes());
    }

    fn nick(&self, nickname: &str) {
        let line = format_nick(nickname);
        self.write(line.as_str().as_bytes());
    }

    fn ping(&self, token: &str) {
        let line = format_ping(token);
        self.write(line.as_str().as_bytes());
    }

    fn pong(&self, token: &str) {
        let line = format_pong(token);
        self.write(line.as_str().as_bytes());
    }

    fn quit(&self, reason: Option<&str>) {
        let line = format_quit(reason);
        self.write(line.as_str().as_bytes());
        self.close();
    }

    fn join(&self, channel: &str, key: Option<&str>) {
        let line = format_join(channel, key);
        self.write(line.as_str().as_bytes());
    }

    fn join_many(&self, channels: &Vec<String>, keys: Option<&Vec<String>>) {
        let line = format_join_many(channels, keys);
        self.write(line.as_str().as_bytes());
    }

    fn part(&self, channel: &str, reason: &str) {
        let line = format_part(channel, reason);
        self.write(line.as_str().as_bytes());
    }

    fn part_many(&self, channels: &Vec<String>, reason: &str) {
        let line = format_part_many(channels, reason);
        self.write(line.as_str().as_bytes());
    }
}

} // verus!
