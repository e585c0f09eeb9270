//! The command part of a line: its verb and the verb's parameters.
use vstd::prelude::*;
use crate::text::{before, find, find_char, same_text, split, split_char, trim, trimmed, views};

verus! {

/// Why a line's command could not be read.
#[derive(PartialEq, Eq, Structural, Debug, Clone, Copy)]
pub enum Error {
    /// No space follows the verb.
    MissingCommand,
    /// The trailing parameter is absent or empty.
    MissingData,
    /// The target channel or user is absent.
    MissingTarget,
    /// Parameters are missing.
    MissingParts,
    /// The nickname is empty or not acceptable.
    InvalidNickname,
    /// The verb is not known.
    UnknownCommand,
}

/// One parsed command.
#[derive(PartialEq, Clone, Debug)]
pub enum Command {
    Privmsg { target: String, data: String, is_notice: bool },
    Join { channel: String, key: Option<String> },
    Part { channel: String, reason: Option<String> },
    Quit { reason: String },
    Nick { nickname: String },
    Ping { token: String },
    Pong { target: String },
    Error { message: String },
    Other { command: String, params: Vec<String> },
    Reply { numeric: u16, params: Vec<String> },
}

/// The mathematical value of a [`Command`].
pub enum CommandView {
    Privmsg { target: Seq<char>, data: Seq<char>, is_notice: bool },
    Join { channel: Seq<char>, key: Option<Seq<char>> },
    Part { channel: Seq<char>, reason: Option<Seq<char>> },
    Quit { reason: Seq<char> },
    Nick { nickname: Seq<char> },
    Ping { token: Seq<char> },
    Pong { target: Seq<char> },
    Error { message: Seq<char> },
    Other { command: Seq<char>, params: Seq<Seq<char>> },
    Reply { numeric: u16, params: Seq<Seq<char>> },
}

pub open spec fn opt_view(o: Option<String>) -> Option<Seq<char>> {
    match o {
        Some(s) => Some(s@),
        None => None,
    }
}

impl View for Command {
    type V = CommandView;

    open spec fn view(&self) -> CommandView {
        match self {
            Command::Privmsg { target, data, is_notice } => CommandView::Privmsg {
                target: target@,
                data: data@,
                is_notice: *is_notice,
            },
            Command::Join { channel, key } => CommandView::Join {
                channel: channel@,
                key: opt_view(*key),
            },
            Command::Part { channel, reason } => CommandView::Part {
                channel: channel@,
                reason: opt_view(*reason),
            },
            Command::Quit { reason } => CommandView::Quit { reason: reason@ },
            Command::Nick { nickname } => CommandView::Nick { nickname: nickname@ },
            Command::Ping { token } => CommandView::Ping { token: token@ },
            Command::Pong { target } => CommandView::Pong { target: target@ },
            Command::Error { message } => CommandView::Error { message: message@ },
            Command::Other { command, params } => CommandView::Other {
                command: command@,
                params: views(params@),
            },
            Command::Reply { numeric, params } => CommandView::Reply {
                numeric: *numeric,
                params: views(params@),
            },
        }
    }
}

/// Every text is an acceptable nickname: no character set is imposed.
pub open spec fn valid_nick(s: Seq<char>) -> bool {
    true
}

pub open spec fn is_digit(c: char) -> bool {
    '0' <= c && c <= '9'
}

pub open spec fn digit(c: char) -> int {
    c as int - '0' as int
}

/// The number named by a verb of exactly three decimal digits.
pub open spec fn numeric_of(v: Seq<char>) -> Option<u16> {
    if v.len() == 3 && is_digit(v[0]) && is_digit(v[1]) && is_digit(v[2]) {
        Some((100 * digit(v[0]) + 10 * digit(v[1]) + digit(v[2])) as u16)
    } else {
        None
    }
}

/// The parameters of an unmodelled verb: the space-separated words, and the
/// text after the first `:` as one last parameter.
pub open spec fn params_of(rest: Seq<char>) -> Seq<Seq<char>> {
    match find(rest, ':') {
        Some(p) => {
            let l = trimmed(rest.subrange(0, p));
            let r = trimmed(rest.subrange(p, rest.len() as int));
            let last = if r.len() > 0 && r[0] == ':' {
                r.drop_first()
            } else {
                r
            };
            if l.len() == 0 {
                seq![last]
            } else {
                split(l, ' ').push(last)
            }
        },
        None => split(rest, ' '),
    }
}

/// PRIVMSG and NOTICE: a target, then `:` and the text.
pub open spec fn privmsg_of(rest: Seq<char>, is_notice: bool) -> Result<CommandView, Error> {
    match find(rest, ':') {
        Some(p) => {
            let target = trimmed(rest.subrange(0, p));
            let r = trimmed(rest.subrange(p, rest.len() as int));
            if target.len() == 0 {
                Err(Error::MissingTarget)
            } else if r.len() <= 1 {
                Err(Error::MissingData)
            } else {
                Ok(CommandView::Privmsg { target, data: r.drop_first(), is_notice })
            }
        },
        None => Err(Error::MissingData),
    }
}

/// The text after the first space of `s`, if it has one.
pub open spec fn after_space(s: Seq<char>) -> Option<Seq<char>> {
    match find(s, ' ') {
        Some(i) => Some(s.subrange(i + 1, s.len() as int)),
        None => None,
    }
}

/// The first comma-separated entry of the first word of `s`.
pub open spec fn first_entry(s: Seq<char>) -> Seq<char> {
    before(before(s, ' '), ',')
}

/// The command given by verb `verb` and its (trimmed) parameters `rest`.
pub open spec fn command_of(verb: Seq<char>, rest: Seq<char>) -> Result<CommandView, Error> {
    if verb == "PRIVMSG"@ {
        privmsg_of(rest, false)
    } else if verb == "NOTICE"@ {
        privmsg_of(rest, true)
    } else if verb == "JOIN"@ {
        if rest.len() == 0 {
            Err(Error::MissingTarget)
        } else {
            Ok(
                CommandView::Join {
                    channel: first_entry(rest),
                    key: match after_space(rest) {
                        Some(t) => Some(first_entry(t)),
                        None => None,
                    },
                },
            )
        }
    } else if verb == "PART"@ {
        if rest.len() == 0 {
            Err(Error::MissingTarget)
        } else {
            Ok(CommandView::Part { channel: first_entry(rest), reason: after_space(rest) })
        }
    } else if verb == "QUIT"@ || verb == "ERROR"@ {
        if rest.len() > 0 && rest[0] == ':' {
            if verb == "QUIT"@ {
                Ok(CommandView::Quit { reason: rest.drop_first() })
            } else {
                Ok(CommandView::Error { message: rest.drop_first() })
            }
        } else {
            Err(Error::MissingData)
        }
    } else if verb == "NICK"@ {
        if valid_nick(rest) && rest.len() > 0 {
            Ok(CommandView::Nick { nickname: rest })
        } else {
            Err(Error::InvalidNickname)
        }
    } else if verb == "PING"@ {
        Ok(CommandView::Ping { token: rest })
    } else if verb == "PONG"@ {
        Ok(CommandView::Pong { target: rest })
    } else {
        match numeric_of(verb) {
            Some(n) => Ok(CommandView::Reply { numeric: n, params: params_of(rest) }),
            None => Ok(CommandView::Other { command: verb, params: params_of(rest) }),
        }
    }
}

/// The command of text `s` (a line without its prefix).
pub open spec fn parse_command(s: Seq<char>) -> Result<CommandView, Error> {
    match find(s, ' ') {
        Some(pos) => command_of(
            trimmed(s.subrange(0, pos)),
            trimmed(s.subrange(pos, s.len() as int)),
        ),
        None => Err(Error::MissingCommand),
    }
}

/// The view of a parse result.
pub open spec fn result_view(r: Result<Command, Error>) -> Result<CommandView, Error> {
    match r {
        Ok(c) => Ok(c@),
        Err(e) => Err(e),
    }
}

/// Whether `nick` is acceptable as a nickname; no character set is imposed.
pub fn is_valid_nick(nick: &str) -> (r: bool)
    ensures
        r == valid_nick(nick@),
{
    true
}

fn numeric(v: &str) -> (r: Option<u16>)
    ensures
        r == numeric_of(v@),
{
    if v.unicode_len() != 3 {
        return None;
    }
    let a = v.get_char(0);
    let b = v.get_char(1);
    let c = v.get_char(2);
    if '0' <= a && a <= '9' && '0' <= b && b <= '9' && '0' <= c && c <= '9' {
        let n = (a as u32 - '0' as u32) * 100 + (b as u32 - '0' as u32) * 10 + (c as u32
            - '0' as u32);
        Some(n as u16)
    } else {
        None
    }
}

fn params(rest: &str) -> (r: Vec<String>)
    ensures
        views(r@) == params_of(rest@),
{
    let n = rest.unicode_len();
    match find_char(rest, ':') {
        Some(p) => {
            let l = trim(rest.substring_char(0, p));
            let r = trim(rest.substring_char(p, n));
            let rn = r.unicode_len();
            let last = if rn > 0 && r.get_char(0) == ':' {
                r.substring_char(1, rn)
            } else {
                r
            };
            proof {
                if rn > 0 && r@[0] == ':' {
                    assert(last@ =~= r@.drop_first());
                }
            }
            if l.unicode_len() == 0 {
                let mut v: Vec<String> = Vec::new();
                v.push(last.to_owned());
                assert(views(v@) =~= seq![last@]);
                v
            } else {
                let mut v = split_char(l, ' ');
                let ghost before_push = v@;
                v.push(last.to_owned());
                assert(views(v@) =~= views(before_push).push(last@));
                v
            }
        },
        None => split_char(rest, ' '),
    }
}

fn privmsg(rest: &str, is_notice: bool) -> (r: Result<Command, Error>)
    ensures
        result_view(r) == privmsg_of(rest@, is_notice),
{
    let n = rest.unicode_len();
    let p = match find_char(rest, ':') {
        Some(p) => p,
        None => return Err(Error::MissingData),
    };
    let target = trim(rest.substring_char(0, p));
    let r = trim(rest.substring_char(p, n));
    let rn = r.unicode_len();
    if target.unicode_len() == 0 {
        return Err(Error::MissingTarget);
    }
    if rn <= 1 {
        return Err(Error::MissingData);
    }
    let data = r.substring_char(1, rn);
    assert(data@ =~= r@.drop_first());
    Ok(Command::Privmsg { target: target.to_owned(), data: data.to_owned(), is_notice })
}

/// The first comma-separated entry of the first word of `s`.
fn first_entry_of(s: &str) -> (r: String)
    ensures
        r@ == first_entry(s@),
{
    let word = match find_char(s, ' ') {
        Some(i) => s.substring_char(0, i),
        None => s,
    };
    match find_char(word, ',') {
        Some(i) => word.substring_char(0, i).to_owned(),
        None => word.to_owned(),
    }
}

/// The text after the first space of `s`, if it has one.
fn after_first_space(s: &str) -> (r: Option<&str>)
    ensures
        match r {
            Some(t) => after_space(s@) == Some(t@),
            None => after_space(s@) is None,
        },
{
    let n = s.unicode_len();
    match find_char(s, ' ') {
        Some(i) => Some(s.substring_char(i + 1, n)),
        None => None,
    }
}

impl Command {
    /// Reads a command from `input`, a line without its prefix.
    pub fn parse(input: &str) -> (r: Result<Command, Error>)
        ensures
            result_view(r) == parse_command(input@),
    {
        let n = input.unicode_len();
        let pos = match find_char(input, ' ') {
            Some(pos) => pos,
            None => return Err(Error::MissingCommand),
        };
        let verb = trim(input.substring_char(0, pos));
        let rest = trim(input.substring_char(pos, n));
        let rn = rest.unicode_len();
        if same_text(verb, "PRIVMSG") {
            privmsg(rest, false)
        } else if same_text(verb, "NOTICE") {
            privmsg(rest, true)
        } else if same_text(verb, "JOIN") {
            if rn == 0 {
                return Err(Error::MissingTarget);
            }
            let channel = first_entry_of(rest);
            let key = match after_first_space(rest) {
                Some(t) => Some(first_entry_of(t)),
                None => None,
            };
            Ok(Command::Join { channel, key })
        } else if same_text(verb, "PART") {
            if rn == 0 {
                return Err(Error::MissingTarget);
            }
            let channel = first_entry_of(rest);
            let reason = match after_first_space(rest) {
                Some(t) => Some(t.to_owned()),
                None => None,
            };
            Ok(Command::Part { channel, reason })
        } else if same_text(verb, "QUIT") || same_text(verb, "ERROR") {
            if rn == 0 || rest.get_char(0) != ':' {
                return Err(Error::MissingData);
            }
            let text = rest.substring_char(1, rn).to_owned();
            assert(text@ =~= rest@.drop_first());
            if same_text(verb, "QUIT") {
                Ok(Command::Quit { reason: text })
            } else {
                Ok(Command::Error { message: text })
            }
        } else if same_text(verb, "NICK") {
            if !is_valid_nick(rest) || rn == 0 {
                return Err(Error::InvalidNickname);
            }
            Ok(Command::Nick { nickname: rest.to_owned() })
        } else if same_text(verb, "PING") {
            Ok(Command::Ping { token: rest.to_owned() })
        } else if same_text(verb, "PONG") {
            Ok(Command::Pong { target: rest.to_owned() })
        } else {
            let params = params(rest);
            match numeric(verb) {
                Some(n) => Ok(Command::Reply { numeric: n, params }),
                None => Ok(Command::Other { command: verb.to_owned(), params }),
            }
        }
    }
}

} // verus!
