//! The origin token that may lead a line: `:nick!user@host ` or `:server `.
use vstd::prelude::*;
use crate::text::{find, find_char, trim, trimmed};

verus! {

/// Why a line's prefix could not be read.
#[derive(PartialEq, Eq, Structural, Debug, Clone, Copy)]
pub enum Error {
    /// The line does not start with `:`; it simply has no prefix.
    MissingLead,
    /// No space ends the prefix.
    MissingPrefix,
    /// A user origin has no `@` after its `!`.
    MissingHost,
}

/// Where a message came from.
#[derive(PartialEq, Clone, Debug)]
pub enum Prefix {
    User { nick: String, user: String, host: String },
    Server { host: String },
}

/// The mathematical value of a [`Prefix`].
pub enum PrefixView {
    User { nick: Seq<char>, user: Seq<char>, host: Seq<char> },
    Server { host: Seq<char> },
}

impl View for Prefix {
    type V = PrefixView;

    open spec fn view(&self) -> PrefixView {
        match self {
            Prefix::User { nick, user, host } => PrefixView::User {
                nick: nick@,
                user: user@,
                host: host@,
            },
            Prefix::Server { host } => PrefixView::Server { host: host@ },
        }
    }
}

/// The origin named by a prefix token (the text between `:` and the space).
pub open spec fn origin_of(t: Seq<char>) -> Result<PrefixView, Error> {
    match find(t, '!') {
        Some(bang) => {
            let after = t.subrange(bang + 1, t.len() as int);
            match find(after, '@') {
                Some(at) => Ok(
                    PrefixView::User {
                        nick: t.subrange(0, bang),
                        user: after.subrange(0, at),
                        host: after.subrange(at + 1, after.len() as int),
                    },
                ),
                None => Err(Error::MissingHost),
            }
        },
        None => Ok(PrefixView::Server { host: t }),
    }
}

/// The prefix of line `s` and the position of the space that ends it.
pub open spec fn parse_prefix(s: Seq<char>) -> Result<(PrefixView, int), Error> {
    if s.len() == 0 || s[0] != ':' {
        Err(Error::MissingLead)
    } else {
        match find(s, ' ') {
            Some(end) => match origin_of(trimmed(s.subrange(1, end))) {
                Ok(p) => Ok((p, end)),
                Err(e) => Err(e),
            },
            None => Err(Error::MissingPrefix),
        }
    }
}

impl Prefix {
    /// Reads the prefix at the start of `input`. On success returns it with
    /// the position, in characters, of the space that ends it.
    pub fn parse(input: &str) -> (r: Result<(Prefix, usize), Error>)
        ensures
            match r {
                Ok((p, end)) => parse_prefix(input@) == Ok::<(PrefixView, int), Error>((p@, end as int)),
                Err(e) => parse_prefix(input@) == Err::<(PrefixView, int), Error>(e),
            },
            (input@.len() == 0 || input@[0] != ':') ==> r == Err::<(Prefix, usize), Error>(Error::MissingLead),
    {
        let n = input.unicode_len();
        if n == 0 || input.get_char(0) != ':' {
            return Err(Error::MissingLead);
        }
        let end = match find_char(input, ' ') {
            Some(end) => end,
            None => return Err(Error::MissingPrefix),
        };
        proof {
            assert(input@[end as int] == ' ');
        }
        let t = trim(input.substring_char(1, end));
        let tn = t.unicode_len();
        match find_char(t, '!') {
            Some(bang) => {
                let after = t.substring_char(bang + 1, tn);
                let an = after.unicode_len();
                match find_char(after, '@') {
                    Some(at) => Ok(
                        (
                            Prefix::User {
                                nick: t.substring_char(0, bang).to_owned(),
                                user: after.substring_char(0, at).to_owned(),
                                host: after.substring_char(at + 1, an).to_owned(),
                            },
                            end,
                        ),
                    ),
                    None => Err(Error::MissingHost),
                }
            },
            None => Ok((Prefix::Server { host: t.to_owned() }, end)),
        }
    }
}

} // verus!
