//! A whole line: an optional origin and a command.
use vstd::prelude::*;
use crate::command::{parse_command, result_view, Command, CommandView, Error as CommandError};
use crate::prefix::{parse_prefix, Error as PrefixError, Prefix, PrefixView};

verus! {

/// Why a line could not be read.
#[derive(PartialEq, Eq, Structural, Debug, Clone, Copy)]
pub enum Error {
    PrefixError(PrefixError),
    CommandError(CommandError),
}

/// One parsed line.
#[derive(PartialEq, Clone, Debug)]
pub struct Message {
    pub prefix: Option<Prefix>,
    pub command: Command,
}

/// The mathematical value of a [`Message`].
pub struct MessageView {
    pub prefix: Option<PrefixView>,
    pub command: CommandView,
}

impl View for Message {
    type V = MessageView;

    open spec fn view(&self) -> MessageView {
        MessageView {
            prefix: match self.prefix {
                Some(p) => Some(p@),
                None => None,
            },
            command: self.command@,
        }
    }
}

/// The message of line `s`: its prefix if it has one (a line without the
/// leading `:` simply has none), then the command after the prefix's space.
pub open spec fn parse_message(s: Seq<char>) -> Result<MessageView, Error> {
    let (prefix, rest) = match parse_prefix(s) {
        Ok((p, end)) => (Ok(Some(p)), s.subrange(end + 1, s.len() as int)),
        Err(PrefixError::MissingLead) => (Ok(None), s),
        Err(e) => (Err(e), s),
    };
    match prefix {
        Err(e) => Err(Error::PrefixError(e)),
        Ok(p) => match parse_command(rest) {
            Ok(c) => Ok(MessageView { prefix: p, command: c }),
            Err(e) => Err(Error::CommandError(e)),
        },
    }
}

impl Message {
    /// Reads one line (without its line terminator).
    pub fn parse(input: &str) -> (r: Result<Message, Error>)
        ensures
            match r {
                Ok(m) => parse_message(input@) == Ok::<MessageView, Error>(m@),
                Err(e) => parse_message(input@) == Err::<MessageView, Error>(e),
            },
    {
        let n = input.unicode_len();
        let (prefix, rest) = match Prefix::parse(input) {
            Ok((p, end)) => (Some(p), input.substring_char(end + 1, n)),
            Err(PrefixError::MissingLead) => (None, input),
            Err(e) => return Err(Error::PrefixError(e)),
        };
        let command = Command::parse(rest);
        proof {
            assert(result_view(command) == parse_command(rest@));
        }
        match command {
            Ok(command) => Ok(Message { prefix, command }),
            Err(e) => Err(Error::CommandError(e)),
        }
    }

    /// The nickname of the message's origin, when a user sent it.
    pub fn nick(&self) -> (r: Option<&String>)
        ensures
            match self.prefix {
                Some(Prefix::User { nick, .. }) => r == Some(&nick),
                _ => r is None,
            },
    {
        match &self.prefix {
            Some(Prefix::User { nick, .. }) => Some(nick),
            _ => None,
        }
    }
}

} // verus!
