//! The connection manager's decisions: the lifecycle of a connection, the
//! buffer of writes made before the connection is usable, and the handling
//! of each line read. Running the socket and the reader thread is left to
//! the caller, which performs the actions decided here.
use vstd::prelude::*;
use vstd::slice::slice_to_vec;
use std::collections::VecDeque;
use crate::message::{parse_message, Error as MessageError, Message};
use crate::queue::pushed;
use crate::state::{reduce, State};

verus! {

broadcast use vstd::std_specs::vecdeque::group_vec_dequeue_axioms;

/// Why a connection ended, as reported on its error channel.
#[derive(PartialEq, Eq, Structural, Debug, Clone, Copy)]
pub enum Error {
    /// The connection could not be opened.
    CannotConnect,
    /// A line could not be parsed.
    ParseError(MessageError),
    /// Reading from the connection failed.
    CannotRead,
    /// The peer closed the connection.
    EndOfStream,
}

/// Where a connection is in its life.
#[derive(PartialEq, Eq, Structural, Debug, Clone, Copy)]
pub enum Link {
    Disconnected,
    Connecting,
    Connected,
    /// Ended cleanly, by either side.
    Closed,
    /// Ended by an error.
    Failed,
}

/// What happened to a connection.
#[derive(PartialEq, Eq, Structural, Debug, Clone, Copy)]
pub enum Event {
    /// The caller asks to connect.
    Dial,
    /// The socket is open.
    Opened,
    /// The socket could not be opened.
    DialFailed,
    /// A read failed.
    ReadFailed,
    /// A line read could not be parsed.
    ParseFailed(MessageError),
    /// The peer closed the stream.
    EndOfStream,
    /// The caller asks to close.
    Close,
}

/// What the caller is to do next.
#[derive(PartialEq, Eq, Structural, Debug, Clone, Copy)]
pub enum Action {
    Nothing,
    /// Open the socket.
    StartConnect,
    /// Install the socket as the write channel, send the pending writes in
    /// order, and start reading.
    FlushPending,
    /// Report this on the error channel and stop reading.
    Report(Error),
    /// Shut the socket down in both directions.
    Shutdown,
}

/// Whether the connection has ended.
pub open spec fn terminal(l: Link) -> bool {
    l == Link::Closed || l == Link::Failed
}

/// The next state of a connection in state `l` on `e`, and what to do.
pub open spec fn next(l: Link, e: Event) -> (Link, Action) {
    match (l, e) {
        (Link::Disconnected, Event::Dial) => (Link::Connecting, Action::StartConnect),
        (Link::Connecting, Event::Opened) => (Link::Connected, Action::FlushPending),
        (Link::Connecting, Event::DialFailed) => (Link::Failed, Action::Report(Error::CannotConnect)),
        (Link::Connected, Event::ReadFailed) => (Link::Failed, Action::Report(Error::CannotRead)),
        (Link::Connected, Event::ParseFailed(p)) => (
            Link::Failed,
            Action::Report(Error::ParseError(p)),
        ),
        (Link::Connected, Event::EndOfStream) => (Link::Closed, Action::Report(Error::EndOfStream)),
        (Link::Connecting, Event::Close) => (Link::Closed, Action::Shutdown),
        (Link::Connected, Event::Close) => (Link::Closed, Action::Shutdown),
        (Link::Disconnected, Event::Close) => (Link::Closed, Action::Nothing),
        _ => (l, Action::Nothing),
    }
}

impl Link {
    /// Moves the connection on by one event.
    pub fn step(self, e: Event) -> (r: (Link, Action))
        ensures
            r == next(self, e),
    {
        match (self, e) {
            (Link::Disconnected, Event::Dial) => (Link::Connecting, Action::StartConnect),
            (Link::Connecting, Event::Opened) => (Link::Connected, Action::FlushPending),
            (Link::Connecting, Event::DialFailed) => (
                Link::Failed,
                Action::Report(Error::CannotConnect),
            ),
            (Link::Connected, Event::ReadFailed) => (Link::Failed, Action::Report(Error::CannotRead)),
            (Link::Connected, Event::ParseFailed(p)) => (
                Link::Failed,
                Action::Report(Error::ParseError(p)),
            ),
            (Link::Connected, Event::EndOfStream) => (
                Link::Closed,
                Action::Report(Error::EndOfStream),
            ),
            (Link::Connecting, Event::Close) => (Link::Closed, Action::Shutdown),
            (Link::Connected, Event::Close) => (Link::Closed, Action::Shutdown),
            (Link::Disconnected, Event::Close) => (Link::Closed, Action::Nothing),
            _ => (self, Action::Nothing),
        }
    }
}

/// A connection reports at most one error: every report ends it, and an
/// ended connection neither changes nor acts again, so closing it twice is
/// harmless.
pub proof fn lemma_one_report(l: Link, e: Event)
    ensures
        next(l, e).1 is Report ==> terminal(next(l, e).0) && !terminal(l),
        terminal(l) ==> next(l, e) == (l, Action::Nothing),
{
}

/// Writes waiting for the write channel, and whether it is installed.
#[derive(Debug)]
pub struct Outbox {
    installed: bool,
    pending: VecDeque<Vec<u8>>,
}

impl Outbox {
    /// Whether the write channel is installed.
    pub closed spec fn is_open(&self) -> bool {
        self.installed
    }

    /// The writes waiting, oldest first.
    pub closed spec fn waiting(&self) -> Seq<Seq<u8>> {
        self.pending@.map_values(|b: Vec<u8>| b@)
    }

    /// An outbox with no write channel and nothing waiting.
    pub fn new() -> (r: Outbox)
        ensures
            !r.is_open(),
            r.waiting() == Seq::<Seq<u8>>::empty(),
    {
        let r = Outbox { installed: false, pending: VecDeque::new() };
        assert(r.waiting() =~= Seq::<Seq<u8>>::empty());
        r
    }

    /// Takes one write. Once the channel is installed the bytes are handed
    /// back to be sent at once; before that they wait, in order.
    pub fn write(&mut self, data: &[u8]) -> (r: Option<Vec<u8>>)
        ensures
            final(self).is_open() == old(self).is_open(),
            old(self).is_open() ==> r is Some && r.unwrap()@ == data@ && final(self).waiting()
                == old(self).waiting(),
            !old(self).is_open() ==> r is None && final(self).waiting() == old(self).waiting().push(
                data@,
            ),
    {
        let bytes = slice_to_vec(data);
        if self.installed {
            Some(bytes)
        } else {
            let ghost before = self.pending@;
            self.pending.push_back(bytes);
            assert(self.pending@.map_values(|b: Vec<u8>| b@) =~= before.map_values(
                |b: Vec<u8>| b@,
            ).push(data@));
            None
        }
    }

    /// Installs the write channel and hands back, in order, everything that
    /// was waiting, to be sent before any later write.
    pub fn install(&mut self) -> (r: Vec<Vec<u8>>)
        ensures
            final(self).is_open(),
            final(self).waiting() == Seq::<Seq<u8>>::empty(),
            r@.map_values(|b: Vec<u8>| b@) == old(self).waiting(),
    {
        let mut out: Vec<Vec<u8>> = Vec::new();
        let ghost all = self.pending@;
        while self.pending.len() > 0
            invariant
                all == out@ + self.pending@,
            decreases self.pending@.len(),
        {
            match self.pending.pop_front() {
                Some(b) => {
                    out.push(b);
                },
                None => {},
            }
            assert(all =~= out@ + self.pending@);
        }
        self.installed = true;
        assert(out@ =~= all);
        assert(self.pending@.map_values(|b: Vec<u8>| b@) =~= Seq::<Seq<u8>>::empty());
        out
    }
}

/// Handles one line read from the connection: a line that does not parse
/// ends the connection with that error and leaves the session unchanged;
/// otherwise the message is applied to the session and stored in its
/// backlog with capture time `stamp`, and the line to send back, if any,
/// is returned.
pub fn on_line(state: &mut State, stamp: u64, line: &str) -> (r: Result<Option<String>, Error>)
    requires
        old(state).wf(),
    ensures
        final(state).wf(),
        final(state).log_capacity() == old(state).log_capacity(),
        match parse_message(line@) {
            Err(e) => r == Err::<Option<String>, Error>(Error::ParseError(e)) && *final(state)
                == *old(state),
            Ok(m) => {
                let red = reduce(old(state).nick_view(), old(state).dir(), m);
                &&& r is Ok
                &&& final(state).nick_view() == red.nickname
                &&& final(state).dir() == red.channels
                &&& match r {
                    Ok(Some(out)) => red.reply == Some(out@),
                    _ => red.reply is None,
                }
                &&& old(state).log_capacity() == 0 ==> final(state).log() == old(state).log()
                &&& old(state).log_capacity() > 0 ==> {
                    &&& final(state).log().len() > 0
                    &&& final(state).log().last().0 == stamp
                    &&& final(state).log().last().1@ == m
                    &&& final(state).log() == pushed(
                        old(state).log_capacity(),
                        old(state).log(),
                        final(state).log().last(),
                    )
                }
            },
        },
{
    match Message::parse(line) {
        Err(e) => Err(Error::ParseError(e)),
        Ok(msg) => {
            let r = state.receive(stamp, msg);
            Ok(r)
        },
    }
}

} // verus!
