use riirc::client::{Action, Error, Event, Link, Outbox};
use riirc::ircclient::{
    format_join, format_join_many, format_nick, format_part, format_part_many, format_pass,
    format_ping, format_pong, format_privmsg, format_quit, format_user, join_with, IrcClient,
};
use std::cell::RefCell;

#[test]
fn lines_are_crlf_terminated() {
    assert_eq!(format_privmsg("#a", "hi there"), "PRIVMSG #a :hi there\r\n");
    assert_eq!(format_pass("pw"), "PASS pw\r\n");
    assert_eq!(format_user("Real Name", "me"), "USER me 8 * :Real Name\r\n");
    assert_eq!(format_nick("me"), "NICK me\r\n");
    assert_eq!(format_ping("t"), "PING t\r\n");
    assert_eq!(format_pong("t"), "PONG t\r\n");
    assert_eq!(format_quit(None), "QUIT :bye\r\n");
    assert_eq!(format_quit(Some("later")), "QUIT :later\r\n");
    assert_eq!(format_join("#a", None), "JOIN #a\r\n");
    assert_eq!(format_join("#a", Some("k")), "JOIN #a k\r\n");
    assert_eq!(format_part("#a", "bye"), "PART #a :bye\r\n");
}

#[test]
fn many_channels_are_comma_joined() {
    let chans = vec!["#a".to_string(), "#b".to_string()];
    let keys = vec!["k1".to_string(), "k2".to_string()];
    assert_eq!(format_join_many(&chans, Some(&keys)), "JOIN #a,#b k1,k2\r\n");
    assert_eq!(format_join_many(&chans, None), "JOIN #a,#b\r\n");
    assert_eq!(format_part_many(&chans, "bye"), "PART #a,#b :bye\r\n");
    assert_eq!(join_with(&Vec::new(), ","), "");
    assert_eq!(join_with(&vec!["x".to_string()], ","), "x");
}

struct Recorder {
    lines: RefCell<Vec<String>>,
    closed: RefCell<bool>,
}

impl IrcClient for Recorder {
    fn write(&self, data: &[u8]) {
        self.lines.borrow_mut().push(String::from_utf8(data.to_vec()).unwrap());
    }
    fn close(&self) {
        *self.closed.borrow_mut() = true;
    }
}

#[test]
fn client_writes_one_line_per_operation_and_quit_closes() {
    let r = Recorder { lines: RefCell::new(Vec::new()), closed: RefCell::new(false) };
    r.nick("me");
    r.join("#a", None);
    r.privmsg("#a", "hello");
    r.quit(None);
    assert_eq!(
        *r.lines.borrow(),
        vec!["NICK me\r\n", "JOIN #a\r\n", "PRIVMSG #a :hello\r\n", "QUIT :bye\r\n"]
    );
    assert!(*r.closed.borrow());
}

#[test]
fn writes_before_install_wait_in_order() {
    let mut out = Outbox::new();
    assert_eq!(out.write(b"one\r\n"), None);
    assert_eq!(out.write(b"two\r\n"), None);
    assert_eq!(out.install(), vec![b"one\r\n".to_vec(), b"two\r\n".to_vec()]);
    assert_eq!(out.write(b"three\r\n"), Some(b"three\r\n".to_vec()));
    assert!(out.install().is_empty());
}

#[test]
fn link_lifecycle() {
    let (l, a) = Link::Disconnected.step(Event::Dial);
    assert_eq!((l, a), (Link::Connecting, Action::StartConnect));
    let (l, a) = l.step(Event::Opened);
    assert_eq!((l, a), (Link::Connected, Action::FlushPending));
    let (l, a) = l.step(Event::EndOfStream);
    assert_eq!((l, a), (Link::Closed, Action::Report(Error::EndOfStream)));
    assert_eq!(l.step(Event::Close), (Link::Closed, Action::Nothing));
    assert_eq!(l.step(Event::ReadFailed), (Link::Closed, Action::Nothing));
}

#[test]
fn link_failures_are_reported_once() {
    assert_eq!(
        Link::Connecting.step(Event::DialFailed),
        (Link::Failed, Action::Report(Error::CannotConnect))
    );
    let (l, a) = Link::Connected.step(Event::ReadFailed);
    assert_eq!((l, a), (Link::Failed, Action::Report(Error::CannotRead)));
    assert_eq!(l.step(Event::EndOfStream), (Link::Failed, Action::Nothing));
    assert_eq!(Link::Connected.step(Event::Close), (Link::Closed, Action::Shutdown));
}
