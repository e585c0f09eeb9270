use riirc::client::{on_line, Error as LinkError};
use riirc::command::Error as CommandError;
use riirc::message::{Error as MessageError, Message};
use riirc::state::{State, MAX_BACKLOG};

fn msg(line: &str) -> Message {
    Message::parse(line).unwrap()
}

fn members(state: &State, channel: &str) -> Vec<String> {
    let mut v = state.channels().get(channel).unwrap().users();
    v.sort();
    v
}

#[test]
fn welcome_join_and_privmsg_in_order() {
    let mut state = State::new();
    let lines = [
        ":irc.server 001 alice :Welcome to the network",
        ":alice!a@host JOIN #test",
        ":bob!b@host JOIN #test",
        ":bob!b@host PRIVMSG #test :hello",
    ];
    let mut stamp: u64 = 10;
    for line in lines.iter() {
        assert_eq!(on_line(&mut state, stamp, line), Ok(None));
        stamp += 5;
    }
    assert_eq!(state.nickname(), Some("alice".to_string()));
    assert!(state.channels().contains("#test"));
    assert_eq!(members(&state, "#test"), vec!["alice".to_string(), "bob".to_string()]);

    let mut last: u64 = 0;
    for line in lines.iter() {
        let (t, m) = state.next_message().unwrap();
        assert!(t >= last);
        last = t;
        assert_eq!(m, msg(line));
    }
    assert!(state.next_message().is_none());
}

#[test]
fn self_part_removes_channel() {
    let mut state = State::new();
    state.update(&msg(":irc 001 alice :hi"));
    state.update(&msg(":alice!a@h JOIN #a"));
    state.update(&msg(":alice!a@h JOIN #b"));
    state.update(&msg(":alice!a@h PART #a"));
    assert!(!state.channels().contains("#a"));
    assert!(state.channels().contains("#b"));
    assert_eq!(state.channels().list(), vec!["#b".to_string()]);
}

#[test]
fn other_quit_clears_member_everywhere() {
    let mut state = State::new();
    state.update(&msg(":irc 001 alice :hi"));
    state.update(&msg(":alice!a@h JOIN #a"));
    state.update(&msg(":alice!a@h JOIN #b"));
    state.update(&msg(":bob!b@h JOIN #a"));
    state.update(&msg(":bob!b@h JOIN #b"));
    state.update(&msg(":bob!b@h QUIT :gone"));
    assert!(state.channels().contains("#a"));
    assert!(state.channels().contains("#b"));
    assert_eq!(members(&state, "#a"), vec!["alice".to_string()]);
    assert_eq!(members(&state, "#b"), vec!["alice".to_string()]);
}

#[test]
fn other_part_removes_only_that_member() {
    let mut state = State::new();
    state.update(&msg(":irc 001 alice :hi"));
    state.update(&msg(":alice!a@h JOIN #a"));
    state.update(&msg(":bob!b@h JOIN #a"));
    state.update(&msg(":bob!b@h PART #a :bye"));
    assert_eq!(members(&state, "#a"), vec!["alice".to_string()]);
}

#[test]
fn join_to_unknown_channel_is_dropped() {
    let mut state = State::new();
    state.update(&msg(":irc 001 alice :hi"));
    state.update(&msg(":bob!b@h JOIN #nowhere"));
    assert!(!state.channels().contains("#nowhere"));
}

#[test]
fn nick_changes() {
    let mut state = State::new();
    assert_eq!(state.nickname(), None);
    state.update(&msg(":irc 001 alice :hi"));
    state.update(&msg(":alice!a@h JOIN #a"));
    state.update(&msg(":bob!b@h JOIN #a"));
    state.update(&msg(":bob!b@h NICK robert"));
    assert_eq!(members(&state, "#a"), vec!["alice".to_string(), "robert".to_string()]);
    state.update(&msg(":alice!a@h NICK alicia"));
    assert_eq!(state.nickname(), Some("alicia".to_string()));
}

#[test]
fn ping_is_answered_with_pong() {
    let mut state = State::new();
    assert_eq!(state.update(&msg("PING :abc")), Some("PONG :abc\r\n".to_string()));
    assert_eq!(state.nickname(), None);
}

#[test]
fn nickname_collision_retries_with_underscore() {
    let mut state = State::new();
    assert_eq!(
        state.update(&msg(":irc 433 * alice :Nickname is already in use")),
        Some("NICK alice_\r\n".to_string())
    );
}

#[test]
fn bad_line_is_reported_and_changes_nothing() {
    let mut state = State::new();
    assert_eq!(
        on_line(&mut state, 1, "QUIT nope"),
        Err(LinkError::ParseError(MessageError::CommandError(CommandError::MissingData)))
    );
    assert!(state.next_message().is_none());
}

#[test]
fn backlog_of_session_is_bounded() {
    let mut state = State::with_backlog(2);
    for i in 0..5u64 {
        let line = format!("PING :{}", i);
        let _ = on_line(&mut state, i, &line);
    }
    assert_eq!(state.next_message().unwrap().0, 3);
    assert_eq!(state.next_message().unwrap().0, 4);
    assert!(state.next_message().is_none());
    assert_eq!(MAX_BACKLOG, 512);
}

#[test]
fn channel_topic_and_membership() {
    let mut c = riirc::channel::Channel::new();
    assert_eq!(c.topic(), None);
    c.set_topic("news");
    assert_eq!(c.topic(), Some("news".to_string()));
    c.add("x");
    c.add("x");
    assert_eq!(c.users(), vec!["x".to_string()]);
    c.update("x", "y");
    assert!(c.contains("y"));
    assert!(!c.contains("x"));
    c.remove("y");
    assert!(c.users().is_empty());
}

#[test]
fn members_are_listed_in_order() {
    let mut c = riirc::channel::Channel::new();
    c.add("zed");
    c.add("amy");
    c.add("Bob");
    c.add("bob");
    assert_eq!(
        c.users(),
        vec!["Bob".to_string(), "amy".to_string(), "bob".to_string(), "zed".to_string()]
    );
}
