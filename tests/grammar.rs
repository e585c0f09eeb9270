use riirc::command::{Command, Error};
use riirc::message::{Error as MessageError, Message};
use riirc::prefix::{Error as PrefixError, Prefix};

fn strings(v: &[&str]) -> Vec<String> {
    v.iter().map(|s| s.to_string()).collect()
}

#[test]
fn parse_privmsg() {
    let input = "PRIVMSG #testchannel :this is a message";
    let command = Command::parse(input);
    assert_eq!(
        command,
        Ok(Command::Privmsg {
            target: "#testchannel".into(),
            data: "this is a message".into(),
            is_notice: false
        })
    );

    let input = "PRIVMSG #testchannel";
    let command = Command::parse(input);
    assert_eq!(command, Err(Error::MissingData));

    let input = "PRIVMSG #testchannel :";
    let command = Command::parse(input);
    assert_eq!(command, Err(Error::MissingData));

    let input = "PRIVMSG :this is a test";
    let command = Command::parse(input);
    assert_eq!(command, Err(Error::MissingTarget));
}

#[test]
fn parse_notice() {
    let input = "NOTICE #testchannel :this is a message";
    let command = Command::parse(input);
    assert_eq!(
        command,
        Ok(Command::Privmsg {
            target: "#testchannel".into(),
            data: "this is a message".into(),
            is_notice: true
        })
    );
}

#[test]
fn parse_join() {
    let inputs = &[
        ("JOIN #test", ("#test", None)),
        ("JOIN #test,&channel", ("#test", None)),
        ("JOIN #test,&channel key1", ("#test", Some("key1"))),
        ("JOIN #test,&channel key1,key2", ("#test", Some("key1"))),
    ];

    for input in inputs {
        let command = Command::parse(input.0);
        assert_eq!(
            command,
            Ok(Command::Join {
                channel: (input.1).0.into(),
                key: (input.1).1.map(|s: &str| s.into()),
            })
        );
    }

    let command = Command::parse("JOIN ");
    assert_eq!(command, Err(Error::MissingTarget));
}

#[test]
fn parse_part() {
    let inputs = &[
        ("PART #test", ("#test", None)),
        ("PART #test,&channel", ("#test", None)),
        ("PART #test,&channel bye", ("#test", Some("bye"))),
    ];

    for input in inputs {
        let command = Command::parse(input.0);
        assert_eq!(
            command,
            Ok(Command::Part {
                channel: (input.1).0.into(),
                reason: (input.1).1.map(|s: &str| s.into()),
            })
        );
    }

    let command = Command::parse("PART ");
    assert_eq!(command, Err(Error::MissingTarget));
}

#[test]
fn parse_quit() {
    let input = "QUIT :this is a quit message";
    let command = Command::parse(input);
    assert_eq!(
        command,
        Ok(Command::Quit {
            reason: "this is a quit message".into()
        })
    );

    let command = Command::parse("QUIT this is a bad message");
    assert_eq!(command, Err(Error::MissingData));
}

#[test]
fn parse_nick() {
    let input = "NICK test_user";
    let command = Command::parse(input);
    assert_eq!(
        command,
        Ok(Command::Nick {
            nickname: "test_user".into()
        })
    );

    let command = Command::parse("NICK ");
    assert_eq!(command, Err(Error::InvalidNickname));
}

#[test]
fn parse_ping() {
    let inputs = &[("PING test", "test"), ("PING :test", ":test")];
    for input in inputs {
        assert_eq!(
            Command::parse(input.0),
            Ok(Command::Ping {
                token: input.1.into()
            })
        );
    }
}

#[test]
fn parse_pong() {
    let inputs = &[("PONG test", "test"), ("PONG :test", ":test")];
    for input in inputs {
        assert_eq!(
            Command::parse(input.0),
            Ok(Command::Pong {
                target: input.1.into()
            })
        );
    }
}

#[test]
fn parse_error() {
    assert_eq!(
        Command::parse("ERROR :test"),
        Ok(Command::Error {
            message: "test".into()
        })
    );

    assert_eq!(Command::parse("ERROR test"), Err(Error::MissingData));
}

#[test]
fn parse_reply() {
    assert_eq!(
        Command::parse("001 :Welcome to the Internet Relay Network test!user@localhost"),
        Ok(Command::Reply {
            numeric: 1,
            params: vec!["Welcome to the Internet Relay Network test!user@localhost".into()]
        })
    );

    assert_eq!(
        Command::parse("312 user irc.localhost :some info"),
        Ok(Command::Reply {
            numeric: 312,
            params: strings(&["user", "irc.localhost", "some info"])
        })
    );
}

#[test]
fn parse_other() {
    assert_eq!(
        Command::parse("WHOIS eff.org trillian"),
        Ok(Command::Other {
            command: "WHOIS".into(),
            params: strings(&["eff.org", "trillian"])
        })
    );
    assert_eq!(
        Command::parse("USER guest 0 * :Some user"),
        Ok(Command::Other {
            command: "USER".into(),
            params: strings(&["guest", "0", "*", "Some user"])
        })
    );
}

#[test]
fn parse_message() {
    let inputs = &[
        ":tmi.twitch.tv CAP * LS :twitch.tv/tags twitch.tv/commands twitch.tv/membership",
        ":tmi.twitch.tv 001 museun :Welcome, GLHF!",
        ":tmi.twitch.tv 002 museun :Your host is tmi.twitch.tv",
        ":tmi.twitch.tv 003 museun :This server is rather new",
        ":tmi.twitch.tv 004 museun :-",
        ":tmi.twitch.tv 375 museun :-",
        ":tmi.twitch.tv 372 museun :You are in a maze of twisty passages, all alike.",
        ":tmi.twitch.tv 376 museun :>",
        ":tmi.twitch.tv CAP * ACK :twitch.tv/membership",
        ":museun!museun@museun.tmi.twitch.tv JOIN #museun",
        ":museun.tmi.twitch.tv 353 museun = #museun :museun",
        ":museun.tmi.twitch.tv 366 museun #museun :End of /NAMES list",
        ":tmi.twitch.tv 421 museun WHO :Unknown command",
    ];

    for input in inputs {
        let msg = Message::parse(input);
        assert!(msg.is_ok());
    }
}

#[test]
fn parse_user() {
    let input = ":testuser{12}!user~@local.host ";
    let prefix = Prefix::parse(input);
    match prefix {
        Ok((Prefix::User { nick, user, host }, _)) => {
            assert_eq!(nick, "testuser{12}");
            assert_eq!(user, "user~");
            assert_eq!(host, "local.host");
        }
        Ok((Prefix::Server { .. }, _)) => panic!("parsed server prefix"),
        Err(err) => panic!("failed to parse user prefix: {:?}", err),
    }

    let input = "testuser!user@host ";
    let prefix = Prefix::parse(input);
    assert_eq!(prefix, Err(PrefixError::MissingLead));

    let input = ":testuser!user ";
    let prefix = Prefix::parse(input);
    assert_eq!(prefix, Err(PrefixError::MissingHost));

    let input = ":invalidmessage";
    let prefix = Prefix::parse(input);
    assert_eq!(prefix, Err(PrefixError::MissingPrefix));
}

#[test]
fn parse_server() {
    let input = ":irc.test.server ";
    let prefix = Prefix::parse(input);
    match prefix {
        Ok((Prefix::Server { host }, _)) => {
            assert_eq!(host, "irc.test.server");
        }
        Ok((Prefix::User { .. }, _)) => panic!("parsed user prefix"),
        Err(err) => panic!("failed to parse server prefix: {:?}", err),
    }
}

#[test]
fn prefix_examples() {
    assert_eq!(Prefix::parse("nick!user@host "), Err(PrefixError::MissingLead));
    assert_eq!(Prefix::parse(""), Err(PrefixError::MissingLead));
    assert_eq!(
        Prefix::parse(":nick!user@host "),
        Ok((
            Prefix::User {
                nick: "nick".into(),
                user: "user".into(),
                host: "host".into()
            },
            15
        ))
    );
    assert_eq!(
        Prefix::parse(":server.name "),
        Ok((Prefix::Server { host: "server.name".into() }, 12))
    );
}

#[test]
fn prefix_host_separator_after_user_separator() {
    assert_eq!(Prefix::parse(":a@b!c "), Err(PrefixError::MissingHost));
}

#[test]
fn unrecognized_verb_without_trailing() {
    assert_eq!(
        Command::parse("FOO bar baz"),
        Ok(Command::Other {
            command: "FOO".into(),
            params: strings(&["bar", "baz"])
        })
    );
}

#[test]
fn empty_nickname_is_rejected() {
    assert_eq!(Command::parse("NICK "), Err(Error::InvalidNickname));
}

#[test]
fn verb_without_space() {
    assert_eq!(Command::parse("PING"), Err(Error::MissingCommand));
}

#[test]
fn only_three_digits_make_a_reply() {
    assert_eq!(
        Command::parse("4321 x"),
        Ok(Command::Other {
            command: "4321".into(),
            params: strings(&["x"])
        })
    );
    assert_eq!(
        Command::parse("433 * bob :Nickname is already in use"),
        Ok(Command::Reply {
            numeric: 433,
            params: strings(&["*", "bob", "Nickname is already in use"])
        })
    );
}

#[test]
fn part_reason_is_the_remainder() {
    assert_eq!(
        Command::parse("PART #a see you later"),
        Ok(Command::Part {
            channel: "#a".into(),
            reason: Some("see you later".into())
        })
    );
}

#[test]
fn trailing_whitespace_is_trimmed() {
    assert_eq!(
        Command::parse("PING  tok \t"),
        Ok(Command::Ping { token: "tok".into() })
    );
}

#[test]
fn message_errors() {
    assert_eq!(
        Message::parse(":nospace"),
        Err(MessageError::PrefixError(PrefixError::MissingPrefix))
    );
    assert_eq!(
        Message::parse(":a!b@c QUIT bye"),
        Err(MessageError::CommandError(Error::MissingData))
    );
    let m = Message::parse(":a!b@c PRIVMSG #x :hi there").unwrap();
    assert_eq!(
        m.prefix,
        Some(Prefix::User {
            nick: "a".into(),
            user: "b".into(),
            host: "c".into()
        })
    );
    assert_eq!(m.nick(), Some(&"a".to_string()));
    let m = Message::parse("PING :tok").unwrap();
    assert_eq!(m.prefix, None);
    assert_eq!(m.command, Command::Ping { token: ":tok".into() });
}
