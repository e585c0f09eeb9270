use riirc::colors::{Color, ColorPair};
use riirc::keybinds::{Key, KeyKind, KeyRequest, KeyType, Keybinds, Mod};
use riirc::inputbuffer::{Command, Move};
use riirc::output::{format_stamp, Output, OutputBuilder};

#[test]
fn color_pairs() {
    let c = ColorPair::new(false, Color::Red, None);
    assert_eq!(c, ColorPair { bold: false, underline: false, fg: Color::Red, bg: Color::Black });
    let mut c = ColorPair::new(true, Color::Red, Some(Color::Blue));
    assert_eq!(c.bg, Color::Blue);
    let d = c.bold();
    assert!(!d.bold);
    assert_eq!(c, d);
    assert_eq!(
        Color::Green.bold(),
        ColorPair { bold: true, underline: false, fg: Color::Green, bg: Color::Black }
    );
}

#[test]
fn builder_records_styles_per_part() {
    let mut b = OutputBuilder::new();
    b.fg(Color::Red);
    b.bold();
    b.add("hi ");
    b.add("there");
    b.underline();
    b.bg(Color::Blue);
    b.add("!");
    let out = b.build();
    assert_eq!(out.data, "hi there!");
    assert_eq!(out.colors.len(), 3);
    assert_eq!(out.colors[0].0, 0..3);
    assert_eq!(
        out.colors[0].1,
        ColorPair { bold: true, underline: false, fg: Color::Red, bg: Color::Black }
    );
    assert_eq!(out.colors[1].0, 3..8);
    assert_eq!(
        out.colors[1].1,
        ColorPair { bold: false, underline: false, fg: Color::White, bg: Color::Black }
    );
    assert_eq!(out.colors[2].0, 8..9);
    assert_eq!(
        out.colors[2].1,
        ColorPair { bold: false, underline: true, fg: Color::White, bg: Color::Blue }
    );
}

#[test]
fn empty_builder_builds_nothing() {
    let out = Output::new().build();
    assert_eq!(out.data, "");
    assert!(out.colors.is_empty());
}

#[test]
fn byte_ranges_count_bytes() {
    let mut b = OutputBuilder::new();
    b.add("é");
    b.add("x");
    let out = b.build();
    assert_eq!(out.colors[1].0, 2..3);
}

#[test]
fn stamps() {
    assert_eq!(format_stamp(9, 5, 7), "090507 ");
    assert_eq!(format_stamp(23, 59, 0), "235900 ");
    let out = Output::stamp().build();
    assert_eq!(out.data.len(), 7);
    assert!(out.data.ends_with(' '));
    assert!(out.data[..6].chars().all(|c| c.is_ascii_digit()));
}

#[test]
fn key_codes() {
    assert_eq!(Key::parse(0x61), Some(Key { modifier: Mod::Plain, kind: KeyKind::Char('a') }));
    assert_eq!(Key::parse(0x41), Some(Key { modifier: Mod::Shift, kind: KeyKind::Char('a') }));
    assert_eq!(Key::parse(0x01), Some(Key { modifier: Mod::Ctrl, kind: KeyKind::Char('a') }));
    assert_eq!(Key::parse(0xECA1), Some(Key { modifier: Mod::Alt, kind: KeyKind::Char('a') }));
    assert_eq!(Key::parse(0x0A), Some(Key { modifier: Mod::Plain, kind: KeyKind::Enter }));
    assert_eq!(Key::parse(0x7F), Some(Key { modifier: Mod::Ctrl, kind: KeyKind::Backspace }));
    assert_eq!(Key::parse(0xED39), Some(Key { modifier: Mod::Ctrl, kind: KeyKind::Num(2) }));
    assert_eq!(Key::parse(0x31), Some(Key { modifier: Mod::Plain, kind: KeyKind::Other('1') }));
}

#[test]
fn key_names() {
    let k = Key::parse(0x0C).unwrap();
    assert_eq!(KeyType::from_key(k), KeyType::new("C-l"));
    let k = Key { modifier: Mod::Alt, kind: KeyKind::Num(12) };
    assert_eq!(KeyType::from_key(k).as_str(), "A-12");
    let k = Key { modifier: Mod::Plain, kind: KeyKind::Enter };
    assert_eq!(KeyType::from_key(k).as_str(), "");
}

#[test]
fn default_bindings() {
    let binds = Keybinds::default();
    assert_eq!(binds.get(&KeyType::new("C-l")), Some(&KeyRequest::Clear));
    assert_eq!(binds.get(&KeyType::new("C-9")), Some(&KeyRequest::SwitchBuffer9));
    assert_eq!(binds.get(&KeyType::new("")), None);
    assert_eq!(binds.lookup_key(&KeyType::new("")), Some(&KeyRequest::SwapCaseForward));
    assert_eq!(binds.lookup(KeyRequest::MoveEnd), Some(&KeyType::new("C-e")));
    assert_eq!(binds.iter().len(), 34);
}

#[test]
fn rebinding() {
    let mut binds = Keybinds::default();
    binds.insert(KeyType::new("C-x"), KeyRequest::Clear);
    assert_eq!(binds.get(&KeyType::new("C-x")), Some(&KeyRequest::Clear));
    assert_eq!(binds.get(&KeyType::new("C-l")), None);
    assert_eq!(binds.lookup(KeyRequest::Clear), Some(&KeyType::new("C-x")));
}

#[test]
fn request_names() {
    assert_eq!(KeyRequest::parse("move_forward_word"), Some(KeyRequest::MoveForwardWord));
    assert_eq!(KeyRequest::parse("clear"), Some(KeyRequest::Clear));
    assert_eq!(KeyRequest::parse("switch_buffer_3"), Some(KeyRequest::SwitchBuffer3));
    assert_eq!(KeyRequest::parse("SwapCaseEnd"), Some(KeyRequest::SwapCaseEnd));
    assert_eq!(KeyRequest::parse("nothing"), None);
    assert_eq!(KeyRequest::parse(""), None);
}

#[test]
fn requests_as_edit_commands() {
    assert_eq!(KeyRequest::DeleteBackwardWord.edit_command(), Some(Command::Delete(Move::BackwardWord)));
    assert_eq!(KeyRequest::RecallForward.edit_command(), Some(Command::Recall(Move::Forward)));
    assert_eq!(KeyRequest::Clear.edit_command(), None);
}

#[test]
fn config_accessors() {
    let c = riirc::config::Config {
        server: "irc.example.net:6667".to_string(),
        nick: "me".to_string(),
        user: "user".to_string(),
        real: "Real Name".to_string(),
        pass: "secret".to_string(),
        keybinds: Keybinds::default(),
    };
    assert_eq!(c.server(), "irc.example.net:6667");
    assert_eq!(c.nick(), "me");
    assert_eq!(c.user(), "user");
    assert_eq!(c.real_name(), "Real Name");
    assert_eq!(c.pass(), "secret");
    assert_eq!(c.keybinds(), &Keybinds::default());
}
