use riirc::boundedset::BoundedSet;
use riirc::history::History;
use riirc::inputbuffer::{Command, InputBuffer, Move, MoveableCursor};
use std::cell::RefCell;
use std::sync::Arc;

#[test]
fn bounded_set_keeps_distinct_newest() {
    let mut set = BoundedSet::new(2);
    assert_eq!(set.insert("a".to_string()), None);
    assert_eq!(set.insert("a".to_string()), None);
    assert_eq!(set.len(), 1);
    assert_eq!(set.insert("b".to_string()), None);
    assert_eq!(set.insert("c".to_string()), Some("a".to_string()));
    let items: Vec<String> = set.iter().into_iter().cloned().collect();
    assert_eq!(items, vec!["b".to_string(), "c".to_string()]);
    set.clear();
    assert!(set.is_empty());
}

#[test]
fn history_walks_back_and_forth() {
    let mut h = History::new();
    assert_eq!(h.backward(), None);
    assert_eq!(h.forward(), None);
    h.append("one");
    h.append("two");
    h.append("three");
    assert_eq!(h.backward(), Some(&"three".to_string()));
    assert_eq!(h.backward(), Some(&"two".to_string()));
    assert_eq!(h.backward(), Some(&"one".to_string()));
    assert_eq!(h.backward(), None);
    assert_eq!(h.backward(), None);
    assert_eq!(h.forward(), Some(&"one".to_string()));
    assert_eq!(h.forward(), Some(&"two".to_string()));
    assert_eq!(h.forward(), Some(&"three".to_string()));
    assert_eq!(h.forward(), Some(&"three".to_string()));
    h.append("two");
    assert_eq!(h.prev(), Some(&"three".to_string()));
    assert_eq!(h.next(), Some(&"three".to_string()));
    h.clear();
    assert_eq!(h.prev(), None);
}

#[test]
fn history_forward_before_any_step_shows_nothing() {
    let mut h = History::new();
    h.append("x");
    assert_eq!(h.forward(), None);
}

#[test]
fn history_keeps_thirty_two_lines() {
    let mut h = History::new();
    for i in 0..40 {
        h.append(&format!("line{}", i));
    }
    let mut seen = 0;
    while h.backward().is_some() {
        seen += 1;
    }
    assert_eq!(seen, 32);
}

#[derive(Default)]
struct Screen {
    cursor: RefCell<usize>,
    text: RefCell<Vec<char>>,
}

impl MoveableCursor for Screen {
    fn move_cursor(&self, pos: usize) {
        *self.cursor.borrow_mut() = pos;
    }
    fn clear(&self) {
        self.text.borrow_mut().clear();
    }
    fn delete_at(&self, pos: usize) {
        let mut t = self.text.borrow_mut();
        if pos < t.len() {
            t.remove(pos);
        }
    }
    fn insert_at(&self, pos: usize, ch: char) {
        let mut t = self.text.borrow_mut();
        let at = if pos < t.len() { pos } else { t.len() };
        t.insert(at, ch);
    }
}

fn typed(s: &str) -> InputBuffer<Screen> {
    let mut b = InputBuffer::new(80, Arc::new(Screen::default()));
    for c in s.chars() {
        b.handle_command(&Command::Append(c));
    }
    b
}

fn line(b: &InputBuffer<Screen>) -> String {
    b.line().iter().collect()
}

#[test]
fn appending_builds_the_line() {
    let b = typed("hello");
    assert_eq!(line(&b), "hello");
    assert_eq!(b.display(), &['h', 'e', 'l', 'l', 'o']);
}

#[test]
fn display_shows_last_width_chars() {
    let mut b = InputBuffer::new(3, Arc::new(Screen::default()));
    for c in "abcdef".chars() {
        b.handle_command(&Command::Append(c));
    }
    assert_eq!(b.display(), &['d', 'e', 'f']);
}

#[test]
fn word_motions() {
    let mut b = typed("foo bar, baz");
    b.handle_command(&Command::Move(Move::StartOfLine));
    b.handle_command(&Command::Move(Move::ForwardWord));
    b.handle_command(&Command::Insert(0, '>'));
    assert_eq!(line(&b), ">foo bar, baz");
    let mut b = typed("foo bar");
    b.handle_command(&Command::Move(Move::BackwardWord));
    b.handle_command(&Command::Delete(Move::EndOfLine));
    assert_eq!(line(&b), "foo ");
}

#[test]
fn delete_backward_and_forward() {
    let mut b = typed("abc");
    b.handle_command(&Command::Delete(Move::Backward));
    assert_eq!(line(&b), "ab");
    b.handle_command(&Command::Move(Move::StartOfLine));
    b.handle_command(&Command::Delete(Move::Forward));
    assert_eq!(line(&b), "b");
    b.handle_command(&Command::Delete(Move::Backward));
    assert_eq!(line(&b), "b");
}

#[test]
fn delete_to_start() {
    let mut b = typed("hello world");
    b.handle_command(&Command::Move(Move::Exact(5)));
    b.handle_command(&Command::Delete(Move::StartOfLine));
    assert_eq!(line(&b), " world");
}

#[test]
fn swap_case_of_word() {
    let mut b = typed("hello world");
    b.handle_command(&Command::Move(Move::StartOfLine));
    b.handle_command(&Command::SwapCase(Move::EndOfLine));
    assert_eq!(line(&b), "HELLO WORLD");
    b.handle_command(&Command::SwapCase(Move::EndOfLine));
    assert_eq!(line(&b), "hello world");
}

#[test]
fn insert_past_end_appends() {
    let mut b = typed("ab");
    b.handle_command(&Command::Insert(10, 'c'));
    assert_eq!(line(&b), "abc");
    b.handle_command(&Command::Insert(0, 'z'));
    assert_eq!(line(&b), "zabc");
}

#[test]
fn recall_brings_back_lines() {
    let mut b = typed("first");
    b.add_history();
    b.clear();
    assert_eq!(line(&b), "");
    for c in "second".chars() {
        b.handle_command(&Command::Append(c));
    }
    b.add_history();
    b.clear();
    b.handle_command(&Command::Recall(Move::Backward));
    assert_eq!(line(&b), "second");
    b.handle_command(&Command::Recall(Move::Backward));
    assert_eq!(line(&b), "first");
    b.handle_command(&Command::Recall(Move::Forward));
    assert_eq!(line(&b), "second");
    b.handle_command(&Command::Append('!'));
    assert_eq!(line(&b), "second!");
    b.clear_history();
    b.handle_command(&Command::Recall(Move::Backward));
    assert_eq!(line(&b), "second!");
}
