use mcfly::command_input::{CommandInput, Move, WordLocation};

fn input(s: &str) -> CommandInput {
    CommandInput::from(s)
}

#[test]
fn from_puts_cursor_at_end() {
    let i = input("héllo");
    assert_eq!(i.command, "héllo");
    assert_eq!(i.len, 5);
    assert_eq!(i.cursor, 5);
    let e = input("e\u{301}x");
    assert_eq!(e.len, 2);
}

#[test]
fn moving_the_cursor_stays_in_bounds() {
    let mut i = input("abc");
    i.move_cursor(Move::Forward);
    assert_eq!(i.cursor, 3);
    i.move_cursor(Move::Backward);
    assert_eq!(i.cursor, 2);
    i.move_cursor(Move::BOL);
    assert_eq!(i.cursor, 0);
    i.move_cursor(Move::Backward);
    assert_eq!(i.cursor, 0);
    i.move_cursor(Move::EOL);
    assert_eq!(i.cursor, 3);
    i.move_cursor(Move::BackwardWord);
    assert_eq!(i.cursor, 3);
    i.move_cursor(Move::ForwardWord(WordLocation::Start));
    assert_eq!(i.cursor, 3);
}

#[test]
fn deleting_backward_and_forward() {
    let mut i = input("abcd");
    i.move_cursor(Move::Backward);
    i.delete(Move::Backward);
    assert_eq!(i.command, "abd");
    assert_eq!(i.cursor, 2);
    i.delete(Move::Forward);
    assert_eq!(i.command, "ab");
    assert_eq!(i.cursor, 2);
    i.delete(Move::Forward);
    assert_eq!(i.command, "ab");
    i.move_cursor(Move::BOL);
    i.delete(Move::Backward);
    assert_eq!(i.command, "ab");
    assert_eq!(i.cursor, 0);
}

#[test]
fn deleting_to_the_ends() {
    let mut i = input("hello world");
    i.move_cursor(Move::BOL);
    for _ in 0..5 {
        i.move_cursor(Move::Forward);
    }
    let mut j = input("hello world");
    j.cursor = 5;
    j.delete(Move::EOL);
    assert_eq!(j.command, "hello");
    assert_eq!(j.cursor, 5);
    i.delete(Move::BOL);
    assert_eq!(i.command, " world");
    assert_eq!(i.cursor, 0);
}

#[test]
fn inserting_at_the_cursor() {
    let mut i = input("ac");
    i.move_cursor(Move::Backward);
    i.insert('b');
    assert_eq!(i.command, "abc");
    assert_eq!(i.cursor, 2);
    i.move_cursor(Move::EOL);
    i.insert('é');
    assert_eq!(i.command, "abcé");
    assert_eq!(i.cursor, 4);
    assert_eq!(i.len, 4);
}

#[test]
fn clearing_keeps_the_cursor_and_set_replaces() {
    let mut i = input("abc");
    i.clear();
    assert_eq!(i.command, "");
    assert_eq!(i.len, 0);
    assert_eq!(i.cursor, 3);
    i.move_cursor(Move::Forward);
    assert_eq!(i.cursor, 0);
    i.set("git status");
    assert_eq!(i.command, "git status");
    assert_eq!(i.cursor, 10);
    assert_eq!(i.word_boundaries, vec![0, 3, 4]);
}

#[test]
fn backspace_undoes_typing_on_plain_text() {
    let mut i = input("git status");
    i.move_cursor(Move::BOL);
    for _ in 0..3 {
        i.move_cursor(Move::Forward);
    }
    i.insert('x');
    assert_eq!(i.command, "gitx status");
    assert_eq!(i.cursor, 4);
    assert_eq!(i.len, 11);
    i.delete(Move::Backward);
    assert_eq!(i.command, "git status");
    assert_eq!(i.cursor, 3);
    assert_eq!(i.len, 10);
}

#[test]
fn deleting_keeps_the_cursor_within_the_text() {
    let mut i = input("abc");
    i.delete(Move::Forward);
    assert!(i.cursor <= i.len);
    i.move_cursor(Move::BOL);
    i.delete(Move::Forward);
    assert_eq!(i.command, "bc");
    assert_eq!(i.cursor, 0);
    assert!(i.cursor <= i.len);
}

#[test]
fn clearing_leaves_no_word_boundaries() {
    let mut i = input("git status");
    i.clear();
    assert_eq!(i.command, "");
    assert_eq!(i.len, 0);
    assert!(i.word_boundaries.is_empty());
}

#[test]
fn carriage_return_line_feed_is_one_cluster() {
    let i = input("a\r\nb");
    assert_eq!(i.len, 3);
}
