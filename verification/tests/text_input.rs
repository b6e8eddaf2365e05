use kenjutu::keys::{KeyCode, KeyEvent};
use kenjutu::widgets::text_input::{TextInput, TextInputOutcome};

fn key(code: KeyCode) -> KeyEvent {
    KeyEvent { code, ctrl: false }
}

fn ctrl_key(c: char) -> KeyEvent {
    KeyEvent { code: KeyCode::Char(c), ctrl: true }
}

#[test]
fn initial_state() {
    let input = TextInput::new("prompt: ", "hello");
    assert_eq!(input.content(), "hello");
    assert_eq!(input.cursor(), 5);
}

#[test]
fn typing_inserts_at_cursor() {
    let mut input = TextInput::new("> ", "");
    input.handle_key_event(key(KeyCode::Char('a')));
    input.handle_key_event(key(KeyCode::Char('b')));
    assert_eq!(input.content(), "ab");
    assert_eq!(input.cursor(), 2);
}

#[test]
fn backspace_deletes_before_cursor() {
    let mut input = TextInput::new("> ", "abc");
    input.handle_key_event(key(KeyCode::Backspace));
    assert_eq!(input.content(), "ab");
    assert_eq!(input.cursor(), 2);
}

#[test]
fn left_right_movement() {
    let mut input = TextInput::new("> ", "abc");
    input.handle_key_event(key(KeyCode::Left));
    assert_eq!(input.cursor(), 2);
    input.handle_key_event(key(KeyCode::Left));
    assert_eq!(input.cursor(), 1);
    input.handle_key_event(key(KeyCode::Right));
    assert_eq!(input.cursor(), 2);
}

#[test]
fn home_end() {
    let mut input = TextInput::new("> ", "abc");
    input.handle_key_event(key(KeyCode::Home));
    assert_eq!(input.cursor(), 0);
    input.handle_key_event(key(KeyCode::End));
    assert_eq!(input.cursor(), 3);
}

#[test]
fn enter_confirms() {
    let mut input = TextInput::new("> ", "hello");
    let outcome = input.handle_key_event(key(KeyCode::Enter));
    assert!(matches!(outcome, TextInputOutcome::Confirm(s) if s == "hello"));
}

#[test]
fn esc_cancels() {
    let mut input = TextInput::new("> ", "hello");
    let outcome = input.handle_key_event(key(KeyCode::Esc));
    assert!(matches!(outcome, TextInputOutcome::Cancel));
}

#[test]
fn insert_in_middle() {
    let mut input = TextInput::new("> ", "ac");
    input.handle_key_event(key(KeyCode::Left));
    input.handle_key_event(key(KeyCode::Char('b')));
    assert_eq!(input.content(), "abc");
    assert_eq!(input.cursor(), 2);
}

#[test]
fn ctrl_a_moves_to_start() {
    let mut input = TextInput::new("> ", "hello");
    input.handle_key_event(ctrl_key('a'));
    assert_eq!(input.cursor(), 0);
}

#[test]
fn ctrl_e_moves_to_end() {
    let mut input = TextInput::new("> ", "hello");
    input.set_cursor(0);
    input.handle_key_event(ctrl_key('e'));
    assert_eq!(input.cursor(), 5);
}

#[test]
fn ctrl_u_clears_before_cursor() {
    let mut input = TextInput::new("> ", "hello world");
    input.set_cursor(5);
    input.handle_key_event(ctrl_key('u'));
    assert_eq!(input.content(), " world");
    assert_eq!(input.cursor(), 0);
}

#[test]
fn ctrl_k_clears_after_cursor() {
    let mut input = TextInput::new("> ", "hello world");
    input.set_cursor(5);
    input.handle_key_event(ctrl_key('k'));
    assert_eq!(input.content(), "hello");
    assert_eq!(input.cursor(), 5);
}

#[test]
fn delete_removes_at_cursor() {
    let mut input = TextInput::new("> ", "abc");
    input.set_cursor(1);
    input.handle_key_event(key(KeyCode::Delete));
    assert_eq!(input.content(), "ac");
    assert_eq!(input.cursor(), 1);
}

#[test]
fn ctrl_w_deletes_previous_word() {
    let mut input = TextInput::new("> ", "git commit  ");
    input.handle_key_event(ctrl_key('w'));
    assert_eq!(input.content(), "git ");
    assert_eq!(input.cursor(), 4);
}

#[test]
fn cursor_counts_utf8_bytes() {
    let mut input = TextInput::new("> ", "é");
    assert_eq!(input.cursor(), 2);
    input.handle_key_event(key(KeyCode::Char('€')));
    assert_eq!(input.cursor(), 5);
    input.handle_key_event(key(KeyCode::Backspace));
    assert_eq!(input.content(), "é");
    assert_eq!(input.cursor(), 2);
}

#[test]
fn prompt_is_kept() {
    let input = TextInput::new("Describe: ", "x");
    assert_eq!(input.prompt(), "Describe: ");
}

#[test]
fn set_cursor_lands_on_byte_offset() {
    let mut input = TextInput::new("p", "h\u{e9}llo");
    input.set_cursor(3);
    assert_eq!(input.cursor(), 3);
    input.handle_key_event(KeyEvent::plain(KeyCode::Backspace));
    assert_eq!(input.content(), "hllo");
}
