use kenjutu::keys::{KeyCode, KeyEvent};
use kenjutu::screens::commit_log::{commit_log_bindings, commit_log_header};
use kenjutu::style::{Color, BOLD};
use kenjutu::widgets::header::HeaderWidget;
use kenjutu::widgets::status_bar::{Binding, StatusBarWidget};
use kenjutu::widgets::text_input::TextInput;

fn texts(spans: &[kenjutu::style::StyledSpan]) -> Vec<String> {
    spans.iter().map(|s| s.content.clone()).collect()
}

#[test]
fn status_bar_line_separates_bindings() {
    let bindings = [Binding::new("j/k", "navigate"), Binding::new("q", "quit")];
    let line = StatusBarWidget::new(&bindings).line();
    assert_eq!(texts(&line), vec!["j/k", " navigate", "  ", "q", " quit"]);
    assert_eq!(line[0].style.bg, Some(Color::Rgb(60, 60, 60)));
    assert_eq!(line[0].style.add_modifier & BOLD, BOLD);
    assert_eq!(line[1].style.fg, Some(Color::Gray));
    assert_eq!(StatusBarWidget::new(&[]).line().len(), 0);
}

#[test]
fn header_line_shortens_change_id() {
    let line = HeaderWidget::new("Review", "abcdefghijklmnopqrstuvwxyzabcdef", "fix it").line();
    assert_eq!(texts(&line), vec!["Review: ", "abcdefgh ", "fix it"]);
    assert_eq!(line[1].style.fg, Some(Color::Magenta));
    let short = HeaderWidget::new("Review", "abc", "").line();
    assert_eq!(short[1].content, "abc ");
}

#[test]
fn commit_log_header_and_bindings() {
    let h = commit_log_header("/repo");
    assert_eq!(texts(&h), vec![" Commit Log: ", "/repo"]);
    assert_eq!(h[1].style.fg, Some(Color::DarkGray));
    let keys: Vec<&str> = commit_log_bindings().iter().map(|b| b.key).collect();
    assert_eq!(keys, vec!["j/k", "Enter", "d", "n", "r", "g/G", "q"]);
}

#[test]
fn text_input_line_shows_cursor() {
    let mut input = TextInput::new("Describe: ", "hello");
    let line = input.widget().line(20);
    assert_eq!(texts(&line), vec!["Describe: ", "hello", " "]);
    assert_eq!(line[2].style.bg, Some(Color::White));
    input.handle_key_event(KeyEvent::plain(KeyCode::Home));
    input.handle_key_event(KeyEvent::plain(KeyCode::Right));
    let line = input.widget().line(20);
    assert_eq!(texts(&line), vec!["Describe: ", "h", "e", "llo"]);
}

#[test]
fn text_input_line_scrolls_to_cursor() {
    let input = TextInput::new("Describe: ", "hello");
    let line = input.widget().line(13);
    assert_eq!(texts(&line), vec!["Describe: ", "lo", " "]);
}

#[test]
fn text_input_drawable_only_between_characters() {
    let input = TextInput::new("Describe: ", "hello");
    assert!(input.widget().is_drawable(11));
    assert!(!input.widget().is_drawable(10));
    let accented = TextInput::new("P", "a\u{e9}");
    assert!(!accented.widget().is_drawable(3));
    assert!(accented.widget().is_drawable(4));
    assert_eq!(texts(&accented.widget().line(4)), vec!["P", "\u{e9}", " "]);
    assert_eq!(texts(&accented.widget().line(5)), vec!["P", "a\u{e9}", " "]);
}
