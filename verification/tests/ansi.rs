use kenjutu::ansi::{parse_ansi_line, strip_ansi};
use kenjutu::style::{Color, Style, BOLD, DIM};

#[test]
fn plain_text_no_ansi() {
    let spans = parse_ansi_line("hello world");
    assert_eq!(spans.len(), 1);
    assert_eq!(spans[0].content, "hello world");
}

#[test]
fn bold_red_text() {
    let spans = parse_ansi_line("\x1b[1;31mERROR\x1b[0m: something");
    assert_eq!(spans.len(), 2);
    assert_eq!(spans[0].content, "ERROR");
    assert_eq!(spans[0].style.fg, Some(Color::Red));
    assert_eq!(spans[1].content, ": something");
}

#[test]
fn strip_ansi_works() {
    let stripped = strip_ansi("\x1b[1;31mhello\x1b[0m world");
    assert_eq!(stripped, "hello world");
}

#[test]
fn strip_ansi_unterminated_sequence_drops_rest() {
    assert_eq!(strip_ansi("ab\x1b[31"), "ab");
    assert_eq!(strip_ansi("\x1b"), "\x1b");
    assert_eq!(strip_ansi("é\x1b[0mü"), "éü");
}

#[test]
fn extended_colors() {
    let spans = parse_ansi_line("\x1b[38;5;300mA\x1b[48;2;1;2;3mB");
    assert_eq!(spans.len(), 2);
    assert_eq!(spans[0].style.fg, Some(Color::Indexed(44)));
    assert_eq!(spans[1].style.bg, Some(Color::Rgb(1, 2, 3)));
    assert_eq!(spans[1].style.fg, Some(Color::Indexed(44)));
}

#[test]
fn modifiers_and_reset() {
    let spans = parse_ansi_line("\x1b[1;2mA\x1b[22mB\x1b[mC");
    assert_eq!(spans[0].style.add_modifier, BOLD | DIM);
    assert_eq!(spans[1].style.add_modifier, 0);
    assert_eq!(spans[1].style.sub_modifier, BOLD | DIM);
    assert_eq!(spans[2].style, Style::new());
}

#[test]
fn plus_sign_and_bad_fields() {
    // "+31" parses as 31; "x" and the empty field are skipped.
    let spans = parse_ansi_line("\x1b[x;;+31mA\x1b[99999;94mB");
    assert_eq!(spans[0].style.fg, Some(Color::Red));
    assert_eq!(spans[1].style.fg, Some(Color::LightBlue));
}

#[test]
fn malformed_escape_is_skipped() {
    let spans = parse_ansi_line("a\x1bb");
    assert_eq!(spans.len(), 2);
    assert_eq!(spans[0].content, "a");
    assert_eq!(spans[1].content, "b");
}

#[test]
fn parsed_text_matches_stripped_text() {
    let line = "\x1b[1;35mxy\x1b[0m\x1b[38;5;5mzz\x1b[0m user \x1b[32mok\x1b[m";
    let joined: String = parse_ansi_line(line).iter().map(|s| s.content.as_str()).collect();
    assert_eq!(joined, strip_ansi(line));
    assert_eq!(joined, "xyzz user ok");
    assert!(parse_ansi_line(line).iter().all(|s| !s.content.is_empty()));
    assert!(parse_ansi_line("\x1b[31m\x1b[0mabc\x1b[1m").iter().all(|s| !s.content.is_empty()));
}
