use kenjutu::jj_log::{get_jj_log, parse_log_output};
use kenjutu::services::jj::Error;
use kenjutu::style::Color;

// ChangeId must be exactly 32 characters
const CHANGE_ID: &str = "abcdefghijklmnopqrstuvwxyzabcdef";

#[test]
fn parse_plain_log_line() {
    let input = format!(
        "│ ○  \x1b[1;35mxy\x1b[0m\x1b[38;5;5mzzzzzz\x1b[0m user@test 2024-01-01\x01{CHANGE_ID}\x00aabbccdd1122334455\x00false\x00true\x00my summary"
    );
    let result = parse_log_output(&input).unwrap();
    assert_eq!(result.lines.len(), 1);
    assert_eq!(result.commit_lines.len(), 1);
    assert_eq!(result.commit_lines[0], 0);

    let commit = &result.commits_by_line[&0];
    assert_eq!(commit.commit_id, "aabbccdd1122334455");
    assert_eq!(commit.summary, "my summary");
    assert!(!commit.is_immutable);
    assert!(commit.is_working_copy);
}

#[test]
fn parse_continuation_lines() {
    let input = format!(
        "│ ○  header\x01{CHANGE_ID}\x00bbbb\x00false\x00false\x00desc\n│    (empty) desc line\n│"
    );
    let result = parse_log_output(&input).unwrap();
    assert_eq!(result.lines.len(), 3); // header + desc line + graph continuation "│"
    assert_eq!(result.commit_lines.len(), 1);
}

#[test]
fn log_header_display_keeps_colors() {
    let input = format!("\x1b[1;35mxy\x1b[0m\x01{CHANGE_ID}\x00c\x00true\x00false\x00s\n\n  \nplain\n");
    let result = parse_log_output(&input).unwrap();
    assert_eq!(result.lines.len(), 2);
    assert_eq!(result.lines[0][0].content, "xy");
    assert_eq!(result.lines[0][0].style.fg, Some(Color::Magenta));
    assert_eq!(result.lines[1][0].content, "plain");
    let c = &result.commits_by_line[&0];
    assert!(c.is_immutable && !c.is_working_copy);
    let j = c.to_jj_commit();
    assert_eq!(j.summary, "s");
    assert!(j.parents.is_empty() && j.description.is_empty());
}

#[test]
fn log_header_with_missing_fields_and_bad_id() {
    let short = format!("a\x01{CHANGE_ID}\x00only");
    let result = parse_log_output(&short).unwrap();
    let c = &result.commits_by_line[&0];
    assert_eq!(c.commit_id, "only");
    assert_eq!(c.summary, "");
    assert!(!c.is_immutable);
    match parse_log_output("a\x01bad\x00x") {
        Err(Error::Parse(m)) => assert!(m.contains("'bad'")),
        _ => panic!("expected a parse error"),
    }
}

#[test]
fn jj_log_run_results() {
    let failed = get_jj_log(false, "", "  \x1b[1;31mError:\x1b[0m no repo \n");
    assert!(matches!(failed, Err(Error::JjFailed(m)) if m == "Error: no repo"));
    let input = format!("○  head\x01{CHANGE_ID}\x00c\x00false\x00false\x00s\n");
    let log = get_jj_log(true, &input, "ignored").unwrap();
    assert_eq!(log.commit_lines, vec![0]);
    assert_eq!(log.commits_by_line[&0].summary, "s");
}
