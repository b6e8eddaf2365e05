use kenjutu::models::pr::{DiffHunk, DiffLine, DiffLineType, FileDiff, HighlightToken};
use kenjutu::style::{Color, UNDERLINED};
use kenjutu::screens::review::diff_panel::build_items;
use kenjutu::widgets::diff_view::{build_lines, DiffViewWidget};

fn htok(content: &str, color: Option<&str>, changed: bool) -> HighlightToken {
    HighlightToken { content: content.into(), color: color.map(String::from), changed }
}

#[test]
fn diff_lines_with_gutter_and_tokens() {
    let diff = FileDiff {
        hunks: vec![DiffHunk {
            old_start: 12,
            old_lines: 1,
            new_start: 12,
            new_lines: 1,
            header: "@@ -12 +12 @@".into(),
            lines: vec![
                DiffLine {
                    line_type: DiffLineType::Deletion,
                    old_lineno: Some(12),
                    new_lineno: Some(12345),
                    tokens: vec![htok("old", Some("#ff0000"), true), htok(";", Some("bad"), false)],
                },
                DiffLine { line_type: DiffLineType::AddEofnl, old_lineno: None, new_lineno: None, tokens: vec![] },
            ],
        }],
        new_file_lines: 20,
    };
    let lines = build_lines(&diff);
    assert_eq!(lines.len(), 3);
    assert_eq!(lines[0][0].content, "@@ -12 +12 @@");
    assert_eq!(lines[0][0].style.fg, Some(Color::Cyan));
    assert_eq!(lines[1][0].content, "  12 12345 ");
    assert_eq!(lines[1][1].content, "-");
    assert_eq!(lines[1][1].style.bg, Some(Color::Rgb(40, 0, 0)));
    assert_eq!(lines[1][2].style.fg, Some(Color::Rgb(255, 0, 0)));
    assert_eq!(lines[1][2].style.bg, Some(Color::Rgb(80, 0, 0)));
    assert_eq!(lines[1][2].style.add_modifier & UNDERLINED, UNDERLINED);
    assert_eq!(lines[1][3].style.fg, Some(Color::White));
    assert_eq!(lines[1][3].style.bg, Some(Color::Rgb(40, 0, 0)));
    assert_eq!(lines[2][0].content, "          ");
    assert_eq!(lines[2][1].content, "\\ ");
}

#[test]
fn no_diff_shows_placeholder_line() {
    let w = DiffViewWidget::new(None, 0);
    let lines = w.lines();
    assert_eq!(lines.len(), 1);
    assert_eq!(lines[0][0].content, "No file selected");
    assert_eq!(lines[0][0].style.fg, Some(Color::DarkGray));
}

#[test]
fn panel_items_mark_changed_words_without_underline() {
    let diff = FileDiff {
        hunks: vec![DiffHunk {
            old_start: 1,
            old_lines: 0,
            new_start: 1,
            new_lines: 1,
            header: "@@ -0,0 +1 @@".into(),
            lines: vec![DiffLine {
                line_type: DiffLineType::Addition,
                old_lineno: None,
                new_lineno: Some(1),
                tokens: vec![htok("new", None, true), htok(" text", Some("#00ff00"), false)],
            }],
        }],
        new_file_lines: 1,
    };
    let items = build_items(&Some(diff));
    assert_eq!(items.len(), 2);
    assert_eq!(items[0][0].content, "@@ -0,0 +1 @@");
    assert_eq!(items[1][0].content, "        1 ");
    assert_eq!(items[1][1].content, "+");
    assert_eq!(items[1][1].style.bg, Some(Color::Rgb(0, 40, 0)));
    assert_eq!(items[1][2].style.fg, Some(Color::White));
    assert_eq!(items[1][2].style.bg, Some(Color::Rgb(0, 80, 0)));
    assert_eq!(items[1][2].style.add_modifier & UNDERLINED, 0);
    assert_eq!(items[1][3].style.fg, Some(Color::Rgb(0, 255, 0)));
    assert_eq!(items[1][3].style.bg, Some(Color::Rgb(0, 40, 0)));
    let empty = build_items(&None);
    assert_eq!(empty.len(), 1);
    assert_eq!(empty[0][0].content, "No file selected");
}
