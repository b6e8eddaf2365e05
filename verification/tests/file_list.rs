use kenjutu::models::pr::{FileChangeStatus, FileEntry};
use kenjutu::style::Color;
use kenjutu::widgets::file_list::{file_to_spans, FileListWidget};

fn file_entry(reviewed: bool, additions: u32, deletions: u32) -> FileEntry {
    FileEntry {
        old_path: Some("old.rs".into()),
        new_path: None,
        status: FileChangeStatus::Deleted,
        additions,
        deletions,
        is_binary: false,
        patch_id: None,
        is_reviewed: reviewed,
    }
}

#[test]
fn file_line_spans() {
    let spans = file_to_spans(&file_entry(true, 12, 0));
    let texts: Vec<&str> = spans.iter().map(|s| s.content.as_str()).collect();
    assert_eq!(texts, vec!["✓ ", "old.rs", " D", " +12 -0"]);
    assert_eq!(spans[0].style.fg, Some(Color::Green));
    assert_eq!(spans[2].style.fg, Some(Color::Red));
    let spans = file_to_spans(&file_entry(false, 0, 0));
    assert_eq!(spans[0].content, "  ");
    assert_eq!(spans[3].content, "");
    let mut unknown = file_entry(false, 1, 4000000000);
    unknown.old_path = None;
    let spans = file_to_spans(&unknown);
    assert_eq!(spans[1].content, "<unknown>");
    assert_eq!(spans[3].content, " +1 -4000000000");
}

#[test]
fn file_list_widget_holds_files() {
    let files = vec![file_entry(true, 1, 1)];
    let w = FileListWidget::new(&files, true);
    assert_eq!(w.files.len(), 1);
    assert!(w.is_focused);
}
