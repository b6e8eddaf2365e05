use kenjutu::jj_graph::{get_log_with_graph, parse_graph_output};

const GRAPH_ID: &str = "abcdefghijklmnopqrstuvwxyzabcdef";

#[test]
fn graph_entries_and_continuations() {
    let out = format!(
        "@  \x01{GRAPH_ID}\x00c1\x00first\x00Ann\x00false\x00true\n├─╯\n~\n\n○  \x01{GRAPH_ID}\x00c2\x00\x00Bob\x00true\x00false\n│\n"
    );
    let entries = parse_graph_output(&out).unwrap();
    assert_eq!(entries.len(), 2);
    assert_eq!(entries[0].gutter, "@  ");
    assert_eq!(entries[0].commit.summary, "first");
    assert_eq!(entries[0].commit.author, "Ann");
    assert!(entries[0].commit.is_working_copy);
    assert_eq!(entries[0].continuation_lines, vec!["├─╯".to_string()]);
    assert_eq!(entries[1].commit.commit_id, "c2");
    assert_eq!(entries[1].commit.summary, "");
    assert!(entries[1].commit.is_immutable);
    assert_eq!(entries[1].continuation_lines, vec!["│".to_string()]);
}

#[test]
fn graph_skips_short_lines_and_leading_graph() {
    let out = format!("│\n○ \x01{GRAPH_ID}\x00c\x00s\n○ \x01{GRAPH_ID}\x00c\x00s\x00a\x00false\x00false\n");
    let entries = parse_graph_output(&out).unwrap();
    assert_eq!(entries.len(), 1);
    assert!(entries[0].continuation_lines.is_empty());
}

#[test]
fn graph_bad_change_id() {
    let e = parse_graph_output("○ \x01short\x00c\x00s\x00a\x00false\x00false").unwrap_err();
    assert_eq!(e.received(), "short");
}

#[test]
fn graph_log_run_results() {
    let failed = get_log_with_graph(false, "exit status: 1", "", "Error: no repo\n").unwrap_err();
    assert_eq!(failed, "jj log command failed with status exit status: 1: Error: no repo\n");
    let out = format!("@  \x01{GRAPH_ID}\x00c1\x00first\x00Ann\x00false\x00true\n");
    let entries = get_log_with_graph(true, "exit status: 0", &out, "").unwrap();
    assert_eq!(entries.len(), 1);
    assert_eq!(entries[0].commit.author, "Ann");
    let bad = get_log_with_graph(true, "exit status: 0", "○ \x01short\x00c\x00s\x00a\x00false\x00false", "").unwrap_err();
    assert_eq!(bad, "Invalid ChangeId: expected a 32-character string, got 'short'");
}
