use kenjutu::models::pr::{DiffLineType, FileChangeStatus};
use kenjutu::services::diff::{
    apply_change_ranges_to_tokens, file_entry_from_patch, find_next_boundary, is_in_change_range,
    map_delta_status, map_line_type, process_hunk, DeltaStatus, HunkData, HunkLine, LineOrigin, Token,
};
use kenjutu::services::word_diff::HunkLines;

fn tok(content: &str, color: Option<&str>) -> Token {
    Token { content: content.to_string(), color: color.map(String::from) }
}

#[test]
fn boundaries_and_membership() {
    let ranges = vec![(0, 5), (3, 8)];
    assert_eq!(find_next_boundary(0, 10, &ranges), 3);
    assert_eq!(find_next_boundary(3, 10, &ranges), 5);
    assert_eq!(find_next_boundary(5, 10, &ranges), 8);
    assert_eq!(find_next_boundary(8, 10, &ranges), 10);
    assert!(is_in_change_range(4, &ranges));
    assert!(!is_in_change_range(8, &ranges));
}

#[test]
fn tokens_split_at_changes() {
    let tokens = vec![tok("let x", Some("#111111")), tok(" = 10;", None)];
    let r = apply_change_ranges_to_tokens(&tokens, Some(&vec![(4, 5), (8, 10)]));
    let joined: String = r.iter().map(|t| t.content.as_str()).collect();
    assert_eq!(joined, "let x = 10;");
    let view: Vec<(String, Option<String>, bool)> =
        r.into_iter().map(|t| (t.content, t.color, t.changed)).collect();
    assert_eq!(
        view,
        vec![
            ("let ".to_string(), Some("#111111".to_string()), false),
            ("x".to_string(), Some("#111111".to_string()), true),
            (" = ".to_string(), None, false),
            ("10".to_string(), None, true),
            (";".to_string(), None, false),
        ]
    );
}

#[test]
fn tokens_unchanged_without_ranges() {
    let tokens = vec![tok("é", None), tok("ab", Some("#000000"))];
    let r = apply_change_ranges_to_tokens(&tokens, Some(&vec![]));
    assert_eq!(r.len(), 2);
    assert!(r.iter().all(|t| !t.changed));
    let r = apply_change_ranges_to_tokens(&tokens, None);
    assert_eq!(r[1].content, "ab");
    let r = apply_change_ranges_to_tokens(&tokens, Some(&vec![(2, 3)]));
    let contents: Vec<&str> = r.iter().map(|t| t.content.as_str()).collect();
    assert_eq!(contents, vec!["é", "a", "b"]);
    assert!(r[1].changed && !r[0].changed && !r[2].changed);
}

fn hl(origin: LineOrigin, old: Option<u32>, new: Option<u32>, content: &str) -> HunkLine {
    HunkLine { origin, old_lineno: old, new_lineno: new, content: content.to_string(), is_utf8: true }
}

fn sample_hunk() -> HunkData {
    HunkData {
        old_start: 1,
        old_lines: 2,
        new_start: 1,
        new_lines: 2,
        header: "@@ -1,2 +1,2 @@".to_string(),
        lines: vec![
            hl(LineOrigin::Context, Some(1), Some(1), "fn main() {"),
            hl(LineOrigin::Deletion, Some(2), None, "    old();"),
            hl(LineOrigin::Addition, None, Some(2), "    new();"),
            hl(LineOrigin::HunkHeader, None, None, "@@"),
        ],
    }
}

#[test]
fn hunk_blocks_group_changes() {
    let mut h = sample_hunk();
    h.lines.push(hl(LineOrigin::Context, Some(3), Some(3), "}"));
    h.lines.push(hl(LineOrigin::Deletion, Some(4), None, "x"));
    let blocks = h.blocks();
    assert_eq!(blocks.len(), 2);
    assert_eq!(blocks[0].old_lines[0].lineno, 2);
    assert_eq!(blocks[0].new_lines[0].content, "    new();");
    assert_eq!(blocks[1].old_lines.len(), 1);
    assert!(blocks[1].new_lines.is_empty());
}

#[test]
fn hunk_processing_pairs_lines() {
    let h = sample_hunk();
    let toks: Vec<Vec<Token>> = h.lines.iter().map(|l| vec![tok(&l.content, None)]).collect();
    let d = process_hunk(&h, &toks);
    assert_eq!(d.header, "@@ -1,2 +1,2 @@");
    // Lines of other kinds (here the hunk header line) show as context.
    assert_eq!(d.lines.len(), 4);
    assert_eq!(d.lines[0].line_type, DiffLineType::Context);
    assert_eq!(d.lines[3].line_type, DiffLineType::Context);
    assert_eq!(d.lines[1].new_lineno, Some(2));
    assert_eq!(d.lines[2].old_lineno, Some(2));
    let changed: Vec<&str> = d.lines[1].tokens.iter().filter(|t| t.changed).map(|t| t.content.as_str()).collect();
    assert_eq!(changed, vec!["old();"]);
}

#[test]
fn kinds_and_entries() {
    assert_eq!(map_line_type(LineOrigin::DeleteEofnl), DiffLineType::DelEofnl);
    assert_eq!(map_line_type(LineOrigin::Binary), DiffLineType::Context);
    assert_eq!(map_delta_status(DeltaStatus::Untracked), FileChangeStatus::Modified);
    assert_eq!(map_delta_status(DeltaStatus::Renamed), FileChangeStatus::Renamed);
    let un = vec!["src/a.rs".to_string()];
    let e = file_entry_from_patch(None, Some("src/a.rs".into()), DeltaStatus::Added, false, true, 3, 1, &un);
    assert!(!e.is_reviewed && e.is_binary);
    assert_eq!((e.additions, e.deletions), (3, 1));
    let e = file_entry_from_patch(Some("b".into()), None, DeltaStatus::Deleted, false, false, 0, 2, &un);
    assert!(e.is_reviewed);
    assert_eq!(e.status, FileChangeStatus::Deleted);
    let e = file_entry_from_patch(None, None, DeltaStatus::Modified, false, false, 0, 0, &un);
    assert!(!e.is_reviewed);
}
