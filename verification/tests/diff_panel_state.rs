use kenjutu::models::hunk::HunkId;
use kenjutu::models::pr::{DiffHunk, DiffLine, DiffLineType, FileDiff};
use kenjutu::screens::diff_panel::DiffPanelState;

fn ctx(old: u32, new: u32) -> DiffLine {
    DiffLine { line_type: DiffLineType::Context, old_lineno: Some(old), new_lineno: Some(new), tokens: vec![] }
}

fn add(new: u32) -> DiffLine {
    DiffLine { line_type: DiffLineType::Addition, old_lineno: None, new_lineno: Some(new), tokens: vec![] }
}

fn del(old: u32) -> DiffLine {
    DiffLine { line_type: DiffLineType::Deletion, old_lineno: Some(old), new_lineno: None, tokens: vec![] }
}

fn hunk(old_start: u32, old_lines: u32, new_start: u32, new_lines: u32, lines: Vec<DiffLine>) -> DiffHunk {
    DiffHunk { old_start, old_lines, new_start, new_lines, header: String::new(), lines }
}

fn state(hunks: Vec<DiffHunk>, anchor: usize, cursor: usize, active: bool) -> DiffPanelState {
    let mut s = DiffPanelState::new();
    s.load(FileDiff { hunks, new_file_lines: 0 });
    s.cursor_line = cursor;
    s.selection_anchor = anchor;
    s.selection_active = active;
    s
}

fn modification() -> Vec<DiffHunk> {
    vec![hunk(1, 3, 1, 3, vec![ctx(1, 1), del(2), add(2), ctx(3, 3)])]
}

#[test]
fn state_ids_for_cursor_on_deletion() {
    let s = state(modification(), 0, 2, false);
    assert!(s.ids_computable());
    assert_eq!(
        s.compute_selected_hunk_ids(),
        vec![HunkId { old_start: 2, old_lines: 1, new_start: 1, new_lines: 0 }]
    );
}

#[test]
fn state_ids_for_selected_modification() {
    let s = state(modification(), 2, 3, true);
    assert_eq!(
        s.compute_selected_hunk_ids(),
        vec![HunkId { old_start: 2, old_lines: 1, new_start: 2, new_lines: 1 }]
    );
}

#[test]
fn state_ids_empty_on_context_or_header() {
    assert!(state(modification(), 0, 1, false).compute_selected_hunk_ids().is_empty());
    assert!(state(modification(), 0, 0, false).compute_selected_hunk_ids().is_empty());
    assert!(DiffPanelState::new().compute_selected_hunk_ids().is_empty());
    assert!(DiffPanelState::new().ids_computable());
}

#[test]
fn state_ids_one_per_touched_hunk() {
    let hunks = vec![
        hunk(1, 1, 1, 1, vec![del(1), add(1)]),
        hunk(10, 1, 10, 1, vec![del(10), add(10)]),
    ];
    let s = state(hunks, 1, 5, true);
    assert_eq!(
        s.compute_selected_hunk_ids(),
        vec![
            HunkId { old_start: 1, old_lines: 1, new_start: 1, new_lines: 1 },
            HunkId { old_start: 10, old_lines: 1, new_start: 10, new_lines: 1 },
        ]
    );
}

#[test]
fn state_ids_computable_rejects_span_past_u32() {
    let hunks = vec![hunk(0, 2, 1, 1, vec![ctx(0, 1), del(u32::MAX)])];
    assert!(!state(hunks.clone(), 1, 2, true).ids_computable());
    assert!(state(hunks, 0, 2, false).ids_computable());
}
