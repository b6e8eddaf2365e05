use kenjutu::keys::{KeyCode, KeyEvent};
use kenjutu::models::pr::{DiffHunk, DiffLine, DiffLineType, FileDiff};
use kenjutu::screens::review::diff_panel::{DiffPanel, DiffPanelOutcome, HunkReviewAction};

fn ctx(old: u32, new: u32) -> DiffLine {
    DiffLine { line_type: DiffLineType::Context, old_lineno: Some(old), new_lineno: Some(new), tokens: vec![] }
}

fn add(new: u32) -> DiffLine {
    DiffLine { line_type: DiffLineType::Addition, old_lineno: None, new_lineno: Some(new), tokens: vec![] }
}

fn del(old: u32) -> DiffLine {
    DiffLine { line_type: DiffLineType::Deletion, old_lineno: Some(old), new_lineno: None, tokens: vec![] }
}

fn paired_del(old: u32, new: u32) -> DiffLine {
    DiffLine { line_type: DiffLineType::Deletion, old_lineno: Some(old), new_lineno: Some(new), tokens: vec![] }
}

fn paired_add(new: u32, old: u32) -> DiffLine {
    DiffLine { line_type: DiffLineType::Addition, old_lineno: Some(old), new_lineno: Some(new), tokens: vec![] }
}

fn hunk(old_start: u32, old_lines: u32, new_start: u32, new_lines: u32, lines: Vec<DiffLine>) -> DiffHunk {
    DiffHunk { old_start, old_lines, new_start, new_lines, header: String::new(), lines }
}

fn make_panel(hunks: Vec<DiffHunk>) -> DiffPanel {
    let diff = FileDiff { hunks, new_file_lines: 0 };
    let mut panel = DiffPanel::new(HunkReviewAction::Mark);
    panel.load(diff);
    panel
}

#[test]
fn no_diff_loaded() {
    let panel = DiffPanel::new(HunkReviewAction::Mark);
    assert_eq!(panel.compute_selected_hunk_id(), None);
}

#[test]
fn cursor_on_hunk_header() {
    let mut panel = make_panel(vec![hunk(1, 3, 1, 3, vec![ctx(1, 1), del(2), add(2), ctx(3, 3)])]);
    panel.state.select(Some(0));
    assert_eq!(panel.compute_selected_hunk_id(), None);
}

#[test]
fn cursor_on_context_line() {
    let mut panel = make_panel(vec![hunk(1, 3, 1, 3, vec![ctx(1, 1), del(2), add(2), ctx(3, 3)])]);
    panel.state.select(Some(1));
    assert_eq!(panel.compute_selected_hunk_id(), None);
}

#[test]
fn cursor_on_single_deletion() {
    let mut panel = make_panel(vec![hunk(1, 3, 1, 3, vec![ctx(1, 1), del(2), add(2), ctx(3, 3)])]);
    panel.state.select(Some(2));
    let id = panel.compute_selected_hunk_id().unwrap();
    assert_eq!(id.old_start, 2);
    assert_eq!(id.old_lines, 1);
    assert_eq!(id.new_start, 1);
    assert_eq!(id.new_lines, 0);
}

#[test]
fn cursor_on_single_addition() {
    let mut panel = make_panel(vec![hunk(1, 3, 1, 3, vec![ctx(1, 1), del(2), add(2), ctx(3, 3)])]);
    panel.state.select(Some(3));
    let id = panel.compute_selected_hunk_id().unwrap();
    assert_eq!(id.old_start, 2);
    assert_eq!(id.old_lines, 0);
    assert_eq!(id.new_start, 2);
    assert_eq!(id.new_lines, 1);
}

#[test]
fn selection_spanning_modification() {
    let mut panel = make_panel(vec![hunk(1, 3, 1, 3, vec![ctx(1, 1), del(2), add(2), ctx(3, 3)])]);
    panel.state.select(Some(2));
    panel.state.toggle_selection();
    panel.state.select(Some(3));
    let id = panel.compute_selected_hunk_id().unwrap();
    assert_eq!(id.old_start, 2);
    assert_eq!(id.old_lines, 1);
    assert_eq!(id.new_start, 2);
    assert_eq!(id.new_lines, 1);
}

#[test]
fn selection_spanning_multiple_additions() {
    let mut panel = make_panel(vec![hunk(1, 2, 1, 4, vec![ctx(1, 1), add(2), add(3), ctx(2, 4)])]);
    panel.state.select(Some(2));
    panel.state.toggle_selection();
    panel.state.select(Some(3));
    let id = panel.compute_selected_hunk_id().unwrap();
    assert_eq!(id.old_start, 1);
    assert_eq!(id.old_lines, 0);
    assert_eq!(id.new_start, 2);
    assert_eq!(id.new_lines, 2);
}

#[test]
fn pure_addition_after_deletion_uses_last_old() {
    let mut panel = make_panel(vec![hunk(1, 4, 1, 4, vec![ctx(1, 1), del(2), ctx(3, 2), add(3), ctx(4, 4)])]);
    panel.state.select(Some(4));
    let id = panel.compute_selected_hunk_id().unwrap();
    assert_eq!(id.old_start, 3);
    assert_eq!(id.old_lines, 0);
    assert_eq!(id.new_start, 3);
    assert_eq!(id.new_lines, 1);
}

#[test]
fn selection_across_two_hunks() {
    let mut panel = make_panel(vec![
        hunk(1, 3, 1, 2, vec![ctx(1, 1), del(2), ctx(3, 2)]),
        hunk(8, 2, 7, 3, vec![ctx(8, 7), add(8), ctx(9, 9)]),
    ]);
    panel.state.select(Some(2));
    panel.state.toggle_selection();
    panel.state.select(Some(6));
    let id = panel.compute_selected_hunk_id().unwrap();
    assert_eq!(id.old_start, 2);
    assert_eq!(id.old_lines, 7);
    assert_eq!(id.new_start, 2);
    assert_eq!(id.new_lines, 7);
}

#[test]
fn paired_deletion_ignores_new_lineno() {
    let mut panel = make_panel(vec![hunk(1, 3, 1, 3, vec![ctx(1, 1), paired_del(2, 2), paired_add(2, 2), ctx(3, 3)])]);
    panel.state.select(Some(2));
    let id = panel.compute_selected_hunk_id().unwrap();
    assert_eq!(id.old_start, 2);
    assert_eq!(id.old_lines, 1);
    assert_eq!(id.new_lines, 0);
}

#[test]
fn paired_addition_ignores_old_lineno() {
    let mut panel = make_panel(vec![hunk(1, 3, 1, 3, vec![ctx(1, 1), paired_del(2, 2), paired_add(2, 2), ctx(3, 3)])]);
    panel.state.select(Some(3));
    let id = panel.compute_selected_hunk_id().unwrap();
    assert_eq!(id.old_lines, 0);
    assert_eq!(id.old_start, 2);
    assert_eq!(id.new_start, 2);
    assert_eq!(id.new_lines, 1);
}

#[test]
fn range_selection_includes_context() {
    let mut panel = make_panel(vec![hunk(1, 3, 1, 4, vec![ctx(1, 1), del(2), add(2), add(3), ctx(3, 4)])]);
    panel.state.select(Some(1));
    panel.state.toggle_selection();
    panel.state.select(Some(4));
    let id = panel.compute_selected_hunk_id().unwrap();
    assert_eq!(id.old_start, 1);
    assert_eq!(id.old_lines, 2);
    assert_eq!(id.new_start, 1);
    assert_eq!(id.new_lines, 3);
}

#[test]
fn selection_after_first_hunk_uses_its_last_lines() {
    // Hunk 1 (lines 0..=3) ends before the cursor: its last old/new lines are the fallbacks.
    let mut panel = make_panel(vec![
        hunk(1, 3, 1, 2, vec![ctx(1, 1), del(2), ctx(3, 2)]),
        hunk(8, 2, 7, 3, vec![ctx(8, 7), add(8), ctx(9, 9)]),
    ]);
    panel.state.select(Some(6));
    let id = panel.compute_selected_hunk_id().unwrap();
    assert_eq!(id.old_start, 8);
    assert_eq!(id.old_lines, 0);
    assert_eq!(id.new_start, 8);
    assert_eq!(id.new_lines, 1);
}

#[test]
fn keys_move_and_select() {
    let mut panel = make_panel(vec![hunk(1, 3, 1, 3, vec![ctx(1, 1), del(2), add(2), ctx(3, 3)])]);
    assert_eq!(panel.handle_key_event(KeyEvent { code: KeyCode::Char('j'), ctrl: false }), DiffPanelOutcome::Consumed);
    assert_eq!(panel.state.selected(), Some(1));
    assert_eq!(panel.handle_key_event(KeyEvent { code: KeyCode::Char('d'), ctrl: true }), DiffPanelOutcome::Consumed);
    assert_eq!(panel.state.selected(), Some(16));
    assert_eq!(panel.handle_key_event(KeyEvent { code: KeyCode::Char('d'), ctrl: false }), DiffPanelOutcome::NotHandled);
    assert_eq!(panel.handle_key_event(KeyEvent { code: KeyCode::Esc, ctrl: false }), DiffPanelOutcome::NotHandled);
    panel.handle_key_event(KeyEvent { code: KeyCode::Char('v'), ctrl: false });
    assert!(panel.state.is_selection_active());
    assert_eq!(panel.handle_key_event(KeyEvent { code: KeyCode::Esc, ctrl: false }), DiffPanelOutcome::Consumed);
    assert!(!panel.state.is_selection_active());
}

#[test]
fn action_round_trip_restores_cursor() {
    let mut panel = make_panel(vec![hunk(1, 3, 1, 3, vec![ctx(1, 1), del(2), add(2), ctx(3, 3)])]);
    panel.state.select(Some(3));
    panel.state.toggle_selection();
    panel.state.select(Some(2));
    let (id, restore) = panel.begin_action().unwrap();
    assert_eq!((id.old_start, id.old_lines, id.new_start, id.new_lines), (2, 1, 2, 1));
    assert_eq!(restore, 2);
    panel.finish_action(restore);
    assert!(!panel.state.is_selection_active());
    assert_eq!(panel.state.selected(), Some(2));

    panel.state.select(Some(1));
    panel.state.toggle_selection();
    assert_eq!(panel.begin_action(), None);
    assert!(!panel.state.is_selection_active());
    assert_eq!(panel.action_label(), "mark reviewed");
}

#[test]
fn hunk_id_computable_checks_line_numbers() {
    let mut panel = make_panel(vec![hunk(1, 3, 1, 3, vec![ctx(1, 1), del(2), add(2), ctx(3, 3)])]);
    panel.state.select(Some(2));
    assert!(panel.hunk_id_computable());
    let mut overflowing = make_panel(vec![
        hunk(u32::MAX, 2, 1, 1, vec![ctx(1, 1)]),
        hunk(5, 1, 5, 1, vec![del(5), add(5)]),
    ]);
    overflowing.state.select(Some(3));
    assert!(!overflowing.hunk_id_computable());
    overflowing.state.select(Some(1));
    assert!(overflowing.hunk_id_computable());
    assert!(DiffPanel::new(HunkReviewAction::Mark).hunk_id_computable());
}
