use kenjutu::keys::{KeyCode, KeyEvent};
use kenjutu::models::change_id::ChangeId;
use kenjutu::models::jj::JjCommit;
use kenjutu::models::pr::{DiffHunk, DiffLine, DiffLineType, FileChangeStatus, FileDiff, FileEntry};
use kenjutu::screens::review::diff_panel::HunkReviewAction;
use kenjutu::screens::review::diff_view::{DiffSide, DiffView, DiffViewAction, DiffViewOutcome};
use kenjutu::screens::review::{resolve_file_paths, ReviewAction, ReviewFocus, ReviewScreen};
use kenjutu::screens::ScreenOutcome;

const REVIEW_ID: &str = "abcdefghijklmnopqrstuvwxyzabcdef";

fn entry(old: Option<&str>, new: Option<&str>, status: FileChangeStatus, reviewed: bool) -> FileEntry {
    FileEntry {
        old_path: old.map(String::from),
        new_path: new.map(String::from),
        status,
        additions: 1,
        deletions: 0,
        is_binary: false,
        patch_id: None,
        is_reviewed: reviewed,
    }
}

fn commit(immutable: bool) -> JjCommit {
    JjCommit {
        change_id: ChangeId::parse(REVIEW_ID).unwrap(),
        commit_id: "c1".into(),
        summary: "sum".into(),
        description: String::new(),
        author: String::new(),
        email: String::new(),
        timestamp: String::new(),
        is_immutable: immutable,
        is_working_copy: false,
        parents: vec![],
    }
}

fn screen(immutable: bool) -> ReviewScreen {
    let files = vec![
        entry(None, Some("a.rs"), FileChangeStatus::Added, false),
        entry(Some("old.rs"), Some("new.rs"), FileChangeStatus::Renamed, true),
        entry(Some("gone.rs"), None, FileChangeStatus::Deleted, false),
    ];
    ReviewScreen::new(commit(immutable), ChangeId::parse(REVIEW_ID).unwrap(), files)
}

fn hit(s: &mut ReviewScreen, code: KeyCode) -> ReviewAction {
    s.handle_key_event(KeyEvent::plain(code))
}

#[test]
fn resolve_paths_by_status() {
    let (p, o) = resolve_file_paths(&entry(Some("gone.rs"), None, FileChangeStatus::Deleted, false));
    assert_eq!(p, "gone.rs");
    assert!(o.is_none());
    let (p, o) = resolve_file_paths(&entry(Some("old.rs"), Some("new.rs"), FileChangeStatus::Renamed, false));
    assert_eq!(p, "new.rs");
    assert_eq!(o.as_deref(), Some("old.rs"));
    let (p, o) = resolve_file_paths(&entry(None, None, FileChangeStatus::Modified, false));
    assert_eq!(p, "");
    assert!(o.is_none());
}

#[test]
fn review_file_navigation() {
    let mut s = screen(false);
    assert_eq!(s.file_selected_index, 0);
    assert!(matches!(hit(&mut s, KeyCode::Char('j')), ReviewAction::LoadFile));
    assert_eq!(s.file_selected_index, 1);
    assert_eq!(s.file_list_selected, Some(1));
    hit(&mut s, KeyCode::Down);
    assert!(matches!(hit(&mut s, KeyCode::Down), ReviewAction::Outcome(ScreenOutcome::Continue)));
    assert_eq!(s.file_selected_index, 2);
    hit(&mut s, KeyCode::Up);
    hit(&mut s, KeyCode::Char('k'));
    assert!(matches!(hit(&mut s, KeyCode::Char('k')), ReviewAction::Outcome(ScreenOutcome::Continue)));
    assert_eq!(s.file_selected_index, 0);
}

#[test]
fn review_toggle_and_targets() {
    let mut s = screen(false);
    hit(&mut s, KeyCode::Char('j'));
    match hit(&mut s, KeyCode::Char(' ')) {
        ReviewAction::ToggleReviewed { file_path, old_path, is_reviewed } => {
            assert_eq!(file_path, "new.rs");
            assert_eq!(old_path.as_deref(), Some("old.rs"));
            assert!(is_reviewed);
        }
        _ => panic!("expected ToggleReviewed"),
    }
    let (p, _) = s.current_file_target().unwrap();
    assert_eq!(p, "new.rs");
    s.set_files(vec![entry(None, Some("x"), FileChangeStatus::Modified, false)]);
    assert_eq!(s.file_selected_index, 0);
    assert_eq!(s.file_list_selected, Some(0));
    s.set_files(vec![]);
    assert!(s.current_file_target().is_none());
    assert!(matches!(hit(&mut s, KeyCode::Char(' ')), ReviewAction::Outcome(ScreenOutcome::Continue)));
}

#[test]
fn review_focus_and_exit() {
    let mut s = screen(false);
    assert!(matches!(hit(&mut s, KeyCode::Tab), ReviewAction::Outcome(ScreenOutcome::Continue)));
    assert_eq!(s.focus, ReviewFocus::DiffView);
    assert!(matches!(hit(&mut s, KeyCode::Esc), ReviewAction::Outcome(ScreenOutcome::Continue)));
    assert_eq!(s.focus, ReviewFocus::FileList);
    assert!(matches!(hit(&mut s, KeyCode::Char('q')), ReviewAction::Outcome(ScreenOutcome::ExitReview)));
    assert!(matches!(hit(&mut s, KeyCode::Char('r')), ReviewAction::Reload));
}

#[test]
fn review_describe() {
    let mut s = screen(false);
    hit(&mut s, KeyCode::Char('d'));
    hit(&mut s, KeyCode::Backspace);
    match hit(&mut s, KeyCode::Enter) {
        ReviewAction::Describe { change_id, message } => {
            assert_eq!(change_id.to_string(), REVIEW_ID);
            assert_eq!(message, "su");
            s.described(message);
        }
        _ => panic!("expected Describe"),
    }
    assert_eq!(s.commit.summary, "su");
    let mut t = screen(true);
    match hit(&mut t, KeyCode::Char('d')) {
        ReviewAction::Outcome(ScreenOutcome::Error(m)) => assert_eq!(m, "Cannot describe an immutable commit"),
        _ => panic!("expected an error"),
    }
}

fn one_hunk_diff() -> FileDiff {
    let line = |t: DiffLineType, o: Option<u32>, n: Option<u32>| DiffLine { line_type: t, old_lineno: o, new_lineno: n, tokens: vec![] };
    FileDiff {
        hunks: vec![DiffHunk {
            old_start: 1,
            old_lines: 1,
            new_start: 1,
            new_lines: 1,
            header: String::new(),
            lines: vec![line(DiffLineType::Deletion, Some(1), None), line(DiffLineType::Addition, None, Some(1))],
        }],
        new_file_lines: 1,
    }
}

fn empty_diff() -> FileDiff {
    FileDiff { hunks: vec![], new_file_lines: 0 }
}

#[test]
fn diff_view_focus_rules() {
    let mut v = DiffView::new();
    v.load(empty_diff(), one_hunk_diff());
    assert_eq!(v.focus, DiffSide::Right);
    assert!(!v.is_split());
    assert_eq!(v.sole_panel(), Some(DiffSide::Right));
    v.load(one_hunk_diff(), one_hunk_diff());
    assert_eq!(v.focus, DiffSide::Left);
    assert!(v.is_split());
    assert_eq!(v.action_label(), "mark reviewed");
    assert!(matches!(v.handle_key_event(KeyEvent::plain(KeyCode::Tab)), DiffViewAction::Outcome(DiffViewOutcome::Continue)));
    assert_eq!(v.focus, DiffSide::Right);
    assert_eq!(v.action_label(), "unreview");
    assert!(matches!(v.handle_key_event(KeyEvent::plain(KeyCode::Tab)), DiffViewAction::Outcome(DiffViewOutcome::ExitToFileList)));
    assert!(matches!(v.handle_key_event(KeyEvent::plain(KeyCode::BackTab)), DiffViewAction::Outcome(DiffViewOutcome::Continue)));
    assert_eq!(v.focus, DiffSide::Left);
    assert!(matches!(v.handle_key_event(KeyEvent::plain(KeyCode::Char('n'))), DiffViewAction::Outcome(DiffViewOutcome::NextFile)));
    assert!(matches!(v.handle_key_event(KeyEvent::plain(KeyCode::Char('N'))), DiffViewAction::Outcome(DiffViewOutcome::PrevFile)));
    v.load_failed();
    assert_eq!(v.focus, DiffSide::Right);
}

#[test]
fn diff_view_space_applies_to_hunk() {
    let mut v = DiffView::new();
    v.load(one_hunk_diff(), empty_diff());
    v.handle_key_event(KeyEvent::plain(KeyCode::Char('j')));
    match v.handle_key_event(KeyEvent::plain(KeyCode::Char(' '))) {
        DiffViewAction::Apply { side, action, hunk, restore_pos } => {
            assert_eq!(side, DiffSide::Left);
            assert_eq!(action, HunkReviewAction::Mark);
            assert_eq!(hunk.old_start, 1);
            assert_eq!(hunk.old_lines, 1);
            assert_eq!(hunk.new_lines, 0);
            assert_eq!(restore_pos, 1);
            v.finish_action(side, restore_pos);
        }
        _ => panic!("expected Apply"),
    }
    assert_eq!(v.left.state.selected(), Some(1));
}

#[test]
fn review_screen_titles_and_bindings() {
    let mut s = screen(false);
    assert_eq!(s.reviewed_count(), 1);
    assert_eq!(s.file_list_title(), " Files 1/3 ");
    assert_eq!(s.file_title(), "a.rs");
    s.select_next_file();
    s.select_next_file();
    assert_eq!(s.file_title(), "gone.rs");
    let keys: Vec<(&str, &str)> = s.status_bindings().iter().map(|b| (b.key, b.description)).collect();
    assert_eq!(keys, vec![("j/k", "navigate"), ("Enter/Tab", "diff view"), ("Space", "mark reviewed"), ("d", "describe"), ("Esc/q", "back")]);
    s.focus = ReviewFocus::DiffView;
    let keys: Vec<(&str, &str)> = s.status_bindings().iter().map(|b| (b.key, b.description)).collect();
    assert_eq!(keys, vec![("j/k", "navigate"), ("C-d/C-u", "page"), ("v", "select"), ("Space", "mark reviewed"), ("n/N", "next/prev file"), ("Esc/q", "back")]);
}

#[test]
fn review_screen_accepts_keys() {
    let mut s = screen(false);
    assert!(s.accepts_key(KeyEvent::plain(KeyCode::Char(' '))));
    s.focus = ReviewFocus::DiffView;
    assert!(s.accepts_key(KeyEvent::plain(KeyCode::Char(' '))));
    assert!(s.accepts_key(KeyEvent::plain(KeyCode::Char('j'))));
}
