use kenjutu::jj_log::parse_log_output;
use kenjutu::keys::{KeyCode, KeyEvent};
use kenjutu::screens::commit_log::{CommitLogAction, CommitLogScreen};
use kenjutu::screens::ScreenOutcome;

const LOG_ID_A: &str = "abcdefghijklmnopqrstuvwxyzabcdef";
const LOG_ID_B: &str = "bbcdefghijklmnopqrstuvwxyzabcdef";

fn loaded_screen() -> CommitLogScreen {
    let text = format!(
        "@ a\x01{LOG_ID_A}\x00c1\x00false\x00true\x00first\n│ desc\n○ b\x01{LOG_ID_B}\x00c2\x00true\x00false\x00second\n"
    );
    let mut s = CommitLogScreen::new();
    s.set_log(parse_log_output(&text).unwrap());
    s
}

fn press(s: &mut CommitLogScreen, code: KeyCode) -> CommitLogAction {
    s.handle_key_event(KeyEvent::plain(code))
}

#[test]
fn commit_log_selects_first_commit_on_load() {
    let s = loaded_screen();
    assert_eq!(s.selected(), Some(0));
    assert_eq!(s.log().commit_lines, vec![0, 2]);
    assert_eq!(s.selected_commit().unwrap().summary, "first");
}

#[test]
fn commit_log_moves_between_commit_lines() {
    let mut s = loaded_screen();
    assert!(matches!(press(&mut s, KeyCode::Char('j')), CommitLogAction::Outcome(ScreenOutcome::Continue)));
    assert_eq!(s.selected(), Some(2));
    press(&mut s, KeyCode::Down);
    assert_eq!(s.selected(), Some(2));
    press(&mut s, KeyCode::Up);
    assert_eq!(s.selected(), Some(0));
    press(&mut s, KeyCode::Char('k'));
    assert_eq!(s.selected(), Some(0));
    press(&mut s, KeyCode::Char('G'));
    assert_eq!(s.selected(), Some(2));
    press(&mut s, KeyCode::Char('g'));
    assert_eq!(s.selected(), Some(0));
}

#[test]
fn commit_log_actions() {
    let mut s = loaded_screen();
    assert!(matches!(press(&mut s, KeyCode::Char('q')), CommitLogAction::Outcome(ScreenOutcome::Quit)));
    assert!(matches!(press(&mut s, KeyCode::Char('r')), CommitLogAction::Reload));
    match press(&mut s, KeyCode::Enter) {
        CommitLogAction::Outcome(ScreenOutcome::EnterReview(c)) => {
            assert_eq!(c.commit_id, "c1");
            assert_eq!(c.summary, "first");
        }
        _ => panic!("expected EnterReview"),
    }
    match press(&mut s, KeyCode::Char('n')) {
        CommitLogAction::NewOnTop { change_id } => assert_eq!(change_id.to_string(), LOG_ID_A),
        _ => panic!("expected NewOnTop"),
    }
}

#[test]
fn commit_log_describe_flow() {
    let mut s = loaded_screen();
    press(&mut s, KeyCode::Char('d'));
    let input = s.describe_input().unwrap();
    assert_eq!(input.content(), "first");
    press(&mut s, KeyCode::Char('!'));
    match press(&mut s, KeyCode::Enter) {
        CommitLogAction::Describe { change_id, message } => {
            assert_eq!(change_id.to_string(), LOG_ID_A);
            assert_eq!(message, "first!");
        }
        _ => panic!("expected Describe"),
    }
    assert!(s.describe_input().is_none());
    press(&mut s, KeyCode::Char('d'));
    assert!(matches!(press(&mut s, KeyCode::Esc), CommitLogAction::Outcome(ScreenOutcome::Continue)));
    assert!(s.describe_input().is_none());
}

#[test]
fn commit_log_refuses_to_describe_immutable() {
    let mut s = loaded_screen();
    press(&mut s, KeyCode::Char('j'));
    match press(&mut s, KeyCode::Char('d')) {
        CommitLogAction::Outcome(ScreenOutcome::Error(m)) => {
            assert_eq!(m, "Cannot describe an immutable commit")
        }
        _ => panic!("expected an error"),
    }
    assert!(s.describe_input().is_none());
}

#[test]
fn commit_log_empty_does_nothing() {
    let mut s = CommitLogScreen::new();
    assert_eq!(s.selected(), None);
    press(&mut s, KeyCode::Char('j'));
    assert_eq!(s.selected(), None);
    assert!(matches!(press(&mut s, KeyCode::Enter), CommitLogAction::Outcome(ScreenOutcome::Continue)));
}

#[test]
fn commit_log_moving_keeps_the_log() {
    let mut s = loaded_screen();
    let before: Vec<Vec<String>> = s.log().lines.iter().map(|l| l.iter().map(|sp| sp.content.clone()).collect()).collect();
    for code in [KeyCode::Char('j'), KeyCode::Char('k'), KeyCode::Char('g'), KeyCode::Char('G'), KeyCode::Down] {
        press(&mut s, code);
        let after: Vec<Vec<String>> = s.log().lines.iter().map(|l| l.iter().map(|sp| sp.content.clone()).collect()).collect();
        assert_eq!(after, before);
    }
    assert_eq!(before.len(), 3);
}
