use kenjutu::errors::CommandError;
use kenjutu::services::diff::{delta_matches, DiffError};
use kenjutu::services::git::oid_text;
use kenjutu::services::repository::PullRequestService;

const BASE: &str = "0123456789abcdef0123456789abcdef01234567";
const HEAD: &str = "89ABCDEF0123456789abcdef0123456789ABCDEF";

#[test]
fn oid_text_pads_and_lowercases() {
    assert_eq!(oid_text("ABC").unwrap(), format!("abc{}", "0".repeat(37)));
    assert_eq!(oid_text(BASE).unwrap(), BASE);
    assert_eq!(oid_text(HEAD).unwrap(), HEAD.to_lowercase());
}

#[test]
fn oid_text_refuses_non_ids() {
    assert!(oid_text("").is_none());
    assert!(oid_text("xyz").is_none());
    assert!(oid_text(&"a".repeat(41)).is_none());
}

#[test]
fn pr_commit_range_joins_full_ids() {
    let r = PullRequestService::pr_commit_range(BASE, "1f").unwrap();
    assert_eq!(r, format!("{}..1f{}", BASE, "0".repeat(38)));
    let r = PullRequestService::pr_commit_range(HEAD, BASE).unwrap();
    assert_eq!(r, format!("{}..{}", HEAD.to_lowercase(), BASE));
}

#[test]
fn pr_commit_range_refuses_bad_hash() {
    assert!(matches!(PullRequestService::pr_commit_range("nothex", BASE), Err(CommandError::Internal)));
    assert!(matches!(PullRequestService::pr_commit_range(BASE, ""), Err(CommandError::Internal)));
}

#[test]
fn pr_commit_fills_missing_text() {
    let c = PullRequestService::pr_commit(Some("zz".to_string()), BASE.to_string(), Some("Fix".to_string()), None);
    assert_eq!(c.change_id.as_deref(), Some("zz"));
    assert_eq!(c.sha, BASE);
    assert_eq!(c.summary, "Fix");
    assert_eq!(c.description, "");
    let c = PullRequestService::pr_commit(None, HEAD.to_string(), None, Some("body".to_string()));
    assert_eq!(c.change_id, None);
    assert_eq!(c.summary, "");
    assert_eq!(c.description, "body");
}

#[test]
fn pull_response_keeps_fields() {
    let commit = PullRequestService::pr_commit(None, BASE.to_string(), Some("s".to_string()), Some("d".to_string()));
    let r = PullRequestService::pull_response(
        None,
        Some("text".to_string()),
        "main".to_string(),
        "feature".to_string(),
        vec![commit],
    );
    assert_eq!(r.title, "");
    assert_eq!(r.body, "text");
    assert_eq!(r.base_branch, "main");
    assert_eq!(r.head_branch, "feature");
    assert_eq!(r.commits.len(), 1);
    assert_eq!(r.commits[0].sha, BASE);
    let r = PullRequestService::pull_response(Some("T".to_string()), None, "a".to_string(), "b".to_string(), vec![]);
    assert_eq!(r.title, "T");
    assert_eq!(r.body, "");
    assert!(r.commits.is_empty());
}

#[test]
fn delta_matches_either_path() {
    let a = Some("src/a.rs".to_string());
    let b = Some("src/b.rs".to_string());
    assert!(delta_matches(&a, &b, "src/b.rs"));
    assert!(delta_matches(&a, &b, "src/a.rs"));
    assert!(!delta_matches(&a, &b, "src/c.rs"));
    assert!(delta_matches(&None, &b, "src/b.rs"));
    assert!(!delta_matches(&None, &None, "src/b.rs"));
}

#[test]
fn diff_error_messages() {
    assert_eq!(DiffError::FileNotFound("x.rs".to_string()).message(), "File not found in tree: x.rs");
    assert_eq!(DiffError::Git2("boom".to_string()).message(), "git2 error: boom");
}
