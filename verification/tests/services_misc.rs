use kenjutu::models::pr::DiffLineType;
use kenjutu::services::diff::context_lines;
use kenjutu::services::highlight::HighlightService;
use kenjutu::config::{get_config_dir, get_token_path, join_path, token_from_file_text};
use kenjutu::errors::CommandError;
use kenjutu::services::auth::{device_flow_info, DeviceCodeResponse, PollDecision, TokenPoller, TokenResponse};
use kenjutu::services::diff::{hunk_line_tokens, HunkData, HunkLine, LineOrigin, Token};
use kenjutu::services::highlight::{color_to_hex, HighlightedFile};
use kenjutu::services::repository::{PullRequestService, RemoteRepo, RepositoryCacheService, RepositoryService};
use kenjutu::models::repo::Repo;
use kenjutu::services::review::compute_file_patch_id;

#[test]
fn hex_colors_and_highlighted_lines() {
    assert_eq!(color_to_hex(0xcf, 0x22, 0x2e), "#cf222e");
    assert_eq!(color_to_hex(0, 0, 255), "#0000ff");
    let f = HighlightedFile::plain("a\nb\r\n");
    assert!(f.get(0).is_none());
    assert_eq!(f.get(1).unwrap()[0].content, "a");
    assert_eq!(f.get(2).unwrap()[0].content, "b");
    assert!(f.get(3).is_none());
    let e = HighlightedFile::empty();
    assert!(e.get(1).is_none());
    let n = HighlightedFile::new(vec![vec![Token { content: "x".into(), color: Some("#000000".into()) }]]);
    assert_eq!(n.get(1).unwrap()[0].color.as_deref(), Some("#000000"));
}

fn pl(origin: LineOrigin, content: &str) -> HunkLine {
    HunkLine { origin, old_lineno: None, new_lineno: None, content: content.into(), is_utf8: true }
}

#[test]
fn patch_id_hashes_changed_lines() {
    let hunk = HunkData {
        old_start: 1,
        old_lines: 1,
        new_start: 1,
        new_lines: 1,
        header: String::new(),
        lines: vec![
            pl(LineOrigin::Context, "context"),
            pl(LineOrigin::Addition, "added line  \t"),
            pl(LineOrigin::Deletion, "old"),
        ],
    };
    let id = compute_file_patch_id(&vec![hunk]);
    assert_eq!(id.as_str(), "96d0710a10426e8a7cf3933d3be219b24ac40a5b");
    let empty = compute_file_patch_id(&vec![]);
    assert_eq!(empty.as_str(), "da39a3ee5e6b4b0d3255bfef95601890afd80709");
}

#[test]
fn patch_id_same_after_moving_the_change() {
    let at = |start: u32, lineno: u32| HunkData {
        old_start: start,
        old_lines: 2,
        new_start: start,
        new_lines: 2,
        header: format!("@@ -{start},2 +{start},2 @@"),
        lines: vec![
            HunkLine { origin: LineOrigin::Context, old_lineno: Some(lineno), new_lineno: Some(lineno), content: "keep".into(), is_utf8: true },
            HunkLine { origin: LineOrigin::Deletion, old_lineno: Some(lineno + 1), new_lineno: None, content: "before".into(), is_utf8: true },
            HunkLine { origin: LineOrigin::Addition, old_lineno: None, new_lineno: Some(lineno + 1), content: "after".into(), is_utf8: true },
        ],
    };
    let first = compute_file_patch_id(&vec![at(3, 3)]);
    let moved = compute_file_patch_id(&vec![at(40, 40)]);
    assert_eq!(first.as_str(), moved.as_str());
    let other = compute_file_patch_id(&vec![HunkData { lines: vec![pl(LineOrigin::Addition, "after")], ..at(3, 3) }]);
    assert_ne!(first.as_str(), other.as_str());
}

#[test]
fn config_paths() {
    assert_eq!(join_path("/home/u/.config", "x"), "/home/u/.config/x");
    assert_eq!(join_path("/cfg/", "x"), "/cfg/x");
    assert_eq!(get_config_dir(Some("/c".into())).unwrap(), "/c/pr-manager");
    assert_eq!(get_token_path(Some("/c".into())).unwrap(), "/c/pr-manager/token");
    assert_eq!(get_token_path(None).unwrap_err(), "Could not find config directory");
    assert_eq!(token_from_file_text("  gho_abc\n"), "gho_abc");
}

fn resp(token: Option<&str>, error: Option<&str>) -> Option<TokenResponse> {
    Some(TokenResponse { access_token: token.map(String::from), error: error.map(String::from) })
}

#[test]
fn token_polling_decisions() {
    let mut p = TokenPoller::new(5, 900);
    assert!(!p.is_expired(900));
    assert!(p.is_expired(901));
    assert!(matches!(p.handle_response(None), PollDecision::Continue));
    assert!(matches!(p.handle_response(resp(None, Some("authorization_pending"))), PollDecision::Continue));
    assert!(matches!(p.handle_response(resp(None, Some("slow_down"))), PollDecision::Continue));
    assert_eq!(p.interval_secs, 10);
    assert!(matches!(p.handle_response(resp(None, None)), PollDecision::Continue));
    assert!(matches!(p.handle_response(resp(None, Some("expired_token"))), PollDecision::Fail(m) if m == "Device code expired"));
    assert!(matches!(p.handle_response(resp(None, Some("access_denied"))), PollDecision::Fail(m) if m == "Access denied"));
    assert!(matches!(p.handle_response(resp(None, Some("weird"))), PollDecision::Fail(m) if m == "weird"));
    assert!(matches!(p.handle_response(resp(Some("tok"), Some("slow_down"))), PollDecision::Token(t) if t == "tok"));
    assert_eq!(p.interval_secs, 10);
    let info = device_flow_info(&DeviceCodeResponse {
        device_code: "d".into(),
        user_code: "U-1".into(),
        verification_uri: "https://github.com/login/device".into(),
        expires_in: 900,
        interval: 5,
    });
    assert_eq!(info.user_code, "U-1");
}

fn remote(node: Option<&str>, owner: Option<&str>, name: &str) -> RemoteRepo {
    RemoteRepo {
        id: 7,
        node_id: node.map(String::from),
        name: name.into(),
        html_url: None,
        owner_login: owner.map(String::from),
        owner_name: None,
        description: None,
    }
}

#[test]
fn repository_decisions() {
    let repos = vec![remote(None, Some("x"), "a"), remote(Some("N1"), Some("me"), "proj"), remote(Some("N2"), None, "b")];
    let (o, n) = RepositoryCacheService::owner_name_from_listing(repos.clone(), "N1").unwrap();
    assert_eq!((o.as_str(), n.as_str()), ("me", "proj"));
    assert!(matches!(RepositoryCacheService::owner_name_from_listing(repos.clone(), "N2"), Err(CommandError::Internal)));
    assert!(matches!(
        RepositoryCacheService::owner_name_from_listing(repos, "N3"),
        Err(CommandError::BadInput { description }) if description == "Repository not found"
    ));
    let r = Repo::from_remote(remote(Some("N1"), None, "p"));
    assert_eq!((r.id, r.node_id.as_str(), r.owner_name.as_str(), r.html_url.as_str()), (7, "N1", "", ""));
    assert!(matches!(
        RepositoryService::not_git_repo("/tmp/x"),
        CommandError::BadInput { description } if description == "Directory /tmp/x is not a git repository"
    ));
    assert_eq!(PullRequestService::local_dir_for_review(Some(Some("/r".into()))).unwrap(), "/r");
    assert!(PullRequestService::local_dir_for_review(Some(None)).is_err());
    assert!(PullRequestService::local_dir_for_review(None).is_err());
}

#[test]
fn highlight_service_highlights_known_syntax() {
    let svc = HighlightService::new();
    let f = svc.highlight_file("fn main() {}\nlet x = 1;\n", "main.rs").unwrap();
    assert_eq!(f.len(), 2);
    let line2: String = f.get(2).unwrap().iter().map(|t| t.content.as_str()).collect();
    assert_eq!(line2, "let x = 1;");
    let line1 = f.get(1).unwrap();
    let joined: String = line1.iter().map(|t| t.content.as_str()).collect();
    assert_eq!(joined, "fn main() {}");
    assert!(line1.iter().all(|t| t.color.as_deref().map_or(false, |c| c.len() == 7 && c.starts_with('#'))));
    assert!(f.get(3).is_none());
    let plain = svc.highlight_with("a\nb", None).unwrap();
    assert_eq!(plain.get(2).unwrap()[0].content, "b");
    assert!(plain.get(2).unwrap()[0].color.is_none());
}

#[test]
fn context_lines_cover_requested_range() {
    let f = HighlightedFile::plain("one\ntwo\nthree\nfour");
    let lines = context_lines(&f, 2, 3, 10);
    assert_eq!(lines.len(), 2);
    assert_eq!(lines[0].line_type, DiffLineType::Context);
    assert_eq!((lines[0].old_lineno, lines[0].new_lineno), (Some(10), Some(2)));
    assert_eq!(lines[1].tokens[0].content, "three");
    assert!(!lines[1].tokens[0].changed);
    assert_eq!(context_lines(&f, 3, 99, 1).len(), 2);
    assert!(context_lines(&f, 5, 9, 1).is_empty());
    assert!(context_lines(&f, 3, 2, 1).is_empty());
    assert_eq!(context_lines(&f, 0, 1, 1)[0].new_lineno, Some(0));
}

#[test]
fn command_error_messages() {
    assert_eq!(CommandError::bad_input("nope".into()).message(), "Got bad input: nope");
    assert_eq!(CommandError::Internal.message(), "Internal Error");
}

#[test]
fn hunk_lines_take_tokens_from_their_side() {
    let tok = |c: &str, color: &str| Token { content: c.into(), color: Some(color.into()) };
    let old_file = HighlightedFile::new(vec![vec![tok("one", "#111111")], vec![tok("two", "#222222")]]);
    let new_file = HighlightedFile::new(vec![vec![tok("uno", "#333333"), tok("!", "#444444")]]);
    let line = |origin, old_lineno, new_lineno, content: &str| HunkLine { origin, old_lineno, new_lineno, content: content.into(), is_utf8: true };
    let lines = vec![
        line(LineOrigin::Deletion, Some(2), None, "two\n"),
        line(LineOrigin::Addition, None, Some(1), "uno!\n"),
        line(LineOrigin::Context, Some(9), Some(5), "far\n"),
        line(LineOrigin::Deletion, None, Some(1), "lost\n"),
    ];
    let tokens = hunk_line_tokens(&old_file, &new_file, &lines);
    assert_eq!(tokens.len(), 4);
    assert_eq!(tokens[0].len(), 1);
    assert_eq!(tokens[0][0].content, "two");
    assert_eq!(tokens[0][0].color.as_deref(), Some("#222222"));
    assert_eq!(tokens[1].len(), 2);
    assert_eq!(tokens[1][1].color.as_deref(), Some("#444444"));
    assert_eq!(tokens[2][0].content, "far\n");
    assert!(tokens[2][0].color.is_none());
    assert_eq!(tokens[3][0].content, "lost\n");
}

#[test]
fn patch_id_same_for_other_hunk_layout() {
    let one = HunkData {
        old_start: 1,
        old_lines: 4,
        new_start: 1,
        new_lines: 4,
        header: String::new(),
        lines: vec![
            pl(LineOrigin::Deletion, "a"),
            pl(LineOrigin::Context, "keep"),
            pl(LineOrigin::Addition, "b  "),
        ],
    };
    let first = HunkData { lines: vec![pl(LineOrigin::Context, "x"), pl(LineOrigin::Deletion, "a")], ..one.clone() };
    let second = HunkData { lines: vec![pl(LineOrigin::Addition, "b"), pl(LineOrigin::Context, "y")], ..one.clone() };
    let id_one = compute_file_patch_id(&vec![one]);
    let id_two = compute_file_patch_id(&vec![first, second]);
    assert_eq!(id_one.as_str(), id_two.as_str());
    assert_eq!(id_one.as_str().len(), 40);
}
