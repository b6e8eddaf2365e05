use kenjutu::services::jj::{
    get_change_id, get_commits_in_range, get_log, get_status, log_commit_from_fields,
    parse_commits_in_range_output, parse_log_output, pr_commit_from_fields, range_revset, Error,
};

const CID: &str = "abcdefghijklmnopqrstuvwxyzabcdef";
const CID2: &str = "zyxwvutsrqponmlkjihgfedcbazyxwvu";

fn log_line(desc_json: &str, parents: &str) -> String {
    format!(
        "{CID}\x00c0ffee\x00{desc_json}\x00Alice\x00alice@example.com\x002024-01-01\x00false\x00true\x00{parents}"
    )
}

fn fields_of(line: &str) -> Vec<Vec<char>> {
    line.split('\x00').map(|p| p.chars().collect()).collect()
}

#[test]
fn log_output_reads_commit_fields() {
    let out = format!("{}\n", log_line("\"Add thing\\n\\n  Details here\"", &format!("{CID2},")));
    let commits = parse_log_output(&out).unwrap();
    assert_eq!(commits.len(), 1);
    let c = &commits[0];
    assert_eq!(c.change_id.to_string(), CID);
    assert_eq!(c.commit_id, "c0ffee");
    assert_eq!(c.summary, "Add thing");
    assert_eq!(c.description, "Details here");
    assert_eq!(c.author, "Alice");
    assert_eq!(c.email, "alice@example.com");
    assert_eq!(c.timestamp, "2024-01-01");
    assert!(!c.is_immutable);
    assert!(c.is_working_copy);
    assert_eq!(c.parents.len(), 1);
    assert_eq!(c.parents[0].to_string(), CID2);
}

#[test]
fn log_output_skips_blank_and_short_lines() {
    let out = format!("\n   \nonly\x00two\n{}\n", log_line("\"one line\"", ""));
    let commits = parse_log_output(&out).unwrap();
    assert_eq!(commits.len(), 1);
    assert_eq!(commits[0].summary, "one line");
    assert_eq!(commits[0].description, "");
    assert!(commits[0].parents.is_empty());
}

#[test]
fn log_output_bad_parent_is_parse_error() {
    let out = log_line("\"x\"", "short");
    match parse_log_output(&out) {
        Err(Error::Parse(m)) => assert_eq!(
            m,
            "Invalid ChangeId: expected a 32-character string, got 'short'"
        ),
        _ => panic!("expected a parse error"),
    }
}

#[test]
fn log_output_bad_json_is_parse_error() {
    let out = log_line("not json", "");
    assert!(matches!(parse_log_output(&out), Err(Error::Parse(_))));
}

#[test]
fn log_fields_with_decoded_description() {
    let line = log_line("ignored", "");
    let parts = fields_of(&line);
    let c = log_commit_from_fields(&parts, Ok("Title\n  body".to_string())).unwrap();
    assert_eq!(c.summary, "Title");
    assert_eq!(c.description, "body");
    let e = log_commit_from_fields(&parts, Err("bad".to_string()));
    assert!(matches!(e, Err(Error::Parse(m)) if m == "bad"));
}

#[test]
fn range_output_trims_description() {
    let out = format!("{CID}\x00deadbeef\x00\"  Summary  \"\n{CID2}\x00beef\x00\"First\\n  rest  \\n\"\n");
    let commits = parse_commits_in_range_output(&out).unwrap();
    assert_eq!(commits.len(), 2);
    assert_eq!(commits[0].sha, "deadbeef");
    assert_eq!(commits[0].summary, "Summary");
    assert_eq!(commits[0].description, "");
    assert_eq!(commits[0].change_id.unwrap().to_string(), CID);
    assert_eq!(commits[1].summary, "First");
    assert_eq!(commits[1].description, "rest");
}

#[test]
fn range_fields_bad_change_id() {
    let parts = fields_of("nope\x00sha\x00\"d\"");
    let r = pr_commit_from_fields(&parts, Ok("d".to_string()));
    assert!(matches!(r, Err(Error::Parse(m)) if m.contains("'nope'")));
}

#[test]
fn failed_run_reports_stderr() {
    assert!(matches!(get_log(false, "", "boom"), Err(Error::JjFailed(m)) if m == "boom"));
    assert!(matches!(get_commits_in_range(false, "", "bad"), Err(Error::JjFailed(m)) if m == "bad"));
    let ok = get_commits_in_range(true, "", "").unwrap();
    assert!(ok.is_empty());
}

#[test]
fn change_id_from_output() {
    let id = get_change_id(true, &format!("  {CID}\n"), "", "abc").unwrap();
    assert_eq!(id.to_string(), CID);
    match get_change_id(true, " \n", "", "abc") {
        Err(Error::JjFailed(m)) => assert_eq!(m, "No change_id found for commit abc. Output:  \n"),
        _ => panic!("expected JjFailed"),
    }
    assert!(matches!(get_change_id(true, "xyz", "", "abc"), Err(Error::Parse(_))));
    assert!(matches!(get_change_id(false, "", "err", "abc"), Err(Error::JjFailed(m)) if m == "err"));
}

#[test]
fn revset_and_status() {
    assert_eq!(range_revset("aaa", "bbb"), "aaa..bbb");
    let s = get_status(true, false);
    assert!(s.is_installed && !s.is_jj_repo);
}

#[test]
fn error_messages() {
    assert_eq!(Error::Command("x".into()).message(), "Failed to run jj command: x");
    assert_eq!(Error::JjFailed("y".into()).message(), "jj command failed: y");
    assert_eq!(Error::Parse("z".into()).message(), "Failed to parse output: z");
}
