//! Repositories as GitHub lists them, and what the application keeps of them.
//!
//! Talking to GitHub and to the database is left to the caller; these
//! functions decide what to make of the answers.

use vstd::prelude::*;

use crate::errors::CommandError;
use crate::models::repo::{FullRepo, Repo};
use crate::pr::{GetPullResponse, PRCommit};
use crate::services::git::{oid_text, spec_oid_bytes};
use crate::services::review::spec_hex;
use crate::text::{push_str, str_chars, string_of};

verus! {

/// The fields of a GitHub repository that the application reads.
#[derive(Debug, Clone)]
pub struct RemoteRepo {
    pub id: u64,
    pub node_id: Option<String>,
    pub name: String,
    pub html_url: Option<String>,
    pub owner_login: Option<String>,
    pub owner_name: Option<String>,
    pub description: Option<String>,
}

/// The text of an optional string, empty when absent.
pub open spec fn or_empty(o: Option<String>) -> Seq<char> {
    match o {
        Some(s) => s@,
        None => Seq::empty(),
    }
}

fn unwrap_or_empty(o: Option<String>) -> (r: String)
    ensures
        r@ == or_empty(o),
{
    match o {
        Some(s) => s,
        None => String::new(),
    }
}

impl Repo {
    /// A listed repository; missing node id, address or owner become empty.
    pub fn from_remote(value: RemoteRepo) -> (r: Repo)
        ensures
            r.id == value.id,
            r.node_id@ == or_empty(value.node_id),
            r.name@ == value.name@,
            r.html_url@ == or_empty(value.html_url),
            r.owner_name@ == or_empty(value.owner_login),
    {
        Repo {
            id: value.id,
            node_id: unwrap_or_empty(value.node_id),
            name: value.name,
            html_url: unwrap_or_empty(value.html_url),
            owner_name: unwrap_or_empty(value.owner_login),
        }
    }
}

impl FullRepo {
    /// A repository with its local checkout.
    pub fn new(repo: RemoteRepo, local_repo: Option<std::path::PathBuf>) -> (r: FullRepo)
        ensures
            r.name@ == repo.name@,
            r.owner_name == repo.owner_name,
            r.description == repo.description,
            r.local_repo == local_repo,
    {
        FullRepo {
            name: repo.name,
            owner_name: repo.owner_name,
            description: repo.description,
            local_repo,
        }
    }
}

/// Finds repositories' owner and name.
pub struct RepositoryCacheService;

/// The first index of a repository with node id `node_id`, or the length.
pub open spec fn spec_find_node(repos: Seq<RemoteRepo>, node_id: Seq<char>, i: int) -> int
    decreases repos.len() - i,
{
    if i >= repos.len() {
        repos.len() as int
    } else if repos[i].node_id matches Some(n) && n@ == node_id {
        i
    } else {
        spec_find_node(repos, node_id, i + 1)
    }
}

proof fn lemma_find_node_bounds(repos: Seq<RemoteRepo>, node_id: Seq<char>, i: int)
    requires
        0 <= i <= repos.len(),
    ensures
        i <= spec_find_node(repos, node_id, i) <= repos.len(),
    decreases repos.len() - i,
{
    if i < repos.len() && !(repos[i].node_id matches Some(n) && n@ == node_id) {
        lemma_find_node_bounds(repos, node_id, i + 1);
    }
}

impl RepositoryCacheService {
    /// The owner and name of the repository with node id `node_id` among
    /// those GitHub listed: "Repository not found" when none has it, an
    /// internal error when it has no owner.
    pub fn owner_name_from_listing(repos: Vec<RemoteRepo>, node_id: &str) -> (r: Result<
        (String, String),
        CommandError,
    >)
        ensures
            ({
                let k = spec_find_node(repos@, node_id@, 0);
                if k >= repos@.len() {
                    r matches Err(CommandError::BadInput { description: d }) && d@
                        == "Repository not found"@
                } else {
                    match repos@[k].owner_login {
                        Some(o) => r matches Ok((owner, name)) && owner@ == o@ && name@
                            == repos@[k].name@,
                        None => r matches Err(CommandError::Internal),
                    }
                }
            }),
    {
        let target = node_id.to_owned();
        let mut i: usize = 0;
        proof {
            lemma_find_node_bounds(repos@, node_id@, 0);
        }
        while i < repos.len()
            invariant
                i <= repos@.len(),
                spec_find_node(repos@, node_id@, i as int) == spec_find_node(repos@, node_id@, 0),
                target@ == node_id@,
            decreases repos.len() - i,
        {
            let found = match &repos[i].node_id {
                Some(n) => *n == target,
                None => false,
            };
            if found {
                return match &repos[i].owner_login {
                    Some(o) => Ok((o.clone(), repos[i].name.clone())),
                    None => Err(CommandError::Internal),
                };
            }
            i = i + 1;
        }
        Err(CommandError::bad_input("Repository not found".to_owned()))
    }
}

/// Lists and opens repositories.
pub struct RepositoryService;

/// The message for a directory that is not a git repository.
pub open spec fn not_git_repo_message(local_dir: Seq<char>) -> Seq<char> {
    "Directory "@ + local_dir + " is not a git repository"@
}

impl RepositoryService {
    /// The error for a directory that is not a git repository.
    pub fn not_git_repo(local_dir: &str) -> (r: CommandError)
        ensures
            r matches CommandError::BadInput { description: d } && d@ == not_git_repo_message(
                local_dir@,
            ),
    {
        let mut buf: Vec<char> = Vec::new();
        push_str(&mut buf, "Directory ");
        push_str(&mut buf, local_dir);
        push_str(&mut buf, " is not a git repository");
        proof {
            assert(buf@ =~= not_git_repo_message(local_dir@));
        }
        CommandError::bad_input(string_of(&buf))
    }
}

/// Lists, reads and merges pull requests.
pub struct PullRequestService;

impl PullRequestService {
    /// The local checkout to review in, from the stored local repository (if
    /// one is stored, its directory if one was set): "Please set local
    /// repository to review PR" when there is none.
    pub fn local_dir_for_review(stored: Option<Option<String>>) -> (r: Result<String, CommandError>)
        ensures
            match stored {
                Some(Some(d)) => r matches Ok(s) && s@ == d@,
                _ => r matches Err(CommandError::BadInput { description: m }) && m@
                    == "Please set local repository to review PR"@,
            },
    {
        match stored {
            Some(Some(d)) => Ok(d),
            _ => Err(CommandError::bad_input("Please set local repository to review PR".to_owned())),
        }
    }

    /// The revision range of a pull request's commits, `base..head`, from the
    /// object ids GitHub gives for its base and head, each written out in
    /// full; an internal error when either is not an object id.
    pub fn pr_commit_range(base_sha: &str, head_sha: &str) -> (r: Result<String, CommandError>)
        ensures
            is_oid_text_pair(base_sha@, head_sha@) ==> (r matches Ok(s) && s@ == spec_hex(
                spec_oid_bytes(base_sha@),
            ) + ".."@ + spec_hex(spec_oid_bytes(head_sha@))),
            !is_oid_text_pair(base_sha@, head_sha@) ==> (r matches Err(CommandError::Internal)),
    {
        let head = match oid_text(head_sha) {
            Some(h) => h,
            None => return Err(CommandError::Internal),
        };
        let base = match oid_text(base_sha) {
            Some(b) => b,
            None => return Err(CommandError::Internal),
        };
        let mut buf = str_chars(base.as_str());
        push_str(&mut buf, "..");
        push_str(&mut buf, head.as_str());
        Ok(string_of(&buf))
    }

    /// A commit of a pull request from what the repository gives: its
    /// summary and body, empty when absent.
    pub fn pr_commit(change_id: Option<String>, sha: String, summary: Option<String>, body: Option<
        String,
    >) -> (r: PRCommit)
        ensures
            r.change_id == change_id,
            r.sha@ == sha@,
            r.summary@ == or_empty(summary),
            r.description@ == or_empty(body),
    {
        PRCommit {
            change_id,
            sha,
            summary: unwrap_or_empty(summary),
            description: unwrap_or_empty(body),
        }
    }

    /// The details of a pull request: its title and body (empty when GitHub
    /// gives none), its base and head branches, and its commits.
    pub fn pull_response(
        title: Option<String>,
        body: Option<String>,
        base_ref: String,
        head_ref: String,
        commits: Vec<PRCommit>,
    ) -> (r: GetPullResponse)
        ensures
            r.title@ == or_empty(title),
            r.body@ == or_empty(body),
            r.base_branch@ == base_ref@,
            r.head_branch@ == head_ref@,
            r.commits@ == commits@,
    {
        GetPullResponse {
            title: unwrap_or_empty(title),
            body: unwrap_or_empty(body),
            base_branch: base_ref,
            head_branch: head_ref,
            commits,
        }
    }
}

/// Whether both texts are object ids.
pub open spec fn is_oid_text_pair(a: Seq<char>, b: Seq<char>) -> bool {
    crate::services::git::is_oid_text(a) && crate::services::git::is_oid_text(b)
}

} // verus!
