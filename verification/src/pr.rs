use vstd::prelude::*;

verus! {

/// A pull request with its commits.
#[derive(Clone, Debug)]
pub struct GetPullResponse {
    pub title: String,
    pub body: String,
    pub base_branch: String,
    pub head_branch: String,
    pub commits: Vec<PRCommit>,
}

/// A commit of a pull request, read from the local repository.
#[derive(Clone, Debug)]
pub struct PRCommit {
    pub change_id: Option<String>,
    pub sha: String,
    pub summary: String,
    pub description: String,
}

} // verus!
