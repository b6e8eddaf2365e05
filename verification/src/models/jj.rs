use vstd::prelude::*;

use super::change_id::ChangeId;

verus! {

/// A commit as listed by `jj log`.
#[derive(Clone, Debug)]
pub struct JjCommit {
    pub change_id: ChangeId,
    pub commit_id: String,
    pub summary: String,
    pub description: String,
    pub author: String,
    pub email: String,
    pub timestamp: String,
    pub is_immutable: bool,
    pub is_working_copy: bool,
    pub parents: Vec<ChangeId>,
}

/// The commits of a `jj log` run.
#[derive(Clone, Debug)]
pub struct JjLogResult {
    pub commits: Vec<JjCommit>,
}

/// Whether jj is installed and whether a directory is a jj repository.
#[derive(Clone, Copy, Debug, PartialEq, Eq, Structural)]
pub struct JjStatus {
    pub is_installed: bool,
    pub is_jj_repo: bool,
}

} // verus!
