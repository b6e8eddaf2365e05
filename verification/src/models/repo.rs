use vstd::prelude::*;

verus! {

#[verifier::external_type_specification]
#[verifier::external_body]
pub struct ExPathBuf(std::path::PathBuf);

/// A GitHub repository as listed for the user.
#[derive(Debug, Clone)]
pub struct Repo {
    pub id: u64,
    pub node_id: String,
    pub name: String,
    pub html_url: String,
    pub owner_name: String,
}

/// A repository with its local checkout, if one was set.
#[derive(Debug, Clone)]
pub struct FullRepo {
    pub name: String,
    pub owner_name: Option<String>,
    pub description: Option<String>,
    pub local_repo: Option<std::path::PathBuf>,
}

} // verus!
