use vstd::prelude::*;

verus! {

/// A GitHub user.
#[derive(Debug, Clone)]
pub struct User {
    pub login: String,
    pub id: u32,
    pub avatar_url: String,
    pub gravatar_id: String,
    pub name: Option<String>,
}

} // verus!
