use vstd::prelude::*;

use crate::models::git::{ChangeId, PatchId};

verus! {

/// A file marked as reviewed at one version of its patch.
#[derive(Debug, Clone)]
pub struct ReviewedFile {
    pub change_id: ChangeId,
    pub file_path: String,
    pub patch_id: PatchId,
    pub reviewed_at: String,
}

} // verus!
