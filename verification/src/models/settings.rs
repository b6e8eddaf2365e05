use vstd::prelude::*;

verus! {

/// SSH settings kept in the application store.
#[derive(Debug, Clone)]
pub struct SshSettings {
    /// If set, this private key path is tried first before auto-detection.
    pub private_key_path: Option<String>,
}

impl Default for SshSettings {
    fn default() -> (s: Self)
        ensures
            s.private_key_path is None,
    {
        SshSettings { private_key_path: None }
    }
}

} // verus!
