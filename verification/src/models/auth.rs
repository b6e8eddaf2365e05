use vstd::prelude::*;

verus! {

/// What the user needs to finish a GitHub device-flow login.
#[derive(Debug, Clone)]
pub struct DeviceFlowInfo {
    pub user_code: String,
    pub verification_uri: String,
}

} // verus!
