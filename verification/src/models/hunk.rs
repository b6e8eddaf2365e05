use vstd::prelude::*;

verus! {

/// A hunk identified by its line ranges on the old and the new side, as the
/// review markers record it.
#[derive(Debug, Clone, Copy, PartialEq, Eq, Structural)]
pub struct HunkId {
    pub old_start: u32,
    pub old_lines: u32,
    pub new_start: u32,
    pub new_lines: u32,
}

} // verus!
