pub mod commit_log;
pub mod diff_panel;
pub mod review;

use vstd::prelude::*;

use crate::models::jj::JjCommit;

verus! {

/// What a screen asks of the application after a key press.
pub enum ScreenOutcome {
    /// Stay on the screen.
    Continue,
    /// Leave the application.
    Quit,
    /// Open the review screen for this commit.
    EnterReview(JjCommit),
    /// Leave the review screen.
    ExitReview,
    /// Show this error message.
    Error(String),
}

} // verus!
