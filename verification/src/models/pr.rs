use vstd::prelude::*;

use super::change_id::ChangeId;
use super::git::PatchId;

verus! {

/// A commit of a pull request.
#[derive(Clone, Debug)]
pub struct PRCommit {
    pub change_id: Option<ChangeId>,
    pub sha: String,
    pub summary: String,
    pub description: String,
}

/// How a file changed in a commit.
#[derive(Clone, Copy, Debug, PartialEq, Eq, Structural)]
pub enum FileChangeStatus {
    Added,
    Modified,
    Deleted,
    Renamed,
    Copied,
    Typechange,
}

/// One hunk of a file diff.
#[derive(Clone, Debug)]
pub struct DiffHunk {
    pub old_start: u32,
    pub old_lines: u32,
    pub new_start: u32,
    pub new_lines: u32,
    pub header: String,
    pub lines: Vec<DiffLine>,
}

/// One line of a hunk.
#[derive(Clone, Debug)]
pub struct DiffLine {
    pub line_type: DiffLineType,
    pub old_lineno: Option<u32>,
    pub new_lineno: Option<u32>,
    pub tokens: Vec<HighlightToken>,
}

/// A run of text with one color.
#[derive(Clone, Debug)]
pub struct HighlightToken {
    /// The text content of this token
    pub content: String,
    /// CSS hex color (e.g., "#cf222e"), None for default foreground
    pub color: Option<String>,
    /// Whether the text lies in a word-level change
    pub changed: bool,
}

/// The kind of a diff line.
#[derive(Clone, Copy, Debug, PartialEq, Eq, Structural)]
pub enum DiffLineType {
    Context,
    Addition,
    Deletion,
    AddEofnl,
    DelEofnl,
}

/// Lightweight file entry for file list (no content/hunks)
#[derive(Clone, Debug)]
pub struct FileEntry {
    pub old_path: Option<String>,
    pub new_path: Option<String>,
    pub status: FileChangeStatus,
    pub additions: u32,
    pub deletions: u32,
    pub is_binary: bool,
    pub patch_id: Option<PatchId>,
    pub is_reviewed: bool,
}

/// The files changed by a commit.
#[derive(Clone, Debug)]
pub struct CommitFileList {
    pub commit_sha: String,
    pub change_id: Option<ChangeId>,
    pub files: Vec<FileEntry>,
}

/// The diff of one file.
#[derive(Clone, Debug)]
pub struct FileDiff {
    pub hunks: Vec<DiffHunk>,
    pub new_file_lines: u32,
}

} // verus!
