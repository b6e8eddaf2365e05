//! The review screen: the files a commit changes, the diff of the selected
//! file, and a prompt to describe the commit.
//!
//! Key handling decides what happens; reading the repository and writing
//! review marks are left to the caller, which performs the returned
//! [`ReviewAction`] and reports back.

pub mod diff_panel;
pub mod diff_view;

use vstd::prelude::*;

use crate::keys::{KeyCode, KeyEvent};
use crate::models::change_id::ChangeId;
use crate::models::hunk::HunkId;
use crate::models::jj::JjCommit;
use crate::models::pr::{FileChangeStatus, FileEntry};
use crate::screens::ScreenOutcome;
use crate::text::{push_decimal, push_str, spec_decimal, string_of};
use crate::widgets::range_list::{spec_selection_range, RangeListView};
use crate::widgets::status_bar::{binding_view, Binding};
use crate::widgets::text_input::{spec_key_step, TextInput, TextInputOutcome, TextInputView};
use diff_panel::{
    spec_hunk_id_computable, spec_panel_key_step, spec_selected_hunk_id, HunkReviewAction,
};
use diff_view::{DiffSide, DiffView, DiffViewAction, DiffViewOutcome};

verus! {

/// Which part of the review screen takes the keys.
#[derive(Debug, Clone, Copy, PartialEq, Eq, Structural)]
pub enum ReviewFocus {
    FileList,
    DiffView,
}

/// What the caller must do after a key press on the review screen.
pub enum ReviewAction {
    /// Nothing to run: report this outcome.
    Outcome(ScreenOutcome),
    /// Set the description of `change_id` to `message`; on success call
    /// `described(message)`.
    Describe { change_id: ChangeId, message: String },
    /// The selected file changed: load its diff (see `current_file_target`).
    LoadFile,
    /// Mark the file `file_path` (renamed from `old_path`) as reviewed, or
    /// remove the mark when `is_reviewed`; then reload the file list and
    /// the diff.
    ToggleReviewed { file_path: String, old_path: Option<String>, is_reviewed: bool },
    /// Reload the file list and the diff.
    Reload,
    /// Apply a hunk action of the diff view (see `DiffViewAction::Apply`),
    /// then finish it on the diff view and reload.
    ApplyHunk { side: DiffSide, action: HunkReviewAction, hunk: HunkId, restore_pos: usize },
}

/// The paths to show for a file: the old path of a deleted file, the new
/// path (and the old one) of a renamed file, else the new path; a missing
/// path counts as empty.
pub open spec fn spec_resolve_file_paths(f: FileEntry) -> (Seq<char>, Option<Seq<char>>) {
    let or_empty = |p: Option<String>| match p {
        Some(s) => s@,
        None => Seq::<char>::empty(),
    };
    match f.status {
        FileChangeStatus::Deleted => (or_empty(f.old_path), None),
        FileChangeStatus::Renamed => (
            or_empty(f.new_path),
            match f.old_path {
                Some(s) => Some(s@),
                None => None,
            },
        ),
        _ => (or_empty(f.new_path), None),
    }
}

fn path_or_empty(p: &Option<String>) -> (r: String)
    ensures
        r@ == match p {
            Some(s) => s@,
            None => Seq::<char>::empty(),
        },
{
    match p {
        Some(s) => s.clone(),
        None => String::new(),
    }
}

/// The path of `file` to diff and, for a rename, its old path.
pub fn resolve_file_paths(file: &FileEntry) -> (r: (String, Option<String>))
    ensures
        r.0@ == spec_resolve_file_paths(*file).0,
        match r.1 {
            Some(s) => spec_resolve_file_paths(*file).1 == Some(s@),
            None => spec_resolve_file_paths(*file).1 is None,
        },
{
    match file.status {
        FileChangeStatus::Deleted => (path_or_empty(&file.old_path), None),
        FileChangeStatus::Renamed => (
            path_or_empty(&file.new_path),
            match &file.old_path {
                Some(s) => Some(s.clone()),
                None => None,
            },
        ),
        _ => (path_or_empty(&file.new_path), None),
    }
}

/// The number of files marked reviewed.
pub open spec fn spec_reviewed_count(files: Seq<FileEntry>) -> nat
    decreases files.len(),
{
    if files.len() == 0 {
        0
    } else {
        spec_reviewed_count(files.drop_last()) + if files.last().is_reviewed {
            1nat
        } else {
            0nat
        }
    }
}

/// The status bar of the review screen: with the file list focused, its
/// keys; with the diff focused, the movement and selection keys, Space with
/// the focused panel's action, the panel switch when both panels show, the
/// file steps and the way back.
pub open spec fn spec_review_bindings(focus: ReviewFocus, action: HunkReviewAction, split: bool) -> Seq<
    (Seq<char>, Seq<char>),
> {
    match focus {
        ReviewFocus::FileList => seq![
            ("j/k"@, "navigate"@),
            ("Enter/Tab"@, "diff view"@),
            ("Space"@, "mark reviewed"@),
            ("d"@, "describe"@),
            ("Esc/q"@, "back"@),
        ],
        ReviewFocus::DiffView => seq![
            ("j/k"@, "navigate"@),
            ("C-d/C-u"@, "page"@),
            ("v"@, "select"@),
            (
                "Space"@,
                match action {
                    HunkReviewAction::Mark => "mark reviewed"@,
                    HunkReviewAction::Unmark => "unreview"@,
                },
            ),
        ] + (if split {
            seq![("Tab/S-Tab"@, "switch panel"@)]
        } else {
            Seq::empty()
        }) + seq![("n/N"@, "next/prev file"@), ("Esc/q"@, "back"@)],
    }
}

/// The review screen.
pub struct ReviewScreen {
    pub commit: JjCommit,
    pub change_id: ChangeId,
    pub files: Vec<FileEntry>,
    pub file_selected_index: usize,
    pub diff_view: DiffView,
    pub focus: ReviewFocus,
    pub file_list_selected: Option<usize>,
    pub describe_input: Option<TextInput>,
}

/// The message shown when describing an immutable commit is refused.
pub open spec fn immutable_review_message() -> Seq<char> {
    "Cannot describe an immutable commit"@
}

impl ReviewScreen {
    /// The describe prompt, if open.
    pub open spec fn spec_prompt(&self) -> Option<TextInputView> {
        match self.describe_input {
            Some(i) => Some(i@),
            None => None,
        }
    }

    /// The screen for `commit` (change `change_id`) changing `files`: the
    /// first file selected, the file list focused.
    pub fn new(commit: JjCommit, change_id: ChangeId, files: Vec<FileEntry>) -> (s: Self)
        ensures
            s.commit == commit,
            s.change_id == change_id,
            s.files@ == files@,
            s.file_selected_index == 0,
            s.file_list_selected == Some(0usize),
            s.focus == ReviewFocus::FileList,
            s.describe_input is None,
            s.diff_view.focus == DiffSide::Left,
            s.diff_view.left.diff is None && s.diff_view.right.diff is None,
    {
        ReviewScreen {
            commit,
            change_id,
            files,
            file_selected_index: 0,
            diff_view: DiffView::new(),
            focus: ReviewFocus::FileList,
            file_list_selected: Some(0),
            describe_input: None,
        }
    }

    /// The selected file, if any.
    pub fn selected_file(&self) -> (r: Option<&FileEntry>)
        ensures
            match r {
                Some(f) => self.file_selected_index < self.files@.len() && *f
                    == self.files@[self.file_selected_index as int],
                None => self.file_selected_index >= self.files@.len(),
            },
    {
        if self.file_selected_index < self.files.len() {
            Some(&self.files[self.file_selected_index])
        } else {
            None
        }
    }

    /// What the diff area should show: `None` (empty) when no file is
    /// selected or the file is binary, else the paths to diff.
    pub fn current_file_target(&self) -> (r: Option<(String, Option<String>)>)
        ensures
            match r {
                None => self.file_selected_index >= self.files@.len()
                    || self.files@[self.file_selected_index as int].is_binary,
                Some((p, o)) => self.file_selected_index < self.files@.len()
                    && !self.files@[self.file_selected_index as int].is_binary && p@
                    == spec_resolve_file_paths(self.files@[self.file_selected_index as int]).0
                    && match o {
                    Some(s) => spec_resolve_file_paths(
                        self.files@[self.file_selected_index as int],
                    ).1 == Some(s@),
                    None => spec_resolve_file_paths(
                        self.files@[self.file_selected_index as int],
                    ).1 is None,
                },
            },
    {
        match self.selected_file() {
            None => None,
            Some(f) => if f.is_binary {
                None
            } else {
                Some(resolve_file_paths(f))
            },
        }
    }

    /// How many files are marked reviewed.
    pub fn reviewed_count(&self) -> (n: usize)
        ensures
            n == spec_reviewed_count(self.files@),
    {
        let mut n: usize = 0;
        let mut i: usize = 0;
        while i < self.files.len()
            invariant
                i <= self.files@.len(),
                n == spec_reviewed_count(self.files@.take(i as int)),
                n <= i,
            decreases self.files.len() - i,
        {
            proof {
                assert(self.files@.take(i + 1).drop_last() =~= self.files@.take(i as int));
            }
            if self.files[i].is_reviewed {
                n = n + 1;
            }
            i = i + 1;
        }
        proof {
            assert(self.files@.take(i as int) =~= self.files@);
        }
        n
    }

    /// The title of the file list: the reviewed files out of all.
    pub fn file_list_title(&self) -> (r: String)
        ensures
            r@ == " Files "@ + spec_decimal(spec_reviewed_count(self.files@)) + "/"@ + spec_decimal(
                self.files@.len(),
            ) + " "@,
    {
        let n = self.reviewed_count();
        let mut buf: Vec<char> = Vec::new();
        push_str(&mut buf, " Files ");
        push_decimal(&mut buf, n as u64);
        push_str(&mut buf, "/");
        push_decimal(&mut buf, self.files.len() as u64);
        push_str(&mut buf, " ");
        string_of(&buf)
    }

    /// The title of the diff area: the selected file's path, its old path
    /// when it has no new one, or nothing.
    pub fn file_title(&self) -> (r: String)
        ensures
            r@ == if self.file_selected_index < self.files@.len() {
                let f = self.files@[self.file_selected_index as int];
                match f.new_path {
                    Some(p) => p@,
                    None => match f.old_path {
                        Some(p) => p@,
                        None => Seq::<char>::empty(),
                    },
                }
            } else {
                Seq::<char>::empty()
            },
    {
        match self.selected_file() {
            Some(f) => match &f.new_path {
                Some(p) => p.clone(),
                None => match &f.old_path {
                    Some(p) => p.clone(),
                    None => String::new(),
                },
            },
            None => String::new(),
        }
    }

    /// The key bindings for the status bar.
    pub fn status_bindings(&self) -> (r: Vec<Binding>)
        ensures
            r@.map_values(|b: Binding| binding_view(b)) == spec_review_bindings(
                self.focus,
                self.diff_view.spec_focused().action,
                self.diff_view.spec_is_split(),
            ),
    {
        let mut b: Vec<Binding> = Vec::new();
        match self.focus {
            ReviewFocus::FileList => {
                b.push(Binding::new("j/k", "navigate"));
                b.push(Binding::new("Enter/Tab", "diff view"));
                b.push(Binding::new("Space", "mark reviewed"));
                b.push(Binding::new("d", "describe"));
                b.push(Binding::new("Esc/q", "back"));
            },
            ReviewFocus::DiffView => {
                b.push(Binding::new("j/k", "navigate"));
                b.push(Binding::new("C-d/C-u", "page"));
                b.push(Binding::new("v", "select"));
                b.push(Binding::new("Space", self.diff_view.action_label()));
                if self.diff_view.is_split() {
                    b.push(Binding::new("Tab/S-Tab", "switch panel"));
                }
                b.push(Binding::new("n/N", "next/prev file"));
                b.push(Binding::new("Esc/q", "back"));
            },
        }
        proof {
            assert(b@.map_values(|x: Binding| binding_view(x)) =~= spec_review_bindings(
                self.focus,
                self.diff_view.spec_focused().action,
                self.diff_view.spec_is_split(),
            ));
        }
        b
    }

    /// Selects the next file (stays on the last).
    pub fn select_next_file(&mut self)
        ensures
            final(self).file_selected_index == (if old(self).files@.len() > 0 {
                if old(self).file_selected_index + 1 < old(self).files@.len() {
                    old(self).file_selected_index + 1
                } else {
                    old(self).files@.len() - 1
                }
            } else {
                old(self).file_selected_index as int
            }),
            final(self).files == old(self).files,
            final(self).commit == old(self).commit,
            final(self).focus == old(self).focus,
            final(self).file_list_selected == old(self).file_list_selected,
            final(self).describe_input == old(self).describe_input,
            final(self).diff_view == old(self).diff_view,
    {
        let n = self.files.len();
        if n > 0 {
            if self.file_selected_index < n - 1 {
                self.file_selected_index = self.file_selected_index + 1;
            } else {
                self.file_selected_index = n - 1;
            }
        }
    }

    /// Selects the previous file (stays on the first).
    pub fn select_prev_file(&mut self)
        ensures
            final(self).file_selected_index == (if old(self).file_selected_index > 0 {
                old(self).file_selected_index - 1
            } else {
                0
            }),
            final(self).files == old(self).files,
            final(self).commit == old(self).commit,
            final(self).focus == old(self).focus,
            final(self).file_list_selected == old(self).file_list_selected,
            final(self).describe_input == old(self).describe_input,
            final(self).diff_view == old(self).diff_view,
    {
        if self.file_selected_index > 0 {
            self.file_selected_index = self.file_selected_index - 1;
        }
    }

    /// Shows a reloaded file list; a selection past its end moves to its last
    /// file.
    pub fn set_files(&mut self, files: Vec<FileEntry>)
        ensures
            final(self).files@ == files@,
            final(self).file_selected_index == (if old(self).file_selected_index >= files@.len()
                && files@.len() > 0 {
                (files@.len() - 1) as usize
            } else {
                old(self).file_selected_index
            }),
            final(self).file_list_selected == Some(final(self).file_selected_index),
            final(self).commit == old(self).commit,
            final(self).focus == old(self).focus,
            final(self).describe_input == old(self).describe_input,
            final(self).diff_view == old(self).diff_view,
    {
        self.files = files;
        if self.file_selected_index >= self.files.len() && self.files.len() > 0 {
            self.file_selected_index = self.files.len() - 1;
        }
        self.file_list_selected = Some(self.file_selected_index);
    }

    /// Records the new description of the commit.
    pub fn described(&mut self, message: String)
        ensures
            final(self).commit.summary@ == message@,
            final(self).commit.change_id == old(self).commit.change_id,
            final(self).commit.is_immutable == old(self).commit.is_immutable,
            final(self).files == old(self).files,
            final(self).file_selected_index == old(self).file_selected_index,
            final(self).focus == old(self).focus,
    {
        self.commit.summary = message;
    }

    /// Moves the file selection one step (`next`, or back); when it moved,
    /// the list follows and the new file's diff must be loaded.
    fn step_file(&mut self, next: bool) -> (r: ReviewAction)
        ensures
            final(self).files == old(self).files,
            final(self).commit == old(self).commit,
            final(self).focus == old(self).focus,
            final(self).describe_input == old(self).describe_input,
            final(self).diff_view == old(self).diff_view,
            next ==> final(self).file_selected_index == (if old(self).files@.len() > 0 {
                if old(self).file_selected_index + 1 < old(self).files@.len() {
                    old(self).file_selected_index + 1
                } else {
                    old(self).files@.len() - 1
                }
            } else {
                old(self).file_selected_index as int
            }),
            !next ==> final(self).file_selected_index == (if old(self).file_selected_index > 0 {
                old(self).file_selected_index - 1
            } else {
                0
            }),
            final(self).file_selected_index != old(self).file_selected_index ==> r is LoadFile
                && final(self).file_list_selected == Some(final(self).file_selected_index),
            final(self).file_selected_index == old(self).file_selected_index ==> (r matches ReviewAction::Outcome(ScreenOutcome::Continue))
                && final(self).file_list_selected == old(self).file_list_selected,
    {
        let old_idx = self.file_selected_index;
        if next {
            self.select_next_file();
        } else {
            self.select_prev_file();
        }
        if self.file_selected_index != old_idx {
            self.file_list_selected = Some(self.file_selected_index);
            ReviewAction::LoadFile
        } else {
            ReviewAction::Outcome(ScreenOutcome::Continue)
        }
    }

    /// Whether `handle_key_event` can take `key`: Space on the focused diff
    /// panel needs the hunk id of its selection to be computable.
    pub fn accepts_key(&self, key: KeyEvent) -> (r: bool)
        ensures
            r == (self.spec_prompt() is None && self.focus == ReviewFocus::DiffView && key.code
                == KeyCode::Char(' ') ==> spec_hunk_id_computable(
                self.diff_view.spec_focused().diff,
                self.diff_view.spec_focused().state@,
            )),
    {
        if self.describe_input.is_some() || self.focus != ReviewFocus::DiffView || key.code
            != KeyCode::Char(' ') {
            return true;
        }
        match self.diff_view.focus {
            DiffSide::Left => self.diff_view.left.hunk_id_computable(),
            DiffSide::Right => self.diff_view.right.hunk_id_computable(),
        }
    }

    /// Handles a key press: with the prompt open, the key goes to it; with
    /// the file list focused, `q`/Esc leave the screen, Tab/Enter/Shift-Tab
    /// focus the diff, `j`/`k` (or the arrows) move between files, Space
    /// toggles the file's reviewed mark, `r` reloads and `d` opens the
    /// prompt to describe the commit; with the diff focused, the key goes to
    /// the diff view.
    pub fn handle_key_event(&mut self, key: KeyEvent) -> (r: ReviewAction)
        requires
            old(self).spec_prompt() is None && old(self).focus == ReviewFocus::DiffView
                && key.code == KeyCode::Char(' ') ==> spec_hunk_id_computable(
                old(self).diff_view.spec_focused().diff,
                old(self).diff_view.spec_focused().state@,
            ),
        ensures
            final(self).commit == old(self).commit,
            final(self).files == old(self).files,
            old(self).spec_prompt() matches Some(p) ==> {
                &&& final(self).file_selected_index == old(self).file_selected_index
                &&& final(self).focus == old(self).focus
                &&& key.code == KeyCode::Enter ==> final(self).spec_prompt() is None && (r matches ReviewAction::Describe { change_id, message } && change_id
                    == old(self).change_id && message@ == p.content)
                &&& key.code == KeyCode::Esc ==> final(self).spec_prompt() is None && (r matches ReviewAction::Outcome(ScreenOutcome::Continue))
                &&& key.code != KeyCode::Enter && key.code != KeyCode::Esc ==> final(self).spec_prompt()
                    == Some(spec_key_step(p, key)) && (r matches ReviewAction::Outcome(ScreenOutcome::Continue))
            },
            old(self).spec_prompt() is None && old(self).focus == ReviewFocus::FileList ==> match key.code {
                KeyCode::Char('q') | KeyCode::Esc => *final(self) == *old(self) && (r matches ReviewAction::Outcome(ScreenOutcome::ExitReview)),
                KeyCode::Tab | KeyCode::Enter | KeyCode::BackTab => final(self).focus
                    == ReviewFocus::DiffView && final(self).file_selected_index == old(self).file_selected_index
                    && (r matches ReviewAction::Outcome(ScreenOutcome::Continue)),
                KeyCode::Char('j') | KeyCode::Down => final(self).focus == old(self).focus
                    && final(self).file_selected_index == (if old(self).files@.len() > 0 {
                    if old(self).file_selected_index + 1 < old(self).files@.len() {
                        old(self).file_selected_index + 1
                    } else {
                        old(self).files@.len() - 1
                    }
                } else {
                    old(self).file_selected_index as int
                }) && (if final(self).file_selected_index != old(self).file_selected_index {
                    r is LoadFile
                } else {
                    r matches ReviewAction::Outcome(ScreenOutcome::Continue)
                }),
                KeyCode::Char('k') | KeyCode::Up => final(self).focus == old(self).focus
                    && final(self).file_selected_index == (if old(self).file_selected_index > 0 {
                    old(self).file_selected_index - 1
                } else {
                    0
                }) && (if final(self).file_selected_index != old(self).file_selected_index {
                    r is LoadFile
                } else {
                    r matches ReviewAction::Outcome(ScreenOutcome::Continue)
                }),
                KeyCode::Char(' ') => *final(self) == *old(self) && if old(self).file_selected_index
                    < old(self).files@.len() {
                    let f = old(self).files@[old(self).file_selected_index as int];
                    r matches ReviewAction::ToggleReviewed { file_path, old_path, is_reviewed }
                        && file_path@ == spec_resolve_file_paths(f).0 && is_reviewed
                        == f.is_reviewed && match old_path {
                        Some(o) => spec_resolve_file_paths(f).1 == Some(o@),
                        None => spec_resolve_file_paths(f).1 is None,
                    }
                } else {
                    r matches ReviewAction::Outcome(ScreenOutcome::Continue)
                },
                KeyCode::Char('r') => *final(self) == *old(self) && r is Reload,
                KeyCode::Char('d') => final(self).focus == old(self).focus
                    && final(self).file_selected_index == old(self).file_selected_index
                    && if old(self).commit.is_immutable {
                    final(self).spec_prompt() is None && (r matches ReviewAction::Outcome(ScreenOutcome::Error(m))
                        && m@ == immutable_review_message())
                } else {
                    (final(self).spec_prompt() matches Some(p) && p.prompt == "Describe: "@
                        && p.content == old(self).commit.summary@ && p.cursor
                        == old(self).commit.summary@.len()) && (r matches ReviewAction::Outcome(ScreenOutcome::Continue))
                },
                _ => *final(self) == *old(self) && (r matches ReviewAction::Outcome(ScreenOutcome::Continue)),
            },
            old(self).spec_prompt() is None && old(self).focus == ReviewFocus::DiffView ==> {
                let dv = old(self).diff_view;
                let p = dv.spec_focused();
                &&& final(self).spec_prompt() is None
                &&& final(self).diff_view.left.diff == dv.left.diff
                &&& final(self).diff_view.right.diff == dv.right.diff
                &&& final(self).diff_view.left.action == dv.left.action
                &&& final(self).diff_view.right.action == dv.right.action
                &&& diff_view::spec_panel_uses_key(key, p.state@) ==> {
                    &&& r matches ReviewAction::Outcome(ScreenOutcome::Continue)
                    &&& final(self).focus == old(self).focus
                    &&& final(self).file_selected_index == old(self).file_selected_index
                    &&& final(self).diff_view.focus == dv.focus
                    &&& final(self).diff_view.spec_focused().state@ == spec_panel_key_step(
                        p.state@,
                        key,
                    )
                    &&& dv.focus == DiffSide::Left ==> final(self).diff_view.right.state@
                        == dv.right.state@
                    &&& dv.focus == DiffSide::Right ==> final(self).diff_view.left.state@
                        == dv.left.state@
                }
                &&& !diff_view::spec_panel_uses_key(key, p.state@) && key.code != KeyCode::Char(' ')
                    ==> final(self).diff_view.left.state@ == dv.left.state@
                    && final(self).diff_view.right.state@ == dv.right.state@
                &&& !diff_view::spec_panel_uses_key(key, p.state@) ==> match key.code {
                    KeyCode::Char('q') | KeyCode::Esc => final(self).focus == ReviewFocus::FileList
                        && final(self).diff_view.focus == dv.focus
                        && final(self).file_selected_index == old(self).file_selected_index
                        && (r matches ReviewAction::Outcome(ScreenOutcome::Continue)),
                    KeyCode::Tab => final(self).file_selected_index == old(self).file_selected_index
                        && (r matches ReviewAction::Outcome(ScreenOutcome::Continue)) && if dv.spec_is_split()
                        && dv.focus == DiffSide::Left {
                        final(self).diff_view.focus == DiffSide::Right && final(self).focus
                            == ReviewFocus::DiffView
                    } else {
                        final(self).diff_view.focus == dv.focus && final(self).focus
                            == ReviewFocus::FileList
                    },
                    KeyCode::BackTab => final(self).file_selected_index
                        == old(self).file_selected_index && (r matches ReviewAction::Outcome(ScreenOutcome::Continue))
                        && if dv.focus == DiffSide::Right {
                        final(self).diff_view.focus == DiffSide::Left && final(self).focus
                            == ReviewFocus::DiffView
                    } else {
                        final(self).diff_view.focus == dv.focus && final(self).focus
                            == ReviewFocus::FileList
                    },
                    KeyCode::Char(' ') => {
                        &&& final(self).focus == old(self).focus
                        &&& final(self).file_selected_index == old(self).file_selected_index
                        &&& final(self).diff_view.focus == dv.focus
                        &&& final(self).diff_view.spec_focused().state@ == match spec_selected_hunk_id(
                            p.diff,
                            p.state@,
                        ) {
                            Some(_) => p.state@,
                            None => RangeListView { anchor: None, ..p.state@ },
                        }
                        &&& dv.focus == DiffSide::Left ==> final(self).diff_view.right.state@
                            == dv.right.state@
                        &&& dv.focus == DiffSide::Right ==> final(self).diff_view.left.state@
                            == dv.left.state@
                        &&& match spec_selected_hunk_id(p.diff, p.state@) {
                            Some(id) => r matches ReviewAction::ApplyHunk {
                                side,
                                action,
                                hunk,
                                restore_pos,
                            } && side == dv.focus && action == p.action && hunk == id
                                && restore_pos == match spec_selection_range(p.state@) {
                                Some((start, _)) => start,
                                None => match p.state@.selected {
                                    Some(c) => c,
                                    None => 0usize,
                                },
                            },
                            None => r matches ReviewAction::Outcome(ScreenOutcome::Continue),
                        }
                    },
                    KeyCode::Char('n') => final(self).focus == old(self).focus
                        && final(self).diff_view.focus == dv.focus
                        && final(self).file_selected_index == (if old(self).files@.len() > 0 {
                        if old(self).file_selected_index + 1 < old(self).files@.len() {
                            old(self).file_selected_index + 1
                        } else {
                            old(self).files@.len() - 1
                        }
                    } else {
                        old(self).file_selected_index as int
                    }) && (if final(self).file_selected_index != old(self).file_selected_index {
                        r is LoadFile
                    } else {
                        r matches ReviewAction::Outcome(ScreenOutcome::Continue)
                    }),
                    KeyCode::Char('N') => final(self).focus == old(self).focus
                        && final(self).diff_view.focus == dv.focus
                        && final(self).file_selected_index == (if old(self).file_selected_index > 0 {
                        old(self).file_selected_index - 1
                    } else {
                        0
                    }) && (if final(self).file_selected_index != old(self).file_selected_index {
                        r is LoadFile
                    } else {
                        r matches ReviewAction::Outcome(ScreenOutcome::Continue)
                    }),
                    _ => final(self).focus == old(self).focus && final(self).diff_view.focus
                        == dv.focus && final(self).file_selected_index == old(self).file_selected_index
                        && (r matches ReviewAction::Outcome(ScreenOutcome::Continue)),
                }
            },
    {
        if self.describe_input.is_some() {
            let mut input = self.describe_input.take().unwrap();
            let outcome = input.handle_key_event(key);
            match outcome {
                TextInputOutcome::Continue => {
                    self.describe_input = Some(input);
                    return ReviewAction::Outcome(ScreenOutcome::Continue);
                },
                TextInputOutcome::Cancel => {
                    return ReviewAction::Outcome(ScreenOutcome::Continue);
                },
                TextInputOutcome::Confirm(message) => {
                    return ReviewAction::Describe { change_id: self.change_id, message };
                },
            }
        }
        match self.focus {
            ReviewFocus::FileList => self.handle_file_list_key(key),
            ReviewFocus::DiffView => {
                match self.diff_view.handle_key_event(key) {
                    DiffViewAction::Outcome(DiffViewOutcome::Continue) => ReviewAction::Outcome(
                        ScreenOutcome::Continue,
                    ),
                    DiffViewAction::Outcome(DiffViewOutcome::ExitToFileList) => {
                        self.focus = ReviewFocus::FileList;
                        ReviewAction::Outcome(ScreenOutcome::Continue)
                    },
                    DiffViewAction::Outcome(DiffViewOutcome::NextFile) => self.step_file(true),
                    DiffViewAction::Outcome(DiffViewOutcome::PrevFile) => self.step_file(false),
                    DiffViewAction::Outcome(DiffViewOutcome::ActionApplied) => ReviewAction::Reload,
                    DiffViewAction::Outcome(DiffViewOutcome::Error(e)) => ReviewAction::Outcome(
                        ScreenOutcome::Error(e),
                    ),
                    DiffViewAction::Apply { side, action, hunk, restore_pos } => {
                        ReviewAction::ApplyHunk { side, action, hunk, restore_pos }
                    },
                }
            },
        }
    }

    /// Handles a key press with the file list focused.
    fn handle_file_list_key(&mut self, key: KeyEvent) -> (r: ReviewAction)
        requires
            old(self).spec_prompt() is None,
        ensures
            final(self).commit == old(self).commit,
            final(self).files == old(self).files,
            match key.code {
                KeyCode::Char('q') | KeyCode::Esc => *final(self) == *old(self) && (r matches ReviewAction::Outcome(ScreenOutcome::ExitReview)),
                KeyCode::Tab | KeyCode::Enter | KeyCode::BackTab => final(self).focus
                    == ReviewFocus::DiffView && final(self).file_selected_index == old(self).file_selected_index
                    && final(self).spec_prompt() is None
                    && (r matches ReviewAction::Outcome(ScreenOutcome::Continue)),
                KeyCode::Char('j') | KeyCode::Down => final(self).focus == old(self).focus
                    && final(self).spec_prompt() is None
                    && final(self).file_selected_index == (if old(self).files@.len() > 0 {
                    if old(self).file_selected_index + 1 < old(self).files@.len() {
                        old(self).file_selected_index + 1
                    } else {
                        old(self).files@.len() - 1
                    }
                } else {
                    old(self).file_selected_index as int
                }) && (if final(self).file_selected_index != old(self).file_selected_index {
                    r is LoadFile
                } else {
                    r matches ReviewAction::Outcome(ScreenOutcome::Continue)
                }),
                KeyCode::Char('k') | KeyCode::Up => final(self).focus == old(self).focus
                    && final(self).spec_prompt() is None
                    && final(self).file_selected_index == (if old(self).file_selected_index > 0 {
                    old(self).file_selected_index - 1
                } else {
                    0
                }) && (if final(self).file_selected_index != old(self).file_selected_index {
                    r is LoadFile
                } else {
                    r matches ReviewAction::Outcome(ScreenOutcome::Continue)
                }),
                KeyCode::Char(' ') => *final(self) == *old(self) && if old(self).file_selected_index
                    < old(self).files@.len() {
                    let f = old(self).files@[old(self).file_selected_index as int];
                    r matches ReviewAction::ToggleReviewed { file_path, old_path, is_reviewed }
                        && file_path@ == spec_resolve_file_paths(f).0 && is_reviewed
                        == f.is_reviewed && match old_path {
                        Some(o) => spec_resolve_file_paths(f).1 == Some(o@),
                        None => spec_resolve_file_paths(f).1 is None,
                    }
                } else {
                    r matches ReviewAction::Outcome(ScreenOutcome::Continue)
                },
                KeyCode::Char('r') => *final(self) == *old(self) && r is Reload,
                KeyCode::Char('d') => final(self).focus == old(self).focus
                    && final(self).file_selected_index == old(self).file_selected_index
                    && if old(self).commit.is_immutable {
                    final(self).spec_prompt() is None && (r matches ReviewAction::Outcome(ScreenOutcome::Error(m))
                        && m@ == immutable_review_message())
                } else {
                    (final(self).spec_prompt() matches Some(p) && p.prompt == "Describe: "@
                        && p.content == old(self).commit.summary@ && p.cursor
                        == old(self).commit.summary@.len()) && (r matches ReviewAction::Outcome(ScreenOutcome::Continue))
                },
                _ => *final(self) == *old(self) && (r matches ReviewAction::Outcome(ScreenOutcome::Continue)),
            },
    {
        let code = key.code;
        if code == KeyCode::Char('q') || code == KeyCode::Esc {
            ReviewAction::Outcome(ScreenOutcome::ExitReview)
        } else if code == KeyCode::Tab || code == KeyCode::Enter || code == KeyCode::BackTab {
            self.focus = ReviewFocus::DiffView;
            ReviewAction::Outcome(ScreenOutcome::Continue)
        } else if code == KeyCode::Char('j') || code == KeyCode::Down {
            self.step_file(true)
        } else if code == KeyCode::Char('k') || code == KeyCode::Up {
            self.step_file(false)
        } else if code == KeyCode::Char(' ') {
            match self.selected_file() {
                Some(f) => {
                    let (file_path, old_path) = resolve_file_paths(f);
                    ReviewAction::ToggleReviewed { file_path, old_path, is_reviewed: f.is_reviewed }
                },
                None => ReviewAction::Outcome(ScreenOutcome::Continue),
            }
        } else if code == KeyCode::Char('r') {
            ReviewAction::Reload
        } else if code == KeyCode::Char('d') {
            if self.commit.is_immutable {
                return ReviewAction::Outcome(
                    ScreenOutcome::Error("Cannot describe an immutable commit".to_owned()),
                );
            }
            self.describe_input = Some(TextInput::new("Describe: ", self.commit.summary.as_str()));
            ReviewAction::Outcome(ScreenOutcome::Continue)
        } else {
            ReviewAction::Outcome(ScreenOutcome::Continue)
        }
    }
}

} // verus!
