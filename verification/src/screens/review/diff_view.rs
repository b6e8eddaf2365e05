//! The diff area of the review screen: the part of a file's change still to
//! review (left) and the part already reviewed (right), side by side when
//! both are non-empty.
//!
//! Key handling decides; writing a review mark is left to the caller, which
//! performs a returned [`DiffViewAction::Apply`] and then calls
//! [`DiffView::finish_action`].

use vstd::prelude::*;

use crate::keys::{KeyCode, KeyEvent};
use crate::models::hunk::HunkId;
use crate::models::pr::FileDiff;
use crate::screens::review::diff_panel::{
    spec_hunk_id_computable, spec_panel_key_step, spec_selected_hunk_id, DiffPanel, DiffPanelOutcome,
    HunkReviewAction,
};
use crate::widgets::range_list::{spec_selection_range, RangeListView};

verus! {

/// One of the two panels.
#[derive(Debug, Clone, Copy, PartialEq, Eq, Structural)]
pub enum DiffSide {
    Left,
    Right,
}

/// What the diff view asks of the review screen after a key press.
pub enum DiffViewOutcome {
    Continue,
    ExitToFileList,
    NextFile,
    PrevFile,
    ActionApplied,
    Error(String),
}

/// What the caller must do after a key press on the diff view.
pub enum DiffViewAction {
    /// Nothing to write: report this outcome.
    Outcome(DiffViewOutcome),
    /// Apply `action` to the hunk `hunk` of the panel `side`, then call
    /// `finish_action(side, restore_pos)`.
    Apply { side: DiffSide, action: HunkReviewAction, hunk: HunkId, restore_pos: usize },
}

/// The two panels and which one has the focus.
pub struct DiffView {
    pub left: DiffPanel,
    pub right: DiffPanel,
    pub focus: DiffSide,
}

/// Whether a panel shows a diff with at least one hunk.
pub open spec fn spec_has_content(p: DiffPanel) -> bool {
    p.diff matches Some(d) && d.hunks@.len() > 0
}

/// Whether a panel uses the key itself (navigation and selection keys).
pub open spec fn spec_panel_uses_key(key: KeyEvent, v: RangeListView) -> bool {
    ||| key.code == KeyCode::Char('j')
    ||| key.code == KeyCode::Down
    ||| key.code == KeyCode::Char('k')
    ||| key.code == KeyCode::Up
    ||| key.code == KeyCode::Char('g')
    ||| key.code == KeyCode::Char('G')
    ||| (key.code == KeyCode::Char('d') && key.ctrl)
    ||| (key.code == KeyCode::Char('u') && key.ctrl)
    ||| key.code == KeyCode::Char('v')
    ||| ((key.code == KeyCode::Char('q') || key.code == KeyCode::Esc) && v.anchor is Some)
}

impl DiffView {
    /// The focused panel.
    pub open spec fn spec_focused(&self) -> DiffPanel {
        match self.focus {
            DiffSide::Left => self.left,
            DiffSide::Right => self.right,
        }
    }

    /// Whether both panels have content.
    pub open spec fn spec_is_split(&self) -> bool {
        spec_has_content(self.left) && spec_has_content(self.right)
    }

    /// The left panel if it has content, else the right one.
    pub open spec fn spec_default_focus(&self) -> DiffSide {
        if spec_has_content(self.left) {
            DiffSide::Left
        } else {
            DiffSide::Right
        }
    }

    /// Empty panels, the left one (still to review) focused.
    pub fn new() -> (v: Self)
        ensures
            v.left.diff is None && v.right.diff is None,
            v.left.action == HunkReviewAction::Mark,
            v.right.action == HunkReviewAction::Unmark,
            v.left.state@ == (RangeListView { offset: 0, selected: None, anchor: None }),
            v.right.state@ == (RangeListView { offset: 0, selected: None, anchor: None }),
            v.focus == DiffSide::Left,
    {
        DiffView {
            left: DiffPanel::new(HunkReviewAction::Mark),
            right: DiffPanel::new(HunkReviewAction::Unmark),
            focus: DiffSide::Left,
        }
    }

    /// Shows the remaining and the reviewed part of a file's change; the
    /// focus goes to the left panel, or to the right one when the left is
    /// empty.
    pub fn load(&mut self, remaining: FileDiff, reviewed: FileDiff)
        ensures
            final(self).left.diff == Some(remaining),
            final(self).right.diff == Some(reviewed),
            final(self).left.action == old(self).left.action,
            final(self).right.action == old(self).right.action,
            final(self).left.state@ == (if old(self).left.state@.selected is None {
                RangeListView { selected: Some(0usize), ..old(self).left.state@ }
            } else {
                old(self).left.state@
            }),
            final(self).right.state@ == (if old(self).right.state@.selected is None {
                RangeListView { selected: Some(0usize), ..old(self).right.state@ }
            } else {
                old(self).right.state@
            }),
            final(self).focus == final(self).spec_default_focus(),
    {
        self.left.load(remaining);
        self.right.load(reviewed);
        self.focus = self.default_focus();
    }

    /// Empties both panels after the diffs could not be computed; the focus
    /// goes to the right panel.
    pub fn load_failed(&mut self)
        ensures
            final(self).left.diff is None && final(self).right.diff is None,
            final(self).left.action == old(self).left.action,
            final(self).right.action == old(self).right.action,
            final(self).left.state@ == (RangeListView { offset: 0, selected: None, anchor: None }),
            final(self).right.state@ == (RangeListView { offset: 0, selected: None, anchor: None }),
            final(self).focus == DiffSide::Right,
    {
        self.left.clear();
        self.right.clear();
        self.focus = self.default_focus();
    }

    /// Empties both panels; the focus stays.
    pub fn clear(&mut self)
        ensures
            final(self).left.diff is None && final(self).right.diff is None,
            final(self).left.action == old(self).left.action,
            final(self).right.action == old(self).right.action,
            final(self).left.state@ == (RangeListView { offset: 0, selected: None, anchor: None }),
            final(self).right.state@ == (RangeListView { offset: 0, selected: None, anchor: None }),
            final(self).focus == old(self).focus,
    {
        self.left.clear();
        self.right.clear();
    }

    /// Whether both panels have content (they are then shown side by side).
    pub fn is_split(&self) -> (r: bool)
        ensures
            r == self.spec_is_split(),
    {
        self.left.has_content() && self.right.has_content()
    }

    /// The only panel with content, if exactly one has some.
    pub fn sole_panel(&self) -> (r: Option<DiffSide>)
        ensures
            r == (if spec_has_content(self.left) && !spec_has_content(self.right) {
                Some(DiffSide::Left)
            } else if !spec_has_content(self.left) && spec_has_content(self.right) {
                Some(DiffSide::Right)
            } else {
                None
            }),
    {
        let l = self.left.has_content();
        let r = self.right.has_content();
        if l && !r {
            Some(DiffSide::Left)
        } else if !l && r {
            Some(DiffSide::Right)
        } else {
            None
        }
    }

    /// The left panel if it has content, else the right one.
    pub fn default_focus(&self) -> (r: DiffSide)
        ensures
            r == self.spec_default_focus(),
    {
        if self.left.has_content() {
            DiffSide::Left
        } else {
            DiffSide::Right
        }
    }

    /// The name of the focused panel's action.
    pub fn action_label(&self) -> (r: &'static str)
        ensures
            self.spec_focused().action == HunkReviewAction::Mark ==> r@ == "mark reviewed"@,
            self.spec_focused().action == HunkReviewAction::Unmark ==> r@ == "unreview"@,
    {
        match self.focus {
            DiffSide::Left => self.left.action_label(),
            DiffSide::Right => self.right.action_label(),
        }
    }

    /// Handles a key press: the focused panel takes its navigation and
    /// selection keys; otherwise `q`/Esc go back to the file list, Tab and
    /// Shift-Tab move between the panels (or back to the file list), Space
    /// applies the focused panel's action to the selected hunk, and `n`/`N`
    /// go to the next/previous file.
    pub fn handle_key_event(&mut self, key: KeyEvent) -> (r: DiffViewAction)
        requires
            key.code == KeyCode::Char(' ') ==> spec_hunk_id_computable(
                old(self).spec_focused().diff,
                old(self).spec_focused().state@,
            ),
        ensures
            final(self).left.diff == old(self).left.diff,
            final(self).right.diff == old(self).right.diff,
            final(self).left.action == old(self).left.action,
            final(self).right.action == old(self).right.action,
            spec_panel_uses_key(key, old(self).spec_focused().state@) ==> {
                &&& r matches DiffViewAction::Outcome(DiffViewOutcome::Continue)
                &&& final(self).focus == old(self).focus
                &&& final(self).spec_focused().state@ == spec_panel_key_step(
                    old(self).spec_focused().state@,
                    key,
                )
                &&& old(self).focus == DiffSide::Left ==> final(self).right.state@ == old(self).right.state@
                &&& old(self).focus == DiffSide::Right ==> final(self).left.state@ == old(self).left.state@
            },
            !spec_panel_uses_key(key, old(self).spec_focused().state@) && key.code != KeyCode::Char(
                ' ',
            ) ==> final(self).left.state@ == old(self).left.state@ && final(self).right.state@
                == old(self).right.state@,
            !spec_panel_uses_key(key, old(self).spec_focused().state@) ==> match key.code {
                KeyCode::Char('q') | KeyCode::Esc => final(self).focus == old(self).focus
                    && (r matches DiffViewAction::Outcome(DiffViewOutcome::ExitToFileList)),
                KeyCode::Tab => if old(self).spec_is_split() && old(self).focus == DiffSide::Left {
                    final(self).focus == DiffSide::Right
                        && (r matches DiffViewAction::Outcome(DiffViewOutcome::Continue))
                } else {
                    final(self).focus == old(self).focus
                        && (r matches DiffViewAction::Outcome(DiffViewOutcome::ExitToFileList))
                },
                KeyCode::BackTab => if old(self).focus == DiffSide::Right {
                    final(self).focus == DiffSide::Left
                        && (r matches DiffViewAction::Outcome(DiffViewOutcome::Continue))
                } else {
                    final(self).focus == old(self).focus
                        && (r matches DiffViewAction::Outcome(DiffViewOutcome::ExitToFileList))
                },
                KeyCode::Char(' ') => {
                    let p = old(self).spec_focused();
                    &&& final(self).focus == old(self).focus
                    &&& final(self).spec_focused().state@ == match spec_selected_hunk_id(
                        p.diff,
                        p.state@,
                    ) {
                        Some(_) => p.state@,
                        None => RangeListView { anchor: None, ..p.state@ },
                    }
                    &&& old(self).focus == DiffSide::Left ==> final(self).right.state@ == old(self).right.state@
                    &&& old(self).focus == DiffSide::Right ==> final(self).left.state@ == old(self).left.state@
                    &&& match spec_selected_hunk_id(p.diff, p.state@) {
                        Some(id) => r == DiffViewAction::Apply {
                            side: old(self).focus,
                            action: p.action,
                            hunk: id,
                            restore_pos: match spec_selection_range(p.state@) {
                                Some((start, _)) => start,
                                None => match p.state@.selected {
                                    Some(c) => c,
                                    None => 0usize,
                                },
                            },
                        },
                        None => r matches DiffViewAction::Outcome(DiffViewOutcome::Continue),
                    }
                },
                KeyCode::Char('n') => final(self).focus == old(self).focus
                    && (r matches DiffViewAction::Outcome(DiffViewOutcome::NextFile)),
                KeyCode::Char('N') => final(self).focus == old(self).focus
                    && (r matches DiffViewAction::Outcome(DiffViewOutcome::PrevFile)),
                _ => final(self).focus == old(self).focus
                    && (r matches DiffViewAction::Outcome(DiffViewOutcome::Continue)),
            },
    {
        let used = match self.focus {
            DiffSide::Left => self.left.handle_key_event(key),
            DiffSide::Right => self.right.handle_key_event(key),
        };
        if used == DiffPanelOutcome::Consumed {
            return DiffViewAction::Outcome(DiffViewOutcome::Continue);
        }
        let code = key.code;
        if code == KeyCode::Char('q') || code == KeyCode::Esc {
            DiffViewAction::Outcome(DiffViewOutcome::ExitToFileList)
        } else if code == KeyCode::Tab {
            if self.is_split() && self.focus == DiffSide::Left {
                self.focus = DiffSide::Right;
                DiffViewAction::Outcome(DiffViewOutcome::Continue)
            } else {
                DiffViewAction::Outcome(DiffViewOutcome::ExitToFileList)
            }
        } else if code == KeyCode::BackTab {
            if self.focus == DiffSide::Right {
                self.focus = DiffSide::Left;
                DiffViewAction::Outcome(DiffViewOutcome::Continue)
            } else {
                DiffViewAction::Outcome(DiffViewOutcome::ExitToFileList)
            }
        } else if code == KeyCode::Char(' ') {
            let side = self.focus;
            let begun = match side {
                DiffSide::Left => self.left.begin_action(),
                DiffSide::Right => self.right.begin_action(),
            };
            match begun {
                Some((hunk, restore_pos)) => {
                    let action = match side {
                        DiffSide::Left => self.left.action,
                        DiffSide::Right => self.right.action,
                    };
                    DiffViewAction::Apply { side, action, hunk, restore_pos }
                },
                None => DiffViewAction::Outcome(DiffViewOutcome::Continue),
            }
        } else if code == KeyCode::Char('n') {
            DiffViewAction::Outcome(DiffViewOutcome::NextFile)
        } else if code == KeyCode::Char('N') {
            DiffViewAction::Outcome(DiffViewOutcome::PrevFile)
        } else {
            DiffViewAction::Outcome(DiffViewOutcome::Continue)
        }
    }

    /// Ends an applied action on the panel `side`: its selection ends and
    /// its cursor returns to `restore_pos`.
    pub fn finish_action(&mut self, side: DiffSide, restore_pos: usize)
        ensures
            final(self).focus == old(self).focus,
            final(self).left.diff == old(self).left.diff,
            final(self).right.diff == old(self).right.diff,
            final(self).left.action == old(self).left.action,
            final(self).right.action == old(self).right.action,
            side == DiffSide::Left ==> final(self).left.state@ == (RangeListView {
                anchor: None,
                selected: Some(restore_pos),
                ..old(self).left.state@
            }) && final(self).right.state@ == old(self).right.state@,
            side == DiffSide::Right ==> final(self).right.state@ == (RangeListView {
                anchor: None,
                selected: Some(restore_pos),
                ..old(self).right.state@
            }) && final(self).left.state@ == old(self).left.state@,
    {
        match side {
            DiffSide::Left => self.left.finish_action(restore_pos),
            DiffSide::Right => self.right.finish_action(restore_pos),
        }
    }
}

} // verus!
