use vstd::prelude::*;

use crate::keys::{KeyCode, KeyEvent};
use crate::models::hunk::HunkId;
use crate::models::pr::{DiffHunk, DiffLine, DiffLineType, FileDiff};
use crate::screens::diff_panel::spec_total_lines;
use crate::ansi::spans_view;
use crate::style::{spec_default_style, Color, Style, StyledSpan};
use crate::widgets::diff_view::{display_lines, spec_diff_display};
use crate::widgets::range_list::{spec_selection_range, RangeListState, RangeListView};

verus! {

/// Lines moved by one page (Ctrl-d / Ctrl-u).
pub const SCROLL_AMOUNT: u16 = 15;

/// Whether the panel used a key.
#[derive(Debug, Clone, Copy, PartialEq, Eq, Structural)]
pub enum DiffPanelOutcome {
    Consumed,
    NotHandled,
}

/// Marks the selected hunk as reviewed.
pub struct MarkHunkReviewed;

/// Removes the reviewed mark of the selected hunk.
pub struct UnmarkHunkReviewed;

impl MarkHunkReviewed {
    pub fn label(&self) -> (r: &'static str)
        ensures
            r@ == "mark reviewed"@,
    {
        "mark reviewed"
    }
}

impl UnmarkHunkReviewed {
    pub fn label(&self) -> (r: &'static str)
        ensures
            r@ == "unreview"@,
    {
        "unreview"
    }
}

/// The review action a panel applies to its selected hunk.
#[derive(Debug, Clone, Copy, PartialEq, Eq, Structural)]
pub enum HunkReviewAction {
    Mark,
    Unmark,
}

/// What the lines before and inside the selection tell about the hunk id.
#[derive(Clone, Copy)]
pub struct SelectionScan {
    pub last_old: Option<u32>,
    pub last_new: Option<u32>,
    pub first_old: Option<u32>,
    pub last_old_in_sel: Option<u32>,
    pub first_new: Option<u32>,
    pub last_new_in_sel: Option<u32>,
    pub has_change: bool,
}

pub open spec fn empty_selection_scan() -> SelectionScan {
    SelectionScan {
        last_old: None,
        last_new: None,
        first_old: None,
        last_old_in_sel: None,
        first_new: None,
        last_new_in_sel: None,
        has_change: false,
    }
}

pub open spec fn on_old_side(t: DiffLineType) -> bool {
    t == DiffLineType::Context || t == DiffLineType::Deletion
}

pub open spec fn on_new_side(t: DiffLineType) -> bool {
    t == DiffLineType::Context || t == DiffLineType::Addition
}

pub open spec fn keep_first(first: Option<u32>, n: Option<u32>) -> Option<u32> {
    if first is Some {
        first
    } else {
        n
    }
}

pub open spec fn keep_latest(last: Option<u32>, n: Option<u32>) -> Option<u32> {
    if n is Some {
        n
    } else {
        last
    }
}

/// Effect of display line `abs` (the diff line `dl`) on the scan for the
/// selection `[s, e]`.
pub open spec fn spec_line_step(acc: SelectionScan, dl: DiffLine, abs: int, s: int, e: int) -> SelectionScan {
    if abs < s {
        SelectionScan {
            last_old: if on_old_side(dl.line_type) { keep_latest(acc.last_old, dl.old_lineno) } else { acc.last_old },
            last_new: if on_new_side(dl.line_type) { keep_latest(acc.last_new, dl.new_lineno) } else { acc.last_new },
            ..acc
        }
    } else if abs > e {
        acc
    } else {
        SelectionScan {
            has_change: acc.has_change || dl.line_type == DiffLineType::Addition || dl.line_type
                == DiffLineType::Deletion,
            first_old: if on_old_side(dl.line_type) { keep_first(acc.first_old, dl.old_lineno) } else { acc.first_old },
            last_old_in_sel: if on_old_side(dl.line_type) { keep_latest(acc.last_old_in_sel, dl.old_lineno) } else { acc.last_old_in_sel },
            first_new: if on_new_side(dl.line_type) { keep_first(acc.first_new, dl.new_lineno) } else { acc.first_new },
            last_new_in_sel: if on_new_side(dl.line_type) { keep_latest(acc.last_new_in_sel, dl.new_lineno) } else { acc.last_new_in_sel },
            ..acc
        }
    }
}

/// The scan after lines `0..i` of a hunk whose first line is display line `start`.
pub open spec fn spec_lines_scan(lines: Seq<DiffLine>, start: int, i: int, s: int, e: int, acc: SelectionScan) -> SelectionScan
    decreases i,
{
    if i <= 0 {
        acc
    } else {
        spec_line_step(spec_lines_scan(lines, start, i - 1, s, e, acc), lines[i - 1], start + i - 1, s, e)
    }
}

/// Last line number of a side of a hunk (`start + lines - 1`).
pub open spec fn hunk_last_line(start: u32, lines: u32) -> u32 {
    (start + lines - 1) as u32
}

/// Effect of hunk `hunk`, whose header is display line `header`, on the scan.
pub open spec fn spec_hunk_step(acc: SelectionScan, hunk: DiffHunk, header: int, s: int, e: int) -> SelectionScan {
    let start = header + 1;
    let end = start + hunk.lines@.len();
    if end <= s {
        SelectionScan {
            last_old: if hunk.old_lines > 0 { Some(hunk_last_line(hunk.old_start, hunk.old_lines)) } else { acc.last_old },
            last_new: if hunk.new_lines > 0 { Some(hunk_last_line(hunk.new_start, hunk.new_lines)) } else { acc.last_new },
            ..acc
        }
    } else if start > e {
        acc
    } else {
        spec_lines_scan(hunk.lines@, start, hunk.lines@.len() as int, s, e, acc)
    }
}

/// The scan after hunks `0..k`.
pub open spec fn spec_hunks_scan(hunks: Seq<DiffHunk>, k: int, s: int, e: int) -> SelectionScan
    decreases k,
{
    if k <= 0 {
        empty_selection_scan()
    } else {
        spec_hunk_step(
            spec_hunks_scan(hunks, k - 1, s, e),
            hunks[k - 1],
            spec_total_lines(hunks.take(k - 1)),
            s,
            e,
        )
    }
}

/// Whether, for the hunks that end before display line `s`, start plus line
/// count of each side fits in `u32`.
pub open spec fn spec_headers_fit(hunks: Seq<DiffHunk>, s: int) -> bool {
    forall|k: int|
        0 <= k < hunks.len() && spec_total_lines(hunks.take(k)) + 1 + hunks[k].lines@.len() <= s
            ==> {
            &&& (#[trigger] hunks[k]).old_lines > 0 ==> hunks[k].old_start + hunks[k].old_lines
                <= u32::MAX
            &&& hunks[k].new_lines > 0 ==> hunks[k].new_start + hunks[k].new_lines <= u32::MAX
        }
}

pub open spec fn spec_span_ok(first: Option<u32>, last: Option<u32>) -> bool {
    match (first, last) {
        (Some(f), Some(l)) => f <= l && l - f < u32::MAX,
        _ => true,
    }
}

/// The hunk id a scan gives, or `None` when the selection holds no change.
pub open spec fn spec_scan_hunk_id(sc: SelectionScan) -> Option<HunkId> {
    if !sc.has_change {
        None
    } else {
        let (old_start, old_lines) = match (sc.first_old, sc.last_old_in_sel) {
            (Some(f), Some(l)) => (f, (l - f + 1) as u32),
            _ => (match sc.last_old { Some(n) => n, None => 0u32 }, 0u32),
        };
        let (new_start, new_lines) = match (sc.first_new, sc.last_new_in_sel) {
            (Some(f), Some(l)) => (f, (l - f + 1) as u32),
            _ => (match sc.last_new { Some(n) => n, None => 0u32 }, 0u32),
        };
        Some(HunkId { old_start, old_lines, new_start, new_lines })
    }
}

/// The selection `[start, end]` of a list state, or its cursor.
pub open spec fn spec_panel_selection(v: RangeListView) -> Option<(int, int)> {
    match spec_selection_range(v) {
        Some((a, b)) => Some((a as int, b as int)),
        None => match v.selected {
            Some(c) => Some((c as int, c as int)),
            None => None,
        },
    }
}

/// The hunk id for a diff and a list state.
pub open spec fn spec_selected_hunk_id(diff: Option<FileDiff>, v: RangeListView) -> Option<HunkId> {
    match (diff, spec_panel_selection(v)) {
        (Some(d), Some((s, e))) => spec_scan_hunk_id(spec_hunks_scan(d.hunks@, d.hunks@.len() as int, s, e)),
        _ => None,
    }
}

/// Whether the hunk id for a diff and a list state can be computed without
/// leaving `u32` or `usize`.
pub open spec fn spec_hunk_id_computable(diff: Option<FileDiff>, v: RangeListView) -> bool {
    match (diff, spec_panel_selection(v)) {
        (Some(d), Some((s, e))) => {
            let sc = spec_hunks_scan(d.hunks@, d.hunks@.len() as int, s, e);
            &&& spec_total_lines(d.hunks@) <= usize::MAX
            &&& spec_headers_fit(d.hunks@, s)
            &&& spec_span_ok(sc.first_old, sc.last_old_in_sel)
            &&& spec_span_ok(sc.first_new, sc.last_new_in_sel)
        },
        _ => true,
    }
}

/// One side of a split diff view: a file diff, a cursor over its display
/// lines, and the review action that applies to the selected hunk.
pub struct DiffPanel {
    pub diff: Option<FileDiff>,
    pub state: RangeListState,
    pub action: HunkReviewAction,
}

impl DiffPanel {
    /// An empty panel applying `action`.
    pub fn new(action: HunkReviewAction) -> (p: Self)
        ensures
            p.diff is None,
            p.state@ == (RangeListView { offset: 0, selected: None, anchor: None }),
            p.action == action,
    {
        DiffPanel { diff: None, state: RangeListState::default(), action }
    }

    /// Shows `diff`; the cursor goes to the first line if there was none.
    pub fn load(&mut self, diff: FileDiff)
        ensures
            final(self).diff == Some(diff),
            final(self).action == old(self).action,
            final(self).state@ == (if old(self).state@.selected is None {
                RangeListView { selected: Some(0usize), ..old(self).state@ }
            } else {
                old(self).state@
            }),
    {
        self.diff = Some(diff);
        if self.state.selected().is_none() {
            self.state.select(Some(0));
        }
    }

    /// Drops the diff and resets the cursor.
    pub fn clear(&mut self)
        ensures
            final(self).diff is None,
            final(self).action == old(self).action,
            final(self).state@ == (RangeListView { offset: 0, selected: None, anchor: None }),
    {
        self.diff = None;
        self.state = RangeListState::default();
    }

    /// Whether a diff with at least one hunk is shown.
    pub fn has_content(&self) -> (r: bool)
        ensures
            r == (self.diff matches Some(d) && d.hunks@.len() > 0),
    {
        match &self.diff {
            Some(d) => d.hunks.len() > 0,
            None => false,
        }
    }

    /// The name of the panel's action.
    pub fn action_label(&self) -> (r: &'static str)
        ensures
            self.action == HunkReviewAction::Mark ==> r@ == "mark reviewed"@,
            self.action == HunkReviewAction::Unmark ==> r@ == "unreview"@,
    {
        match self.action {
            HunkReviewAction::Mark => MarkHunkReviewed.label(),
            HunkReviewAction::Unmark => UnmarkHunkReviewed.label(),
        }
    }
}


/// The lines a panel shows: for each hunk its header, then each line with
/// its line numbers, sign and colored tokens (changed words on a stronger
/// background); without a diff, "No file selected" in dark gray.
pub fn build_items(diff: &Option<FileDiff>) -> (r: Vec<Vec<StyledSpan>>)
    ensures
        match diff {
            Some(d) => r@.map_values(|l: Vec<StyledSpan>| spans_view(l@)) == spec_diff_display(
                d.hunks@,
                false,
            ),
            None => r@.len() == 1 && spans_view(r@[0]@) == seq![
                ("No file selected"@, spec_default_style().spec_fg(Color::DarkGray)),
            ],
        },
{
    match diff {
        Some(d) => display_lines(d, false),
        None => {
            let mut line: Vec<StyledSpan> = Vec::new();
            line.push(StyledSpan { content: "No file selected".to_owned(), style: Style::new().fg(Color::DarkGray) });
            let mut out: Vec<Vec<StyledSpan>> = Vec::new();
            out.push(line);
            proof {
                assert(spans_view(out@[0]@) =~= seq![
                    ("No file selected"@, spec_default_style().spec_fg(Color::DarkGray)),
                ]);
            }
            out
        },
    }
}

impl DiffPanel {
    /// Handles navigation and selection keys.
    pub fn handle_key_event(&mut self, key: KeyEvent) -> (r: DiffPanelOutcome)
        ensures
            final(self).diff == old(self).diff,
            final(self).action == old(self).action,
            r == DiffPanelOutcome::NotHandled ==> final(self).state@ == old(self).state@,
            r == DiffPanelOutcome::NotHandled <==> !(key.code == KeyCode::Char('j') || key.code
                == KeyCode::Down || key.code == KeyCode::Char('k') || key.code == KeyCode::Up
                || key.code == KeyCode::Char('g') || key.code == KeyCode::Char('G') || (key.code
                == KeyCode::Char('d') && key.ctrl) || (key.code == KeyCode::Char('u') && key.ctrl)
                || key.code == KeyCode::Char('v') || ((key.code == KeyCode::Char('q') || key.code
                == KeyCode::Esc) && old(self).state@.anchor is Some)),
            r == DiffPanelOutcome::Consumed ==> final(self).state@ == spec_panel_key_step(
                old(self).state@,
                key,
            ),
    {
        let code = key.code;
        if code == KeyCode::Char('j') || code == KeyCode::Down {
            self.state.select_next();
        } else if code == KeyCode::Char('k') || code == KeyCode::Up {
            self.state.select_previous();
        } else if code == KeyCode::Char('g') {
            self.state.select_first();
        } else if code == KeyCode::Char('G') {
            self.state.select_last();
        } else if code == KeyCode::Char('d') && key.ctrl {
            self.state.scroll_down_by(SCROLL_AMOUNT);
        } else if code == KeyCode::Char('u') && key.ctrl {
            self.state.scroll_up_by(SCROLL_AMOUNT);
        } else if code == KeyCode::Char('v') {
            self.state.toggle_selection();
        } else if (code == KeyCode::Char('q') || code == KeyCode::Esc)
            && self.state.is_selection_active() {
            self.state.cancel_selection();
        } else {
            return DiffPanelOutcome::NotHandled;
        }
        DiffPanelOutcome::Consumed
    }

    /// The hunk id covering the selected lines (or the cursor line).
    ///
    /// Display lines count each hunk header. Context and deletion lines give
    /// the old side, context and addition lines the new side (a paired line
    /// number on the other side is ignored). A selection without additions or
    /// deletions gives `None`; a side with no lines in the selection starts
    /// after the last line of that side before the selection.
    pub fn compute_selected_hunk_id(&self) -> (r: Option<HunkId>)
        requires
            spec_hunk_id_computable(self.diff, self.state@),
        ensures
            r == spec_selected_hunk_id(self.diff, self.state@),
    {
        let diff = match &self.diff {
            Some(d) => d,
            None => return None,
        };
        let (sel_start, sel_end) = match self.state.selection_range() {
            Some((start, end)) => (start, end),
            None => match self.state.selected() {
                Some(c) => (c, c),
                None => return None,
            },
        };
        let ghost hunks = diff.hunks@;
        let ghost s = sel_start as int;
        let ghost e = sel_end as int;
        let mut acc = SelectionScan {
            last_old: None,
            last_new: None,
            first_old: None,
            last_old_in_sel: None,
            first_new: None,
            last_new_in_sel: None,
            has_change: false,
        };
        let mut line_idx: usize = 0;
        let mut k: usize = 0;
        while k < diff.hunks.len()
            invariant
                hunks == diff.hunks@,
                k <= hunks.len(),
                s == sel_start as int,
                e == sel_end as int,
                line_idx == spec_total_lines(hunks.take(k as int)),
                spec_total_lines(hunks) <= usize::MAX,
                spec_headers_fit(hunks, s),
                acc == spec_hunks_scan(hunks, k as int, s, e),
            decreases hunks.len() - k,
        {
            proof {
                assert(hunks.take(k + 1).drop_last() =~= hunks.take(k as int));
                lemma_total_mono(hunks, k + 1, hunks.len() as int);
                assert(hunks.take(hunks.len() as int) =~= hunks);
            }
            acc = hunk_step(acc, &diff.hunks[k], line_idx, sel_start, sel_end);
            line_idx = line_idx + diff.hunks[k].lines.len() + 1;
            k = k + 1;
        }
        proof {
            assert(hunks.len() == k);
        }
        let SelectionScan {
            last_old,
            last_new,
            first_old,
            last_old_in_sel,
            first_new,
            last_new_in_sel,
            has_change,
        } = acc;
        if !has_change {
            return None;
        }
        let (old_start, old_lines) = match (first_old, last_old_in_sel) {
            (Some(first), Some(last)) => (first, last - first + 1),
            _ => (
                match last_old {
                    Some(n) => n,
                    None => 0,
                },
                0u32,
            ),
        };
        let (new_start, new_lines) = match (first_new, last_new_in_sel) {
            (Some(first), Some(last)) => (first, last - first + 1),
            _ => (
                match last_new {
                    Some(n) => n,
                    None => 0,
                },
                0u32,
            ),
        };
        Some(HunkId { old_start, old_lines, new_start, new_lines })
    }

    /// Whether the hunk id of the selection can be computed without leaving
    /// `u32` or `usize` (see `spec_hunk_id_computable`), which
    /// `compute_selected_hunk_id` needs.
    pub fn hunk_id_computable(&self) -> (r: bool)
        ensures
            r == spec_hunk_id_computable(self.diff, self.state@),
    {
        let diff = match &self.diff {
            Some(d) => d,
            None => return true,
        };
        let (sel_start, sel_end) = match self.state.selection_range() {
            Some((start, end)) => (start, end),
            None => match self.state.selected() {
                Some(c) => (c, c),
                None => return true,
            },
        };
        let ghost hunks = diff.hunks@;
        let ghost s = sel_start as int;
        let ghost e = sel_end as int;
        assert(spec_panel_selection(self.state@) == Some((s, e)));
        assert(self.diff == Some(*diff));
        let mut acc = SelectionScan {
            last_old: None,
            last_new: None,
            first_old: None,
            last_old_in_sel: None,
            first_new: None,
            last_new_in_sel: None,
            has_change: false,
        };
        let mut line_idx: usize = 0;
        let mut k: usize = 0;
        while k < diff.hunks.len()
            invariant
                hunks == diff.hunks@,
                self.diff == Some(*diff),
                spec_panel_selection(self.state@) == Some((s, e)),
                k <= hunks.len(),
                s == sel_start as int,
                e == sel_end as int,
                line_idx == spec_total_lines(hunks.take(k as int)),
                forall|j: int|
                    0 <= j < k && spec_total_lines(hunks.take(j)) + 1 + hunks[j].lines@.len() <= s
                        ==> {
                        &&& (#[trigger] hunks[j]).old_lines > 0 ==> hunks[j].old_start
                            + hunks[j].old_lines <= u32::MAX
                        &&& hunks[j].new_lines > 0 ==> hunks[j].new_start + hunks[j].new_lines
                            <= u32::MAX
                    },
                acc == spec_hunks_scan(hunks, k as int, s, e),
            decreases hunks.len() - k,
        {
            proof {
                assert(hunks.take(k + 1).drop_last() =~= hunks.take(k as int));
                assert(hunks.take(k + 1).last() == hunks[k as int]);
            }
            let hunk = &diff.hunks[k];
            let len = hunk.lines.len();
            if len >= usize::MAX - line_idx {
                proof {
                    assert(spec_total_lines(hunks.take(k + 1)) == line_idx + len + 1);
                    lemma_total_mono(hunks, k + 1, hunks.len() as int);
                    assert(hunks.take(hunks.len() as int) =~= hunks);
                }
                return false;
            }
            let end = line_idx + 1 + len;
            if end <= sel_start {
                if hunk.old_lines > 0 && hunk.old_start as u64 + hunk.old_lines as u64 > 0xffff_ffffu64 {
                    proof {
                        assert(!spec_headers_fit(hunks, s)) by {
                            let h = hunks[k as int];
                            assert(spec_total_lines(hunks.take(k as int)) + 1 + h.lines@.len() <= s);
                            assert(h.old_lines > 0 && h.old_start + h.old_lines > u32::MAX);
                        }
                    }
                    return false;
                }
                if hunk.new_lines > 0 && hunk.new_start as u64 + hunk.new_lines as u64 > 0xffff_ffffu64 {
                    proof {
                        assert(!spec_headers_fit(hunks, s)) by {
                            let h = hunks[k as int];
                            assert(spec_total_lines(hunks.take(k as int)) + 1 + h.lines@.len() <= s);
                            assert(h.new_lines > 0 && h.new_start + h.new_lines > u32::MAX);
                        }
                    }
                    return false;
                }
            }
            acc = hunk_step(acc, hunk, line_idx, sel_start, sel_end);
            line_idx = end;
            k = k + 1;
        }
        proof {
            assert(hunks.take(k as int) =~= hunks);
            assert(spec_headers_fit(hunks, s));
        }
        let old_ok = match (acc.first_old, acc.last_old_in_sel) {
            (Some(f), Some(l)) => f <= l && l - f < 0xffff_ffffu32,
            _ => true,
        };
        let new_ok = match (acc.first_new, acc.last_new_in_sel) {
            (Some(f), Some(l)) => f <= l && l - f < 0xffff_ffffu32,
            _ => true,
        };
        old_ok && new_ok
    }

    /// First half of applying the panel's action: the hunk to mark and the
    /// line to put the cursor back on afterwards. With no hunk under the
    /// selection the selection is cancelled and `None` is returned.
    pub fn begin_action(&mut self) -> (r: Option<(HunkId, usize)>)
        requires
            spec_hunk_id_computable(old(self).diff, old(self).state@),
        ensures
            final(self).diff == old(self).diff,
            final(self).action == old(self).action,
            spec_selected_hunk_id(old(self).diff, old(self).state@) is None ==> r is None
                && final(self).state@ == (RangeListView { anchor: None, ..old(self).state@ }),
            spec_selected_hunk_id(old(self).diff, old(self).state@) matches Some(id) ==> r
                == Some(
                (
                    id,
                    match spec_selection_range(old(self).state@) {
                        Some((start, _)) => start,
                        None => match old(self).state@.selected {
                            Some(c) => c,
                            None => 0usize,
                        },
                    },
                ),
            ) && final(self).state@ == old(self).state@,
    {
        match self.compute_selected_hunk_id() {
            None => {
                self.state.cancel_selection();
                None
            },
            Some(id) => {
                let restore_pos = match self.state.selection_range() {
                    Some((start, _)) => start,
                    None => match self.state.selected() {
                        Some(c) => c,
                        None => 0,
                    },
                };
                Some((id, restore_pos))
            },
        }
    }

    /// Second half of applying the panel's action, once the mark is written:
    /// the selection ends and the cursor returns to `restore_pos`.
    pub fn finish_action(&mut self, restore_pos: usize)
        ensures
            final(self).diff == old(self).diff,
            final(self).action == old(self).action,
            final(self).state@ == (RangeListView {
                anchor: None,
                selected: Some(restore_pos),
                ..old(self).state@
            }),
    {
        self.state.cancel_selection();
        self.state.select(Some(restore_pos));
    }
}

/// The list state after moving the cursor down.
pub open spec fn spec_after_next(v: RangeListView) -> RangeListView {
    RangeListView {
        selected: Some(
            match v.selected {
                None => 0usize,
                Some(i) => if i == usize::MAX { usize::MAX } else { (i + 1) as usize },
            },
        ),
        ..v
    }
}

/// The list state after moving the cursor up.
pub open spec fn spec_after_previous(v: RangeListView) -> RangeListView {
    RangeListView {
        selected: Some(
            match v.selected {
                None => usize::MAX,
                Some(i) => if i == 0 { 0usize } else { (i - 1) as usize },
            },
        ),
        ..v
    }
}

/// The list state after a key that a panel uses: `j`/`k` (or the arrows)
/// move the cursor, `g`/`G` jump to the first/last line, Ctrl-d/Ctrl-u move
/// it by [`SCROLL_AMOUNT`] lines, `v` starts or ends a selection, and
/// `q`/Esc end an active selection.
pub open spec fn spec_panel_key_step(v: RangeListView, key: KeyEvent) -> RangeListView {
    let cur: usize = match v.selected {
        None => 0usize,
        Some(i) => i,
    };
    if key.code == KeyCode::Char('j') || key.code == KeyCode::Down {
        spec_after_next(v)
    } else if key.code == KeyCode::Char('k') || key.code == KeyCode::Up {
        spec_after_previous(v)
    } else if key.code == KeyCode::Char('g') {
        RangeListView { selected: Some(0usize), ..v }
    } else if key.code == KeyCode::Char('G') {
        RangeListView { selected: Some(usize::MAX), ..v }
    } else if key.code == KeyCode::Char('d') && key.ctrl {
        RangeListView {
            selected: Some(
                if cur + SCROLL_AMOUNT > usize::MAX {
                    usize::MAX
                } else {
                    (cur + SCROLL_AMOUNT) as usize
                },
            ),
            ..v
        }
    } else if key.code == KeyCode::Char('u') && key.ctrl {
        RangeListView {
            selected: Some(
                if cur < SCROLL_AMOUNT {
                    0usize
                } else {
                    (cur - SCROLL_AMOUNT) as usize
                },
            ),
            ..v
        }
    } else if key.code == KeyCode::Char('v') {
        RangeListView { anchor: if v.anchor is Some { None } else { v.selected }, ..v }
    } else if (key.code == KeyCode::Char('q') || key.code == KeyCode::Esc) && v.anchor is Some {
        RangeListView { anchor: None, ..v }
    } else {
        v
    }
}

proof fn lemma_total_mono(hunks: Seq<DiffHunk>, i: int, j: int)
    requires
        0 <= i <= j <= hunks.len(),
    ensures
        spec_total_lines(hunks.take(i)) <= spec_total_lines(hunks.take(j)),
    decreases j - i,
{
    if i < j {
        assert(hunks.take(j).drop_last() =~= hunks.take(j - 1));
        lemma_total_mono(hunks, i, j - 1);
    }
}


fn line_step(acc: SelectionScan, dl: &DiffLine, abs_idx: usize, sel_start: usize, sel_end: usize) -> (r: SelectionScan)
    ensures
        r == spec_line_step(acc, *dl, abs_idx as int, sel_start as int, sel_end as int),
{
    let mut acc = acc;
    let old_side = dl.line_type == DiffLineType::Context || dl.line_type == DiffLineType::Deletion;
    let new_side = dl.line_type == DiffLineType::Context || dl.line_type == DiffLineType::Addition;
    if abs_idx < sel_start {
        if old_side && dl.old_lineno.is_some() {
            acc.last_old = dl.old_lineno;
        }
        if new_side && dl.new_lineno.is_some() {
            acc.last_new = dl.new_lineno;
        }
    } else if abs_idx <= sel_end {
        if dl.line_type == DiffLineType::Addition || dl.line_type == DiffLineType::Deletion {
            acc.has_change = true;
        }
        if old_side && dl.old_lineno.is_some() {
            if acc.first_old.is_none() {
                acc.first_old = dl.old_lineno;
            }
            acc.last_old_in_sel = dl.old_lineno;
        }
        if new_side && dl.new_lineno.is_some() {
            if acc.first_new.is_none() {
                acc.first_new = dl.new_lineno;
            }
            acc.last_new_in_sel = dl.new_lineno;
        }
    }
    acc
}

fn hunk_step(acc: SelectionScan, hunk: &DiffHunk, header: usize, sel_start: usize, sel_end: usize) -> (r: SelectionScan)
    requires
        header + 1 + hunk.lines@.len() <= usize::MAX,
        header + 1 + hunk.lines@.len() <= sel_start ==> {
            &&& hunk.old_lines > 0 ==> hunk.old_start + hunk.old_lines <= u32::MAX
            &&& hunk.new_lines > 0 ==> hunk.new_start + hunk.new_lines <= u32::MAX
        },
    ensures
        r == spec_hunk_step(acc, *hunk, header as int, sel_start as int, sel_end as int),
{
    let n = hunk.lines.len();
    let hunk_line_start = header + 1;
    let hunk_line_end = hunk_line_start + n;
    let mut acc = acc;
    if hunk_line_end <= sel_start {
        if hunk.old_lines > 0 {
            acc.last_old = Some(hunk.old_start + hunk.old_lines - 1);
        }
        if hunk.new_lines > 0 {
            acc.last_new = Some(hunk.new_start + hunk.new_lines - 1);
        }
        acc
    } else if hunk_line_start > sel_end {
        acc
    } else {
        let ghost lines = hunk.lines@;
        let ghost acc0 = acc;
        let mut i: usize = 0;
        while i < n
            invariant
                lines == hunk.lines@,
                n == lines.len(),
                i <= n,
                hunk_line_end == hunk_line_start + n,
                acc == spec_lines_scan(lines, hunk_line_start as int, i as int, sel_start as int, sel_end as int, acc0),
            decreases n - i,
        {
            acc = line_step(acc, &hunk.lines[i], hunk_line_start + i, sel_start, sel_end);
            i = i + 1;
        }
        acc
    }
}

} // verus!
