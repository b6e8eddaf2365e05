use vstd::prelude::*;

use crate::models::hunk::HunkId;
use crate::models::pr::{DiffHunk, DiffLine, DiffLineType, FileDiff};

verus! {

/// Number of display lines of `hunks` (each hunk: its header, then its lines).
pub open spec fn spec_total_lines(hunks: Seq<DiffHunk>) -> int
    decreases hunks.len(),
{
    if hunks.len() == 0 {
        0
    } else {
        spec_total_lines(hunks.drop_last()) + hunks.last().lines@.len() + 1
    }
}

/// Cursor, scroll and selection over the display lines of a file diff.
pub struct DiffPanelState {
    pub diff: Option<FileDiff>,
    pub scroll_offset: usize,
    pub total_lines: usize,
    pub cursor_line: usize,
    pub selection_active: bool,
    pub selection_anchor: usize,
}

/// What is learnt from the lines of one hunk that overlaps the selection.
pub struct LineScan {
    pub has_change: bool,
    pub first_old: Option<u32>,
    pub last_old: Option<u32>,
    pub first_new: Option<u32>,
    pub last_new: Option<u32>,
    pub old_before: Option<u32>,
    pub new_before: Option<u32>,
}

pub open spec fn empty_scan() -> LineScan {
    LineScan {
        has_change: false,
        first_old: None,
        last_old: None,
        first_new: None,
        last_new: None,
        old_before: None,
        new_before: None,
    }
}

/// Records line number `n` as the newest of a run whose first is `first`.
pub open spec fn first_of(first: Option<u32>, n: Option<u32>) -> Option<u32> {
    if first is Some {
        first
    } else {
        n
    }
}

pub open spec fn latest(last: Option<u32>, n: Option<u32>) -> Option<u32> {
    if n is Some {
        n
    } else {
        last
    }
}

/// Scans lines `i..` of a hunk whose first line is display line `start`,
/// against the selection `[s, e]`.
pub open spec fn spec_scan(lines: Seq<DiffLine>, start: int, s: int, e: int, i: int, acc: LineScan) -> LineScan
    decreases lines.len() - i,
{
    if i < 0 || i >= lines.len() {
        acc
    } else {
        let dl = lines[i];
        let abs = start + i;
        if abs < s {
            spec_scan(
                lines,
                start,
                s,
                e,
                i + 1,
                LineScan {
                    old_before: latest(acc.old_before, dl.old_lineno),
                    new_before: latest(acc.new_before, dl.new_lineno),
                    ..acc
                },
            )
        } else if abs > e {
            acc
        } else if dl.line_type == DiffLineType::Addition || dl.line_type
            == DiffLineType::Deletion || dl.line_type == DiffLineType::Context {
            spec_scan(
                lines,
                start,
                s,
                e,
                i + 1,
                LineScan {
                    has_change: acc.has_change || dl.line_type != DiffLineType::Context,
                    first_old: first_of(acc.first_old, dl.old_lineno),
                    last_old: latest(acc.last_old, dl.old_lineno),
                    first_new: first_of(acc.first_new, dl.new_lineno),
                    last_new: latest(acc.last_new, dl.new_lineno),
                    ..acc
                },
            )
        } else {
            spec_scan(lines, start, s, e, i + 1, acc)
        }
    }
}

/// Whether a first/last pair of line numbers spans a range that fits in `u32`.
pub open spec fn span_ok(first: Option<u32>, last: Option<u32>) -> bool {
    match (first, last) {
        (Some(f), Some(l)) => f <= l && l - f < u32::MAX,
        _ => true,
    }
}

pub open spec fn sat_pred(x: u32) -> u32 {
    if x == 0 {
        0
    } else {
        (x - 1) as u32
    }
}

/// The hunk id for one hunk's scan.
pub open spec fn spec_hunk_id(hunk: DiffHunk, sc: LineScan) -> HunkId {
    let (old_start, old_lines) = match (sc.first_old, sc.last_old) {
        (Some(f), Some(l)) => (f, (l - f + 1) as u32),
        _ => (
            match sc.old_before {
                Some(n) => n,
                None => sat_pred(hunk.old_start),
            },
            0u32,
        ),
    };
    let (new_start, new_lines) = match (sc.first_new, sc.last_new) {
        (Some(f), Some(l)) => (f, (l - f + 1) as u32),
        _ => (
            match sc.new_before {
                Some(n) => n,
                None => sat_pred(hunk.new_start),
            },
            0u32,
        ),
    };
    HunkId { old_start, old_lines, new_start, new_lines }
}

/// Display-line index of the header of hunk `k`.
pub open spec fn spec_hunk_header_line(hunks: Seq<DiffHunk>, k: int) -> int {
    spec_total_lines(hunks.take(k))
}

/// The scan of hunk `k` against the selection `[s, e]`.
pub open spec fn spec_hunk_scan(hunks: Seq<DiffHunk>, k: int, s: int, e: int) -> LineScan {
    spec_scan(hunks[k].lines@, spec_hunk_header_line(hunks, k) + 1, s, e, 0, empty_scan())
}

/// Whether hunk `k` overlaps the selection `[s, e]`.
pub open spec fn spec_hunk_overlaps(hunks: Seq<DiffHunk>, k: int, s: int, e: int) -> bool {
    let start = spec_hunk_header_line(hunks, k) + 1;
    let end = start + hunks[k].lines@.len();
    !(start > e || end <= s)
}

/// The hunk ids of hunks `0..k` for the selection `[s, e]`.
pub open spec fn spec_hunk_ids(hunks: Seq<DiffHunk>, k: int, s: int, e: int) -> Seq<HunkId>
    decreases k,
{
    if k <= 0 {
        Seq::empty()
    } else {
        let prev = spec_hunk_ids(hunks, k - 1, s, e);
        let sc = spec_hunk_scan(hunks, k - 1, s, e);
        if spec_hunk_overlaps(hunks, k - 1, s, e) && sc.has_change {
            prev.push(spec_hunk_id(hunks[k - 1], sc))
        } else {
            prev
        }
    }
}

/// Whether computing hunk ids for `[s, e]` stays within `u32` for every hunk.
pub open spec fn spec_ids_computable(hunks: Seq<DiffHunk>, s: int, e: int) -> bool {
    forall|k: int|
        0 <= k < hunks.len() ==> {
            let sc = #[trigger] spec_hunk_scan(hunks, k, s, e);
            span_ok(sc.first_old, sc.last_old) && span_ok(sc.first_new, sc.last_new)
        }
}

impl DiffPanelState {
    /// The selection `[start, end]`, or the cursor line when no selection is active.
    pub open spec fn spec_sel(&self) -> (int, int) {
        if self.selection_active {
            (
                if self.selection_anchor <= self.cursor_line {
                    self.selection_anchor as int
                } else {
                    self.cursor_line as int
                },
                if self.selection_anchor <= self.cursor_line {
                    self.cursor_line as int
                } else {
                    self.selection_anchor as int
                },
            )
        } else {
            (self.cursor_line as int, self.cursor_line as int)
        }
    }

    pub open spec fn spec_scrolled(&self, view_height: u16) -> usize {
        if view_height == 0 {
            self.scroll_offset
        } else if self.cursor_line < self.scroll_offset {
            self.cursor_line
        } else if self.cursor_line >= self.scroll_offset + view_height {
            (self.cursor_line - view_height + 1) as usize
        } else {
            self.scroll_offset
        }
    }

    /// A panel with no diff.
    pub fn new() -> (s: Self)
        ensures
            s.diff is None,
            s.scroll_offset == 0,
            s.total_lines == 0,
            s.cursor_line == 0,
            !s.selection_active,
            s.selection_anchor == 0,
    {
        DiffPanelState {
            diff: None,
            scroll_offset: 0,
            total_lines: 0,
            cursor_line: 0,
            selection_active: false,
            selection_anchor: 0,
        }
    }

    /// Shows `diff` from its first line.
    pub fn load(&mut self, diff: FileDiff)
        requires
            spec_total_lines(diff.hunks@) <= usize::MAX,
        ensures
            final(self).diff == Some(diff),
            final(self).total_lines == spec_total_lines(diff.hunks@),
            final(self).scroll_offset == 0,
            final(self).cursor_line == 0,
            !final(self).selection_active,
            final(self).selection_anchor == 0,
    {
        let mut total: usize = 0;
        let mut i: usize = 0;
        while i < diff.hunks.len()
            invariant
                i <= diff.hunks.len(),
                total == spec_total_lines(diff.hunks@.take(i as int)),
                spec_total_lines(diff.hunks@) <= usize::MAX,
            decreases diff.hunks.len() - i,
        {
            proof {
                assert(diff.hunks@.take(i + 1).drop_last() =~= diff.hunks@.take(i as int));
                lemma_total_lines_mono(diff.hunks@, i + 1, diff.hunks@.len() as int);
                assert(diff.hunks@.take(diff.hunks@.len() as int) =~= diff.hunks@);
            }
            total = total + diff.hunks[i].lines.len() + 1;
            i = i + 1;
        }
        proof {
            assert(diff.hunks@.take(i as int) =~= diff.hunks@);
        }
        self.total_lines = total;
        self.diff = Some(diff);
        self.scroll_offset = 0;
        self.cursor_line = 0;
        self.selection_active = false;
        self.selection_anchor = 0;
    }

    /// Drops the diff and resets the panel.
    pub fn clear(&mut self)
        ensures
            final(self).diff is None,
            final(self).scroll_offset == 0,
            final(self).total_lines == 0,
            final(self).cursor_line == 0,
            !final(self).selection_active,
            final(self).selection_anchor == 0,
    {
        self.diff = None;
        self.scroll_offset = 0;
        self.total_lines = 0;
        self.cursor_line = 0;
        self.selection_active = false;
        self.selection_anchor = 0;
    }

    /// Scrolls so that the cursor line is among the `view_height` visible lines.
    pub fn ensure_cursor_visible(&mut self, view_height: u16)
        requires
            old(self).scroll_offset + view_height <= usize::MAX,
        ensures
            final(self).scroll_offset == old(self).spec_scrolled(view_height),
            final(self).cursor_line == old(self).cursor_line,
            final(self).total_lines == old(self).total_lines,
            final(self).diff == old(self).diff,
            final(self).selection_active == old(self).selection_active,
            final(self).selection_anchor == old(self).selection_anchor,
    {
        let h = view_height as usize;
        if h == 0 {
            return;
        }
        if self.cursor_line < self.scroll_offset {
            self.scroll_offset = self.cursor_line;
        } else if self.cursor_line >= self.scroll_offset + h {
            self.scroll_offset = self.cursor_line - h + 1;
        }
    }

    /// Moves the cursor to `pos` (clamped to the last line) and scrolls to it.
    pub fn set_cursor(&mut self, pos: usize, view_height: u16)
        requires
            old(self).scroll_offset + view_height <= usize::MAX,
        ensures
            final(self).cursor_line == (if pos < old(self).total_lines { pos } else { sat_pred_usize(old(self).total_lines) }),
            final(self).scroll_offset == (DiffPanelState { cursor_line: final(self).cursor_line, ..*old(self) }).spec_scrolled(view_height),
            final(self).total_lines == old(self).total_lines,
            final(self).diff == old(self).diff,
            final(self).selection_active == old(self).selection_active,
            final(self).selection_anchor == old(self).selection_anchor,
    {
        let max = self.total_lines.saturating_sub(1);
        self.cursor_line = if pos <= max { pos } else { max };
        self.ensure_cursor_visible(view_height);
    }

    /// Moves the cursor by `delta` lines (clamped to the diff) and scrolls to it.
    pub fn move_cursor(&mut self, delta: i32, view_height: u16)
        requires
            old(self).scroll_offset + view_height <= usize::MAX,
            delta != i32::MIN,
            delta >= 0 ==> old(self).cursor_line + delta <= usize::MAX,
        ensures
            final(self).cursor_line == ({
                let max = sat_pred_usize(old(self).total_lines);
                if delta >= 0 {
                    if old(self).cursor_line + delta <= max {
                        (old(self).cursor_line + delta) as usize
                    } else {
                        max
                    }
                } else {
                    let down = if old(self).cursor_line < -delta {
                        0usize
                    } else {
                        (old(self).cursor_line + delta) as usize
                    };
                    if down < old(self).total_lines { down } else { max }
                }
            }),
            final(self).scroll_offset == (DiffPanelState { cursor_line: final(self).cursor_line, ..*old(self) }).spec_scrolled(view_height),
            final(self).total_lines == old(self).total_lines,
            final(self).diff == old(self).diff,
            final(self).selection_active == old(self).selection_active,
            final(self).selection_anchor == old(self).selection_anchor,
    {
        let max = self.total_lines.saturating_sub(1);
        let new_pos = if delta >= 0 {
            let moved = self.cursor_line + delta as usize;
            if moved <= max { moved } else { max }
        } else {
            self.cursor_line.saturating_sub((-delta) as usize)
        };
        self.set_cursor(new_pos, view_height);
    }

    /// Starts a selection anchored at the cursor, or ends the active one.
    pub fn toggle_selection(&mut self)
        ensures
            final(self).selection_active == !old(self).selection_active,
            final(self).selection_anchor == (if old(self).selection_active {
                old(self).selection_anchor
            } else {
                old(self).cursor_line
            }),
            final(self).cursor_line == old(self).cursor_line,
            final(self).scroll_offset == old(self).scroll_offset,
            final(self).total_lines == old(self).total_lines,
            final(self).diff == old(self).diff,
    {
        if self.selection_active {
            self.selection_active = false;
        } else {
            self.selection_active = true;
            self.selection_anchor = self.cursor_line;
        }
    }

    /// Ends the selection.
    pub fn cancel_selection(&mut self)
        ensures
            !final(self).selection_active,
            final(self).selection_anchor == old(self).selection_anchor,
            final(self).cursor_line == old(self).cursor_line,
            final(self).scroll_offset == old(self).scroll_offset,
            final(self).total_lines == old(self).total_lines,
            final(self).diff == old(self).diff,
    {
        self.selection_active = false;
    }

    /// The ordered selection range, when a selection is active.
    pub fn selection_range(&self) -> (r: Option<(usize, usize)>)
        ensures
            r == (if self.selection_active {
                Some((self.spec_sel().0 as usize, self.spec_sel().1 as usize))
            } else {
                None::<(usize, usize)>
            }),
    {
        if !self.selection_active {
            return None;
        }
        let start = if self.selection_anchor <= self.cursor_line { self.selection_anchor } else { self.cursor_line };
        let end = if self.selection_anchor <= self.cursor_line { self.cursor_line } else { self.selection_anchor };
        Some((start, end))
    }
}

pub open spec fn sat_pred_usize(x: usize) -> usize {
    if x == 0 {
        0
    } else {
        (x - 1) as usize
    }
}

proof fn lemma_total_lines_mono(hunks: Seq<DiffHunk>, i: int, j: int)
    requires
        0 <= i <= j <= hunks.len(),
    ensures
        spec_total_lines(hunks.take(i)) <= spec_total_lines(hunks.take(j)),
    decreases j - i,
{
    if i < j {
        assert(hunks.take(j).drop_last() =~= hunks.take(j - 1));
        lemma_total_lines_mono(hunks, i, j - 1);
    }
}


/// The scan of a hunk's lines, the first being display line `start`,
/// against the selection `[sel_start, sel_end]`.
fn scan_hunk_lines(hunk: &DiffHunk, start: usize, sel_start: usize, sel_end: usize) -> (r: LineScan)
    requires
        start + hunk.lines@.len() <= usize::MAX,
    ensures
        r == spec_scan(hunk.lines@, start as int, sel_start as int, sel_end as int, 0, empty_scan()),
{
    let n = hunk.lines.len();
    let ghost s = sel_start as int;
    let ghost e = sel_end as int;
    let mut has_change = false;
    let mut first_old: Option<u32> = None;
    let mut last_old: Option<u32> = None;
    let mut first_new: Option<u32> = None;
    let mut last_new: Option<u32> = None;
    let mut old_before: Option<u32> = None;
    let mut new_before: Option<u32> = None;
    let ghost lines = hunk.lines@;
    let ghost target = spec_scan(lines, start as int, s, e, 0, empty_scan());
    let mut i: usize = 0;
    while i < n
        invariant
            lines == hunk.lines@,
            n == lines.len(),
            i <= n,
            start + n <= usize::MAX,
            s == sel_start as int,
            e == sel_end as int,
            spec_scan(
                lines,
                start as int,
                s,
                e,
                i as int,
                LineScan {
                    has_change,
                    first_old,
                    last_old,
                    first_new,
                    last_new,
                    old_before,
                    new_before,
                },
            ) == target,
        ensures
            (LineScan {
                has_change,
                first_old,
                last_old,
                first_new,
                last_new,
                old_before,
                new_before,
            }) == target,
        decreases n - i,
    {
        let dl = &hunk.lines[i];
        let abs_idx = start + i;
        if abs_idx < sel_start {
            if dl.old_lineno.is_some() {
                old_before = dl.old_lineno;
            }
            if dl.new_lineno.is_some() {
                new_before = dl.new_lineno;
            }
            i = i + 1;
            continue;
        }
        if abs_idx > sel_end {
            break;
        }
        let counted = match dl.line_type {
            DiffLineType::Addition | DiffLineType::Deletion => {
                has_change = true;
                true
            },
            DiffLineType::Context => true,
            _ => false,
        };
        if counted {
            if dl.old_lineno.is_some() {
                if first_old.is_none() {
                    first_old = dl.old_lineno;
                }
                last_old = dl.old_lineno;
            }
            if dl.new_lineno.is_some() {
                if first_new.is_none() {
                    first_new = dl.new_lineno;
                }
                last_new = dl.new_lineno;
            }
        }
        i = i + 1;
    }
    LineScan { has_change, first_old, last_old, first_new, last_new, old_before, new_before }
}

impl DiffPanelState {
    /// The hunk ids covering the addition and deletion lines under the
    /// selection (or the cursor), one per hunk that has such lines there.
    ///
    /// Display lines count each hunk header; a selection of context lines
    /// only gives no id.
    pub fn compute_selected_hunk_ids(&self) -> (r: Vec<HunkId>)
        requires
            self.diff matches Some(d) ==> spec_total_lines(d.hunks@) <= usize::MAX
                && spec_ids_computable(d.hunks@, self.spec_sel().0, self.spec_sel().1),
        ensures
            self.diff is None ==> r@.len() == 0,
            self.diff matches Some(d) ==> r@ == spec_hunk_ids(
                d.hunks@,
                d.hunks@.len() as int,
                self.spec_sel().0,
                self.spec_sel().1,
            ),
    {
        let diff = match &self.diff {
            Some(d) => d,
            None => return Vec::new(),
        };
        let (sel_start, sel_end) = if self.selection_active {
            let start = if self.selection_anchor <= self.cursor_line { self.selection_anchor } else { self.cursor_line };
            let end = if self.selection_anchor <= self.cursor_line { self.cursor_line } else { self.selection_anchor };
            (start, end)
        } else {
            (self.cursor_line, self.cursor_line)
        };
        let ghost hunks = diff.hunks@;
        let ghost s = sel_start as int;
        let ghost e = sel_end as int;
        let mut result: Vec<HunkId> = Vec::new();
        let mut line_idx: usize = 0;
        let mut k: usize = 0;
        while k < diff.hunks.len()
            invariant
                hunks == diff.hunks@,
                k <= hunks.len(),
                s == sel_start as int,
                e == sel_end as int,
                s <= e,
                line_idx == spec_total_lines(hunks.take(k as int)),
                spec_total_lines(hunks) <= usize::MAX,
                spec_ids_computable(hunks, s, e),
                result@ == spec_hunk_ids(hunks, k as int, s, e),
            decreases hunks.len() - k,
        {
            proof {
                assert(hunks.take(k + 1).drop_last() =~= hunks.take(k as int));
                lemma_total_lines_mono(hunks, k + 1, hunks.len() as int);
                assert(hunks.take(hunks.len() as int) =~= hunks);
            }
            let hunk = &diff.hunks[k];
            let n = hunk.lines.len();
            line_idx = line_idx + 1;
            let hunk_line_start = line_idx;
            let hunk_line_end = line_idx + n;
            if hunk_line_start > sel_end || hunk_line_end <= sel_start {
                line_idx = hunk_line_end;
                k = k + 1;
                continue;
            }
            let sc = scan_hunk_lines(hunk, hunk_line_start, sel_start, sel_end);
            proof {
                assert(sc == spec_hunk_scan(hunks, k as int, s, e));
            }
            let LineScan { has_change, first_old, last_old, first_new, last_new, old_before, new_before } = sc;
            if !has_change {
                line_idx = hunk_line_end;
                k = k + 1;
                continue;
            }
            let (old_start, old_lines) = match (first_old, last_old) {
                (Some(f), Some(l)) => (f, l - f + 1),
                _ => (
                    match old_before {
                        Some(b) => b,
                        None => hunk.old_start.saturating_sub(1),
                    },
                    0u32,
                ),
            };
            let (new_start, new_lines) = match (first_new, last_new) {
                (Some(f), Some(l)) => (f, l - f + 1),
                _ => (
                    match new_before {
                        Some(b) => b,
                        None => hunk.new_start.saturating_sub(1),
                    },
                    0u32,
                ),
            };
            result.push(HunkId { old_start, old_lines, new_start, new_lines });
            line_idx = hunk_line_end;
            k = k + 1;
        }
        proof {
            assert(hunks.len() == k);
        }
        result
    }
    /// Whether the hunk ids of the selection can be computed without leaving
    /// `usize` or `u32`: the display lines fit in `usize`, and in every hunk
    /// the selected line numbers of each side span a range that fits in
    /// `u32` (see `spec_ids_computable`), which `compute_selected_hunk_ids`
    /// needs.
    pub fn ids_computable(&self) -> (r: bool)
        ensures
            r == (self.diff matches Some(d) ==> spec_total_lines(d.hunks@) <= usize::MAX
                && spec_ids_computable(d.hunks@, self.spec_sel().0, self.spec_sel().1)),
    {
        let diff = match &self.diff {
            Some(d) => d,
            None => return true,
        };
        let (sel_start, sel_end) = if self.selection_active {
            let start = if self.selection_anchor <= self.cursor_line { self.selection_anchor } else { self.cursor_line };
            let end = if self.selection_anchor <= self.cursor_line { self.cursor_line } else { self.selection_anchor };
            (start, end)
        } else {
            (self.cursor_line, self.cursor_line)
        };
        let ghost hunks = diff.hunks@;
        let ghost s = sel_start as int;
        let ghost e = sel_end as int;
        assert(self.spec_sel() == (s, e));
        let mut line_idx: usize = 0;
        let mut k: usize = 0;
        while k < diff.hunks.len()
            invariant
                hunks == diff.hunks@,
                self.diff == Some(*diff),
                self.spec_sel() == (s, e),
                k <= hunks.len(),
                s == sel_start as int,
                e == sel_end as int,
                line_idx == spec_total_lines(hunks.take(k as int)),
                forall|j: int|
                    0 <= j < k ==> {
                        let sc = #[trigger] spec_hunk_scan(hunks, j, s, e);
                        span_ok(sc.first_old, sc.last_old) && span_ok(sc.first_new, sc.last_new)
                    },
            decreases hunks.len() - k,
        {
            proof {
                assert(hunks.take(k + 1).drop_last() =~= hunks.take(k as int));
                assert(hunks.take(k + 1).last() == hunks[k as int]);
            }
            let hunk = &diff.hunks[k];
            let n = hunk.lines.len();
            if n >= usize::MAX - line_idx {
                proof {
                    assert(spec_total_lines(hunks.take(k + 1)) == line_idx + n + 1);
                    lemma_total_lines_mono(hunks, k + 1, hunks.len() as int);
                    assert(hunks.take(hunks.len() as int) =~= hunks);
                }
                return false;
            }
            let sc = scan_hunk_lines(hunk, line_idx + 1, sel_start, sel_end);
            proof {
                assert(sc == spec_hunk_scan(hunks, k as int, s, e));
            }
            let old_ok = match (sc.first_old, sc.last_old) {
                (Some(f), Some(l)) => f <= l && l - f < 0xffff_ffffu32,
                _ => true,
            };
            let new_ok = match (sc.first_new, sc.last_new) {
                (Some(f), Some(l)) => f <= l && l - f < 0xffff_ffffu32,
                _ => true,
            };
            if !(old_ok && new_ok) {
                proof {
                    assert(!spec_ids_computable(hunks, s, e)) by {
                        assert(spec_hunk_scan(hunks, k as int, s, e) == sc);
                    }
                }
                return false;
            }
            line_idx = line_idx + 1 + n;
            k = k + 1;
        }
        proof {
            assert(hunks.take(k as int) =~= hunks);
        }
        true
    }
}

} // verus!
