use vstd::prelude::*;

verus! {

/// Abstract value of a [`RangeListState`].
pub struct RangeListView {
    pub offset: usize,
    pub selected: Option<usize>,
    pub anchor: Option<usize>,
}

/// State for a range list: scroll offset, cursor and visual-selection anchor.
///
/// Navigation may leave `selected` out of bounds (for instance `usize::MAX`);
/// such values are clamped to the item count when the list is laid out.
#[derive(Debug, Clone, Copy, PartialEq, Eq)]
pub struct RangeListState {
    offset: usize,
    selected: Option<usize>,
    selection_anchor: Option<usize>,
}

impl View for RangeListState {
    type V = RangeListView;

    closed spec fn view(&self) -> RangeListView {
        RangeListView { offset: self.offset, selected: self.selected, anchor: self.selection_anchor }
    }
}

/// The inclusive range spanned by an anchor and a cursor, when both exist.
pub open spec fn spec_selection_range(v: RangeListView) -> Option<(usize, usize)> {
    match (v.anchor, v.selected) {
        (Some(a), Some(s)) => Some(
            (if a <= s { a } else { s }, if a <= s { s } else { a }),
        ),
        _ => None,
    }
}

/// The state after toggling the selection: an active selection ends, else
/// one starts at the cursor.
pub open spec fn spec_toggle(v: RangeListView) -> RangeListView {
    RangeListView { anchor: if v.anchor is Some { None } else { v.selected }, ..v }
}

impl Default for RangeListState {
    fn default() -> (s: Self)
        ensures
            s@.offset == 0,
            s@.selected is None,
            s@.anchor is None,
    {
        RangeListState { offset: 0, selected: None, selection_anchor: None }
    }
}

impl RangeListState {
    /// Sets the index of the first item to be displayed.
    pub fn with_offset(self, offset: usize) -> (s: Self)
        ensures
            s@ == (RangeListView { offset, ..self@ }),
    {
        RangeListState { offset, ..self }
    }

    /// Sets the index of the selected item.
    pub fn with_selected(self, selected: Option<usize>) -> (s: Self)
        ensures
            s@ == (RangeListView { selected, ..self@ }),
    {
        RangeListState { selected, ..self }
    }

    /// Index of the first item to be displayed.
    pub fn offset(&self) -> (r: usize)
        ensures
            r == self@.offset,
    {
        self.offset
    }

    /// Mutable reference to the index of the first item to be displayed.
    pub fn offset_mut(&mut self) -> (r: &mut usize)
        ensures
            *r == old(self)@.offset,
            final(self)@ == (RangeListView { offset: *final(r), ..old(self)@ }),
    {
        &mut self.offset
    }

    /// Index of the selected item, or `None` if nothing is selected.
    pub fn selected(&self) -> (r: Option<usize>)
        ensures
            r == self@.selected,
    {
        self.selected
    }

    /// Mutable reference to the selected index.
    pub fn selected_mut(&mut self) -> (r: &mut Option<usize>)
        ensures
            *r == old(self)@.selected,
            final(self)@ == (RangeListView { selected: *final(r), ..old(self)@ }),
    {
        &mut self.selected
    }

    /// Sets the selected item index; selecting `None` also resets the offset to `0`.
    pub fn select(&mut self, index: Option<usize>)
        ensures
            final(self)@.selected == index,
            final(self)@.anchor == old(self)@.anchor,
            final(self)@.offset == (if index is None { 0 } else { old(self)@.offset }),
    {
        self.selected = index;
        if index.is_none() {
            self.offset = 0;
        }
    }

    /// Selects the next item, or the first item if nothing is selected.
    /// Saturates at `usize::MAX`; the value is clamped at layout time.
    pub fn select_next(&mut self)
        ensures
            final(self)@ == (RangeListView {
                selected: Some(
                    match old(self)@.selected {
                        None => 0usize,
                        Some(i) => if i == usize::MAX { usize::MAX } else { (i + 1) as usize },
                    },
                ),
                ..old(self)@
            }),
    {
        let next = match self.selected {
            None => 0,
            Some(i) => i.saturating_add(1),
        };
        self.select(Some(next));
    }

    /// Selects the previous item, or the last item (`usize::MAX`, clamped at
    /// layout time) if nothing is selected.
    pub fn select_previous(&mut self)
        ensures
            final(self)@ == (RangeListView {
                selected: Some(
                    match old(self)@.selected {
                        None => usize::MAX,
                        Some(i) => if i == 0 { 0usize } else { (i - 1) as usize },
                    },
                ),
                ..old(self)@
            }),
    {
        let previous = match self.selected {
            None => usize::MAX,
            Some(i) => i.saturating_sub(1),
        };
        self.select(Some(previous));
    }

    /// Selects the first item.
    pub fn select_first(&mut self)
        ensures
            final(self)@ == (RangeListView { selected: Some(0usize), ..old(self)@ }),
    {
        self.select(Some(0));
    }

    /// Selects the last item (`usize::MAX`, clamped at layout time).
    pub fn select_last(&mut self)
        ensures
            final(self)@ == (RangeListView { selected: Some(usize::MAX), ..old(self)@ }),
    {
        self.select(Some(usize::MAX));
    }

    /// Moves the cursor down by `amount`, starting from `0` when nothing is selected.
    pub fn scroll_down_by(&mut self, amount: u16)
        ensures
            final(self)@ == (RangeListView {
                selected: Some(
                    {
                        let cur: usize = match old(self)@.selected { None => 0usize, Some(i) => i };
                        if cur + amount > usize::MAX { usize::MAX } else { (cur + amount) as usize }
                    },
                ),
                ..old(self)@
            }),
    {
        let selected = match self.selected {
            None => 0,
            Some(i) => i,
        };
        self.select(Some(selected.saturating_add(amount as usize)));
    }

    /// Moves the cursor up by `amount`, starting from `0` when nothing is selected.
    pub fn scroll_up_by(&mut self, amount: u16)
        ensures
            final(self)@ == (RangeListView {
                selected: Some(
                    {
                        let cur: usize = match old(self)@.selected { None => 0usize, Some(i) => i };
                        if cur < amount { 0usize } else { (cur - amount) as usize }
                    },
                ),
                ..old(self)@
            }),
    {
        let selected = match self.selected {
            None => 0,
            Some(i) => i,
        };
        self.select(Some(selected.saturating_sub(amount as usize)));
    }

    /// Toggles visual selection: an inactive selection is anchored at the cursor,
    /// an active one is dropped.
    pub fn toggle_selection(&mut self)
        ensures
            final(self)@ == spec_toggle(old(self)@),
    {
        if self.selection_anchor.is_some() {
            self.selection_anchor = None;
        } else {
            self.selection_anchor = self.selected;
        }
    }

    /// Cancels visual selection.
    pub fn cancel_selection(&mut self)
        ensures
            final(self)@ == (RangeListView { anchor: None, ..old(self)@ }),
    {
        self.selection_anchor = None;
    }

    /// The inclusive, ordered selection range, when a selection is active and
    /// an item is selected.
    pub fn selection_range(&self) -> (r: Option<(usize, usize)>)
        ensures
            r == spec_selection_range(self@),
    {
        let anchor = match self.selection_anchor {
            Some(a) => a,
            None => return None,
        };
        let selected = match self.selected {
            Some(s) => s,
            None => return None,
        };
        if anchor <= selected {
            Some((anchor, selected))
        } else {
            Some((selected, anchor))
        }
    }

    /// Whether visual selection is currently active.
    pub fn is_selection_active(&self) -> (r: bool)
        ensures
            r == (self@.anchor is Some),
    {
        self.selection_anchor.is_some()
    }
}

} // verus!

verus! {

/// Total height of the items `heights[a..b]`.
pub open spec fn sum_heights(heights: Seq<usize>, a: int, b: int) -> int
    decreases b - a,
{
    if a >= b {
        0
    } else {
        sum_heights(heights, a, b - 1) + heights[b - 1]
    }
}

proof fn lemma_sum_split_first(heights: Seq<usize>, a: int, b: int)
    requires
        a < b,
    ensures
        sum_heights(heights, a, b) == heights[a] + sum_heights(heights, a + 1, b),
    decreases b - a,
{
    if a + 1 < b {
        lemma_sum_split_first(heights, a, b - 1);
    } else {
        assert(sum_heights(heights, a, a) == 0);
        assert(sum_heights(heights, a + 1, b) == 0);
    }
}

proof fn lemma_sum_nonneg(heights: Seq<usize>, a: int, b: int)
    ensures
        sum_heights(heights, a, b) >= 0,
    decreases b - a,
{
    if a < b {
        lemma_sum_nonneg(heights, a, b - 1);
    }
}

/// A window inside a larger window has no more height.
pub(crate) proof fn lemma_sum_mono(heights: Seq<usize>, a: int, b: int, c: int, d: int)
    requires
        a <= c,
        d <= b,
    ensures
        sum_heights(heights, c, d) <= sum_heights(heights, a, b),
    decreases (b - a) + (c - a) + (b - d),
{
    if c >= d {
        lemma_sum_nonneg(heights, a, b);
    } else if d < b {
        lemma_sum_mono(heights, a, b - 1, c, d);
    } else if a < c {
        lemma_sum_split_first(heights, a, b);
        lemma_sum_mono(heights, a + 1, b, c, d);
    }
}

/// Items that fit below `last` once `height` is already used (first phase of layout).
pub open spec fn spec_fill(heights: Seq<usize>, last: int, height: int, max: int) -> (int, int)
    decreases heights.len() - last,
{
    if 0 <= last < heights.len() && height + heights[last] <= max {
        spec_fill(heights, last + 1, height + heights[last], max)
    } else {
        (last, height)
    }
}

/// Drops items from the front until the window fits in `max`.
pub open spec fn spec_shrink_front(heights: Seq<usize>, first: int, height: int, max: int) -> (int, int)
    decreases heights.len() - first,
{
    if height > max && 0 <= first < heights.len() {
        spec_shrink_front(heights, first + 1, height - heights[first], max)
    } else {
        (first, height)
    }
}

/// Drops items from the back until the window fits in `max`.
pub open spec fn spec_shrink_back(heights: Seq<usize>, last: int, height: int, max: int) -> (int, int)
    decreases last,
{
    if height > max && 0 < last <= heights.len() {
        spec_shrink_back(heights, last - 1, height - heights[last - 1], max)
    } else {
        (last, height)
    }
}

/// Extends the window downwards until item `idx` is inside it.
pub open spec fn spec_scroll_down(
    heights: Seq<usize>,
    idx: int,
    first: int,
    last: int,
    height: int,
    max: int,
) -> (int, int, int)
    decreases heights.len() - last,
{
    if idx >= last && 0 <= last < heights.len() {
        let (f2, h2) = spec_shrink_front(heights, first, height + heights[last], max);
        spec_scroll_down(heights, idx, f2, last + 1, h2, max)
    } else {
        (first, last, height)
    }
}

/// Extends the window upwards until item `idx` is inside it.
pub open spec fn spec_scroll_up(
    heights: Seq<usize>,
    idx: int,
    first: int,
    last: int,
    height: int,
    max: int,
) -> (int, int)
    decreases first,
{
    if idx < first && 0 < first <= heights.len() {
        let (l2, h2) = spec_shrink_back(heights, last, height + heights[first - 1], max);
        spec_scroll_up(heights, idx, first - 1, l2, h2, max)
    } else {
        (first, last)
    }
}

/// Largest padding, at most `pad`, whose window around `sel` fits in `max`
/// (`0` when none does).
pub open spec fn spec_fit_padding(heights: Seq<usize>, sel: int, pad: int, max: int) -> int
    decreases pad,
{
    if pad <= 0 {
        0
    } else {
        let lo = if sel < pad { 0 } else { sel - pad };
        let hi = if sel + pad < heights.len() - 1 { sel + pad } else { heights.len() - 1 };
        if sum_heights(heights, lo, hi + 1) <= max {
            pad
        } else {
            spec_fit_padding(heights, sel, pad - 1, max)
        }
    }
}

/// The index that must be visible once scroll padding is applied to the
/// (clamped) selection, given the current window `[first, last)`.
pub open spec fn spec_padded_index(
    heights: Seq<usize>,
    selected: Option<usize>,
    pad: int,
    max: int,
    first: int,
    last: int,
) -> Option<int> {
    match selected {
        None => None,
        Some(s) => {
            let lv = heights.len() - 1;
            let sel = if s <= lv { s as int } else { lv };
            let p = spec_fit_padding(heights, sel, pad, max);
            let hi = if sel + p <= lv { sel + p } else { lv };
            let lo = if sel < p { 0 } else { sel - p };
            let r = if hi >= last { sel + p } else if lo < first { lo } else { sel };
            Some(if r <= lv { r } else { lv })
        },
    }
}

/// The visible window `[first, last)` for the given cursor, offset and height.
pub open spec fn spec_items_bounds(
    heights: Seq<usize>,
    selected: Option<usize>,
    offset: int,
    max: int,
    pad: int,
) -> (int, int) {
    let off = if offset <= heights.len() - 1 { offset } else { heights.len() - 1 };
    let (last0, height0) = spec_fill(heights, off, 0, max);
    let idx = match spec_padded_index(heights, selected, pad, max, off, last0) {
        Some(i) => i,
        None => off,
    };
    let (f1, l1, h1) = spec_scroll_down(heights, idx, off, last0, height0, max);
    spec_scroll_up(heights, idx, f1, l1, h1, max)
}

/// Filling from `last` keeps the window `[first, result)` within `max`.
pub(crate) proof fn lemma_fill_window(heights: Seq<usize>, first: int, last: int, height: int, max: int)
    requires
        0 <= first <= last <= heights.len(),
        height == sum_heights(heights, first, last),
        height <= max,
    ensures
        last <= spec_fill(heights, last, height, max).0 <= heights.len(),
        spec_fill(heights, last, height, max).1 == sum_heights(
            heights,
            first,
            spec_fill(heights, last, height, max).0,
        ),
        spec_fill(heights, last, height, max).1 <= max,
    decreases heights.len() - last,
{
    if 0 <= last < heights.len() && height + heights[last] <= max {
        lemma_fill_window(heights, first, last + 1, height + heights[last], max);
    }
}

/// Dropping items from the front of `[first, last)` never drops its last
/// item when no item is taller than `max`.
proof fn lemma_shrink_front_window(heights: Seq<usize>, first: int, last: int, height: int, max: int)
    requires
        0 <= first < last <= heights.len(),
        height == sum_heights(heights, first, last),
        forall|i: int| 0 <= i < heights.len() ==> heights[i] <= max,
    ensures
        first <= spec_shrink_front(heights, first, height, max).0 < last,
        spec_shrink_front(heights, first, height, max).1 == sum_heights(
            heights,
            spec_shrink_front(heights, first, height, max).0,
            last,
        ),
        spec_shrink_front(heights, first, height, max).1 <= max,
    decreases heights.len() - first,
{
    if height > max && 0 <= first < heights.len() {
        lemma_sum_split_first(heights, first, last);
        if first + 1 == last {
            assert(sum_heights(heights, first + 1, last) == 0);
            assert(false);
        }
        lemma_shrink_front_window(heights, first + 1, last, height - heights[first], max);
    }
}

/// Dropping items from the back of `[first, last)` never drops its first
/// item when no item is taller than `max`.
proof fn lemma_shrink_back_window(heights: Seq<usize>, first: int, last: int, height: int, max: int)
    requires
        0 <= first < last <= heights.len(),
        height == sum_heights(heights, first, last),
        forall|i: int| 0 <= i < heights.len() ==> heights[i] <= max,
    ensures
        first < spec_shrink_back(heights, last, height, max).0 <= last,
        spec_shrink_back(heights, last, height, max).1 == sum_heights(
            heights,
            first,
            spec_shrink_back(heights, last, height, max).0,
        ),
        spec_shrink_back(heights, last, height, max).1 <= max,
    decreases last,
{
    if height > max && 0 < last <= heights.len() {
        if first + 1 == last {
            assert(sum_heights(heights, first, first) == 0);
            assert(false);
        }
        lemma_shrink_back_window(heights, first, last - 1, height - heights[last - 1], max);
    }
}

/// Scrolling down to `idx` puts it inside the window when it was below it.
pub(crate) proof fn lemma_scroll_down_window(
    heights: Seq<usize>,
    idx: int,
    first: int,
    last: int,
    height: int,
    max: int,
)
    requires
        0 <= idx < heights.len(),
        0 <= first <= last <= heights.len(),
        height == sum_heights(heights, first, last),
        height <= max,
        forall|i: int| 0 <= i < heights.len() ==> heights[i] <= max,
    ensures
        idx < last ==> spec_scroll_down(heights, idx, first, last, height, max) == (
            first,
            last,
            height,
        ),
        spec_scroll_down(heights, idx, first, last, height, max).2 <= max,
        idx >= last ==> spec_scroll_down(heights, idx, first, last, height, max).0 <= idx
            < spec_scroll_down(heights, idx, first, last, height, max).1,
        spec_scroll_down(heights, idx, first, last, height, max).2 == sum_heights(
            heights,
            spec_scroll_down(heights, idx, first, last, height, max).0,
            spec_scroll_down(heights, idx, first, last, height, max).1,
        ),
        0 <= spec_scroll_down(heights, idx, first, last, height, max).0
            <= spec_scroll_down(heights, idx, first, last, height, max).1 <= heights.len(),
    decreases heights.len() - last,
{
    if idx >= last && 0 <= last < heights.len() {
        lemma_shrink_front_window(heights, first, last + 1, height + heights[last], max);
        let (f2, h2) = spec_shrink_front(heights, first, height + heights[last], max);
        lemma_scroll_down_window(heights, idx, f2, last + 1, h2, max);
    }
}

/// Scrolling up to `idx` puts it at the top of the window when it was above
/// it.
pub(crate) proof fn lemma_scroll_up_window(
    heights: Seq<usize>,
    idx: int,
    first: int,
    last: int,
    height: int,
    max: int,
)
    requires
        0 <= idx,
        0 <= first <= last <= heights.len(),
        idx < last,
        height == sum_heights(heights, first, last),
        height <= max,
        forall|i: int| 0 <= i < heights.len() ==> heights[i] <= max,
    ensures
        sum_heights(
            heights,
            spec_scroll_up(heights, idx, first, last, height, max).0,
            spec_scroll_up(heights, idx, first, last, height, max).1,
        ) <= max,
        0 <= spec_scroll_up(heights, idx, first, last, height, max).0
            <= spec_scroll_up(heights, idx, first, last, height, max).1 <= heights.len(),
        idx >= first ==> spec_scroll_up(heights, idx, first, last, height, max) == (first, last),
        idx < first ==> spec_scroll_up(heights, idx, first, last, height, max).0 == idx
            && idx < spec_scroll_up(heights, idx, first, last, height, max).1,
    decreases first,
{
    if idx < first && 0 < first <= heights.len() {
        lemma_sum_split_first(heights, first - 1, last);
        lemma_shrink_back_window(heights, first - 1, last, height + heights[first - 1], max);
        let (l2, h2) = spec_shrink_back(heights, last, height + heights[first - 1], max);
        lemma_scroll_up_window(heights, idx, first - 1, l2, h2, max);
    }
}

/// Filling stops at the end of the list or before an item that does not fit.
pub(crate) proof fn lemma_fill_stops(heights: Seq<usize>, last: int, height: int, max: int)
    requires
        0 <= last,
    ensures
        spec_fill(heights, last, height, max).0 < heights.len() ==> spec_fill(
            heights,
            last,
            height,
            max,
        ).1 + heights[spec_fill(heights, last, height, max).0] > max,
    decreases heights.len() - last,
{
    if 0 <= last < heights.len() && height + heights[last] <= max {
        lemma_fill_stops(heights, last + 1, height + heights[last], max);
    }
}

/// Dropping items from the front of `[first, last)` stops at or before `a`
/// when `[a, last)` already fits.
proof fn lemma_shrink_front_keeps(
    heights: Seq<usize>,
    first: int,
    last: int,
    height: int,
    max: int,
    a: int,
)
    requires
        0 <= first <= a <= last <= heights.len(),
        height == sum_heights(heights, first, last),
        sum_heights(heights, a, last) <= max,
    ensures
        spec_shrink_front(heights, first, height, max).0 <= a,
    decreases a - first,
{
    if height > max && 0 <= first < heights.len() {
        if first < a {
            lemma_sum_split_first(heights, first, last);
            lemma_shrink_front_keeps(heights, first + 1, last, height - heights[first], max, a);
        }
    }
}

/// Dropping items from the back of `[first, last)` stops at or after `j`
/// when `[first, j)` already fits.
proof fn lemma_shrink_back_keeps(
    heights: Seq<usize>,
    first: int,
    last: int,
    height: int,
    max: int,
    j: int,
)
    requires
        0 <= first <= j <= last <= heights.len(),
        height == sum_heights(heights, first, last),
        sum_heights(heights, first, j) <= max,
    ensures
        spec_shrink_back(heights, last, height, max).0 >= j,
    decreases last - j,
{
    if height > max && 0 < last <= heights.len() {
        if j < last {
            lemma_shrink_back_keeps(heights, first, last - 1, height - heights[last - 1], max, j);
        }
    }
}

/// Scrolling down to `idx` keeps the window starting at or before `a` when
/// `[a, idx]` fits in the area.
pub(crate) proof fn lemma_scroll_down_keeps(
    heights: Seq<usize>,
    idx: int,
    first: int,
    last: int,
    height: int,
    max: int,
    a: int,
)
    requires
        0 <= first <= last <= heights.len(),
        first <= a <= idx < heights.len(),
        height == sum_heights(heights, first, last),
        height <= max,
        sum_heights(heights, a, idx + 1) <= max,
        forall|i: int| 0 <= i < heights.len() ==> heights[i] <= max,
    ensures
        spec_scroll_down(heights, idx, first, last, height, max).0 <= a,
    decreases heights.len() - last,
{
    if idx >= last && 0 <= last < heights.len() {
        lemma_shrink_front_window(heights, first, last + 1, height + heights[last], max);
        if a <= last + 1 {
            lemma_sum_mono(heights, a, idx + 1, a, last + 1);
            lemma_shrink_front_keeps(heights, first, last + 1, height + heights[last], max, a);
        }
        let (f2, h2) = spec_shrink_front(heights, first, height + heights[last], max);
        lemma_scroll_down_keeps(heights, idx, f2, last + 1, h2, max, a);
    }
}

/// Scrolling up to `idx` keeps the window ending at or after `j` when
/// `[idx, j)` fits in the area.
pub(crate) proof fn lemma_scroll_up_keeps(
    heights: Seq<usize>,
    idx: int,
    first: int,
    last: int,
    height: int,
    max: int,
    j: int,
)
    requires
        0 <= idx < j <= last,
        0 <= first <= last <= heights.len(),
        height == sum_heights(heights, first, last),
        height <= max,
        sum_heights(heights, idx, j) <= max,
        forall|i: int| 0 <= i < heights.len() ==> heights[i] <= max,
    ensures
        spec_scroll_up(heights, idx, first, last, height, max).1 >= j,
    decreases first,
{
    if idx < first && 0 < first <= heights.len() {
        lemma_sum_split_first(heights, first - 1, last);
        lemma_shrink_back_window(heights, first - 1, last, height + heights[first - 1], max);
        if first - 1 <= j {
            lemma_sum_mono(heights, idx, j, first - 1, j);
            lemma_shrink_back_keeps(heights, first - 1, last, height + heights[first - 1], max, j);
        }
        let (l2, h2) = spec_shrink_back(heights, last, height + heights[first - 1], max);
        lemma_scroll_up_keeps(heights, idx, first - 1, l2, h2, max, j);
    }
}

/// The padding that fits is at most the one asked for, and the items it
/// spans around `sel` fit in the area.
pub(crate) proof fn lemma_fit_padding(heights: Seq<usize>, sel: int, pad: int, max: int)
    requires
        0 <= sel < heights.len(),
        heights[sel] <= max,
    ensures
        0 <= spec_fit_padding(heights, sel, pad, max),
        pad >= 0 ==> spec_fit_padding(heights, sel, pad, max) <= pad,
        ({
            let p = spec_fit_padding(heights, sel, pad, max);
            let lo = if sel < p { 0 } else { sel - p };
            let hi = if sel + p < heights.len() - 1 { sel + p } else { heights.len() - 1 };
            sum_heights(heights, lo, hi + 1) <= max
        }),
    decreases pad,
{
    if pad <= 0 {
        assert(sum_heights(heights, sel, sel) == 0);
        assert(sum_heights(heights, sel, sel + 1) == heights[sel]);
    } else {
        let lo = if sel < pad { 0 } else { sel - pad };
        let hi = if sel + pad < heights.len() - 1 { sel + pad } else { heights.len() - 1 };
        if sum_heights(heights, lo, hi + 1) > max {
            lemma_fit_padding(heights, sel, pad - 1, max);
        }
    }
}

/// Whether applying scroll padding to `selected` stays within `usize`.
pub open spec fn padding_fits_usize(heights: Seq<usize>, selected: Option<usize>, pad: int, max: int) -> bool {
    match selected {
        None => true,
        Some(s) => {
            let lv = heights.len() - 1;
            let sel = if s <= lv { s as int } else { lv };
            sel + spec_fit_padding(heights, sel, pad, max) <= usize::MAX
        },
    }
}

fn window_height(heights: &Vec<usize>, lo: usize, hi: usize) -> (r: usize)
    requires
        lo <= hi < heights.len(),
        sum_heights(heights@, 0, heights.len() as int) <= usize::MAX,
    ensures
        r == sum_heights(heights@, lo as int, hi + 1),
{
    let mut acc: usize = 0;
    let mut i = lo;
    while i <= hi
        invariant
            lo <= i <= hi + 1,
            hi < heights.len(),
            acc == sum_heights(heights@, lo as int, i as int),
            sum_heights(heights@, 0, heights.len() as int) <= usize::MAX,
        decreases hi + 1 - i,
    {
        proof {
            lemma_sum_mono(heights@, 0, heights.len() as int, lo as int, i + 1);
        }
        acc = acc + heights[i];
        i = i + 1;
    }
    acc
}

fn apply_scroll_padding_to_selected_index(
    heights: &Vec<usize>,
    scroll_padding: usize,
    selected: Option<usize>,
    max_height: usize,
    first_visible_index: usize,
    last_visible_index: usize,
) -> (r: Option<usize>)
    requires
        heights.len() > 0,
        sum_heights(heights@, 0, heights.len() as int) <= usize::MAX,
        padding_fits_usize(heights@, selected, scroll_padding as int, max_height as int),
    ensures
        r matches Some(i) ==> i < heights.len(),
        r == (match spec_padded_index(
            heights@,
            selected,
            scroll_padding as int,
            max_height as int,
            first_visible_index as int,
            last_visible_index as int,
        ) {
            Some(i) => Some(i as usize),
            None => None,
        }),
{
    let last_valid_index = heights.len() - 1;
    let s = match selected {
        Some(s) => s,
        None => return None,
    };
    let selected = if s <= last_valid_index { s } else { last_valid_index };
    let ghost sel = selected as int;
    let ghost pad0 = scroll_padding as int;
    let mut scroll_padding = scroll_padding;
    while scroll_padding > 0
        invariant
            heights.len() > 0,
            last_valid_index == heights.len() - 1,
            selected <= last_valid_index,
            sel == selected as int,
            sum_heights(heights@, 0, heights.len() as int) <= usize::MAX,
            spec_fit_padding(heights@, sel, scroll_padding as int, max_height as int)
                == spec_fit_padding(heights@, sel, pad0, max_height as int),
        ensures
            spec_fit_padding(heights@, sel, scroll_padding as int, max_height as int)
                == spec_fit_padding(heights@, sel, pad0, max_height as int),
            spec_fit_padding(heights@, sel, scroll_padding as int, max_height as int)
                == scroll_padding,
        decreases scroll_padding,
    {
        let lo = selected.saturating_sub(scroll_padding);
        let up = selected.saturating_add(scroll_padding);
        let hi = if up <= last_valid_index { up } else { last_valid_index };
        let height_around_selected = window_height(heights, lo, hi);
        if height_around_selected <= max_height {
            break;
        }
        scroll_padding = scroll_padding - 1;
    }
    let up = selected.saturating_add(scroll_padding);
    let hi = if up <= last_valid_index { up } else { last_valid_index };
    let lo = selected.saturating_sub(scroll_padding);
    let r = if hi >= last_visible_index {
        selected + scroll_padding
    } else if lo < first_visible_index {
        lo
    } else {
        selected
    };
    Some(if r <= last_valid_index { r } else { last_valid_index })
}


/// The visible window `[first, last)` of the list, scrolled so that the
/// (padded) cursor is inside it.
fn get_items_bounds(
    heights: &Vec<usize>,
    scroll_padding: usize,
    selected: Option<usize>,
    offset: usize,
    max_height: usize,
) -> (r: (usize, usize))
    requires
        heights.len() > 0,
        sum_heights(heights@, 0, heights.len() as int) <= usize::MAX,
        padding_fits_usize(heights@, selected, scroll_padding as int, max_height as int),
    ensures
        r.0 <= r.1 <= heights.len(),
        (r.0 as int, r.1 as int) == spec_items_bounds(
            heights@,
            selected,
            offset as int,
            max_height as int,
            scroll_padding as int,
        ),
{
    let ghost h = heights@;
    let ghost total = sum_heights(h, 0, heights.len() as int);
    let len = heights.len();
    let offset = if offset <= len - 1 { offset } else { len - 1 };
    let mut first = offset;
    let mut last = offset;
    let mut height: usize = 0;
    let ghost fill = spec_fill(h, offset as int, 0, max_height as int);
    while last < len
        invariant
            len == heights.len(),
            h == heights@,
            total == sum_heights(h, 0, len as int),
            total <= usize::MAX,
            offset <= last <= len,
            height == sum_heights(h, offset as int, last as int),
            spec_fill(h, last as int, height as int, max_height as int) == fill,
        ensures
            offset <= last <= len,
            height == sum_heights(h, offset as int, last as int),
            (last as int, height as int) == fill,
        decreases len - last,
    {
        proof {
            lemma_sum_mono(h, 0, len as int, offset as int, last + 1);
        }
        if height + heights[last] > max_height {
            break;
        }
        height = height + heights[last];
        last = last + 1;
    }
    let padded = apply_scroll_padding_to_selected_index(
        heights,
        scroll_padding,
        selected,
        max_height,
        first,
        last,
    );
    let index_to_display = match padded {
        Some(i) => i,
        None => offset,
    };
    let ghost down = spec_scroll_down(
        h,
        index_to_display as int,
        first as int,
        last as int,
        height as int,
        max_height as int,
    );
    while index_to_display >= last
        invariant
            len == heights.len(),
            h == heights@,
            total == sum_heights(h, 0, len as int),
            total <= usize::MAX,
            index_to_display < len,
            first <= last <= len,
            height == sum_heights(h, first as int, last as int),
            spec_scroll_down(
                h,
                index_to_display as int,
                first as int,
                last as int,
                height as int,
                max_height as int,
            ) == down,
        decreases len - last,
    {
        proof {
            lemma_sum_mono(h, 0, len as int, first as int, last + 1);
        }
        height = height + heights[last];
        last = last + 1;
        let ghost shrunk = spec_shrink_front(h, first as int, height as int, max_height as int);
        while height > max_height
            invariant
                len == heights.len(),
                h == heights@,
                first <= last <= len,
                height == sum_heights(h, first as int, last as int),
                spec_shrink_front(h, first as int, height as int, max_height as int) == shrunk,
            decreases len - first,
        {
            proof {
                lemma_sum_split_first(h, first as int, last as int);
                lemma_sum_nonneg(h, first as int + 1, last as int);
            }
            height = height - heights[first];
            first = first + 1;
        }
    }
    let ghost up = spec_scroll_up(
        h,
        index_to_display as int,
        first as int,
        last as int,
        height as int,
        max_height as int,
    );
    while index_to_display < first
        invariant
            len == heights.len(),
            h == heights@,
            total == sum_heights(h, 0, len as int),
            total <= usize::MAX,
            first <= last <= len,
            height == sum_heights(h, first as int, last as int),
            spec_scroll_up(
                h,
                index_to_display as int,
                first as int,
                last as int,
                height as int,
                max_height as int,
            ) == up,
        decreases first,
    {
        proof {
            lemma_sum_split_first(h, first - 1, last as int);
            lemma_sum_mono(h, 0, len as int, first - 1, last as int);
        }
        first = first - 1;
        height = height + heights[first];
        let ghost shrunk = spec_shrink_back(h, last as int, height as int, max_height as int);
        while height > max_height
            invariant
                len == heights.len(),
                h == heights@,
                first <= last <= len,
                height == sum_heights(h, first as int, last as int),
                spec_shrink_back(h, last as int, height as int, max_height as int) == shrunk,
            decreases last,
        {
            proof {
                lemma_sum_nonneg(h, first as int, last - 1);
            }
            last = last - 1;
            height = height - heights[last];
        }
    }
    (first, last)
}


/// `index` clamped to the last valid index of a list of `len` items.
pub open spec fn spec_clamp_index(index: Option<usize>, len: nat) -> Option<usize> {
    match index {
        Some(i) => if i >= len { Some((len - 1) as usize) } else { Some(i) },
        None => None,
    }
}

/// Updates `state` the way drawing a list of items with the given heights into
/// an area of `list_height` rows does, and returns the visible window
/// `[first, last)` of item indices (`None` when nothing is drawn).
///
/// An empty area leaves the state untouched; an empty list clears the
/// selection; otherwise the cursor and the anchor are clamped to the last item
/// and the offset is moved to the first visible item.
pub fn layout_range_list(
    state: &mut RangeListState,
    heights: &Vec<usize>,
    area_is_empty: bool,
    list_height: usize,
    scroll_padding: usize,
) -> (r: Option<(usize, usize)>)
    requires
        sum_heights(heights@, 0, heights.len() as int) <= usize::MAX,
        heights.len() > 0 ==> padding_fits_usize(
            heights@,
            old(state)@.selected,
            scroll_padding as int,
            list_height as int,
        ),
    ensures
        area_is_empty ==> r is None && final(state)@ == old(state)@,
        !area_is_empty && heights.len() == 0 ==> r is None && final(state)@ == (RangeListView {
            offset: 0,
            selected: None,
            anchor: old(state)@.anchor,
        }),
        !area_is_empty && heights.len() > 0 ==> {
            let sel = spec_clamp_index(old(state)@.selected, heights.len() as nat);
            let b = spec_items_bounds(
                heights@,
                sel,
                old(state)@.offset as int,
                list_height as int,
                scroll_padding as int,
            );
            &&& r matches Some((first, last))
            &&& first as int == b.0 && last as int == b.1
            &&& first <= last <= heights.len()
            &&& final(state)@ == (RangeListView {
                offset: first,
                selected: sel,
                anchor: spec_clamp_index(old(state)@.anchor, heights.len() as nat),
            })
        },
{
    if area_is_empty {
        return None;
    }
    let len = heights.len();
    if len == 0 {
        state.select(None);
        return None;
    }
    match state.selected {
        Some(s) => {
            if s >= len {
                state.select(Some(len - 1));
            }
        },
        None => {},
    }
    match state.selection_anchor {
        Some(a) => {
            if a >= len {
                state.selection_anchor = Some(len - 1);
            }
        },
        None => {},
    }
    let (first, last) = get_items_bounds(
        heights,
        scroll_padding,
        state.selected,
        state.offset,
        list_height,
    );
    state.offset = first;
    Some((first, last))
}

} // verus!
