//! Properties that relate several operations of the library, or hold of
//! every input of one.

use vstd::prelude::*;

use crate::ansi::{spec_apply_sgr, spec_parse_from, spec_strip_from, ESC};
use crate::style::Style;
use crate::text::{lemma_find_bounds, spec_find};
use crate::jj_log::log_view;
use crate::models::change_id::{is_change_id_text, ChangeId};
use crate::models::hunk::HunkId;
use crate::models::pr::{DiffHunk, DiffLine, DiffLineType, FileDiff};
use crate::screens::commit_log::{spec_next_commit_line, spec_prev_commit_line};
use crate::screens::review::diff_panel::{
    on_new_side, on_old_side, spec_hunk_id_computable, spec_hunks_scan, spec_lines_scan,
    spec_panel_selection, spec_selected_hunk_id, SelectionScan,
};
use crate::screens::diff_panel::{
    spec_total_lines, empty_scan, spec_hunk_header_line, spec_hunk_id, spec_hunk_scan, spec_ids_computable,
    spec_scan, LineScan,
};
use crate::services::diff::{
    lemma_advance_bounds, opt_view, spec_apply_change_ranges, spec_pieces, spec_plain_tokens,
    spec_split_tokens, spec_token_bytes, HunkData, HunkLine, LineOrigin, Token,
};
use crate::services::review::{
    spec_changed_lines, spec_line_bytes, spec_lines_bytes, spec_patch_bytes, spec_patch_lines,
};
use crate::services::word_diff::{old_total, new_total, spec_inline_ranges, WordChangeTag};
use crate::text::{spec_is_whitespace, spec_trim_end};
use crate::color::{hex_value, is_hex_digit, spec_css_hex_to_color, spec_hex_byte};
use crate::keys::{KeyCode, KeyEvent};
use crate::services::highlight::{spec_hex2, spec_hex_digit};
use crate::style::Color;
use crate::widgets::range_list::{
    lemma_fill_stops, lemma_fill_window, lemma_fit_padding, lemma_scroll_down_keeps,
    lemma_scroll_down_window, lemma_scroll_up_keeps, lemma_scroll_up_window, lemma_sum_mono,
    spec_clamp_index,
    spec_fill, spec_fit_padding, spec_items_bounds, spec_padded_index, spec_scroll_down,
    spec_selection_range, spec_toggle, sum_heights, RangeListView,
};
use crate::widgets::text_input::{spec_key_step, TextInputView};
use crate::widgets::diff_view::{spec_hunk_display, spec_line_spans};
use crate::widgets::file_list::spec_status_mark;
use crate::models::pr::FileChangeStatus;
use crate::services::diff::{spec_block_state, spec_blocks};
use crate::services::jj::{log_description, log_summary};
use crate::text::spec_trim_start;

verus! {

/// Stripping escape sequences leaves text without an escape character as it
/// is.
pub proof fn law_strip_plain_text_unchanged(s: Seq<char>)
    requires
        !s.contains(ESC),
    ensures
        spec_strip_from(s, 0) == s,
{
    lemma_strip_plain_from(s, 0);
    assert(s.subrange(0, s.len() as int) =~= s);
}

proof fn lemma_strip_plain_from(s: Seq<char>, pos: int)
    requires
        !s.contains(ESC),
        0 <= pos <= s.len(),
    ensures
        spec_strip_from(s, pos) == s.subrange(pos, s.len() as int),
    decreases s.len() - pos,
{
    if pos < s.len() {
        assert(s[pos] != ESC) by {
            if s[pos] == ESC {
                assert(s.contains(ESC));
            }
        }
        lemma_strip_plain_from(s, pos + 1);
        assert(s.subrange(pos, s.len() as int) =~= seq![s[pos]] + s.subrange(
            pos + 1,
            s.len() as int,
        ));
    } else {
        assert(s.subrange(pos, s.len() as int) =~= Seq::<char>::empty());
    }
}

/// Whether every escape character of `s` starts a complete color sequence
/// `ESC [ ... m`.
pub open spec fn sgr_well_formed(s: Seq<char>) -> bool {
    forall|p: int|
        0 <= p < s.len() && #[trigger] s[p] == ESC ==> p + 1 < s.len() && s[p + 1] == '['
            && spec_find(s, p + 2, 'm') < s.len()
}

/// The text of a list of styled runs, joined.
pub open spec fn spec_runs_text(runs: Seq<(Seq<char>, Style)>) -> Seq<char>
    decreases runs.len(),
{
    if runs.len() == 0 {
        Seq::empty()
    } else {
        spec_runs_text(runs.drop_last()) + runs.last().0
    }
}

proof fn lemma_runs_text_append(a: Seq<(Seq<char>, Style)>, b: Seq<(Seq<char>, Style)>)
    ensures
        spec_runs_text(a + b) == spec_runs_text(a) + spec_runs_text(b),
    decreases b.len(),
{
    if b.len() == 0 {
        assert(a + b =~= a);
    } else {
        lemma_runs_text_append(a, b.drop_last());
        assert((a + b).drop_last() =~= a + b.drop_last());
    }
}

/// Stripping text without escape characters from `pos` to `q` keeps it.
proof fn lemma_strip_until(s: Seq<char>, pos: int, q: int)
    requires
        0 <= pos <= q <= s.len(),
        forall|k: int| pos <= k < q ==> s[k] != ESC,
    ensures
        spec_strip_from(s, pos) == s.subrange(pos, q) + spec_strip_from(s, q),
    decreases q - pos,
{
    if pos < q {
        lemma_strip_until(s, pos + 1, q);
        assert(s.subrange(pos, q) =~= seq![s[pos]] + s.subrange(pos + 1, q));
    } else {
        assert(s.subrange(pos, q) =~= Seq::<char>::empty());
    }
}

proof fn lemma_parse_text_is_strip(s: Seq<char>, pos: int, style: Style)
    requires
        sgr_well_formed(s),
        0 <= pos,
    ensures
        spec_runs_text(spec_parse_from(s, pos, style)) == spec_strip_from(s, pos),
    decreases s.len() - pos,
{
    if pos < s.len() {
        let esc = spec_find(s, pos, ESC);
        lemma_find_bounds(s, pos, ESC);
        if esc >= s.len() {
            lemma_strip_until(s, pos, s.len() as int);
            let one = seq![(s.subrange(pos, s.len() as int), style)];
            assert(one.drop_last() =~= Seq::<(Seq<char>, Style)>::empty());
            assert(spec_runs_text(one.drop_last()) =~= Seq::<char>::empty());
            assert(spec_runs_text(one) =~= s.subrange(pos, s.len() as int));
            assert(s.subrange(pos, s.len() as int) + spec_strip_from(s, s.len() as int) =~= s.subrange(
                pos,
                s.len() as int,
            ));
        } else {
            assert(s[esc] == ESC);
            let m = spec_find(s, esc + 2, 'm');
            lemma_find_bounds(s, esc + 2, 'm');
            let pre = if esc > pos {
                seq![(s.subrange(pos, esc), style)]
            } else {
                Seq::<(Seq<char>, Style)>::empty()
            };
            let rest = spec_parse_from(s, m + 1, spec_apply_sgr(style, s.subrange(esc + 2, m)));
            assert(spec_parse_from(s, pos, style) == pre + rest);
            lemma_parse_text_is_strip(s, m + 1, spec_apply_sgr(style, s.subrange(esc + 2, m)));
            lemma_runs_text_append(pre, rest);
            if esc > pos {
                assert(pre.drop_last() =~= Seq::<(Seq<char>, Style)>::empty());
                assert(spec_runs_text(pre.drop_last()) =~= Seq::<char>::empty());
            } else {
                assert(spec_runs_text(pre) =~= Seq::<char>::empty());
            }
            assert(spec_runs_text(pre) =~= s.subrange(pos, esc));
            lemma_strip_until(s, pos, esc);
        }
    }
}

/// A colored line whose escape characters all start color sequences shows
/// the same text as the line with its escape sequences stripped.
pub proof fn law_parsed_text_is_stripped_text(s: Seq<char>, style: Style)
    requires
        sgr_well_formed(s),
    ensures
        spec_runs_text(spec_parse_from(s, 0, style)) == spec_strip_from(s, 0),
{
    lemma_parse_text_is_strip(s, 0, style);
}

proof fn lemma_parse_spans_nonempty(s: Seq<char>, pos: int, style: Style)
    requires
        0 <= pos,
    ensures
        forall|i: int|
            0 <= i < spec_parse_from(s, pos, style).len() ==> (#[trigger] spec_parse_from(
                s,
                pos,
                style,
            )[i]).0.len() > 0,
    decreases s.len() - pos,
{
    if pos < s.len() {
        let esc = spec_find(s, pos, ESC);
        lemma_find_bounds(s, pos, ESC);
        if esc < s.len() {
            let pre = if esc > pos {
                seq![(s.subrange(pos, esc), style)]
            } else {
                Seq::<(Seq<char>, Style)>::empty()
            };
            if esc + 1 < s.len() && s[esc + 1] == '[' {
                let m = spec_find(s, esc + 2, 'm');
                lemma_find_bounds(s, esc + 2, 'm');
                if m < s.len() {
                    let st = spec_apply_sgr(style, s.subrange(esc + 2, m));
                    lemma_parse_spans_nonempty(s, m + 1, st);
                    let rest = spec_parse_from(s, m + 1, st);
                    assert(spec_parse_from(s, pos, style) == pre + rest);
                    assert forall|i: int| 0 <= i < (pre + rest).len() implies (#[trigger] (pre
                        + rest)[i]).0.len() > 0 by {
                        if i >= pre.len() {
                            assert((pre + rest)[i] == rest[i - pre.len()]);
                        }
                    }
                } else {
                    lemma_parse_spans_nonempty(s, esc + 1, style);
                    let rest = spec_parse_from(s, esc + 1, style);
                    assert(spec_parse_from(s, pos, style) == pre + rest);
                    assert forall|i: int| 0 <= i < (pre + rest).len() implies (#[trigger] (pre
                        + rest)[i]).0.len() > 0 by {
                        if i >= pre.len() {
                            assert((pre + rest)[i] == rest[i - pre.len()]);
                        }
                    }
                }
            } else {
                lemma_parse_spans_nonempty(s, esc + 1, style);
                let rest = spec_parse_from(s, esc + 1, style);
                assert(spec_parse_from(s, pos, style) == pre + rest);
                assert forall|i: int| 0 <= i < (pre + rest).len() implies (#[trigger] (pre
                    + rest)[i]).0.len() > 0 by {
                    if i >= pre.len() {
                        assert((pre + rest)[i] == rest[i - pre.len()]);
                    }
                }
            }
        }
    }
}

/// No run of a parsed colored line is empty.
pub proof fn law_parsed_spans_nonempty(s: Seq<char>, style: Style)
    ensures
        forall|i: int|
            0 <= i < spec_parse_from(s, 0, style).len() ==> (#[trigger] spec_parse_from(
                s,
                0,
                style,
            )[i]).0.len() > 0,
{
    lemma_parse_spans_nonempty(s, 0, style);
}

/// A selection range runs from its smaller to its larger end, which are the
/// anchor and the cursor.
pub proof fn law_selection_range_ordered(v: RangeListView)
    ensures
        spec_selection_range(v) matches Some((a, b)) ==> a <= b && v.anchor is Some
            && v.selected is Some && ((a == v.anchor->0 && b == v.selected->0) || (a
            == v.selected->0 && b == v.anchor->0)),
        spec_selection_range(v) is None <==> (v.anchor is None || v.selected is None),
{
}

/// Drawing a non-empty list corrects a cursor or anchor past its end (left
/// there by moving to the last item or scrolling) to its last item, and keeps
/// one inside it.
pub proof fn law_layout_clamps_index(i: usize, len: nat)
    requires
        len > 0,
    ensures
        spec_clamp_index(Some(i), len) matches Some(j) && j < len,
        i < len ==> spec_clamp_index(Some(i), len) == Some(i),
        i >= len ==> spec_clamp_index(Some(i), len) == Some((len - 1) as usize),
{
}

/// Drawing a list whose items are each no taller than the area keeps the
/// selected item in view, whatever the scroll padding (it shrinks until the
/// padded items fit) and wherever the list was scrolled before.
pub proof fn law_layout_shows_selected(
    heights: Seq<usize>,
    s: usize,
    offset: int,
    max: int,
    pad: int,
)
    requires
        s < heights.len(),
        0 <= offset,
        0 <= pad,
        forall|i: int| 0 <= i < heights.len() ==> heights[i] <= max,
    ensures
        spec_items_bounds(heights, Some(s), offset, max, pad).0 <= s < spec_items_bounds(
            heights,
            Some(s),
            offset,
            max,
            pad,
        ).1,
{
    let n = heights.len() as int;
    let lv = n - 1;
    let sel = s as int;
    let off = if offset <= lv { offset } else { lv };
    assert(sum_heights(heights, off, off) == 0);
    assert(heights[0] <= max);
    lemma_fill_window(heights, off, off, 0, max);
    lemma_fill_stops(heights, off, 0, max);
    let (last0, height0) = spec_fill(heights, off, 0, max);
    lemma_fit_padding(heights, sel, pad, max);
    let p = spec_fit_padding(heights, sel, pad, max);
    let lo = if sel < p { 0 } else { sel - p };
    let hi = if sel + p <= lv { sel + p } else { lv };
    assert(sum_heights(heights, lo, hi + 1) <= max);
    if hi >= last0 {
        assert(spec_padded_index(heights, Some(s), pad, max, off, last0) == Some(hi));
        if off > sel {
            lemma_sum_mono(heights, lo, hi + 1, off, last0 + 1);
            assert(sum_heights(heights, off, last0 + 1) == height0 + heights[last0]);
            assert(false);
        }
        let a = if off <= lo { lo } else { off };
        lemma_sum_mono(heights, lo, hi + 1, a, hi + 1);
        lemma_scroll_down_keeps(heights, hi, off, last0, height0, max, a);
        lemma_scroll_down_window(heights, hi, off, last0, height0, max);
        let (f1, l1, h1) = spec_scroll_down(heights, hi, off, last0, height0, max);
        lemma_scroll_up_window(heights, hi, f1, l1, h1, max);
    } else if lo < off {
        assert(spec_padded_index(heights, Some(s), pad, max, off, last0) == Some(lo));
        lemma_scroll_down_window(heights, lo, off, last0, height0, max);
        lemma_scroll_up_window(heights, lo, off, last0, height0, max);
        lemma_scroll_up_keeps(heights, lo, off, last0, height0, max, hi + 1);
    } else {
        assert(spec_padded_index(heights, Some(s), pad, max, off, last0) == Some(sel));
        lemma_scroll_down_window(heights, sel, off, last0, height0, max);
        lemma_scroll_up_window(heights, sel, off, last0, height0, max);
    }
}

/// The items drawn fit in the area: under the conditions of
/// `law_layout_shows_selected`, the window lies within the list and its
/// items are no taller than the area.
pub proof fn law_layout_window_fits(
    heights: Seq<usize>,
    s: usize,
    offset: int,
    max: int,
    pad: int,
)
    requires
        s < heights.len(),
        0 <= offset,
        0 <= pad,
        forall|i: int| 0 <= i < heights.len() ==> heights[i] <= max,
    ensures
        sum_heights(
            heights,
            spec_items_bounds(heights, Some(s), offset, max, pad).0,
            spec_items_bounds(heights, Some(s), offset, max, pad).1,
        ) <= max,
        0 <= spec_items_bounds(heights, Some(s), offset, max, pad).0 <= spec_items_bounds(
            heights,
            Some(s),
            offset,
            max,
            pad,
        ).1 <= heights.len(),
{
    let lv = heights.len() - 1;
    let off = if offset <= lv { offset } else { lv };
    assert(sum_heights(heights, off, off) == 0);
    assert(heights[0] <= max);
    lemma_fill_window(heights, off, off, 0, max);
    let (last0, height0) = spec_fill(heights, off, 0, max);
    lemma_fit_padding(heights, s as int, pad, max);
    let idx = spec_padded_index(heights, Some(s), pad, max, off, last0)->0;
    assert(0 <= idx <= lv);
    lemma_scroll_down_window(heights, idx, off, last0, height0, max);
    let (f1, l1, h1) = spec_scroll_down(heights, idx, off, last0, height0, max);
    lemma_scroll_up_window(heights, idx, f1, l1, h1, max);
}

proof fn lemma_sum_unit_heights(heights: Seq<usize>, a: int, b: int)
    requires
        0 <= a <= b <= heights.len(),
        forall|i: int| 0 <= i < heights.len() ==> heights[i] == 1,
    ensures
        sum_heights(heights, a, b) == b - a,
    decreases b - a,
{
    if a < b {
        lemma_sum_unit_heights(heights, a, b - 1);
    }
}

/// A list of one-row items drawn `max` rows high, with any scroll padding:
/// the drawing starts at the (new) offset, shows at most `max` items, and the
/// selected row is among them, so `offset <= selected < offset + max`.
pub proof fn law_layout_unit_rows_show_selected(
    heights: Seq<usize>,
    s: usize,
    offset: int,
    max: int,
    pad: int,
)
    requires
        s < heights.len(),
        0 <= offset,
        0 <= pad,
        max >= 1,
        forall|i: int| 0 <= i < heights.len() ==> heights[i] == 1,
    ensures
        spec_items_bounds(heights, Some(s), offset, max, pad).0 <= s,
        s < spec_items_bounds(heights, Some(s), offset, max, pad).0 + max,
        spec_items_bounds(heights, Some(s), offset, max, pad).1 - spec_items_bounds(
            heights,
            Some(s),
            offset,
            max,
            pad,
        ).0 <= max,
{
    law_layout_shows_selected(heights, s, offset, max, pad);
    law_layout_window_fits(heights, s, offset, max, pad);
    let b = spec_items_bounds(heights, Some(s), offset, max, pad);
    lemma_sum_unit_heights(heights, b.0, b.1);
}

/// Toggling the selection twice, starting with none, changes nothing.
pub proof fn law_toggle_twice_restores(v: RangeListView)
    requires
        v.anchor is None,
    ensures
        spec_toggle(spec_toggle(v)) == v,
{
}

/// Typing a character and then Backspace gives back the text and the
/// cursor.
pub proof fn law_type_then_backspace(v: TextInputView, ch: char)
    requires
        v.cursor <= v.content.len(),
    ensures
        spec_key_step(
            spec_key_step(v, KeyEvent { code: KeyCode::Char(ch), ctrl: false }),
            KeyEvent { code: KeyCode::Backspace, ctrl: false },
        ) == v,
{
    let k = v.cursor as int;
    let t = spec_key_step(v, KeyEvent { code: KeyCode::Char(ch), ctrl: false });
    assert(t.content == v.content.insert(k, ch));
    assert(t.content.remove(k) =~= v.content);
}

/// Home moves the cursor to the start and End to the end, whatever the text.
pub proof fn law_home_end(v: TextInputView)
    ensures
        spec_key_step(v, KeyEvent { code: KeyCode::Home, ctrl: false }).cursor == 0,
        spec_key_step(v, KeyEvent { code: KeyCode::End, ctrl: false }).cursor == v.content.len(),
        spec_key_step(v, KeyEvent { code: KeyCode::Home, ctrl: false }).content == v.content,
        spec_key_step(v, KeyEvent { code: KeyCode::End, ctrl: false }).content == v.content,
{
}

proof fn lemma_hex_digit_read(d: u8)
    requires
        d < 16,
    ensures
        is_hex_digit(spec_hex_digit(d)),
        hex_value(spec_hex_digit(d)) == d,
        spec_hex_digit(d) != '+',
        (spec_hex_digit(d) as u32) < 0x80,
{
}

/// Reading back the CSS hex color written for a red, green and blue value
/// gives that color.
pub proof fn law_hex_color_round_trip(r: u8, g: u8, b: u8)
    ensures
        spec_css_hex_to_color(seq!['#'] + spec_hex2(r) + spec_hex2(g) + spec_hex2(b)) == Some(
            Color::Rgb(r, g, b),
        ),
{
    let s = seq!['#'] + spec_hex2(r) + spec_hex2(g) + spec_hex2(b);
    lemma_hex_byte_round_trip(r);
    lemma_hex_byte_round_trip(g);
    lemma_hex_byte_round_trip(b);
    assert(s[1] == spec_hex_digit(r / 16) && s[2] == spec_hex_digit(r % 16));
    assert(s[3] == spec_hex_digit(g / 16) && s[4] == spec_hex_digit(g % 16));
    assert(s[5] == spec_hex_digit(b / 16) && s[6] == spec_hex_digit(b % 16));
    assert(s.len() == 7);
    assert forall|i: int| 1 <= i < 7 implies (s[i] as u32) < 0x80 by {
        lemma_hex_digit_read(r / 16);
        lemma_hex_digit_read(r % 16);
        lemma_hex_digit_read(g / 16);
        lemma_hex_digit_read(g % 16);
        lemma_hex_digit_read(b / 16);
        lemma_hex_digit_read(b % 16);
    }
}

proof fn lemma_hex_byte_round_trip(x: u8)
    ensures
        spec_hex_byte(spec_hex_digit(x / 16), spec_hex_digit(x % 16)) == Some(x),
{
    lemma_hex_digit_read(x / 16);
    lemma_hex_digit_read(x % 16);
    assert((x / 16) * 16 + x % 16 == x) by (nonlinear_arith);
}

/// Moving to the next (or previous) commit lands on a header line after (or
/// before) the current line.
pub proof fn law_commit_steps_land_on_headers(lines: Seq<usize>, current: usize)
    ensures
        spec_next_commit_line(lines, current) matches Some(l) ==> lines.contains(l) && l > current,
        spec_prev_commit_line(lines, current) matches Some(l) ==> lines.contains(l) && l < current,
    decreases lines.len(),
{
    if lines.len() > 0 {
        law_commit_steps_land_on_headers(lines.drop_first(), current);
        law_commit_steps_land_on_headers(lines.drop_last(), current);
        if let Some(l) = spec_next_commit_line(lines, current) {
            if lines[0] <= current {
                let k = choose|k: int| 0 <= k < lines.drop_first().len() && lines.drop_first()[k] == l;
                assert(lines[k + 1] == l);
            } else {
                assert(lines[0] == l);
            }
        }
        if let Some(l) = spec_prev_commit_line(lines, current) {
            if lines.last() >= current {
                let k = choose|k: int| 0 <= k < lines.drop_last().len() && lines.drop_last()[k] == l;
                assert(lines[k] == l);
            } else {
                assert(lines[lines.len() - 1] == l);
            }
        }
    }
}

/// On the increasing header lines of a log, moving to the next commit line
/// from one of them and then back to the previous one returns to it.
pub proof fn law_next_then_prev_commit(lines: Seq<usize>, i: int)
    requires
        forall|a: int, b: int| 0 <= a < b < lines.len() ==> lines[a] < lines[b],
        0 <= i,
        i + 1 < lines.len(),
    ensures
        spec_next_commit_line(lines, lines[i]) == Some(lines[i + 1]),
        spec_prev_commit_line(lines, lines[i + 1]) == Some(lines[i]),
{
    lemma_next_line(lines, i);
    lemma_prev_line(lines, i);
}

proof fn lemma_next_line(lines: Seq<usize>, i: int)
    requires
        forall|a: int, b: int| 0 <= a < b < lines.len() ==> lines[a] < lines[b],
        0 <= i,
        i + 1 < lines.len(),
    ensures
        spec_next_commit_line(lines, lines[i]) == Some(lines[i + 1]),
    decreases i,
{
    if i > 0 {
        let rest = lines.drop_first();
        assert forall|a: int, b: int| 0 <= a < b < rest.len() implies rest[a] < rest[b] by {
            assert(rest[a] == lines[a + 1] && rest[b] == lines[b + 1]);
        }
        lemma_next_line(rest, i - 1);
        assert(rest[i - 1] == lines[i] && rest[i] == lines[i + 1]);
        assert(lines[0] < lines[i]);
    } else {
        let rest = lines.drop_first();
        assert(rest[0] == lines[1]);
        assert(lines[0] < lines[1]);
        assert(spec_next_commit_line(rest, lines[0]) == Some(lines[1]));
    }
}

proof fn lemma_prev_line(lines: Seq<usize>, i: int)
    requires
        forall|a: int, b: int| 0 <= a < b < lines.len() ==> lines[a] < lines[b],
        0 <= i,
        i + 1 < lines.len(),
    ensures
        spec_prev_commit_line(lines, lines[i + 1]) == Some(lines[i]),
    decreases lines.len(),
{
    if i + 2 < lines.len() {
        let head = lines.drop_last();
        assert forall|a: int, b: int| 0 <= a < b < head.len() implies head[a] < head[b] by {
            assert(head[a] == lines[a] && head[b] == lines[b]);
        }
        lemma_prev_line(head, i);
        assert(head[i + 1] == lines[i + 1] && head[i] == lines[i]);
        assert(lines.last() > lines[i + 1]);
    } else {
        let head = lines.drop_last();
        assert(head.last() == lines[i]);
        assert(lines[i] < lines[i + 1]);
        assert(spec_prev_commit_line(head, lines[i + 1]) == Some(lines[i]));
    }
}

/// The header lines of a log come in increasing order, each the index of a
/// shown line, so that `law_next_then_prev_commit` holds of them.
pub proof fn law_log_commit_lines_increasing(ls: Seq<Seq<char>>)
    ensures
        forall|a: int, b: int|
            0 <= a < b < log_view(ls).1.len() ==> log_view(ls).1[a] < log_view(ls).1[b],
        forall|a: int|
            0 <= a < log_view(ls).1.len() ==> 0 <= #[trigger] log_view(ls).1[a] < log_view(
                ls,
            ).0.len(),
    decreases ls.len(),
{
    if ls.len() > 0 {
        let prev = log_view(ls.drop_last());
        let v = log_view(ls);
        law_log_commit_lines_increasing(ls.drop_last());
        assert(v.1.len() == prev.1.len() || v.1 == prev.1.push(prev.0.len() as int));
        assert(v.0.len() >= prev.0.len());
        if v.1 != prev.1 {
            assert forall|a: int, b: int| 0 <= a < b < v.1.len() implies v.1[a] < v.1[b] by {
                if b == prev.1.len() {
                    assert(prev.1[a] < prev.0.len());
                } else {
                    assert(v.1[a] == prev.1[a] && v.1[b] == prev.1[b]);
                }
            }
            assert forall|a: int| 0 <= a < v.1.len() implies 0 <= #[trigger] v.1[a] < v.0.len() by {
                if a < prev.1.len() {
                    assert(v.1[a] == prev.1[a]);
                }
            }
        }
    }
}

/// The text of a change id read from a string is that string, so printing
/// it gives the string back.
pub proof fn law_change_id_text_round_trip(value: &str, id: ChangeId)
    requires
        id@ == vstd::utf8::encode_utf8(value@),
    ensures
        id.spec_text() == value@,
        is_change_id_text(value@) <==> id@.len() == 32,
{
    vstd::utf8::encode_utf8_decode_utf8(value@);
}

/// The word changes' deleted ranges lie in order inside the old text they
/// cover, and the inserted ranges inside the new text.
pub proof fn law_inline_ranges_in_order(changes: Seq<(WordChangeTag, usize)>)
    ensures
        ({
            let (o, n) = spec_inline_ranges(changes);
            &&& forall|i: int|
                0 <= i < o.len() ==> 0 <= (#[trigger] o[i]).0 <= o[i].1 <= old_total(changes)
            &&& forall|i: int|
                0 <= i < n.len() ==> 0 <= (#[trigger] n[i]).0 <= n[i].1 <= new_total(changes)
            &&& forall|i: int| 0 <= i < o.len() - 1 ==> (#[trigger] o[i]).1 <= o[i + 1].0
            &&& forall|i: int| 0 <= i < n.len() - 1 ==> (#[trigger] n[i]).1 <= n[i + 1].0
        }),
    decreases changes.len(),
{
    if changes.len() > 0 {
        let prev = changes.drop_last();
        law_inline_ranges_in_order(prev);
        let (po, pn) = spec_inline_ranges(prev);
        let (o, n) = spec_inline_ranges(changes);
        let (tag, len) = changes.last();
        assert(old_total(changes) >= old_total(prev));
        assert(new_total(changes) >= new_total(prev));
        match tag {
            WordChangeTag::Delete => {
                assert(o == po.push((old_total(prev) as int, old_total(prev) + len)));
                assert(n == pn);
                assert forall|i: int| 0 <= i < o.len() - 1 implies (#[trigger] o[i]).1 <= o[i + 1].0 by {
                    if i + 1 < po.len() {
                        assert(o[i] == po[i] && o[i + 1] == po[i + 1]);
                    } else {
                        assert(o[i] == po[i]);
                    }
                }
            },
            WordChangeTag::Insert => {
                assert(n == pn.push((new_total(prev) as int, new_total(prev) + len)));
                assert(o == po);
                assert forall|i: int| 0 <= i < n.len() - 1 implies (#[trigger] n[i]).1 <= n[i + 1].0 by {
                    if i + 1 < pn.len() {
                        assert(n[i] == pn[i] && n[i + 1] == pn[i + 1]);
                    } else {
                        assert(n[i] == pn[i]);
                    }
                }
            },
            WordChangeTag::Equal => {
                assert(o == po && n == pn);
            },
        }
    }
}

/// Context lines add nothing to the hashed text of a patch.
pub proof fn law_patch_id_ignores_context(lines: Seq<HunkLine>, l: HunkLine)
    requires
        l.origin == LineOrigin::Context,
    ensures
        spec_lines_bytes(lines.push(l)) == spec_lines_bytes(lines),
{
    assert(lines.push(l).drop_last() =~= lines);
    assert(spec_line_bytes(l) =~= Seq::<u8>::empty());
}

/// Trailing white space of a line does not change what it adds to the
/// hashed text of a patch.
pub proof fn law_patch_id_ignores_trailing_whitespace(l: HunkLine, m: HunkLine, ws: Seq<char>)
    requires
        m.origin == l.origin,
        m.content@ == l.content@ + ws,
        forall|i: int| 0 <= i < ws.len() ==> spec_is_whitespace(#[trigger] ws[i]),
    ensures
        spec_line_bytes(m) == spec_line_bytes(l),
{
    let c = l.content@;
    lemma_trim_end_appended(c, ws);
    assert(m.content@.subrange(0, spec_trim_end(m.content@, 0, m.content@.len() as int))
        =~= c.subrange(0, spec_trim_end(c, 0, c.len() as int))) by {
        let e = spec_trim_end(c, 0, c.len() as int);
        crate::text::lemma_trim_bounds(c, 0, c.len() as int);
        assert forall|k: int| 0 <= k < e implies m.content@[k] == c[k] by {}
    }
}

/// Two lists of lines with the same signs and texts give the same hashed
/// text, whatever their line numbers.
proof fn lemma_lines_bytes_same_text(a: Seq<HunkLine>, b: Seq<HunkLine>)
    requires
        a.len() == b.len(),
        forall|j: int|
            0 <= j < a.len() ==> (#[trigger] a[j]).origin == b[j].origin && a[j].content@
                == b[j].content@,
    ensures
        spec_lines_bytes(a) == spec_lines_bytes(b),
    decreases a.len(),
{
    if a.len() > 0 {
        lemma_lines_bytes_same_text(a.drop_last(), b.drop_last());
        assert(a.last().origin == b.last().origin);
    }
}

/// The patch id depends only on the signs and texts of the changed lines:
/// where the hunks start, how many lines they span and the line numbers do
/// not count, so a change keeps its id when it moves within the file.
pub proof fn law_patch_id_ignores_positions(a: Seq<HunkData>, b: Seq<HunkData>)
    requires
        a.len() == b.len(),
        forall|i: int| 0 <= i < a.len() ==> (#[trigger] a[i]).lines@.len() == b[i].lines@.len(),
        forall|i: int, j: int|
            0 <= i < a.len() && 0 <= j < a[i].lines@.len() ==> (#[trigger] a[i].lines@[j]).origin
                == b[i].lines@[j].origin && a[i].lines@[j].content@ == b[i].lines@[j].content@,
    ensures
        spec_patch_bytes(a) == spec_patch_bytes(b),
    decreases a.len(),
{
    if a.len() > 0 {
        let n = a.len() - 1;
        assert forall|i: int| 0 <= i < a.drop_last().len() implies (#[trigger] a.drop_last()[i]).lines@.len()
            == b.drop_last()[i].lines@.len() by {
            assert(a.drop_last()[i] == a[i]);
        }
        assert forall|i: int, j: int|
            0 <= i < a.drop_last().len() && 0 <= j < a.drop_last()[i].lines@.len() implies (
            #[trigger] a.drop_last()[i].lines@[j]).origin == b.drop_last()[i].lines@[j].origin
                && a.drop_last()[i].lines@[j].content@ == b.drop_last()[i].lines@[j].content@ by {
            assert(a.drop_last()[i] == a[i]);
            assert(b.drop_last()[i] == b[i]);
            assert(a[i].lines@[j].origin == b[i].lines@[j].origin);
        }
        law_patch_id_ignores_positions(a.drop_last(), b.drop_last());
        assert forall|j: int| 0 <= j < a[n].lines@.len() implies (#[trigger] a[n].lines@[j]).origin
            == b[n].lines@[j].origin && a[n].lines@[j].content@ == b[n].lines@[j].content@ by {
            assert(a[n].lines@[j].origin == b[n].lines@[j].origin);
        }
        lemma_lines_bytes_same_text(a[n].lines@, b[n].lines@);
    }
}

/// The hashed text of a list of changed lines, each as its sign, text and
/// a newline.
pub open spec fn spec_changed_bytes(c: Seq<(LineOrigin, Seq<char>)>) -> Seq<u8>
    decreases c.len(),
{
    if c.len() == 0 {
        Seq::empty()
    } else {
        let x = c.last();
        spec_changed_bytes(c.drop_last()) + seq![
            if x.0 == LineOrigin::Addition {
                '+' as u8
            } else {
                '-' as u8
            },
        ] + vstd::utf8::encode_utf8(x.1) + seq!['\n' as u8]
    }
}

proof fn lemma_lines_bytes_changed(l: Seq<HunkLine>)
    ensures
        spec_lines_bytes(l) == spec_changed_bytes(spec_changed_lines(l)),
    decreases l.len(),
{
    if l.len() > 0 {
        lemma_lines_bytes_changed(l.drop_last());
        let x = l.last();
        if x.origin == LineOrigin::Addition || x.origin == LineOrigin::Deletion {
            let c = spec_changed_lines(l.drop_last());
            let item = (x.origin, crate::services::review::spec_trimmed_end(x.content@));
            assert(c.push(item).drop_last() =~= c);
            assert(spec_changed_bytes(c.push(item)) == spec_changed_bytes(c) + spec_line_bytes(x));
        }
    }
}

proof fn lemma_lines_bytes_append(a: Seq<HunkLine>, b: Seq<HunkLine>)
    ensures
        spec_lines_bytes(a + b) == spec_lines_bytes(a) + spec_lines_bytes(b),
    decreases b.len(),
{
    if b.len() == 0 {
        assert(a + b =~= a);
        assert(spec_lines_bytes(a) + spec_lines_bytes(b) =~= spec_lines_bytes(a));
    } else {
        lemma_lines_bytes_append(a, b.drop_last());
        assert((a + b).drop_last() =~= a + b.drop_last());
        assert((a + b).last() == b.last());
    }
}

proof fn lemma_patch_bytes_lines(h: Seq<HunkData>)
    ensures
        spec_patch_bytes(h) == spec_lines_bytes(spec_patch_lines(h)),
    decreases h.len(),
{
    if h.len() > 0 {
        lemma_patch_bytes_lines(h.drop_last());
        lemma_lines_bytes_append(spec_patch_lines(h.drop_last()), h.last().lines@);
    }
}

/// The patch id depends only on the added and deleted lines, in order, with
/// their trailing white space dropped: two patches with the same such lines
/// get the same id whatever their context lines and however the lines are
/// split into hunks.
pub proof fn law_patch_id_depends_on_changed_lines(a: Seq<HunkData>, b: Seq<HunkData>)
    requires
        spec_changed_lines(spec_patch_lines(a)) == spec_changed_lines(spec_patch_lines(b)),
    ensures
        spec_patch_bytes(a) == spec_patch_bytes(b),
{
    lemma_patch_bytes_lines(a);
    lemma_patch_bytes_lines(b);
    lemma_lines_bytes_changed(spec_patch_lines(a));
    lemma_lines_bytes_changed(spec_patch_lines(b));
}

proof fn lemma_trim_end_appended(c: Seq<char>, ws: Seq<char>)
    requires
        forall|i: int| 0 <= i < ws.len() ==> spec_is_whitespace(#[trigger] ws[i]),
    ensures
        spec_trim_end(c + ws, 0, (c + ws).len() as int) == spec_trim_end(c, 0, c.len() as int),
    decreases ws.len(),
{
    if ws.len() > 0 {
        let w2 = ws.drop_last();
        assert forall|i: int| 0 <= i < w2.len() implies spec_is_whitespace(#[trigger] w2[i]) by {
            assert(w2[i] == ws[i]);
        }
        lemma_trim_end_appended(c, w2);
        assert((c + ws).subrange(0, (c + ws).len() - 1) =~= c + w2);
        lemma_trim_end_prefix(c + ws, (c + ws).len() - 1);
    } else {
        assert(c + ws =~= c);
    }
}

/// Trimming the end of `s[0..b]` looks only at `s[0..b]`.
proof fn lemma_trim_end_prefix(s: Seq<char>, b: int)
    requires
        0 <= b <= s.len(),
        b < s.len() ==> spec_is_whitespace(s[b]),
        b == s.len() - 1,
    ensures
        spec_trim_end(s, 0, s.len() as int) == spec_trim_end(s.subrange(0, b), 0, b),
{
    assert(spec_trim_end(s, 0, s.len() as int) == spec_trim_end(s, 0, b));
    lemma_trim_end_same(s, s.subrange(0, b), b);
}

/// Trimming the end up to `b` agrees on sequences that agree below `b`.
proof fn lemma_trim_end_same(s: Seq<char>, t: Seq<char>, b: int)
    requires
        0 <= b <= s.len(),
        b <= t.len(),
        forall|k: int| 0 <= k < b ==> s[k] == t[k],
    ensures
        spec_trim_end(s, 0, b) == spec_trim_end(t, 0, b),
    decreases b,
{
    if b > 0 {
        lemma_trim_end_same(s, t, b - 1);
    }
}

/// The text of a list of displayed tokens, joined.
pub open spec fn spec_joined(ts: Seq<(Seq<char>, Option<Seq<char>>, bool)>) -> Seq<char>
    decreases ts.len(),
{
    if ts.len() == 0 {
        Seq::empty()
    } else {
        spec_joined(ts.drop_last()) + ts.last().0
    }
}

/// The text of a list of highlight tokens, joined.
pub open spec fn spec_tokens_text(ts: Seq<Token>) -> Seq<char>
    decreases ts.len(),
{
    if ts.len() == 0 {
        Seq::empty()
    } else {
        spec_tokens_text(ts.drop_last()) + ts.last().content@
    }
}

proof fn lemma_joined_append(
    a: Seq<(Seq<char>, Option<Seq<char>>, bool)>,
    b: Seq<(Seq<char>, Option<Seq<char>>, bool)>,
)
    ensures
        spec_joined(a + b) == spec_joined(a) + spec_joined(b),
    decreases b.len(),
{
    if b.len() == 0 {
        assert(a + b =~= a);
    } else {
        lemma_joined_append(a, b.drop_last());
        assert((a + b).drop_last() =~= a + b.drop_last());
    }
}

proof fn lemma_pieces_joined(
    cs: Seq<char>,
    start: int,
    k: int,
    rs: Seq<(int, int)>,
    color: Option<Seq<char>>,
)
    requires
        0 <= k <= cs.len(),
    ensures
        spec_joined(
            spec_pieces(cs, start, k, rs).map_values(|p: (Seq<char>, bool)| (p.0, color, p.1)),
        ) == cs.subrange(k, cs.len() as int),
    decreases cs.len() - k,
{
    let f = |p: (Seq<char>, bool)| (p.0, color, p.1);
    if k == cs.len() {
        assert(spec_pieces(cs, start, k, rs).map_values(f) =~= Seq::<
            (Seq<char>, Option<Seq<char>>, bool),
        >::empty());
        assert(cs.subrange(k, cs.len() as int) =~= Seq::<char>::empty());
    } else {
        let cur = start + crate::text::spec_utf8_len(cs.take(k));
        let nb = crate::services::diff::spec_next_boundary(
            cur,
            start + crate::text::spec_utf8_len(cs),
            rs,
        );
        let k2 = crate::services::diff::spec_advance(cs, start, k + 1, nb);
        lemma_advance_bounds(cs, start, k + 1, nb);
        lemma_pieces_joined(cs, start, k2, rs, color);
        let first = seq![(cs.subrange(k, k2), color, crate::services::diff::spec_in_change_range(cur, rs))];
        assert(spec_pieces(cs, start, k, rs).map_values(f) =~= first + spec_pieces(
            cs,
            start,
            k2,
            rs,
        ).map_values(f));
        lemma_joined_append(first, spec_pieces(cs, start, k2, rs).map_values(f));
        assert(spec_joined(first) =~= cs.subrange(k, k2)) by {
            assert(first.drop_last() =~= Seq::<(Seq<char>, Option<Seq<char>>, bool)>::empty());
            assert(spec_joined(first.drop_last()) =~= Seq::<char>::empty());
            assert(first.last().0 == cs.subrange(k, k2));
        }
        assert(cs.subrange(k, cs.len() as int) =~= cs.subrange(k, k2) + cs.subrange(
            k2,
            cs.len() as int,
        ));
    }
}

/// Splitting highlight tokens at word-level changes keeps the line's text:
/// the pieces, joined, are the tokens joined.
pub proof fn law_marking_changes_keeps_text(tokens: Seq<Token>, ranges: Option<Seq<(int, int)>>)
    ensures
        spec_joined(spec_apply_change_ranges(tokens, ranges)) == spec_tokens_text(tokens),
    decreases tokens.len(),
{
    match ranges {
        Some(rs) => if rs.len() > 0 {
            lemma_split_joined(tokens, rs);
        } else {
            lemma_plain_joined(tokens);
        },
        None => lemma_plain_joined(tokens),
    }
}

proof fn lemma_plain_joined(tokens: Seq<Token>)
    ensures
        spec_joined(spec_plain_tokens(tokens)) == spec_tokens_text(tokens),
    decreases tokens.len(),
{
    if tokens.len() > 0 {
        lemma_plain_joined(tokens.drop_last());
        assert(spec_plain_tokens(tokens).drop_last() =~= spec_plain_tokens(tokens.drop_last()));
    } else {
        assert(spec_plain_tokens(tokens) =~= Seq::<(Seq<char>, Option<Seq<char>>, bool)>::empty());
    }
}

proof fn lemma_split_joined(tokens: Seq<Token>, rs: Seq<(int, int)>)
    ensures
        spec_joined(spec_split_tokens(tokens, rs)) == spec_tokens_text(tokens),
    decreases tokens.len(),
{
    if tokens.len() > 0 {
        let t = tokens.last();
        lemma_split_joined(tokens.drop_last(), rs);
        let start = spec_token_bytes(tokens.drop_last()) as int;
        lemma_pieces_joined(t.content@, start, 0, rs, opt_view(t.color));
        lemma_joined_append(
            spec_split_tokens(tokens.drop_last(), rs),
            spec_pieces(t.content@, start, 0, rs).map_values(
                |p: (Seq<char>, bool)| (p.0, opt_view(t.color), p.1),
            ),
        );
        assert(t.content@.subrange(0, t.content@.len() as int) =~= t.content@);
    }
}

/// A non-empty line without escape characters is one run of text in the
/// starting style.
pub proof fn law_plain_line_is_one_span(s: Seq<char>, style: Style)
    requires
        s.len() > 0,
        !s.contains(ESC),
    ensures
        spec_parse_from(s, 0, style) == seq![(s, style)],
{
    lemma_find_absent(s, 0, ESC);
    assert(s.subrange(0, s.len() as int) =~= s);
}

proof fn lemma_find_absent(s: Seq<char>, from: int, c: char)
    requires
        !s.contains(c),
        0 <= from <= s.len(),
    ensures
        spec_find(s, from, c) == s.len(),
    decreases s.len() - from,
{
    if from < s.len() {
        assert(s[from] != c) by {
            if s[from] == c {
                assert(s.contains(c));
            }
        }
        lemma_find_absent(s, from + 1, c);
    }
}

/// The line number a diff line has on the old side (`old`) or the new side.
pub open spec fn line_side_no(dl: DiffLine, old: bool) -> Option<u32> {
    if old {
        dl.old_lineno
    } else {
        dl.new_lineno
    }
}

/// Whether line `m` of a hunk whose first line is display line `start` lies
/// in the selection `[s, e]`, is an addition, deletion or context line, and
/// has a line number on the given side.
pub open spec fn is_selected_side_line(
    lines: Seq<DiffLine>,
    start: int,
    s: int,
    e: int,
    m: int,
    old: bool,
) -> bool {
    &&& 0 <= m < lines.len()
    &&& s <= start + m <= e
    &&& (lines[m].line_type == DiffLineType::Addition || lines[m].line_type
        == DiffLineType::Deletion || lines[m].line_type == DiffLineType::Context)
    &&& line_side_no(lines[m], old) is Some
}

/// Whether some line from `i` on is such a line.
pub open spec fn has_selected_side_line(
    lines: Seq<DiffLine>,
    start: int,
    s: int,
    e: int,
    i: int,
    old: bool,
) -> bool {
    exists|m: int| i <= m && #[trigger] is_selected_side_line(lines, start, s, e, m, old)
}

/// The first selected line number a hunk scan found on a side.
pub open spec fn scan_first(sc: LineScan, old: bool) -> Option<u32> {
    if old {
        sc.first_old
    } else {
        sc.first_new
    }
}

/// The last selected line number a hunk scan found on a side.
pub open spec fn scan_last(sc: LineScan, old: bool) -> Option<u32> {
    if old {
        sc.last_old
    } else {
        sc.last_new
    }
}

/// The start of a hunk id on the given side.
pub open spec fn hunk_id_start(id: HunkId, old: bool) -> u32 {
    if old {
        id.old_start
    } else {
        id.new_start
    }
}

/// The line count of a hunk id on the given side.
pub open spec fn hunk_id_count(id: HunkId, old: bool) -> u32 {
    if old {
        id.old_lines
    } else {
        id.new_lines
    }
}

/// Scanning lines `i..` finds the first and last selected lines of a side:
/// returns the index of the first (if none was found before `i`, the scan's
/// first number is its number) and of the last.
proof fn lemma_scan_side(
    lines: Seq<DiffLine>,
    start: int,
    s: int,
    e: int,
    i: int,
    acc: LineScan,
    old: bool,
) -> (w: (int, int))
    requires
        0 <= i,
    ensures
        !has_selected_side_line(lines, start, s, e, i, old) ==> scan_first(
            spec_scan(lines, start, s, e, i, acc),
            old,
        ) == scan_first(acc, old) && scan_last(spec_scan(lines, start, s, e, i, acc), old)
            == scan_last(acc, old),
        has_selected_side_line(lines, start, s, e, i, old) ==> {
            &&& i <= w.0
            &&& is_selected_side_line(lines, start, s, e, w.0, old)
            &&& is_selected_side_line(lines, start, s, e, w.1, old)
            &&& forall|m: int|
                i <= m < w.0 ==> !#[trigger] is_selected_side_line(lines, start, s, e, m, old)
            &&& forall|m: int|
                w.1 < m ==> !#[trigger] is_selected_side_line(lines, start, s, e, m, old)
            &&& scan_first(spec_scan(lines, start, s, e, i, acc), old) == if scan_first(
                acc,
                old,
            ) is Some {
                scan_first(acc, old)
            } else {
                line_side_no(lines[w.0], old)
            }
            &&& scan_last(spec_scan(lines, start, s, e, i, acc), old) == line_side_no(
                lines[w.1],
                old,
            )
        },
    decreases lines.len() - i,
{
    if i >= lines.len() {
        if has_selected_side_line(lines, start, s, e, i, old) {
            let m = choose|m: int| i <= m && #[trigger] is_selected_side_line(lines, start, s, e, m, old);
            assert(false);
        }
        return (0, 0);
    }
    let dl = lines[i];
    let abs = start + i;
    let counted = dl.line_type == DiffLineType::Addition || dl.line_type == DiffLineType::Deletion
        || dl.line_type == DiffLineType::Context;
    if abs >= s && abs > e {
        if has_selected_side_line(lines, start, s, e, i, old) {
            let m = choose|m: int| i <= m && #[trigger] is_selected_side_line(lines, start, s, e, m, old);
            assert(false);
        }
        return (0, 0);
    }
    let here = is_selected_side_line(lines, start, s, e, i, old);
    let acc2 = if abs < s {
        LineScan {
            old_before: crate::screens::diff_panel::latest(acc.old_before, dl.old_lineno),
            new_before: crate::screens::diff_panel::latest(acc.new_before, dl.new_lineno),
            ..acc
        }
    } else if counted {
        LineScan {
            has_change: acc.has_change || dl.line_type != DiffLineType::Context,
            first_old: crate::screens::diff_panel::first_of(acc.first_old, dl.old_lineno),
            last_old: crate::screens::diff_panel::latest(acc.last_old, dl.old_lineno),
            first_new: crate::screens::diff_panel::first_of(acc.first_new, dl.new_lineno),
            last_new: crate::screens::diff_panel::latest(acc.last_new, dl.new_lineno),
            ..acc
        }
    } else {
        acc
    };
    assert(spec_scan(lines, start, s, e, i, acc) == spec_scan(lines, start, s, e, i + 1, acc2));
    let w2 = lemma_scan_side(lines, start, s, e, i + 1, acc2, old);
    let later = has_selected_side_line(lines, start, s, e, i + 1, old);
    if here {
        if later {
            (i, w2.1)
        } else {
            assert forall|m: int| i < m implies !#[trigger] is_selected_side_line(
                lines,
                start,
                s,
                e,
                m,
                old,
            ) by {
                if is_selected_side_line(lines, start, s, e, m, old) {
                    assert(has_selected_side_line(lines, start, s, e, i + 1, old));
                }
            }
            (i, i)
        }
    } else {
        assert(scan_first(acc2, old) == scan_first(acc, old));
        assert(scan_last(acc2, old) == scan_last(acc, old));
        if has_selected_side_line(lines, start, s, e, i, old) {
            let m = choose|m: int| i <= m && #[trigger] is_selected_side_line(lines, start, s, e, m, old);
            assert(m != i);
            assert(later);
        } else if later {
            let m = choose|m: int| i + 1 <= m && #[trigger] is_selected_side_line(lines, start, s, e, m, old);
            assert(has_selected_side_line(lines, start, s, e, i, old));
        }
        w2
    }
}

/// The hunk id of a hunk under the selection spans, on each side, from the
/// number of the first selected line that has one to that of the last: its
/// start is the first's number and its count runs to the last's; with no
/// such line the count is zero.
pub proof fn law_hunk_id_spans_selected_lines(hunks: Seq<DiffHunk>, k: int, s: int, e: int, old: bool)
    requires
        0 <= k < hunks.len(),
        spec_ids_computable(hunks, s, e),
    ensures
        ({
            let lines = hunks[k].lines@;
            let start = spec_hunk_header_line(hunks, k) + 1;
            let id = spec_hunk_id(hunks[k], spec_hunk_scan(hunks, k, s, e));
            &&& has_selected_side_line(lines, start, s, e, 0, old) ==> exists|i: int, j: int|
                #![trigger is_selected_side_line(lines, start, s, e, i, old), is_selected_side_line(lines, start, s, e, j, old)]
                {
                    &&& i <= j
                    &&& is_selected_side_line(lines, start, s, e, i, old)
                    &&& is_selected_side_line(lines, start, s, e, j, old)
                    &&& (forall|m: int|
                        0 <= m < i ==> !#[trigger] is_selected_side_line(lines, start, s, e, m, old))
                    &&& (forall|m: int|
                        j < m ==> !#[trigger] is_selected_side_line(lines, start, s, e, m, old))
                    &&& hunk_id_start(id, old) == line_side_no(lines[i], old)->0
                    &&& hunk_id_count(id, old) == line_side_no(lines[j], old)->0 - line_side_no(
                        lines[i],
                        old,
                    )->0 + 1
                }
            &&& !has_selected_side_line(lines, start, s, e, 0, old) ==> hunk_id_count(id, old) == 0
        }),
{
    let lines = hunks[k].lines@;
    let start = spec_hunk_header_line(hunks, k) + 1;
    let sc = spec_hunk_scan(hunks, k, s, e);
    let w = lemma_scan_side(lines, start, s, e, 0, empty_scan(), old);
    assert(sc == spec_scan(lines, start, s, e, 0, empty_scan()));
    if has_selected_side_line(lines, start, s, e, 0, old) {
        assert(w.0 <= w.1);
        let f = line_side_no(lines[w.0], old)->0;
        let l = line_side_no(lines[w.1], old)->0;
        assert(scan_first(sc, old) == Some(f));
        assert(scan_last(sc, old) == Some(l));
        assert(crate::screens::diff_panel::span_ok(sc.first_old, sc.last_old)
            && crate::screens::diff_panel::span_ok(sc.first_new, sc.last_new));
        let id = spec_hunk_id(hunks[k], sc);
        assert(hunk_id_start(id, old) == f);
        assert(hunk_id_count(id, old) == l - f + 1);
        assert(is_selected_side_line(lines, start, s, e, w.0, old));
        assert(is_selected_side_line(lines, start, s, e, w.1, old));
    }
}

/// Whether a line type is shown on the old side (`old`) or the new side of a
/// review panel.
pub open spec fn panel_side(t: DiffLineType, old: bool) -> bool {
    if old {
        on_old_side(t)
    } else {
        on_new_side(t)
    }
}

/// Whether line `m` of hunk `k` lies in the selection `[s, e]` of display
/// lines (each hunk header taking one), is shown on the given side and has a
/// line number there.
pub open spec fn is_selected_panel_line(
    hunks: Seq<DiffHunk>,
    s: int,
    e: int,
    k: int,
    m: int,
    old: bool,
) -> bool {
    &&& 0 <= k < hunks.len()
    &&& 0 <= m < hunks[k].lines@.len()
    &&& s <= spec_total_lines(hunks.take(k)) + 1 + m <= e
    &&& panel_side(hunks[k].lines@[m].line_type, old)
    &&& line_side_no(hunks[k].lines@[m], old) is Some
}

/// Whether such a line occurs in the hunks before `k`.
pub open spec fn has_selected_panel_line(hunks: Seq<DiffHunk>, s: int, e: int, k: int, old: bool) -> bool {
    exists|k2: int, m2: int| k2 < k && #[trigger] is_selected_panel_line(hunks, s, e, k2, m2, old)
}

/// Line `m1` of hunk `k1` comes before line `m2` of hunk `k2`.
pub open spec fn lex_before(k1: int, m1: int, k2: int, m2: int) -> bool {
    k1 < k2 || (k1 == k2 && m1 < m2)
}

/// The number, on a side, of line `m` of hunk `k`.
pub open spec fn panel_no(hunks: Seq<DiffHunk>, k: int, m: int, old: bool) -> Option<u32> {
    line_side_no(hunks[k].lines@[m], old)
}

/// The first number a panel scan found inside the selection on a side.
pub open spec fn sel_first(sc: SelectionScan, old: bool) -> Option<u32> {
    if old {
        sc.first_old
    } else {
        sc.first_new
    }
}

/// The last number a panel scan found inside the selection on a side.
pub open spec fn sel_last(sc: SelectionScan, old: bool) -> Option<u32> {
    if old {
        sc.last_old_in_sel
    } else {
        sc.last_new_in_sel
    }
}

/// Scanning the first `i` lines of hunk `k` finds its first and last
/// selected lines of a side.
proof fn lemma_panel_lines_side(
    hunks: Seq<DiffHunk>,
    k: int,
    i: int,
    s: int,
    e: int,
    acc: SelectionScan,
    old: bool,
) -> (w: (int, int))
    requires
        0 <= k < hunks.len(),
        0 <= i <= hunks[k].lines@.len(),
    ensures
        ({
            let r = spec_lines_scan(
                hunks[k].lines@,
                spec_total_lines(hunks.take(k)) + 1,
                i,
                s,
                e,
                acc,
            );
            let any = exists|m: int| m < i && #[trigger] is_selected_panel_line(hunks, s, e, k, m, old);
            &&& !any ==> sel_first(r, old) == sel_first(acc, old) && sel_last(r, old) == sel_last(
                acc,
                old,
            )
            &&& any ==> {
                &&& 0 <= w.0 <= w.1 < i
                &&& is_selected_panel_line(hunks, s, e, k, w.0, old)
                &&& is_selected_panel_line(hunks, s, e, k, w.1, old)
                &&& forall|m: int|
                    m < w.0 ==> !#[trigger] is_selected_panel_line(hunks, s, e, k, m, old)
                &&& forall|m: int|
                    w.1 < m < i ==> !#[trigger] is_selected_panel_line(hunks, s, e, k, m, old)
                &&& sel_first(r, old) == if sel_first(acc, old) is Some {
                    sel_first(acc, old)
                } else {
                    panel_no(hunks, k, w.0, old)
                }
                &&& sel_last(r, old) == panel_no(hunks, k, w.1, old)
            }
        }),
    decreases i,
{
    let lines = hunks[k].lines@;
    let start = spec_total_lines(hunks.take(k)) + 1;
    if i == 0 {
        return (0, 0);
    }
    let w2 = lemma_panel_lines_side(hunks, k, i - 1, s, e, acc, old);
    let earlier = exists|m: int| m < i - 1 && #[trigger] is_selected_panel_line(hunks, s, e, k, m, old);
    let here = is_selected_panel_line(hunks, s, e, k, i - 1, old);
    if here {
        if earlier {
            (w2.0, i - 1)
        } else {
            (i - 1, i - 1)
        }
    } else {
        if exists|m: int| m < i && #[trigger] is_selected_panel_line(hunks, s, e, k, m, old) {
            let m = choose|m: int| m < i && #[trigger] is_selected_panel_line(hunks, s, e, k, m, old);
            assert(m != i - 1);
            assert(earlier);
        }
        w2
    }
}

/// Scanning the first `k` hunks finds the first and last selected lines of a
/// side among them.
proof fn lemma_panel_hunks_side(hunks: Seq<DiffHunk>, k: int, s: int, e: int, old: bool) -> (w: (
    int,
    int,
    int,
    int,
))
    requires
        0 <= k <= hunks.len(),
    ensures
        ({
            let r = spec_hunks_scan(hunks, k, s, e);
            &&& !has_selected_panel_line(hunks, s, e, k, old) ==> sel_first(r, old) is None
                && sel_last(r, old) is None
            &&& has_selected_panel_line(hunks, s, e, k, old) ==> {
                &&& w.0 < k && w.2 < k
                &&& is_selected_panel_line(hunks, s, e, w.0, w.1, old)
                &&& is_selected_panel_line(hunks, s, e, w.2, w.3, old)
                &&& forall|k2: int, m2: int|
                    k2 < k && #[trigger] is_selected_panel_line(hunks, s, e, k2, m2, old)
                        ==> !lex_before(k2, m2, w.0, w.1) && !lex_before(w.2, w.3, k2, m2)
                &&& sel_first(r, old) == panel_no(hunks, w.0, w.1, old)
                &&& sel_last(r, old) == panel_no(hunks, w.2, w.3, old)
            }
        }),
    decreases k,
{
    if k == 0 {
        return (0, 0, 0, 0);
    }
    let prev = spec_hunks_scan(hunks, k - 1, s, e);
    let pw = lemma_panel_hunks_side(hunks, k - 1, s, e, old);
    let hunk = hunks[k - 1];
    let header = spec_total_lines(hunks.take(k - 1));
    let start = header + 1;
    let end = start + hunk.lines@.len();
    let earlier = has_selected_panel_line(hunks, s, e, k - 1, old);
    let in_hunk = exists|m: int|
        m < hunk.lines@.len() && #[trigger] is_selected_panel_line(hunks, s, e, k - 1, m, old);
    if has_selected_panel_line(hunks, s, e, k, old) && !earlier {
        let (k2, m2) = choose|k2: int, m2: int|
            k2 < k && #[trigger] is_selected_panel_line(hunks, s, e, k2, m2, old);
        assert(k2 == k - 1);
        assert(in_hunk);
    }
    if earlier {
        let (k2, m2) = choose|k2: int, m2: int|
            k2 < k - 1 && #[trigger] is_selected_panel_line(hunks, s, e, k2, m2, old);
        assert(has_selected_panel_line(hunks, s, e, k, old));
    }
    if end <= s || start > e {
        if in_hunk {
            let m = choose|m: int|
                m < hunk.lines@.len() && #[trigger] is_selected_panel_line(hunks, s, e, k - 1, m, old);
            assert(false);
        }
        assert forall|k2: int, m2: int|
            k2 < k && #[trigger] is_selected_panel_line(hunks, s, e, k2, m2, old) implies k2 < k - 1 by {
            if k2 == k - 1 {
                assert(in_hunk);
            }
        }
        pw
    } else {
        let lw = lemma_panel_lines_side(hunks, k - 1, hunk.lines@.len() as int, s, e, prev, old);
        if in_hunk {
            let first = if earlier { (pw.0, pw.1) } else { (k - 1, lw.0) };
            assert forall|k2: int, m2: int|
                k2 < k && #[trigger] is_selected_panel_line(hunks, s, e, k2, m2, old) implies !lex_before(
                k2,
                m2,
                first.0,
                first.1,
            ) && !lex_before(k - 1, lw.1, k2, m2) by {
                if k2 < k - 1 {
                    assert(earlier);
                }
            }
            (first.0, first.1, k - 1, lw.1)
        } else {
            assert forall|k2: int, m2: int|
                k2 < k && #[trigger] is_selected_panel_line(hunks, s, e, k2, m2, old) implies k2 < k - 1 by {
                if k2 == k - 1 {
                    assert(in_hunk);
                }
            }
            pw
        }
    }
}

/// The hunk id of a review panel's selection spans, on each side, from the
/// number of the first selected line shown on that side to that of the last:
/// its start is the first's number and its count runs to the last's; with no
/// such line the count is zero.
pub proof fn law_panel_hunk_id_spans_selected_lines(
    d: FileDiff,
    v: RangeListView,
    s: int,
    e: int,
    old: bool,
)
    requires
        spec_panel_selection(v) == Some((s, e)),
        spec_hunk_id_computable(Some(d), v),
    ensures
        spec_selected_hunk_id(Some(d), v) matches Some(id) ==> {
            let hunks = d.hunks@;
            &&& has_selected_panel_line(hunks, s, e, hunks.len() as int, old) ==> exists|
                k1: int,
                m1: int,
                k2: int,
                m2: int,
            |
                #![trigger is_selected_panel_line(hunks, s, e, k1, m1, old), is_selected_panel_line(hunks, s, e, k2, m2, old)]
                {
                    &&& is_selected_panel_line(hunks, s, e, k1, m1, old)
                    &&& is_selected_panel_line(hunks, s, e, k2, m2, old)
                    &&& (forall|k: int, m: int|
                        #[trigger] is_selected_panel_line(hunks, s, e, k, m, old) ==> !lex_before(
                            k,
                            m,
                            k1,
                            m1,
                        ) && !lex_before(k2, m2, k, m))
                    &&& hunk_id_start(id, old) == panel_no(hunks, k1, m1, old)->0
                    &&& hunk_id_count(id, old) == panel_no(hunks, k2, m2, old)->0 - panel_no(
                        hunks,
                        k1,
                        m1,
                        old,
                    )->0 + 1
                }
            &&& !has_selected_panel_line(hunks, s, e, hunks.len() as int, old) ==> hunk_id_count(
                id,
                old,
            ) == 0
        },
{
    let hunks = d.hunks@;
    let n = hunks.len() as int;
    let sc = spec_hunks_scan(hunks, n, s, e);
    let w = lemma_panel_hunks_side(hunks, n, s, e, old);
    if has_selected_panel_line(hunks, s, e, n, old) {
        assert(is_selected_panel_line(hunks, s, e, w.0, w.1, old));
        assert(is_selected_panel_line(hunks, s, e, w.2, w.3, old));
        assert forall|k: int, m: int| #[trigger]
            is_selected_panel_line(hunks, s, e, k, m, old) implies !lex_before(k, m, w.0, w.1)
            && !lex_before(w.2, w.3, k, m) by {
            assert(k < n);
        }
    }
}

/// `spec_find` finds the first `c` from `from` on.
proof fn lemma_find_at(s: Seq<char>, from: int, c: char, k: int)
    requires
        0 <= from <= k < s.len(),
        s[k] == c,
        forall|j: int| from <= j < k ==> s[j] != c,
    ensures
        spec_find(s, from, c) == k,
    decreases k - from,
{
    if from < k {
        lemma_find_at(s, from + 1, c, k);
    }
}

/// `spec_find` reaches the end when no `c` follows `from`.
proof fn lemma_find_none(s: Seq<char>, from: int, c: char)
    requires
        0 <= from,
        forall|j: int| from <= j < s.len() ==> s[j] != c,
    ensures
        spec_find(s, from, c) == s.len(),
    decreases s.len() - from,
{
    if from < s.len() {
        lemma_find_none(s, from + 1, c);
    }
}

/// The eight standard ANSI colors, in the order of their codes.
pub open spec fn standard_colors() -> Seq<Color> {
    seq![
        Color::Black,
        Color::Red,
        Color::Green,
        Color::Yellow,
        Color::Blue,
        Color::Magenta,
        Color::Cyan,
        Color::Gray,
    ]
}

/// The style that `ESC [ <lead> <d> m` gives to the text `t` that follows it.
proof fn lemma_two_digit_sgr(t: Seq<char>, lead: char, d: char, st: Style)
    requires
        '0' <= lead <= '9',
        '0' <= d <= '9',
        t.len() > 0,
        forall|k: int| 0 <= k < t.len() ==> t[k] != ESC,
    ensures
        spec_parse_from(seq![ESC, '[', lead, d, 'm'] + t, 0, st) == seq![
            (t, spec_apply_sgr(st, seq![lead, d])),
        ],
        spec_apply_sgr(st, seq![lead, d]) == crate::ansi::spec_apply_codes(
            st,
            seq![((lead as u32 - '0' as u32) * 10 + (d as u32 - '0' as u32)) as u16],
            0,
        ),
{
    let s = seq![ESC, '[', lead, d, 'm'] + t;
    lemma_find_at(s, 0, ESC, 0);
    lemma_find_at(s, 2, 'm', 4);
    lemma_find_none(s, 5, ESC);
    lemma_find_bounds(s, 0, ESC);
    let p = seq![lead, d];
    assert(s.subrange(2, 4) =~= p);
    assert(s.subrange(5, s.len() as int) =~= t);
    lemma_find_none(p, 0, ';');
    assert(p.drop_last() =~= seq![lead]);
    assert(seq![lead].drop_last() =~= Seq::<char>::empty());
    assert(p.subrange(0, 2) =~= p);
    let v = (lead as u32 - '0' as u32) * 10 + (d as u32 - '0' as u32);
    assert(seq![lead].last() == lead);
    assert(crate::ansi::spec_decimal_value(Seq::<char>::empty()) == 0);
    assert(crate::ansi::spec_decimal_value(seq![lead]) == (lead as u32 - '0' as u32));
    assert(crate::ansi::spec_decimal_value(p) == v);
    assert(crate::ansi::spec_parse_u16(p) == Some(v as u16));
    assert(crate::ansi::spec_sgr_codes(p) =~= seq![v as u16]);
    assert(spec_parse_from(s, 5, spec_apply_sgr(st, p)) == seq![(t, spec_apply_sgr(st, p))]);
}

/// SGR code `30 + i` sets the foreground, and `40 + i` the background, to
/// the `i`-th standard color (black, red, green, yellow, blue, magenta,
/// cyan, gray), keeping the rest of the style: so the text after
/// `ESC [ 3 i m` (or `ESC [ 4 i m`) is one run in that color.
pub proof fn law_sgr_standard_colors(t: Seq<char>, d: char, st: Style)
    requires
        '0' <= d <= '7',
        t.len() > 0,
        forall|k: int| 0 <= k < t.len() ==> t[k] != ESC,
    ensures
        spec_parse_from(seq![ESC, '[', '3', d, 'm'] + t, 0, st) == seq![
            (t, Style { fg: Some(standard_colors()[d as u32 - '0' as u32]), ..st }),
        ],
        spec_parse_from(seq![ESC, '[', '4', d, 'm'] + t, 0, st) == seq![
            (t, Style { bg: Some(standard_colors()[d as u32 - '0' as u32]), ..st }),
        ],
{
    lemma_two_digit_sgr(t, '3', d, st);
    lemma_two_digit_sgr(t, '4', d, st);
    let i = d as u32 - '0' as u32;
    assert(0 <= i < 8);
    assert('3' as u32 - '0' as u32 == 3);
    assert('4' as u32 - '0' as u32 == 4);
    let cf = seq![(30 + i) as u16];
    let cb = seq![(40 + i) as u16];
    assert(crate::ansi::spec_apply_codes(st, cf, 0) == crate::ansi::spec_apply_codes(
        st.spec_fg(crate::ansi::spec_standard_color(i as u16)),
        cf,
        1,
    ));
    assert(crate::ansi::spec_apply_codes(st, cb, 0) == crate::ansi::spec_apply_codes(
        st.spec_bg(crate::ansi::spec_standard_color(i as u16)),
        cb,
        1,
    ));
    assert(crate::ansi::spec_standard_color(i as u16) == standard_colors()[i as int]) by {
        if i == 0 {} else if i == 1 {} else if i == 2 {} else if i == 3 {} else if i == 4 {}
        else if i == 5 {} else if i == 6 {} else {}
    }
}

/// The eight bright ANSI colors, in the order of their codes.
pub open spec fn bright_colors() -> Seq<Color> {
    seq![
        Color::DarkGray,
        Color::LightRed,
        Color::LightGreen,
        Color::LightYellow,
        Color::LightBlue,
        Color::LightMagenta,
        Color::LightCyan,
        Color::White,
    ]
}

/// SGR code `90 + i` sets the foreground to the `i`-th bright color (dark
/// gray, light red, light green, light yellow, light blue, light magenta,
/// light cyan, white), keeping the rest of the style.
pub proof fn law_sgr_bright_foreground(t: Seq<char>, d: char, st: Style)
    requires
        '0' <= d <= '7',
        t.len() > 0,
        forall|k: int| 0 <= k < t.len() ==> t[k] != ESC,
    ensures
        spec_parse_from(seq![ESC, '[', '9', d, 'm'] + t, 0, st) == seq![
            (t, Style { fg: Some(bright_colors()[d as u32 - '0' as u32]), ..st }),
        ],
{
    lemma_two_digit_sgr(t, '9', d, st);
    let i = d as u32 - '0' as u32;
    assert('9' as u32 - '0' as u32 == 9);
    let cf = seq![(90 + i) as u16];
    assert(crate::ansi::spec_apply_codes(st, cf, 0) == crate::ansi::spec_apply_codes(
        st.spec_fg(crate::ansi::spec_bright_color(i as u16)),
        cf,
        1,
    ));
    assert(crate::ansi::spec_bright_color(i as u16) == bright_colors()[i as int]) by {
        if i == 0 {} else if i == 1 {} else if i == 2 {} else if i == 3 {} else if i == 4 {}
        else if i == 5 {} else if i == 6 {} else {}
    }
}

/// The block state after lines `p`, with nothing pending, followed by `q`:
/// the blocks of `p`, then those read from `q`.
proof fn lemma_block_state_append(p: Seq<HunkLine>, q: Seq<HunkLine>)
    requires
        spec_block_state(p).1.len() == 0,
        spec_block_state(p).2.len() == 0,
    ensures
        spec_block_state(p + q) == (
            spec_block_state(p).0 + spec_block_state(q).0,
            spec_block_state(q).1,
            spec_block_state(q).2,
        ),
    decreases q.len(),
{
    if q.len() == 0 {
        assert(p + q =~= p);
        assert(spec_block_state(p).0 + Seq::empty() =~= spec_block_state(p).0);
    } else {
        assert((p + q).drop_last() =~= p + q.drop_last());
        assert((p + q).last() == q.last());
        lemma_block_state_append(p, q.drop_last());
        let b = spec_block_state(p).0;
        let x = spec_block_state(q.drop_last());
        assert(forall|y: (Seq<(u32, Seq<char>)>, Seq<(u32, Seq<char>)>)|
            #[trigger] (b + x.0).push(y) =~= b + x.0.push(y));
    }
}

/// A context line ends every block: the blocks of `l1`, a context line and
/// `l2` are those of `l1` followed by those of `l2`, so no block, and no
/// pair of an old and a new line compared word by word, spans a context
/// line.
pub proof fn law_blocks_split_at_context(l1: Seq<HunkLine>, ctx: HunkLine, l2: Seq<HunkLine>)
    requires
        ctx.is_utf8,
        ctx.origin == LineOrigin::Context || ctx.origin == LineOrigin::ContextEofnl,
    ensures
        spec_blocks(l1 + seq![ctx] + l2) == spec_blocks(l1) + spec_blocks(l2),
{
    let p = l1 + seq![ctx];
    assert(p.drop_last() =~= l1);
    assert(p.last() == ctx);
    assert(spec_block_state(p) == (spec_blocks(l1), Seq::<(u32, Seq<char>)>::empty(), Seq::<
        (u32, Seq<char>),
    >::empty()));
    lemma_block_state_append(p, l2);
    let x = spec_block_state(l2);
    assert(forall|y: (Seq<(u32, Seq<char>)>, Seq<(u32, Seq<char>)>)|
        #[trigger] (spec_blocks(l1) + x.0).push(y) =~= spec_blocks(l1) + x.0.push(y));
}

proof fn lemma_block_state_nonempty(lines: Seq<HunkLine>)
    ensures
        forall|k: int|
            0 <= k < spec_block_state(lines).0.len() ==> (#[trigger] spec_block_state(lines).0[k]).0.len()
                > 0 || spec_block_state(lines).0[k].1.len() > 0,
    decreases lines.len(),
{
    if lines.len() > 0 {
        lemma_block_state_nonempty(lines.drop_last());
        let prev = spec_block_state(lines.drop_last());
        let cur = spec_block_state(lines);
        assert forall|k: int| 0 <= k < cur.0.len() implies (#[trigger] cur.0[k]).0.len() > 0
            || cur.0[k].1.len() > 0 by {
            if k < prev.0.len() {
                assert(cur.0[k] == prev.0[k]);
            }
        }
    }
}

/// Every block holds at least one deleted or added line.
pub proof fn law_blocks_nonempty(lines: Seq<HunkLine>)
    ensures
        forall|k: int|
            0 <= k < spec_blocks(lines).len() ==> (#[trigger] spec_blocks(lines)[k]).0.len() > 0
                || spec_blocks(lines)[k].1.len() > 0,
{
    lemma_block_state_nonempty(lines);
}

/// The sign drawn for a diff line (its second span) is `+` exactly for
/// additions, `-` exactly for deletions, a space exactly for context lines,
/// and `\ ` exactly for the no-newline markers; a hunk draws each of its
/// lines so, after its header.
pub proof fn law_line_sign(h: DiffHunk, i: int, underline: bool)
    requires
        0 <= i < h.lines@.len(),
    ensures
        ({
            let l = h.lines@[i];
            let sign = spec_line_spans(l, underline)[1].0;
            &&& spec_hunk_display(h, underline)[i + 1] == spec_line_spans(l, underline)
            &&& (sign == "+"@ <==> l.line_type == DiffLineType::Addition)
            &&& (sign == "-"@ <==> l.line_type == DiffLineType::Deletion)
            &&& (sign == " "@ <==> l.line_type == DiffLineType::Context)
            &&& (sign == "\\ "@ <==> (l.line_type == DiffLineType::AddEofnl || l.line_type
                == DiffLineType::DelEofnl))
        }),
{
    reveal_strlit("+");
    reveal_strlit("-");
    reveal_strlit(" ");
    reveal_strlit("\\ ");
    let l = h.lines@[i];
    let sign = spec_line_spans(l, underline)[1].0;
    let look = crate::widgets::diff_view::spec_line_look(l.line_type);
    assert(sign == look.0);
    let rows = h.lines@.map_values(|m: DiffLine| spec_line_spans(m, underline));
    assert(spec_hunk_display(h, underline)[i + 1] == rows[i]);
    assert("+"@ =~= seq!['+']);
    assert("-"@ =~= seq!['-']);
    assert(" "@ =~= seq![' ']);
    assert("\\ "@ =~= seq!['\\', ' ']);
    let signs = seq!["+"@, "-"@, " "@, "\\ "@];
    assert(forall|a: int, b: int|
        0 <= a < 4 && 0 <= b < 4 && a != b ==> #[trigger] signs[a] != #[trigger] signs[b]) by {
        assert forall|a: int, b: int| 0 <= a < 4 && 0 <= b < 4 && a != b implies #[trigger] signs[a]
            != #[trigger] signs[b] by {
            if signs[a].len() == signs[b].len() {
                assert(signs[a][0] != signs[b][0]);
            }
        }
    }
    assert(signs[0] != signs[1] && signs[0] != signs[2] && signs[0] != signs[3]);
    assert(signs[1] != signs[2] && signs[1] != signs[3] && signs[2] != signs[3]);
}

/// Each file status is shown by its own letter, its initial after a space:
/// `A`dded, `M`odified, `D`eleted, `R`enamed, `C`opied, `T`ypechange; two
/// statuses never share a letter.
pub proof fn law_status_marks(a: FileChangeStatus, b: FileChangeStatus)
    ensures
        spec_status_mark(a).0.len() == 2,
        spec_status_mark(a).0[0] == ' ',
        spec_status_mark(a).0[1] == match a {
            FileChangeStatus::Added => 'A',
            FileChangeStatus::Modified => 'M',
            FileChangeStatus::Deleted => 'D',
            FileChangeStatus::Renamed => 'R',
            FileChangeStatus::Copied => 'C',
            FileChangeStatus::Typechange => 'T',
        },
        a != b ==> spec_status_mark(a).0 != spec_status_mark(b).0,
{
    reveal_strlit(" A");
    reveal_strlit(" M");
    reveal_strlit(" D");
    reveal_strlit(" R");
    reveal_strlit(" C");
    reveal_strlit(" T");
    if a != b {
        assert(spec_status_mark(a).0[1] != spec_status_mark(b).0[1]);
    }
}

/// Trimming leading white space from `s[a..b]` stops at the first other
/// character.
proof fn lemma_trim_start_stops(s: Seq<char>, a: int, b: int)
    requires
        0 <= a <= b <= s.len(),
    ensures
        a <= spec_trim_start(s, a, b) <= b,
        forall|k: int| a <= k < spec_trim_start(s, a, b) ==> spec_is_whitespace(#[trigger] s[k]),
        spec_trim_start(s, a, b) < b ==> !spec_is_whitespace(s[spec_trim_start(s, a, b)]),
    decreases b - a,
{
    if a < b && spec_is_whitespace(s[a]) {
        lemma_trim_start_stops(s, a + 1, b);
    }
}

/// A commit's summary is the first line of its description and its body is
/// all the rest with only the leading white space removed: when the
/// description holds a newline, summary, newline, some white space and body
/// make it up again, the summary holding no newline and the body not
/// starting with white space; otherwise the summary is the whole
/// description and the body is empty.
pub proof fn law_log_summary_and_body(full: Seq<char>)
    ensures
        full.contains('\n') ==> exists|ws: Seq<char>|
            #![trigger log_summary(full) + seq!['\n'] + ws]
            {
                &&& full == log_summary(full) + seq!['\n'] + ws + log_description(full)
                &&& forall|k: int| 0 <= k < ws.len() ==> spec_is_whitespace(#[trigger] ws[k])
            },
        !log_summary(full).contains('\n'),
        log_description(full).len() > 0 ==> !spec_is_whitespace(log_description(full)[0]),
        !full.contains('\n') ==> log_summary(full) == full && log_description(full).len() == 0,
{
    lemma_find_bounds(full, 0, '\n');
    let i = spec_find(full, 0, '\n');
    if i < full.len() {
        let rest = full.subrange(i + 1, full.len() as int);
        lemma_trim_start_stops(rest, 0, rest.len() as int);
        let j = spec_trim_start(rest, 0, rest.len() as int);
        let ws = rest.subrange(0, j);
        assert(log_summary(full) == full.subrange(0, i));
        assert(log_description(full) == rest.subrange(j, rest.len() as int));
        assert(full =~= full.subrange(0, i) + seq!['\n'] + ws + rest.subrange(j, rest.len() as int));
        assert(full == log_summary(full) + seq!['\n'] + ws + log_description(full));
        assert(!full.subrange(0, i).contains('\n')) by {
            if full.subrange(0, i).contains('\n') {
                let k = choose|k: int| 0 <= k < i && full.subrange(0, i)[k] == '\n';
                assert(full[k] == '\n');
            }
        }
        assert(forall|k: int| 0 <= k < ws.len() ==> spec_is_whitespace(#[trigger] ws[k])) by {
            assert forall|k: int| 0 <= k < ws.len() implies spec_is_whitespace(#[trigger] ws[k]) by {
                assert(ws[k] == rest[k]);
            }
        }
    } else {
        assert(!full.contains('\n')) by {
            if full.contains('\n') {
                let k = choose|k: int| 0 <= k < full.len() && full[k] == '\n';
                assert(full[k] != '\n');
            }
        }
        assert(!log_summary(full).contains('\n'));
    }
}

} // verus!
