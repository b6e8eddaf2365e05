//! Turning the lines of a diff hunk into displayable lines: highlight tokens
//! split where word-level changes begin and end.
//!
//! Positions are byte offsets into a line's text, as the word diff gives
//! them.

use vstd::prelude::*;

use std::collections::BTreeMap;

use crate::services::highlight::{line_tokens_view, HighlightedFile};
use crate::models::pr::{DiffHunk, DiffLine, DiffLineType, FileChangeStatus, FileEntry, HighlightToken};
use crate::services::word_diff::{
    all_pairs, compute_word_diff, HunkLines, spec_deletions, spec_insertions, Block, SideLine,
    ranges_map_matches, blocks_view,
};
use crate::text::{
    char_width, int_ranges, lemma_utf8_len_mono, lemma_utf8_len_prefix, spec_utf8_len,
    eq_str, push_str, str_chars, string_of, utf8_len,
};

verus! {

broadcast use {vstd::std_specs::btree::group_btree_axioms, vstd::laws_cmp::group_laws_cmp};

/// A run of highlighted text, as the syntax highlighter gives it.
#[derive(Clone, Debug)]
pub struct Token {
    pub content: String,
    /// CSS hex color, `None` for the default foreground.
    pub color: Option<String>,
}

/// The text of an optional string.
pub open spec fn opt_view(o: Option<String>) -> Option<Seq<char>> {
    match o {
        Some(s) => Some(s@),
        None => None,
    }
}

/// A highlight token by its text, color and change flag.
pub open spec fn hl_view(t: HighlightToken) -> (Seq<char>, Option<Seq<char>>, bool) {
    (t.content@, opt_view(t.color), t.changed)
}

/// Whether byte position `pos` lies in one of `ranges`.
pub open spec fn spec_in_change_range(pos: int, ranges: Seq<(int, int)>) -> bool {
    exists|i: int| 0 <= i < ranges.len() && ranges[i].0 <= pos < (#[trigger] ranges[i]).1
}

/// The next position after `cur` where a piece ends: the nearest range start
/// after `cur`, or the end of a range holding `cur`, or `end`.
pub open spec fn spec_next_boundary(cur: int, end: int, ranges: Seq<(int, int)>) -> int
    decreases ranges.len(),
{
    if ranges.len() == 0 {
        end
    } else {
        let n = spec_next_boundary(cur, end, ranges.drop_last());
        let (s, e) = ranges.last();
        let n1 = if s > cur && s < n {
            s as int
        } else {
            n
        };
        if cur >= s && cur < e && e < n1 {
            e as int
        } else {
            n1
        }
    }
}

proof fn lemma_next_boundary_bounds(cur: int, end: int, ranges: Seq<(int, int)>)
    requires
        cur < end,
    ensures
        cur < spec_next_boundary(cur, end, ranges) <= end,
    decreases ranges.len(),
{
    if ranges.len() > 0 {
        lemma_next_boundary_bounds(cur, end, ranges.drop_last());
    }
}

/// Whether `pos` lies in one of `ranges`.
pub fn is_in_change_range(pos: usize, ranges: &Vec<(usize, usize)>) -> (r: bool)
    ensures
        r == spec_in_change_range(pos as int, int_ranges(ranges@)),
{
    let mut i: usize = 0;
    while i < ranges.len()
        invariant
            i <= ranges@.len(),
            forall|j: int| 0 <= j < i ==> !(ranges@[j].0 <= pos < (#[trigger] ranges@[j]).1),
        decreases ranges.len() - i,
    {
        let (start, end) = ranges[i];
        if pos >= start && pos < end {
            proof {
                assert(int_ranges(ranges@)[i as int] == (start as int, end as int));
            }
            return true;
        }
        i = i + 1;
    }
    proof {
        assert forall|j: int| 0 <= j < ranges@.len() implies !(int_ranges(ranges@)[j].0 <= pos
            < (#[trigger] int_ranges(ranges@)[j]).1) by {
            assert(int_ranges(ranges@)[j] == (ranges@[j].0 as int, ranges@[j].1 as int));
        }
    }
    false
}

/// Where the piece starting at `current_pos` ends (at the latest at
/// `token_end`).
pub fn find_next_boundary(current_pos: usize, token_end: usize, ranges: &Vec<(usize, usize)>) -> (r: usize)
    ensures
        r == spec_next_boundary(current_pos as int, token_end as int, int_ranges(ranges@)),
{
    let mut next = token_end;
    let mut i: usize = 0;
    while i < ranges.len()
        invariant
            i <= ranges@.len(),
            next == spec_next_boundary(
                current_pos as int,
                token_end as int,
                int_ranges(ranges@.take(i as int)),
            ),
        decreases ranges.len() - i,
    {
        proof {
            assert(int_ranges(ranges@.take(i + 1)).drop_last() =~= int_ranges(ranges@.take(i as int)));
            assert(int_ranges(ranges@.take(i + 1)).last() == (ranges@[i as int].0 as int, ranges@[i as int].1 as int));
        }
        let (start, end) = ranges[i];
        if start > current_pos && start < next {
            next = start;
        }
        if current_pos >= start && current_pos < end && end < next {
            next = end;
        }
        i = i + 1;
    }
    proof {
        assert(ranges@.take(i as int) =~= ranges@);
    }
    next
}

/// The first character index from `k` on whose byte offset (from `start`)
/// reaches `target`, or the length.
pub open spec fn spec_advance(cs: Seq<char>, start: int, k: int, target: int) -> int
    decreases cs.len() - k,
{
    if k >= cs.len() || start + spec_utf8_len(cs.take(k)) >= target {
        k
    } else {
        spec_advance(cs, start, k + 1, target)
    }
}

pub proof fn lemma_advance_bounds(cs: Seq<char>, start: int, k: int, target: int)
    requires
        0 <= k,
    ensures
        k <= spec_advance(cs, start, k, target),
        k <= cs.len() ==> spec_advance(cs, start, k, target) <= cs.len(),
    decreases cs.len() - k,
{
    if !(k >= cs.len() || start + spec_utf8_len(cs.take(k)) >= target) {
        lemma_advance_bounds(cs, start, k + 1, target);
    }
}

/// The pieces of the characters `cs` (whose first byte is at `start`) from
/// character `k` on: each runs from its start to the next boundary, flagged
/// with whether its start lies in a change range.
pub open spec fn spec_pieces(cs: Seq<char>, start: int, k: int, ranges: Seq<(int, int)>) -> Seq<
    (Seq<char>, bool),
>
    decreases cs.len() - k,
{
    if k < 0 || k >= cs.len() {
        Seq::empty()
    } else {
        let cur = start + spec_utf8_len(cs.take(k));
        let nb = spec_next_boundary(cur, start + spec_utf8_len(cs), ranges);
        let k2 = spec_advance(cs, start, k + 1, nb);
        proof {
            lemma_advance_bounds(cs, start, k + 1, nb);
        }
        seq![(cs.subrange(k, k2), spec_in_change_range(cur, ranges))] + spec_pieces(
            cs,
            start,
            k2,
            ranges,
        )
    }
}

/// Total bytes of the tokens' text.
pub open spec fn spec_token_bytes(tokens: Seq<Token>) -> nat
    decreases tokens.len(),
{
    if tokens.len() == 0 {
        0
    } else {
        spec_token_bytes(tokens.drop_last()) + spec_utf8_len(tokens.last().content@)
    }
}

/// The tokens split at the change boundaries, each piece keeping its token's
/// color.
pub open spec fn spec_split_tokens(tokens: Seq<Token>, ranges: Seq<(int, int)>) -> Seq<
    (Seq<char>, Option<Seq<char>>, bool),
>
    decreases tokens.len(),
{
    if tokens.len() == 0 {
        Seq::empty()
    } else {
        let t = tokens.last();
        spec_split_tokens(tokens.drop_last(), ranges) + spec_pieces(
            t.content@,
            spec_token_bytes(tokens.drop_last()) as int,
            0,
            ranges,
        ).map_values(|p: (Seq<char>, bool)| (p.0, opt_view(t.color), p.1))
    }
}

/// The tokens unchanged, none flagged as changed.
pub open spec fn spec_plain_tokens(tokens: Seq<Token>) -> Seq<(Seq<char>, Option<Seq<char>>, bool)> {
    tokens.map_values(|t: Token| (t.content@, opt_view(t.color), false))
}

/// What marking the change ranges on the tokens gives.
pub open spec fn spec_apply_change_ranges(
    tokens: Seq<Token>,
    ranges: Option<Seq<(int, int)>>,
) -> Seq<(Seq<char>, Option<Seq<char>>, bool)> {
    match ranges {
        Some(rs) => if rs.len() > 0 {
            spec_split_tokens(tokens, rs)
        } else {
            spec_plain_tokens(tokens)
        },
        None => spec_plain_tokens(tokens),
    }
}

fn clone_color(c: &Option<String>) -> (r: Option<String>)
    ensures
        opt_view(r) == opt_view(*c),
{
    match c {
        Some(s) => Some(s.clone()),
        None => None,
    }
}

/// Splits one token, whose first byte is at `start`, at the change
/// boundaries, appending the pieces to `out`.
fn split_token(
    token: &Token,
    start: usize,
    ranges: &Vec<(usize, usize)>,
    out: &mut Vec<HighlightToken>,
)
    requires
        start + spec_utf8_len(token.content@) <= usize::MAX,
    ensures
        final(out)@.map_values(|t: HighlightToken| hl_view(t)) == old(out)@.map_values(
            |t: HighlightToken| hl_view(t),
        ) + spec_pieces(token.content@, start as int, 0, int_ranges(ranges@)).map_values(
            |p: (Seq<char>, bool)| (p.0, opt_view(token.color), p.1),
        ),
{
    let cs = str_chars(token.content.as_str());
    let ghost c = cs@;
    proof {
        assert(cs@.take(cs@.len() as int) =~= cs@);
        lemma_utf8_len_mono(c, 0, c.len() as int);
        assert(c.take(0) =~= Seq::<char>::empty());
    }
    let total = utf8_len(&cs);
    let end = start + total;
    let ghost out0 = old(out)@.map_values(|t: HighlightToken| hl_view(t));
    let ghost color = opt_view(token.color);
    let mut k: usize = 0;
    let mut acc: usize = 0;
    while k < cs.len()
        invariant
            c == cs@,
            c == token.content@,
            color == opt_view(token.color),
            k <= c.len(),
            acc == spec_utf8_len(c.take(k as int)),
            end == start + spec_utf8_len(c),
            end <= usize::MAX,
            out@.map_values(|t: HighlightToken| hl_view(t)) + spec_pieces(c, start as int, k as int, int_ranges(ranges@)).map_values(
                |p: (Seq<char>, bool)| (p.0, color, p.1),
            ) == out0 + spec_pieces(c, start as int, 0, int_ranges(ranges@)).map_values(
                |p: (Seq<char>, bool)| (p.0, color, p.1),
            ),
        decreases c.len() - k,
    {
        proof {
            assert(c.take(c.len() as int) =~= c);
            lemma_utf8_len_prefix(c, k + 1);
            lemma_utf8_len_mono(c, k + 1, c.len() as int);
        }
        let cur = start + acc;
        let nb = find_next_boundary(cur, end, ranges);
        let changed = is_in_change_range(cur, ranges);
        proof {
            lemma_next_boundary_bounds(cur as int, end as int, int_ranges(ranges@));
        }
        let k0 = k;
        let mut piece: Vec<char> = Vec::new();
        piece.push(cs[k]);
        proof {
            lemma_utf8_len_prefix(c, k + 1);
        }
        acc = acc + char_width(cs[k]);
        k = k + 1;
        proof {
            assert(piece@ =~= c.subrange(k0 as int, k as int));
            lemma_utf8_len_mono(c, k as int, c.len() as int);
        }
        while k < cs.len() && start + acc < nb
            invariant
                c == cs@,
                k0 < k <= c.len(),
                acc == spec_utf8_len(c.take(k as int)),
                end == start + spec_utf8_len(c),
                end <= usize::MAX,
                nb <= end,
                acc <= end - start,
                c.take(c.len() as int) == c,
                piece@ == c.subrange(k0 as int, k as int),
                spec_advance(c, start as int, k0 + 1, nb as int) == spec_advance(
                    c,
                    start as int,
                    k as int,
                    nb as int,
                ),
            decreases c.len() - k,
        {
            proof {
                lemma_utf8_len_prefix(c, k + 1);
                lemma_utf8_len_mono(c, k + 1, c.len() as int);
            }
            piece.push(cs[k]);
            acc = acc + char_width(cs[k]);
            k = k + 1;
            proof {
                assert(piece@ =~= c.subrange(k0 as int, k as int));
            }
        }
        let ghost before = out@.map_values(|t: HighlightToken| hl_view(t));
        out.push(HighlightToken { content: string_of(&piece), color: clone_color(&token.color), changed });
        proof {
            assert(out@.map_values(|t: HighlightToken| hl_view(t)) =~= before.push(
                (c.subrange(k0 as int, k as int), color, changed),
            ));
            let rest = spec_pieces(c, start as int, k0 as int, int_ranges(ranges@));
            assert(spec_advance(c, start as int, k as int, nb as int) == k);
            assert(rest == seq![(c.subrange(k0 as int, k as int), changed)] + spec_pieces(
                c,
                start as int,
                k as int,
                int_ranges(ranges@),
            ));
            let f = |p: (Seq<char>, bool)| (p.0, color, p.1);
            assert(rest.map_values(f) =~= seq![(c.subrange(k0 as int, k as int), color, changed)]
                + spec_pieces(c, start as int, k as int, int_ranges(ranges@)).map_values(f));
            assert(out@.map_values(|t: HighlightToken| hl_view(t)) + spec_pieces(
                c,
                start as int,
                k as int,
                int_ranges(ranges@),
            ).map_values(f) =~= before + rest.map_values(f));
        }
    }
    proof {
        assert(spec_pieces(c, start as int, k as int, int_ranges(ranges@)) =~= Seq::<(Seq<char>, bool)>::empty());
        let f = |p: (Seq<char>, bool)| (p.0, color, p.1);
        assert(spec_pieces(c, start as int, k as int, int_ranges(ranges@)).map_values(f) =~= Seq::<
            (Seq<char>, Option<Seq<char>>, bool),
        >::empty());
        assert(out@.map_values(|t: HighlightToken| hl_view(t)) =~= out@.map_values(
            |t: HighlightToken| hl_view(t),
        ) + spec_pieces(c, start as int, k as int, int_ranges(ranges@)).map_values(f));
    }
}

proof fn lemma_token_bytes_prefix(tokens: Seq<Token>, i: int)
    requires
        0 <= i <= tokens.len(),
    ensures
        spec_token_bytes(tokens.take(i)) <= spec_token_bytes(tokens),
    decreases tokens.len() - i,
{
    if i < tokens.len() {
        lemma_token_bytes_prefix(tokens, i + 1);
        assert(tokens.take(i + 1).drop_last() =~= tokens.take(i));
    } else {
        assert(tokens.take(i) =~= tokens);
    }
}

/// Splits highlight tokens where word-level changes begin and end, flagging
/// the pieces inside a change; with no ranges (or an empty list) the tokens
/// are kept whole and unflagged.
pub fn apply_change_ranges_to_tokens(
    tokens: &Vec<Token>,
    change_ranges: Option<&Vec<(usize, usize)>>,
) -> (r: Vec<HighlightToken>)
    requires
        spec_token_bytes(tokens@) <= usize::MAX,
    ensures
        r@.map_values(|t: HighlightToken| hl_view(t)) == spec_apply_change_ranges(
            tokens@,
            match change_ranges {
                Some(rs) => Some(int_ranges(rs@)),
                None => None,
            },
        ),
{
    let ranges = match change_ranges {
        Some(rs) => if rs.len() > 0 {
            rs
        } else {
            return plain_tokens(tokens);
        },
        None => return plain_tokens(tokens),
    };
    let mut result: Vec<HighlightToken> = Vec::new();
    let mut pos: usize = 0;
    let mut t: usize = 0;
    proof {
        assert(result@.map_values(|t: HighlightToken| hl_view(t)) =~= spec_split_tokens(
            tokens@.take(0),
            int_ranges(ranges@),
        ));
    }
    while t < tokens.len()
        invariant
            t <= tokens@.len(),
            spec_token_bytes(tokens@) <= usize::MAX,
            pos == spec_token_bytes(tokens@.take(t as int)),
            result@.map_values(|t: HighlightToken| hl_view(t)) == spec_split_tokens(
                tokens@.take(t as int),
                int_ranges(ranges@),
            ),
        decreases tokens.len() - t,
    {
        proof {
            assert(tokens@.take(t + 1).drop_last() =~= tokens@.take(t as int));
            assert(tokens@.take(t + 1).last() == tokens@[t as int]);
            lemma_token_bytes_prefix(tokens@, t + 1);
        }
        let token = &tokens[t];
        split_token(token, pos, ranges, &mut result);
        let cs = str_chars(token.content.as_str());
        let n = utf8_len(&cs);
        pos = pos + n;
        t = t + 1;
    }
    proof {
        assert(tokens@.take(t as int) =~= tokens@);
    }
    result
}

/// The tokens as highlight tokens, none flagged as changed.
fn plain_tokens(tokens: &Vec<Token>) -> (r: Vec<HighlightToken>)
    ensures
        r@.map_values(|t: HighlightToken| hl_view(t)) == spec_plain_tokens(tokens@),
{
    let mut out: Vec<HighlightToken> = Vec::new();
    let mut i: usize = 0;
    while i < tokens.len()
        invariant
            i <= tokens@.len(),
            out@.map_values(|t: HighlightToken| hl_view(t)) == spec_plain_tokens(
                tokens@.take(i as int),
            ),
        decreases tokens.len() - i,
    {
        let ghost before = out@.map_values(|t: HighlightToken| hl_view(t));
        let ghost f = |t: Token| (t.content@, opt_view(t.color), false);
        out.push(
            HighlightToken {
                content: tokens[i].content.clone(),
                color: clone_color(&tokens[i].color),
                changed: false,
            },
        );
        proof {
            assert(tokens@.take(i + 1).map_values(f) =~= tokens@.take(i as int).map_values(f).push(
                f(tokens@[i as int]),
            ));
            assert(out@.map_values(|t: HighlightToken| hl_view(t)) =~= before.push(
                hl_view(out@[i as int]),
            ));
            assert(spec_plain_tokens(tokens@.take(i + 1)) == tokens@.take(i + 1).map_values(f));
        }
        i = i + 1;
    }
    proof {
        assert(tokens@.take(i as int) =~= tokens@);
    }
    out
}

/// The kind of a line of a patch, as git reports it.
#[derive(Debug, Clone, Copy, PartialEq, Eq, Structural)]
pub enum LineOrigin {
    Context,
    ContextEofnl,
    Addition,
    Deletion,
    AddEofnl,
    DeleteEofnl,
    FileHeader,
    HunkHeader,
    Binary,
}

/// How git classifies a changed file.
#[derive(Debug, Clone, Copy, PartialEq, Eq, Structural)]
pub enum DeltaStatus {
    Unmodified,
    Added,
    Deleted,
    Modified,
    Renamed,
    Copied,
    Ignored,
    Untracked,
    Typechange,
    Unreadable,
    Conflicted,
}

/// A line of a patch hunk: its kind, its line numbers, its text (invalid
/// UTF-8 replaced) and whether its bytes were valid UTF-8.
#[derive(Clone, Debug)]
pub struct HunkLine {
    pub origin: LineOrigin,
    pub old_lineno: Option<u32>,
    pub new_lineno: Option<u32>,
    pub content: String,
    pub is_utf8: bool,
}

/// A hunk of a patch: its header numbers and text, and its lines.
#[derive(Clone, Debug)]
pub struct HunkData {
    pub old_start: u32,
    pub old_lines: u32,
    pub new_start: u32,
    pub new_lines: u32,
    pub header: String,
    pub lines: Vec<HunkLine>,
}

/// The display kind of a patch line; headers and other kinds count as
/// context.
pub open spec fn spec_line_type(origin: LineOrigin) -> DiffLineType {
    match origin {
        LineOrigin::Context | LineOrigin::ContextEofnl => DiffLineType::Context,
        LineOrigin::Addition => DiffLineType::Addition,
        LineOrigin::Deletion => DiffLineType::Deletion,
        LineOrigin::AddEofnl => DiffLineType::AddEofnl,
        LineOrigin::DeleteEofnl => DiffLineType::DelEofnl,
        _ => DiffLineType::Context,
    }
}

pub fn map_line_type(origin: LineOrigin) -> (r: DiffLineType)
    ensures
        r == spec_line_type(origin),
{
    match origin {
        LineOrigin::Context | LineOrigin::ContextEofnl => DiffLineType::Context,
        LineOrigin::Addition => DiffLineType::Addition,
        LineOrigin::Deletion => DiffLineType::Deletion,
        LineOrigin::AddEofnl => DiffLineType::AddEofnl,
        LineOrigin::DeleteEofnl => DiffLineType::DelEofnl,
        _ => DiffLineType::Context,
    }
}

/// The file status of a delta; kinds without a counterpart count as
/// modified.
pub fn map_delta_status(status: DeltaStatus) -> (r: FileChangeStatus)
    ensures
        r == match status {
            DeltaStatus::Added => FileChangeStatus::Added,
            DeltaStatus::Deleted => FileChangeStatus::Deleted,
            DeltaStatus::Modified => FileChangeStatus::Modified,
            DeltaStatus::Renamed => FileChangeStatus::Renamed,
            DeltaStatus::Copied => FileChangeStatus::Copied,
            DeltaStatus::Typechange => FileChangeStatus::Typechange,
            _ => FileChangeStatus::Modified,
        },
{
    match status {
        DeltaStatus::Added => FileChangeStatus::Added,
        DeltaStatus::Deleted => FileChangeStatus::Deleted,
        DeltaStatus::Modified => FileChangeStatus::Modified,
        DeltaStatus::Renamed => FileChangeStatus::Renamed,
        DeltaStatus::Copied => FileChangeStatus::Copied,
        DeltaStatus::Typechange => FileChangeStatus::Typechange,
        _ => FileChangeStatus::Modified,
    }
}

/// Blocks read so far from hunk lines: the finished blocks, and the deleted
/// and added lines of the block being read.
pub open spec fn spec_block_state(lines: Seq<HunkLine>) -> (
    Seq<(Seq<(u32, Seq<char>)>, Seq<(u32, Seq<char>)>)>,
    Seq<(u32, Seq<char>)>,
    Seq<(u32, Seq<char>)>,
)
    decreases lines.len(),
{
    if lines.len() == 0 {
        (Seq::empty(), Seq::empty(), Seq::empty())
    } else {
        let prev = spec_block_state(lines.drop_last());
        let l = lines.last();
        if !l.is_utf8 {
            prev
        } else {
            match l.origin {
                LineOrigin::Context | LineOrigin::ContextEofnl => if prev.1.len() > 0 || prev.2.len()
                    > 0 {
                    (prev.0.push((prev.1, prev.2)), Seq::empty(), Seq::empty())
                } else {
                    prev
                },
                LineOrigin::Deletion => match l.old_lineno {
                    Some(n) => (prev.0, prev.1.push((n, l.content@)), prev.2),
                    None => prev,
                },
                LineOrigin::Addition => match l.new_lineno {
                    Some(n) => (prev.0, prev.1, prev.2.push((n, l.content@))),
                    None => prev,
                },
                _ => prev,
            }
        }
    }
}

/// The blocks of a hunk: each run of deleted and added lines between context
/// lines (lines that are not valid UTF-8 are left out).
pub open spec fn spec_blocks(lines: Seq<HunkLine>) -> Seq<
    (Seq<(u32, Seq<char>)>, Seq<(u32, Seq<char>)>),
> {
    let st = spec_block_state(lines);
    if st.1.len() > 0 || st.2.len() > 0 {
        st.0.push((st.1, st.2))
    } else {
        st.0
    }
}

/// Side lines by line number and text.
pub open spec fn side_view(v: Seq<SideLine>) -> Seq<(u32, Seq<char>)> {
    v.map_values(|l: SideLine| (l.lineno, l.content@))
}

/// A copy of a hunk line as a side line.
fn side_line(lineno: u32, line: &HunkLine) -> (r: SideLine)
    ensures
        r.lineno == lineno,
        r.content@ == line.content@,
{
    SideLine { lineno, content: line.content.clone() }
}

impl HunkLines for HunkData {
    /// The blocks of the hunk: each run of deleted and added lines between
    /// context lines.
    fn blocks(&self) -> (r: Vec<Block>)
        ensures
            blocks_view(r@) == spec_blocks(self.lines@),
    {
        let mut blocks: Vec<Block> = Vec::new();
        let mut old_lines: Vec<SideLine> = Vec::new();
        let mut new_lines: Vec<SideLine> = Vec::new();
        let mut i: usize = 0;
        while i < self.lines.len()
            invariant
                i <= self.lines@.len(),
                blocks_view(blocks@) == spec_block_state(self.lines@.take(i as int)).0,
                side_view(old_lines@) == spec_block_state(self.lines@.take(i as int)).1,
                side_view(new_lines@) == spec_block_state(self.lines@.take(i as int)).2,
            decreases self.lines.len() - i,
        {
            let line = &self.lines[i];
            proof {
                assert(self.lines@.take(i + 1).drop_last() =~= self.lines@.take(i as int));
                assert(self.lines@.take(i + 1).last() == *line);
            }
            let ghost bv = blocks_view(blocks@);
            let ghost ov = side_view(old_lines@);
            let ghost nv = side_view(new_lines@);
            if line.is_utf8 {
                match line.origin {
                    LineOrigin::Context | LineOrigin::ContextEofnl => {
                        if old_lines.len() > 0 || new_lines.len() > 0 {
                            let mut olds: Vec<SideLine> = Vec::new();
                            let mut news: Vec<SideLine> = Vec::new();
                            std::mem::swap(&mut olds, &mut old_lines);
                            std::mem::swap(&mut news, &mut new_lines);
                            blocks.push(Block { old_lines: olds, new_lines: news });
                            proof {
                                assert(blocks_view(blocks@) =~= bv.push((ov, nv)));
                                assert(side_view(old_lines@) =~= Seq::<(u32, Seq<char>)>::empty());
                                assert(side_view(new_lines@) =~= Seq::<(u32, Seq<char>)>::empty());
                            }
                        }
                    },
                    LineOrigin::Deletion => {
                        if let Some(n) = line.old_lineno {
                            old_lines.push(side_line(n, line));
                            proof {
                                assert(side_view(old_lines@) =~= ov.push((n, line.content@)));
                            }
                        }
                    },
                    LineOrigin::Addition => {
                        if let Some(n) = line.new_lineno {
                            new_lines.push(side_line(n, line));
                            proof {
                                assert(side_view(new_lines@) =~= nv.push((n, line.content@)));
                            }
                        }
                    },
                    _ => {},
                }
            }
            i = i + 1;
        }
        proof {
            assert(self.lines@.take(i as int) =~= self.lines@);
        }
        if old_lines.len() > 0 || new_lines.len() > 0 {
            let ghost bv = blocks_view(blocks@);
            let ghost ov = side_view(old_lines@);
            let ghost nv = side_view(new_lines@);
            blocks.push(Block { old_lines, new_lines });
            proof {
                assert(blocks_view(blocks@) =~= bv.push((ov, nv)));
            }
        }
        blocks
    }
}

/// A display line by its kind, line numbers and token views.
pub open spec fn diff_line_view(l: DiffLine) -> (
    DiffLineType,
    Option<u32>,
    Option<u32>,
    Seq<(Seq<char>, Option<Seq<char>>, bool)>,
) {
    (l.line_type, l.old_lineno, l.new_lineno, l.tokens@.map_values(|t: HighlightToken| hl_view(t)))
}

/// The entry of `m` for an optional key.
pub open spec fn lookup(m: Map<u32, (u32, Seq<(int, int)>)>, k: Option<u32>) -> Option<
    (u32, Seq<(int, int)>),
> {
    match k {
        Some(n) => if m.contains_key(n) {
            Some(m[n])
        } else {
            None
        },
        None => None,
    }
}

/// The display line of a hunk line with its highlight tokens, given the
/// word-level deletions and insertions; `None` for kinds not shown.
pub open spec fn spec_display_line(
    l: HunkLine,
    tokens: Seq<Token>,
    dels: Map<u32, (u32, Seq<(int, int)>)>,
    ins: Map<u32, (u32, Seq<(int, int)>)>,
) -> Option<(DiffLineType, Option<u32>, Option<u32>, Seq<(Seq<char>, Option<Seq<char>>, bool)>)> {
    match spec_line_type(l.origin) {
        DiffLineType::Context => Some(
            (DiffLineType::Context, l.old_lineno, l.new_lineno, spec_plain_tokens(tokens)),
        ),
        DiffLineType::Deletion => {
            let info = lookup(dels, l.old_lineno);
            Some(
                (
                    DiffLineType::Deletion,
                    l.old_lineno,
                    match info {
                        Some(p) => Some(p.0),
                        None => None,
                    },
                    spec_apply_change_ranges(
                        tokens,
                        match info {
                            Some(p) => Some(p.1),
                            None => None,
                        },
                    ),
                ),
            )
        },
        DiffLineType::Addition => {
            let info = lookup(ins, l.new_lineno);
            Some(
                (
                    DiffLineType::Addition,
                    match info {
                        Some(p) => Some(p.0),
                        None => None,
                    },
                    l.new_lineno,
                    spec_apply_change_ranges(
                        tokens,
                        match info {
                            Some(p) => Some(p.1),
                            None => None,
                        },
                    ),
                ),
            )
        },
        _ => None,
    }
}

/// The display lines of hunk lines with their tokens.
pub open spec fn spec_display_lines(
    lines: Seq<HunkLine>,
    tokens: Seq<Vec<Token>>,
    dels: Map<u32, (u32, Seq<(int, int)>)>,
    ins: Map<u32, (u32, Seq<(int, int)>)>,
) -> Seq<(DiffLineType, Option<u32>, Option<u32>, Seq<(Seq<char>, Option<Seq<char>>, bool)>)>
    decreases lines.len(),
{
    if lines.len() == 0 || tokens.len() < lines.len() {
        Seq::empty()
    } else {
        let prev = spec_display_lines(
            lines.drop_last(),
            tokens.take(lines.len() - 1),
            dels,
            ins,
        );
        match spec_display_line(lines.last(), tokens[lines.len() - 1]@, dels, ins) {
            Some(d) => prev.push(d),
            None => prev,
        }
    }
}

/// Marks the ranges of an optional word-diff entry on `tokens`.
fn mark_entry(tokens: &Vec<Token>, entry: Option<&(u32, Vec<(usize, usize)>)>) -> (r: (
    Option<u32>,
    Vec<HighlightToken>,
))
    requires
        spec_token_bytes(tokens@) <= usize::MAX,
    ensures
        r.0 == match entry {
            Some(e) => Some(e.0),
            None => None,
        },
        r.1@.map_values(|t: HighlightToken| hl_view(t)) == spec_apply_change_ranges(
            tokens@,
            match entry {
                Some(e) => Some(int_ranges(e.1@)),
                None => None,
            },
        ),
{
    match entry {
        Some(e) => (Some(e.0), apply_change_ranges_to_tokens(tokens, Some(&e.1))),
        None => (None, apply_change_ranges_to_tokens(tokens, None)),
    }
}

/// The entry of a word-diff map for an optional line number.
fn get_entry<'a>(m: &'a BTreeMap<u32, (u32, Vec<(usize, usize)>)>, k: Option<u32>) -> (r: Option<
    &'a (u32, Vec<(usize, usize)>),
>)
    ensures
        match k {
            Some(n) => if m@.contains_key(n) {
                r == Some(&m@[n])
            } else {
                r is None
            },
            None => r is None,
        },
{
    match k {
        Some(n) => m.get(&n),
        None => None,
    }
}

/// The tokens a line of a hunk is shown with: a deleted line's are those of
/// its line in the old file, any other line's those of its line in the new
/// file; a line without that number, or past the end of the file, is one
/// token of its text without color.
pub open spec fn spec_hunk_line_tokens(
    old_file: Seq<Vec<Token>>,
    new_file: Seq<Vec<Token>>,
    l: HunkLine,
) -> Seq<(Seq<char>, Option<Seq<char>>)> {
    let (file, n) = if l.origin == LineOrigin::Deletion {
        (old_file, l.old_lineno)
    } else {
        (new_file, l.new_lineno)
    };
    match n {
        Some(k) => if 1 <= k <= file.len() {
            line_tokens_view(file[k - 1])
        } else {
            seq![(l.content@, None::<Seq<char>>)]
        },
        None => seq![(l.content@, None::<Seq<char>>)],
    }
}

/// A copy of a line's tokens.
fn copy_tokens(v: &Vec<Token>) -> (r: Vec<Token>)
    ensures
        line_tokens_view(r) == line_tokens_view(*v),
{
    let mut out: Vec<Token> = Vec::new();
    let mut i: usize = 0;
    while i < v.len()
        invariant
            i <= v@.len(),
            out@.len() == i,
            forall|j: int|
                0 <= j < i ==> (#[trigger] out@[j]).content@ == v@[j].content@ && opt_view(
                    out@[j].color,
                ) == opt_view(v@[j].color),
        decreases v.len() - i,
    {
        let color = match &v[i].color {
            Some(c) => Some(c.clone()),
            None => None,
        };
        out.push(Token { content: v[i].content.clone(), color });
        i = i + 1;
    }
    proof {
        assert(line_tokens_view(out) =~= line_tokens_view(*v));
    }
    out
}

/// The tokens of each line of a hunk, taken from the highlighted old and new
/// files (see `spec_hunk_line_tokens`).
pub fn hunk_line_tokens(old_file: &HighlightedFile, new_file: &HighlightedFile, lines: &Vec<HunkLine>) -> (r:
    Vec<Vec<Token>>)
    ensures
        r@.len() == lines@.len(),
        forall|i: int|
            0 <= i < lines@.len() ==> line_tokens_view(#[trigger] r@[i]) == spec_hunk_line_tokens(
                old_file.spec_lines(),
                new_file.spec_lines(),
                lines@[i],
            ),
{
    let mut out: Vec<Vec<Token>> = Vec::new();
    let mut i: usize = 0;
    while i < lines.len()
        invariant
            i <= lines@.len(),
            out@.len() == i,
            forall|j: int|
                0 <= j < i ==> line_tokens_view(#[trigger] out@[j]) == spec_hunk_line_tokens(
                    old_file.spec_lines(),
                    new_file.spec_lines(),
                    lines@[j],
                ),
        decreases lines.len() - i,
    {
        let l = &lines[i];
        let (file, n) = if l.origin == LineOrigin::Deletion {
            (old_file, l.old_lineno)
        } else {
            (new_file, l.new_lineno)
        };
        let found = match n {
            Some(k) => file.get(k),
            None => None,
        };
        let toks = match found {
            Some(t) => copy_tokens(t),
            None => {
                let mut v: Vec<Token> = Vec::new();
                v.push(Token { content: l.content.clone(), color: None });
                proof {
                    assert(line_tokens_view(v) =~= seq![(l.content@, None::<Seq<char>>)]);
                }
                v
            },
        };
        out.push(toks);
        i = i + 1;
    }
    out
}

/// The display form of a hunk: word-level changes found between its paired
/// deleted and added lines, each line's highlight tokens (`line_tokens`, one
/// list per line, as the highlighter gave them) split and flagged where
/// words changed, and paired line numbers filled in.
pub fn process_hunk(hunk: &HunkData, line_tokens: &Vec<Vec<Token>>) -> (r: DiffHunk)
    requires
        line_tokens@.len() == hunk.lines@.len(),
        forall|i: int| 0 <= i < line_tokens@.len() ==> spec_token_bytes(#[trigger] line_tokens@[i]@)
            <= usize::MAX,
    ensures
        r.old_start == hunk.old_start,
        r.old_lines == hunk.old_lines,
        r.new_start == hunk.new_start,
        r.new_lines == hunk.new_lines,
        r.header@ == hunk.header@,
        r.lines@.map_values(|l: DiffLine| diff_line_view(l)) == spec_display_lines(
            hunk.lines@,
            line_tokens@,
            spec_deletions(all_pairs(spec_blocks(hunk.lines@))),
            spec_insertions(all_pairs(spec_blocks(hunk.lines@))),
        ),
{
    let blocks = hunk.blocks();
    let word_diff = compute_word_diff(&blocks);
    let ghost dels = spec_deletions(all_pairs(spec_blocks(hunk.lines@)));
    let ghost ins = spec_insertions(all_pairs(spec_blocks(hunk.lines@)));
    let mut lines: Vec<DiffLine> = Vec::new();
    let mut i: usize = 0;
    while i < hunk.lines.len()
        invariant
            i <= hunk.lines@.len(),
            line_tokens@.len() == hunk.lines@.len(),
            forall|j: int| 0 <= j < line_tokens@.len() ==> spec_token_bytes(#[trigger] line_tokens@[j]@)
                <= usize::MAX,
            ranges_map_matches(word_diff.deletions@, dels),
            ranges_map_matches(word_diff.insertions@, ins),
            lines@.map_values(|l: DiffLine| diff_line_view(l)) == spec_display_lines(
                hunk.lines@.take(i as int),
                line_tokens@.take(i as int),
                dels,
                ins,
            ),
        decreases hunk.lines.len() - i,
    {
        let line = &hunk.lines[i];
        let tokens = &line_tokens[i];
        let ghost before = lines@.map_values(|l: DiffLine| diff_line_view(l));
        proof {
            assert(hunk.lines@.take(i + 1).drop_last() =~= hunk.lines@.take(i as int));
            assert(hunk.lines@.take(i + 1).last() == *line);
            assert(line_tokens@.take(i + 1).take(i as int) =~= line_tokens@.take(i as int));
            assert(line_tokens@.take(i + 1)[i as int] == *tokens);
        }
        let kind = map_line_type(line.origin);
        match kind {
            DiffLineType::Context => {
                let toks = apply_change_ranges_to_tokens(tokens, None);
                lines.push(
                    DiffLine {
                        line_type: DiffLineType::Context,
                        old_lineno: line.old_lineno,
                        new_lineno: line.new_lineno,
                        tokens: toks,
                    },
                );
                proof {
                    assert(lines@.map_values(|l: DiffLine| diff_line_view(l)) =~= before.push(
                        diff_line_view(lines@[lines@.len() - 1]),
                    ));
                }
            },
            DiffLineType::Deletion => {
                let entry = get_entry(&word_diff.deletions, line.old_lineno);
                let (paired, toks) = mark_entry(tokens, entry);
                proof {
                    lemma_lookup_matches(word_diff.deletions@, dels, line.old_lineno);
                }
                lines.push(
                    DiffLine {
                        line_type: DiffLineType::Deletion,
                        old_lineno: line.old_lineno,
                        new_lineno: paired,
                        tokens: toks,
                    },
                );
                proof {
                    assert(lines@.map_values(|l: DiffLine| diff_line_view(l)) =~= before.push(
                        diff_line_view(lines@[lines@.len() - 1]),
                    ));
                }
            },
            DiffLineType::Addition => {
                let entry = get_entry(&word_diff.insertions, line.new_lineno);
                let (paired, toks) = mark_entry(tokens, entry);
                proof {
                    lemma_lookup_matches(word_diff.insertions@, ins, line.new_lineno);
                }
                lines.push(
                    DiffLine {
                        line_type: DiffLineType::Addition,
                        old_lineno: paired,
                        new_lineno: line.new_lineno,
                        tokens: toks,
                    },
                );
                proof {
                    assert(lines@.map_values(|l: DiffLine| diff_line_view(l)) =~= before.push(
                        diff_line_view(lines@[lines@.len() - 1]),
                    ));
                }
            },
            _ => {},
        }
        i = i + 1;
    }
    proof {
        assert(hunk.lines@.take(i as int) =~= hunk.lines@);
        assert(line_tokens@.take(i as int) =~= line_tokens@);
    }
    DiffHunk {
        old_start: hunk.old_start,
        old_lines: hunk.old_lines,
        new_start: hunk.new_start,
        new_lines: hunk.new_lines,
        header: hunk.header.clone(),
        lines,
    }
}

/// A word-diff map entry, looked up, matches its spec entry.
proof fn lemma_lookup_matches(
    m: Map<u32, (u32, Vec<(usize, usize)>)>,
    s: Map<u32, (u32, Seq<(int, int)>)>,
    k: Option<u32>,
)
    requires
        ranges_map_matches(m, s),
    ensures
        match k {
            Some(n) => m.contains_key(n) == s.contains_key(n) && (m.contains_key(n) ==> m[n].0
                == s[n].0 && int_ranges(m[n].1@) == s[n].1),
            None => true,
        },
{
    if let Some(n) = k {
        assert(m.dom().contains(n) == s.dom().contains(n));
    }
}

/// Why the diff of one file could not be made.
pub enum DiffError {
    /// No change of the commit touches the file.
    FileNotFound(String),
    /// Reading the repository failed, with git's message.
    Git2(String),
}

impl DiffError {
    /// The error's message, as shown to the user.
    pub fn message(&self) -> (r: String)
        ensures
            r@ == match self {
                DiffError::FileNotFound(p) => "File not found in tree: "@ + p@,
                DiffError::Git2(m) => "git2 error: "@ + m@,
            },
    {
        let mut buf: Vec<char> = Vec::new();
        match self {
            DiffError::FileNotFound(p) => {
                push_str(&mut buf, "File not found in tree: ");
                push_str(&mut buf, p.as_str());
            },
            DiffError::Git2(m) => {
                push_str(&mut buf, "git2 error: ");
                push_str(&mut buf, m.as_str());
            },
        }
        string_of(&buf)
    }
}

/// Whether a changed file with these old and new paths is `file_path`: its
/// new path or its old one is.
pub fn delta_matches(old_path: &Option<String>, new_path: &Option<String>, file_path: &str) -> (r:
    bool)
    ensures
        r == ((new_path matches Some(p) && p@ == file_path@) || (old_path matches Some(p) && p@
            == file_path@)),
{
    let new_hit = match new_path {
        Some(p) => eq_str(&str_chars(p.as_str()), file_path),
        None => false,
    };
    let old_hit = match old_path {
        Some(p) => eq_str(&str_chars(p.as_str()), file_path),
        None => false,
    };
    new_hit || old_hit
}

/// Whether `path` is one of `paths`.
pub fn contains_path(paths: &Vec<String>, path: &String) -> (r: bool)
    ensures
        r == exists|i: int| 0 <= i < paths@.len() && (#[trigger] paths@[i])@ == path@,
{
    let mut i: usize = 0;
    while i < paths.len()
        invariant
            i <= paths@.len(),
            forall|j: int| 0 <= j < i ==> (#[trigger] paths@[j])@ != path@,
        decreases paths.len() - i,
    {
        if paths[i] == *path {
            return true;
        }
        i = i + 1;
    }
    false
}

/// The file-list entry of a patch, from its paths, status, binary flags and
/// line counts; it is reviewed unless its path (the new one, else the old
/// one) is among `un_reviewed_files`, and not reviewed without a path.
pub fn file_entry_from_patch(
    old_path: Option<String>,
    new_path: Option<String>,
    status: DeltaStatus,
    old_is_binary: bool,
    new_is_binary: bool,
    additions: usize,
    deletions: usize,
    un_reviewed_files: &Vec<String>,
) -> (r: FileEntry)
    ensures
        opt_view(r.old_path) == opt_view(old_path),
        opt_view(r.new_path) == opt_view(new_path),
        r.status == match status {
            DeltaStatus::Added => FileChangeStatus::Added,
            DeltaStatus::Deleted => FileChangeStatus::Deleted,
            DeltaStatus::Modified => FileChangeStatus::Modified,
            DeltaStatus::Renamed => FileChangeStatus::Renamed,
            DeltaStatus::Copied => FileChangeStatus::Copied,
            DeltaStatus::Typechange => FileChangeStatus::Typechange,
            _ => FileChangeStatus::Modified,
        },
        r.is_binary == (old_is_binary || new_is_binary),
        r.additions == additions as u32,
        r.deletions == deletions as u32,
        r.patch_id is None,
        r.is_reviewed == match (new_path, old_path) {
            (Some(p), _) => !exists|i: int| 0 <= i < un_reviewed_files@.len() && (
            #[trigger] un_reviewed_files@[i])@ == p@,
            (None, Some(p)) => !exists|i: int| 0 <= i < un_reviewed_files@.len() && (
            #[trigger] un_reviewed_files@[i])@ == p@,
            (None, None) => false,
        },
{
    let is_reviewed = match &new_path {
        Some(p) => !contains_path(un_reviewed_files, p),
        None => match &old_path {
            Some(p) => !contains_path(un_reviewed_files, p),
            None => false,
        },
    };
    FileEntry {
        old_path,
        new_path,
        status: map_delta_status(status),
        additions: additions as u32,
        deletions: deletions as u32,
        is_binary: old_is_binary || new_is_binary,
        patch_id: None,
        is_reviewed,
    }
}

/// The index of the first requested line (`start_line` counted from 1; 0
/// counts as 1).
pub open spec fn context_start(start_line: u32) -> int {
    if start_line == 0 {
        0
    } else {
        start_line - 1
    }
}

/// The index after the last requested line, within `n` lines.
pub open spec fn context_end(end_line: u32, n: int) -> int {
    if end_line < n {
        end_line as int
    } else {
        n
    }
}

/// The display lines of a file's lines `start_line..=end_line` (counted from
/// 1) shown as context: new line numbers from `start_line`, old ones from
/// `old_start_line`, tokens from the highlighted file; none when the range
/// is empty or starts past the end.
pub fn context_lines(
    file: &HighlightedFile,
    start_line: u32,
    end_line: u32,
    old_start_line: u32,
) -> (r: Vec<DiffLine>)
    requires
        context_start(start_line) < context_end(end_line, file.spec_lines().len() as int)
            ==> old_start_line + (context_end(end_line, file.spec_lines().len() as int)
            - context_start(start_line)) <= u32::MAX + 1,
    ensures
        ({
            let n = file.spec_lines().len() as int;
            let a = context_start(start_line);
            let e = context_end(end_line, n);
            if a >= n || a >= e {
                r@.len() == 0
            } else {
                &&& r@.len() == e - a
                &&& forall|i: int|
                    0 <= i < e - a ==> diff_line_view(#[trigger] r@[i]) == (
                        DiffLineType::Context,
                        Some((old_start_line + i) as u32),
                        Some((start_line + i) as u32),
                        spec_plain_tokens(file.spec_lines()[a + i]@),
                    )
            }
        }),
{
    let n = file.len();
    let a: usize = if start_line == 0 { 0 } else { (start_line - 1) as usize };
    let e: usize = if (end_line as usize) < n { end_line as usize } else { n };
    let mut out: Vec<DiffLine> = Vec::new();
    if a >= n || a >= e {
        return out;
    }
    let mut i: usize = 0;
    while i < e - a
        invariant
            n == file.spec_lines().len(),
            a == context_start(start_line),
            e == context_end(end_line, n as int),
            a < e <= n,
            old_start_line + (e - a) <= u32::MAX + 1,
            i <= e - a,
            out@.len() == i,
            forall|j: int|
                0 <= j < i ==> diff_line_view(#[trigger] out@[j]) == (
                    DiffLineType::Context,
                    Some((old_start_line + j) as u32),
                    Some((start_line + j) as u32),
                    spec_plain_tokens(file.spec_lines()[a + j]@),
                ),
        decreases e - a - i,
    {
        let tokens = file.line_at(a + i);
        let toks = plain_tokens(tokens);
        let ghost old_out = out@;
        out.push(
            DiffLine {
                line_type: DiffLineType::Context,
                old_lineno: Some(old_start_line + i as u32),
                new_lineno: Some(start_line + i as u32),
                tokens: toks,
            },
        );
        proof {
            assert forall|j: int| 0 <= j < i + 1 implies diff_line_view(#[trigger] out@[j]) == (
                DiffLineType::Context,
                Some((old_start_line + j) as u32),
                Some((start_line + j) as u32),
                spec_plain_tokens(file.spec_lines()[a + j]@),
            ) by {
                if j < i {
                    assert(out@[j] == old_out[j]);
                }
            }
        }
        i = i + 1;
    }
    out
}

} // verus!
