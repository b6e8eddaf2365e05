//! The display lines of a file diff: a header line per hunk, then each line
//! with its line numbers, its sign and its highlighted tokens.

use vstd::prelude::*;

use crate::ansi::spans_view;
use crate::color::{css_hex_to_color, spec_css_hex_to_color};
use crate::models::pr::{DiffHunk, DiffLine, DiffLineType, FileDiff, HighlightToken};
use crate::style::{spec_default_style, Color, Style, StyledSpan, DIM, UNDERLINED};
use crate::text::{push_decimal, push_str, spec_decimal, string_of};

verus! {

/// A diff to show, scrolled by `scroll_offset` lines.
pub struct DiffViewWidget<'a> {
    pub diff: Option<&'a FileDiff>,
    pub scroll_offset: usize,
}

impl<'a> DiffViewWidget<'a> {
    pub fn new(diff: Option<&'a FileDiff>, scroll_offset: usize) -> (w: Self)
        ensures
            w.diff == diff,
            w.scroll_offset == scroll_offset,
    {
        DiffViewWidget { diff, scroll_offset }
    }
}

/// `s` padded on the left with spaces to `width` characters (as
/// `format!("{:>width$}")`).
pub open spec fn spec_pad_left(s: Seq<char>, width: nat) -> Seq<char> {
    if s.len() >= width {
        s
    } else {
        Seq::new((width - s.len()) as nat, |i: int| ' ') + s
    }
}

/// A line number right-aligned in four columns, or four spaces.
pub open spec fn spec_lineno_text(n: Option<u32>) -> Seq<char> {
    match n {
        Some(k) => spec_pad_left(spec_decimal(k as nat), 4),
        None => "    "@,
    }
}

/// The sign, line background and changed-text background of a line kind.
pub open spec fn spec_line_look(t: DiffLineType) -> (Seq<char>, Color, Color) {
    match t {
        DiffLineType::Addition => ("+"@, Color::Rgb(0, 40, 0), Color::Rgb(0, 80, 0)),
        DiffLineType::Deletion => ("-"@, Color::Rgb(40, 0, 0), Color::Rgb(80, 0, 0)),
        DiffLineType::Context => (" "@, Color::Reset, Color::Reset),
        DiffLineType::AddEofnl | DiffLineType::DelEofnl => ("\\ "@, Color::Reset, Color::Reset),
    }
}

/// The span of a token on a line of kind `t`: its color (white when it has
/// none or an unreadable one), and the changed background, with an
/// underline when `underline` is set, when it lies in a word-level change.
pub open spec fn spec_token_span(tok: HighlightToken, t: DiffLineType, underline: bool) -> (
    Seq<char>,
    Style,
) {
    let look = spec_line_look(t);
    let fg = match tok.color {
        Some(c) => match spec_css_hex_to_color(c@) {
            Some(x) => x,
            None => Color::White,
        },
        None => Color::White,
    };
    let base = spec_default_style().spec_fg(fg).spec_bg(if tok.changed { look.2 } else { look.1 });
    (tok.content@, if tok.changed && underline { base.spec_add_modifier(UNDERLINED) } else { base })
}

/// The spans of a diff line.
pub open spec fn spec_line_spans(l: DiffLine, underline: bool) -> Seq<(Seq<char>, Style)> {
    let look = spec_line_look(l.line_type);
    seq![
        (
            spec_lineno_text(l.old_lineno) + " "@ + spec_lineno_text(l.new_lineno) + " "@,
            spec_default_style().spec_fg(Color::DarkGray),
        ),
        (look.0, spec_default_style().spec_bg(look.1)),
    ] + l.tokens@.map_values(|tok: HighlightToken| spec_token_span(tok, l.line_type, underline))
}

/// The display lines of a hunk: its header, then its lines.
pub open spec fn spec_hunk_display(h: DiffHunk, underline: bool) -> Seq<Seq<(Seq<char>, Style)>> {
    seq![seq![(h.header@, spec_default_style().spec_fg(Color::Cyan).spec_add_modifier(DIM))]]
        + h.lines@.map_values(|l: DiffLine| spec_line_spans(l, underline))
}

/// The display lines of a list of hunks.
pub open spec fn spec_diff_display(hunks: Seq<DiffHunk>, underline: bool) -> Seq<Seq<(Seq<char>, Style)>>
    decreases hunks.len(),
{
    if hunks.len() == 0 {
        Seq::empty()
    } else {
        spec_diff_display(hunks.drop_last(), underline) + spec_hunk_display(hunks.last(), underline)
    }
}

/// The text of a line number right-aligned in four columns.
fn lineno_text(buf: &mut Vec<char>, n: Option<u32>)
    ensures
        final(buf)@ == old(buf)@ + spec_lineno_text(n),
{
    match n {
        Some(k) => {
            let mut digits: Vec<char> = Vec::new();
            push_decimal(&mut digits, k as u64);
            let ghost d = digits@;
            let mut pad: Vec<char> = Vec::new();
            while pad.len() + digits.len() < 4
                invariant
                    digits@ == d,
                    pad@.len() + d.len() <= 4 || pad@.len() == 0,
                    forall|i: int| 0 <= i < pad@.len() ==> pad@[i] == ' ',
                decreases 4 - pad.len(),
            {
                pad.push(' ');
            }
            let ghost before = buf@;
            let mut i: usize = 0;
            while i < pad.len()
                invariant
                    i <= pad@.len(),
                    buf@ == before + pad@.subrange(0, i as int),
                decreases pad.len() - i,
            {
                buf.push(pad[i]);
                i = i + 1;
                proof {
                    assert(buf@ =~= before + pad@.subrange(0, i as int));
                }
            }
            let mut j: usize = 0;
            while j < digits.len()
                invariant
                    j <= digits@.len(),
                    buf@ == before + pad@ + digits@.subrange(0, j as int),
                decreases digits.len() - j,
            {
                proof {
                    assert(pad@.subrange(0, pad@.len() as int) =~= pad@);
                }
                buf.push(digits[j]);
                j = j + 1;
                proof {
                    assert(buf@ =~= before + pad@ + digits@.subrange(0, j as int));
                }
            }
            proof {
                assert(pad@.subrange(0, pad@.len() as int) =~= pad@);
                assert(digits@.subrange(0, digits@.len() as int) =~= digits@);
                if d.len() >= 4 {
                    assert(pad@.len() == 0);
                    assert(buf@ =~= before + spec_lineno_text(n));
                } else {
                    assert(pad@.len() == 4 - d.len());
                    assert(pad@ =~= Seq::new((4 - d.len()) as nat, |i: int| ' '));
                    assert(buf@ =~= before + spec_lineno_text(n));
                }
            }
        },
        None => push_str(buf, "    "),
    }
}

fn token_span(tok: &HighlightToken, t: DiffLineType, underline: bool) -> (r: StyledSpan)
    ensures
        (r.content@, r.style) == spec_token_span(*tok, t, underline),
{
    let (line_bg, changed_bg) = match t {
        DiffLineType::Addition => (Color::Rgb(0, 40, 0), Color::Rgb(0, 80, 0)),
        DiffLineType::Deletion => (Color::Rgb(40, 0, 0), Color::Rgb(80, 0, 0)),
        _ => (Color::Reset, Color::Reset),
    };
    let fg = match &tok.color {
        Some(c) => match css_hex_to_color(c.as_str()) {
            Some(x) => x,
            None => Color::White,
        },
        None => Color::White,
    };
    let base = Style::new().fg(fg).bg(if tok.changed { changed_bg } else { line_bg });
    let style = if tok.changed && underline { base.add_modifier(UNDERLINED) } else { base };
    StyledSpan { content: tok.content.clone(), style }
}

fn line_spans(l: &DiffLine, underline: bool) -> (r: Vec<StyledSpan>)
    ensures
        spans_view(r@) == spec_line_spans(*l, underline),
{
    let mut gutter: Vec<char> = Vec::new();
    lineno_text(&mut gutter, l.old_lineno);
    gutter.push(' ');
    lineno_text(&mut gutter, l.new_lineno);
    gutter.push(' ');
    proof {
        reveal_strlit(" ");
        assert(gutter@ =~= spec_lineno_text(l.old_lineno) + " "@ + spec_lineno_text(l.new_lineno)
            + " "@);
    }
    let (prefix, line_bg) = match l.line_type {
        DiffLineType::Addition => ("+", Color::Rgb(0, 40, 0)),
        DiffLineType::Deletion => ("-", Color::Rgb(40, 0, 0)),
        DiffLineType::Context => (" ", Color::Reset),
        _ => ("\\ ", Color::Reset),
    };
    let mut out: Vec<StyledSpan> = Vec::new();
    out.push(StyledSpan { content: string_of(&gutter), style: Style::new().fg(Color::DarkGray) });
    out.push(StyledSpan { content: prefix.to_owned(), style: Style::new().bg(line_bg) });
    let ghost head = spans_view(out@);
    let mut i: usize = 0;
    while i < l.tokens.len()
        invariant
            i <= l.tokens@.len(),
            out@.len() == 2 + i,
            spans_view(out@) == head + l.tokens@.take(i as int).map_values(
                |tok: HighlightToken| spec_token_span(tok, l.line_type, underline),
            ),
        decreases l.tokens.len() - i,
    {
        let ghost before = spans_view(out@);
        out.push(token_span(&l.tokens[i], l.line_type, underline));
        proof {
            assert(l.tokens@.take(i + 1).map_values(
                |tok: HighlightToken| spec_token_span(tok, l.line_type, underline),
            ) =~= l.tokens@.take(i as int).map_values(
                |tok: HighlightToken| spec_token_span(tok, l.line_type, underline),
            ).push(spec_token_span(l.tokens@[i as int], l.line_type, underline)));
            assert(spans_view(out@) =~= before.push(
                spec_token_span(l.tokens@[i as int], l.line_type, underline),
            ));
        }
        i = i + 1;
    }
    proof {
        assert(l.tokens@.take(i as int) =~= l.tokens@);
        assert(spans_view(out@) =~= spec_line_spans(*l, underline));
    }
    out
}

/// The display lines of a file diff: for each hunk its header (cyan, dim),
/// then each line as its old and new line numbers, its sign on the line's
/// background, and its tokens in their colors (changed words on a stronger
/// background, underlined).
pub fn build_lines(diff: &FileDiff) -> (r: Vec<Vec<StyledSpan>>)
    ensures
        r@.map_values(|l: Vec<StyledSpan>| spans_view(l@)) == spec_diff_display(diff.hunks@, true),
{
    display_lines(diff, true)
}

/// The display lines of a file diff, changed words underlined when
/// `underline` is set.
pub(crate) fn display_lines(diff: &FileDiff, underline: bool) -> (r: Vec<Vec<StyledSpan>>)
    ensures
        r@.map_values(|l: Vec<StyledSpan>| spans_view(l@)) == spec_diff_display(diff.hunks@, underline),
{
    let mut out: Vec<Vec<StyledSpan>> = Vec::new();
    let mut h: usize = 0;
    while h < diff.hunks.len()
        invariant
            h <= diff.hunks@.len(),
            out@.map_values(|l: Vec<StyledSpan>| spans_view(l@)) == spec_diff_display(
                diff.hunks@.take(h as int),
                underline,
            ),
        decreases diff.hunks.len() - h,
    {
        let hunk = &diff.hunks[h];
        proof {
            assert(diff.hunks@.take(h + 1).drop_last() =~= diff.hunks@.take(h as int));
            assert(diff.hunks@.take(h + 1).last() == *hunk);
        }
        let ghost before = out@.map_values(|l: Vec<StyledSpan>| spans_view(l@));
        let mut header: Vec<StyledSpan> = Vec::new();
        header.push(
            StyledSpan { content: hunk.header.clone(), style: Style::new().fg(Color::Cyan).add_modifier(DIM) },
        );
        let ghost hv = spans_view(header@);
        proof {
            assert(hv =~= seq![
                (hunk.header@, spec_default_style().spec_fg(Color::Cyan).spec_add_modifier(DIM)),
            ]);
        }
        out.push(header);
        proof {
            assert(out@.map_values(|l: Vec<StyledSpan>| spans_view(l@)) =~= before.push(hv));
            assert(before.push(hv) =~= before + seq![hv]);
        }
        let ghost mid = out@.map_values(|l: Vec<StyledSpan>| spans_view(l@));
        let mut i: usize = 0;
        while i < hunk.lines.len()
            invariant
                i <= hunk.lines@.len(),
                out@.map_values(|l: Vec<StyledSpan>| spans_view(l@)) == mid + hunk.lines@.take(
                    i as int,
                ).map_values(|l: DiffLine| spec_line_spans(l, underline)),
            decreases hunk.lines.len() - i,
        {
            let ghost b2 = out@.map_values(|l: Vec<StyledSpan>| spans_view(l@));
            out.push(line_spans(&hunk.lines[i], underline));
            proof {
                assert(hunk.lines@.take(i + 1).map_values(|l: DiffLine| spec_line_spans(l, underline))
                    =~= hunk.lines@.take(i as int).map_values(
                    |l: DiffLine| spec_line_spans(l, underline),
                ).push(spec_line_spans(hunk.lines@[i as int], underline)));
                assert(out@.map_values(|l: Vec<StyledSpan>| spans_view(l@)) =~= b2.push(
                    spec_line_spans(hunk.lines@[i as int], underline),
                ));
            }
            i = i + 1;
        }
        proof {
            assert(hunk.lines@.take(i as int) =~= hunk.lines@);
            assert(out@.map_values(|l: Vec<StyledSpan>| spans_view(l@)) =~= before
                + spec_hunk_display(*hunk, underline));
        }
        h = h + 1;
    }
    proof {
        assert(diff.hunks@.take(h as int) =~= diff.hunks@);
    }
    out
}

impl<'a> DiffViewWidget<'a> {
    /// The lines to show: those of the diff, or "No file selected" in dark
    /// gray without one.
    pub fn lines(&self) -> (r: Vec<Vec<StyledSpan>>)
        ensures
            match self.diff {
                Some(d) => r@.map_values(|l: Vec<StyledSpan>| spans_view(l@)) == spec_diff_display(
                    d.hunks@,
                    true,
                ),
                None => r@.len() == 1 && spans_view(r@[0]@) == seq![
                    ("No file selected"@, spec_default_style().spec_fg(Color::DarkGray)),
                ],
            },
    {
        match self.diff {
            Some(d) => build_lines(d),
            None => {
                let mut line: Vec<StyledSpan> = Vec::new();
                line.push(StyledSpan { content: "No file selected".to_owned(), style: Style::new().fg(Color::DarkGray) });
                let mut out: Vec<Vec<StyledSpan>> = Vec::new();
                out.push(line);
                proof {
                    assert(spans_view(out@[0]@) =~= seq![
                        ("No file selected"@, spec_default_style().spec_fg(Color::DarkGray)),
                    ]);
                }
                out
            },
        }
    }
}

} // verus!
