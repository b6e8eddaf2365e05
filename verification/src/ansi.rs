//! Parsing of text with ANSI SGR escape sequences (`ESC [ params m`).
//!
//! The escape, `[`, `;` and `m` are all ASCII, so scanning the characters of
//! a string finds exactly the sequences that scanning its UTF-8 bytes finds.

use vstd::prelude::*;

use crate::style::{spec_default_style, Color, Style, StyledSpan, BOLD, DIM, ITALIC, REVERSED, UNDERLINED};
use crate::text::{lemma_find_bounds, spec_find, str_chars, string_from_chars};

verus! {

pub const ESC: char = '\x1b';

/// The characters of `s` from `pos` on, with every `ESC [ ... m` sequence
/// removed (an unterminated one runs to the end).
pub open spec fn spec_strip_from(s: Seq<char>, pos: int) -> Seq<char>
    decreases s.len() - pos,
{
    if pos < 0 || pos >= s.len() {
        Seq::empty()
    } else if s[pos] == ESC && pos + 1 < s.len() && s[pos + 1] == '[' {
        let m = spec_find(s, pos + 2, 'm');
        proof {
            lemma_find_bounds(s, pos + 2, 'm');
        }
        if m < s.len() {
            spec_strip_from(s, m + 1)
        } else {
            Seq::empty()
        }
    } else {
        seq![s[pos]] + spec_strip_from(s, pos + 1)
    }
}

/// Index of the first `needle` at or after `from` in `haystack`.
fn memchr(needle: char, haystack: &[char], from: usize) -> (r: Option<usize>)
    ensures
        from <= haystack.len() ==> r == (if spec_find(haystack@, from as int, needle)
            < haystack.len() {
            Some(spec_find(haystack@, from as int, needle) as usize)
        } else {
            None::<usize>
        }),
        from > haystack.len() ==> r is None,
{
    let mut i = from;
    while i < haystack.len()
        invariant
            from <= i,
            from <= haystack.len() ==> i <= haystack.len(),
            from <= haystack.len() ==> spec_find(haystack@, i as int, needle) == spec_find(
                haystack@,
                from as int,
                needle,
            ),
        decreases haystack.len() - i,
    {
        if haystack[i] == needle {
            return Some(i);
        }
        i = i + 1;
    }
    None
}

/// Removes ANSI escape sequences from a string.
pub fn strip_ansi(s: &str) -> (r: String)
    ensures
        r@ == spec_strip_from(s@, 0),
{
    let chars = str_chars(s);
    let len = chars.len();
    let mut out: Vec<char> = Vec::new();
    let mut pos: usize = 0;
    while pos < len
        invariant
            len == chars.len(),
            chars@ == s@,
            pos <= len,
            out@ + spec_strip_from(chars@, pos as int) == spec_strip_from(chars@, 0),
        decreases len - pos,
    {
        if chars[pos] == ESC && pos + 1 < len && chars[pos + 1] == '[' {
            let ghost start = pos as int;
            proof {
                lemma_find_bounds(chars@, start + 2, 'm');
            }
            pos = pos + 2;
            while pos < len && chars[pos] != 'm'
                invariant
                    len == chars.len(),
                    start + 2 <= pos <= len,
                    spec_find(chars@, pos as int, 'm') == spec_find(chars@, start + 2, 'm'),
                decreases len - pos,
            {
                pos = pos + 1;
            }
            if pos < len {
                pos = pos + 1;
            }
        } else {
            let ghost p = pos as int;
            out.push(chars[pos]);
            pos = pos + 1;
            proof {
                assert(spec_strip_from(chars@, p) == seq![chars@[p]] + spec_strip_from(
                    chars@,
                    p + 1,
                ));
                assert(out@ + spec_strip_from(chars@, pos as int) =~= (out@.drop_last() + seq![
                    chars@[p],
                ]) + spec_strip_from(chars@, p + 1));
            }
        }
    }
    string_from_chars(out.as_slice())
}


/// Whether `c` is an ASCII decimal digit.
pub open spec fn is_digit(c: char) -> bool {
    '0' <= c <= '9'
}

/// Decimal value of a string of digits.
pub open spec fn spec_decimal_value(d: Seq<char>) -> nat
    decreases d.len(),
{
    if d.len() == 0 {
        0
    } else {
        spec_decimal_value(d.drop_last()) * 10 + ((d.last() as u32 - '0' as u32) as nat)
    }
}

/// What `str::parse::<u16>` gives on digits: a non-empty run of digits whose
/// value fits in `u16`.
pub open spec fn spec_parse_digits_u16(d: Seq<char>) -> Option<u16> {
    if d.len() > 0 && (forall|i: int| 0 <= i < d.len() ==> is_digit(#[trigger] d[i]))
        && spec_decimal_value(d) <= u16::MAX {
        Some(spec_decimal_value(d) as u16)
    } else {
        None
    }
}

/// What `str::parse::<u16>` gives: an optional `+` sign, then digits.
pub open spec fn spec_parse_u16(f: Seq<char>) -> Option<u16> {
    if f.len() > 0 && f[0] == '+' {
        spec_parse_digits_u16(f.drop_first())
    } else {
        spec_parse_digits_u16(f)
    }
}

/// The numbers of the `;`-separated fields of `p` from `start` on, skipping
/// fields that are not numbers.
pub open spec fn spec_codes_from(p: Seq<char>, start: int) -> Seq<u16>
    decreases p.len() - start,
{
    if start < 0 || start > p.len() {
        Seq::empty()
    } else {
        let e = spec_find(p, start, ';');
        proof {
            lemma_find_bounds(p, start, ';');
        }
        let rest = if e < p.len() {
            spec_codes_from(p, e + 1)
        } else {
            Seq::<u16>::empty()
        };
        match spec_parse_u16(p.subrange(start, e)) {
            Some(v) => seq![v] + rest,
            None => rest,
        }
    }
}

/// The SGR codes of a parameter string; an empty one means reset.
pub open spec fn spec_sgr_codes(p: Seq<char>) -> Seq<u16> {
    if p.len() == 0 {
        seq![0u16]
    } else {
        spec_codes_from(p, 0)
    }
}

/// Standard ANSI color `idx` (0-7).
pub open spec fn spec_standard_color(idx: u16) -> Color {
    if idx == 0 {
        Color::Black
    } else if idx == 1 {
        Color::Red
    } else if idx == 2 {
        Color::Green
    } else if idx == 3 {
        Color::Yellow
    } else if idx == 4 {
        Color::Blue
    } else if idx == 5 {
        Color::Magenta
    } else if idx == 6 {
        Color::Cyan
    } else if idx == 7 {
        Color::Gray
    } else {
        Color::Reset
    }
}

/// Bright ANSI color `idx` (0-7).
pub open spec fn spec_bright_color(idx: u16) -> Color {
    if idx == 0 {
        Color::DarkGray
    } else if idx == 1 {
        Color::LightRed
    } else if idx == 2 {
        Color::LightGreen
    } else if idx == 3 {
        Color::LightYellow
    } else if idx == 4 {
        Color::LightBlue
    } else if idx == 5 {
        Color::LightMagenta
    } else if idx == 6 {
        Color::LightCyan
    } else if idx == 7 {
        Color::White
    } else {
        Color::Reset
    }
}

/// The low byte of a code.
pub open spec fn low_byte(x: u16) -> u8 {
    (x % 256) as u8
}

/// An extended color (`5;N` or `2;R;G;B`) following code `i`, and the index of
/// its last parameter (`i` itself when there is none).
pub open spec fn spec_extended_color(codes: Seq<u16>, i: int) -> (Option<Color>, int) {
    if i + 1 < codes.len() && codes[i + 1] == 5 && i + 2 < codes.len() {
        (Some(Color::Indexed(low_byte(codes[i + 2]))), i + 2)
    } else if i + 1 < codes.len() && codes[i + 1] == 2 && i + 4 < codes.len() {
        (
            Some(Color::Rgb(low_byte(codes[i + 2]), low_byte(codes[i + 3]), low_byte(codes[i + 4]))),
            i + 4,
        )
    } else {
        (None, i)
    }
}

/// The style after applying the SGR codes `codes[i..]` to `style`.
pub open spec fn spec_apply_codes(style: Style, codes: Seq<u16>, i: int) -> Style
    decreases codes.len() - i,
{
    if i < 0 || i >= codes.len() {
        style
    } else {
        let c = codes[i];
        if c == 38 || c == 48 {
            let (color, j) = spec_extended_color(codes, i);
            let s2 = match color {
                Some(col) => if c == 38 { style.spec_fg(col) } else { style.spec_bg(col) },
                None => style,
            };
            spec_apply_codes(s2, codes, j + 1)
        } else {
            let s2 = if c == 0 {
                spec_default_style()
            } else if c == 1 {
                style.spec_add_modifier(BOLD)
            } else if c == 2 {
                style.spec_add_modifier(DIM)
            } else if c == 3 {
                style.spec_add_modifier(ITALIC)
            } else if c == 4 {
                style.spec_add_modifier(UNDERLINED)
            } else if c == 7 {
                style.spec_add_modifier(REVERSED)
            } else if c == 22 {
                style.spec_remove_modifier(BOLD | DIM)
            } else if c == 23 {
                style.spec_remove_modifier(ITALIC)
            } else if c == 24 {
                style.spec_remove_modifier(UNDERLINED)
            } else if c == 27 {
                style.spec_remove_modifier(REVERSED)
            } else if 30 <= c <= 37 {
                style.spec_fg(spec_standard_color((c - 30) as u16))
            } else if c == 39 {
                style.spec_fg(Color::Reset)
            } else if 40 <= c <= 47 {
                style.spec_bg(spec_standard_color((c - 40) as u16))
            } else if c == 49 {
                style.spec_bg(Color::Reset)
            } else if 90 <= c <= 97 {
                style.spec_fg(spec_bright_color((c - 90) as u16))
            } else if 100 <= c <= 107 {
                style.spec_bg(spec_bright_color((c - 100) as u16))
            } else {
                style
            };
            spec_apply_codes(s2, codes, i + 1)
        }
    }
}

/// The style after applying the SGR parameter string `params` to `style`.
pub open spec fn spec_apply_sgr(style: Style, params: Seq<char>) -> Style {
    spec_apply_codes(style, spec_sgr_codes(params), 0)
}

/// The styled runs of `s` from `pos` on, starting with `style`.
pub open spec fn spec_parse_from(s: Seq<char>, pos: int, style: Style) -> Seq<(Seq<char>, Style)>
    decreases s.len() - pos,
{
    if pos < 0 || pos >= s.len() {
        Seq::empty()
    } else {
        let esc = spec_find(s, pos, ESC);
        proof {
            lemma_find_bounds(s, pos, ESC);
        }
        if esc >= s.len() {
            seq![(s.subrange(pos, s.len() as int), style)]
        } else {
            let pre = if esc > pos {
                seq![(s.subrange(pos, esc), style)]
            } else {
                Seq::empty()
            };
            if esc + 1 < s.len() && s[esc + 1] == '[' {
                let m = spec_find(s, esc + 2, 'm');
                proof {
                    lemma_find_bounds(s, esc + 2, 'm');
                }
                if m < s.len() {
                    pre + spec_parse_from(s, m + 1, spec_apply_sgr(style, s.subrange(esc + 2, m)))
                } else {
                    pre + spec_parse_from(s, esc + 1, style)
                }
            } else {
                pre + spec_parse_from(s, esc + 1, style)
            }
        }
    }
}

/// The abstract value of a list of styled runs.
pub open spec fn spans_view(spans: Seq<StyledSpan>) -> Seq<(Seq<char>, Style)> {
    spans.map_values(|sp: StyledSpan| (sp.content@, sp.style))
}

fn ansi_standard_color(idx: u16) -> (c: Color)
    ensures
        c == spec_standard_color(idx),
{
    match idx {
        0 => Color::Black,
        1 => Color::Red,
        2 => Color::Green,
        3 => Color::Yellow,
        4 => Color::Blue,
        5 => Color::Magenta,
        6 => Color::Cyan,
        7 => Color::Gray,
        _ => Color::Reset,
    }
}

fn ansi_bright_color(idx: u16) -> (c: Color)
    ensures
        c == spec_bright_color(idx),
{
    match idx {
        0 => Color::DarkGray,
        1 => Color::LightRed,
        2 => Color::LightGreen,
        3 => Color::LightYellow,
        4 => Color::LightBlue,
        5 => Color::LightMagenta,
        6 => Color::LightCyan,
        7 => Color::White,
        _ => Color::Reset,
    }
}

fn parse_extended_color(codes: &Vec<u16>, i: &mut usize) -> (r: Option<Color>)
    requires
        *old(i) < codes.len(),
    ensures
        (r, *final(i) as int) == spec_extended_color(codes@, *old(i) as int),
{
    let k = *i;
    if k + 1 < codes.len() && codes[k + 1] == 5 && codes.len() - k > 2 {
        let n = codes[k + 2];
        *i = k + 2;
        Some(Color::Indexed((n % 256) as u8))
    } else if k + 1 < codes.len() && codes[k + 1] == 2 && codes.len() - k > 4 {
        let r = (codes[k + 2] % 256) as u8;
        let g = (codes[k + 3] % 256) as u8;
        let b = (codes[k + 4] % 256) as u8;
        *i = k + 4;
        Some(Color::Rgb(r, g, b))
    } else {
        None
    }
}

proof fn lemma_decimal_grows(d: Seq<char>, k: int)
    requires
        0 <= k <= d.len(),
    ensures
        spec_decimal_value(d.take(k)) <= spec_decimal_value(d),
    decreases d.len() - k,
{
    if k < d.len() {
        lemma_decimal_grows(d, k + 1);
        assert(d.take(k + 1).drop_last() =~= d.take(k));
    } else {
        assert(d.take(k) =~= d);
    }
}

/// Parses a field as `u16` the way `str::parse::<u16>` does.
fn parse_u16(p: &Vec<char>, start: usize, end: usize) -> (r: Option<u16>)
    requires
        start <= end <= p.len(),
    ensures
        r == spec_parse_u16(p@.subrange(start as int, end as int)),
{
    let ghost f = p@.subrange(start as int, end as int);
    let mut i = start;
    if i < end && p[i] == '+' {
        i = i + 1;
    }
    let ghost d = p@.subrange(i as int, end as int);
    proof {
        if start < end && p@[start as int] == '+' {
            assert(d =~= f.drop_first());
        } else {
            assert(d =~= f);
        }
    }
    if i == end {
        return None;
    }
    let first = i;
    let mut acc: u32 = 0;
    while i < end
        invariant
            first <= i <= end <= p.len(),
            d == p@.subrange(first as int, end as int),
            d.len() > 0,
            spec_parse_u16(p@.subrange(start as int, end as int)) == spec_parse_digits_u16(d),
            acc == spec_decimal_value(d.take(i - first)),
            acc <= u16::MAX,
            forall|j: int| 0 <= j < i - first ==> is_digit(#[trigger] d[j]),
        decreases end - i,
    {
        let c = p[i];
        proof {
            assert(d[i - first] == c);
        }
        if !('0' <= c && c <= '9') {
            proof {
                assert(!is_digit(d[i - first]));
            }
            return None;
        }
        proof {
            assert(d.take(i - first + 1).drop_last() =~= d.take(i - first));
            assert(d.take(i - first + 1).last() == c);
        }
        acc = acc * 10 + (c as u32 - '0' as u32);
        i = i + 1;
        if acc > 65535 {
            proof {
                lemma_decimal_grows(d, i - first);
            }
            return None;
        }
    }
    proof {
        assert(d.take(i - first) =~= d);
    }
    Some(acc as u16)
}

/// The SGR codes of the parameter string `p[start..end]`.
fn sgr_codes(p: &Vec<char>, start: usize, end: usize) -> (r: Vec<u16>)
    requires
        start <= end <= p.len(),
    ensures
        r@ == spec_sgr_codes(p@.subrange(start as int, end as int)),
{
    let ghost q = p@.subrange(start as int, end as int);
    let mut codes: Vec<u16> = Vec::new();
    if start == end {
        codes.push(0);
        return codes;
    }
    let mut field = start;
    loop
        invariant
            start <= field <= end <= p.len(),
            start < end,
            q == p@.subrange(start as int, end as int),
            codes@ + spec_codes_from(q, field - start) == spec_codes_from(q, 0),
        decreases end - field,
    {
        let mut e = field;
        while e < end && p[e] != ';'
            invariant
                start <= field <= e <= end <= p.len(),
                q == p@.subrange(start as int, end as int),
                spec_find(q, e - start, ';') == spec_find(q, field - start, ';'),
            decreases end - e,
        {
            proof {
                assert(q[e - start] == p@[e as int]);
            }
            e = e + 1;
        }
        let ghost fs = field - start;
        let ghost es = e - start;
        proof {
            lemma_find_bounds(q, fs, ';');
            if e < end {
                assert(q[es] == p@[e as int]);
            }
            assert(spec_find(q, es, ';') == es);
            assert(p@.subrange(field as int, e as int) =~= q.subrange(fs, es));
        }
        let ghost old_codes = codes@;
        let v = parse_u16(p, field, e);
        match v {
            Some(x) => {
                codes.push(x);
            },
            None => {},
        }
        let ghost rest = if es < q.len() {
            spec_codes_from(q, es + 1)
        } else {
            Seq::<u16>::empty()
        };
        proof {
            assert(spec_codes_from(q, fs) == match spec_parse_u16(q.subrange(fs, es)) {
                Some(v) => seq![v] + rest,
                None => rest,
            });
            assert(codes@ + rest =~= old_codes + spec_codes_from(q, fs));
        }
        if e < end {
            field = e + 1;
        } else {
            proof {
                assert(codes@ =~= spec_codes_from(q, 0));
            }
            return codes;
        }
    }
}

/// Applies the SGR parameter string `p[start..end]` to `style`.
fn apply_sgr(style: Style, p: &Vec<char>, start: usize, end: usize) -> (r: Style)
    requires
        start <= end <= p.len(),
    ensures
        r == spec_apply_sgr(style, p@.subrange(start as int, end as int)),
{
    let codes = sgr_codes(p, start, end);
    let ghost target = spec_apply_codes(style, codes@, 0);
    let mut style = style;
    let mut i: usize = 0;
    while i < codes.len()
        invariant
            spec_apply_codes(style, codes@, i as int) == target,
        decreases codes.len() - i,
    {
        let c = codes[i];
        if c == 38 || c == 48 {
            let color = parse_extended_color(&codes, &mut i);
            match color {
                Some(col) => {
                    style = if c == 38 { style.fg(col) } else { style.bg(col) };
                },
                None => {},
            }
        } else if c == 0 {
            style = Style::new();
        } else if c == 1 {
            style = style.add_modifier(BOLD);
        } else if c == 2 {
            style = style.add_modifier(DIM);
        } else if c == 3 {
            style = style.add_modifier(ITALIC);
        } else if c == 4 {
            style = style.add_modifier(UNDERLINED);
        } else if c == 7 {
            style = style.add_modifier(REVERSED);
        } else if c == 22 {
            style = style.remove_modifier(BOLD | DIM);
        } else if c == 23 {
            style = style.remove_modifier(ITALIC);
        } else if c == 24 {
            style = style.remove_modifier(UNDERLINED);
        } else if c == 27 {
            style = style.remove_modifier(REVERSED);
        } else if 30 <= c && c <= 37 {
            style = style.fg(ansi_standard_color(c - 30));
        } else if c == 39 {
            style = style.fg(Color::Reset);
        } else if 40 <= c && c <= 47 {
            style = style.bg(ansi_standard_color(c - 40));
        } else if c == 49 {
            style = style.bg(Color::Reset);
        } else if 90 <= c && c <= 97 {
            style = style.fg(ansi_bright_color(c - 90));
        } else if 100 <= c && c <= 107 {
            style = style.bg(ansi_bright_color(c - 100));
        }
        i = i + 1;
    }
    style
}

fn span_of(chars: &Vec<char>, start: usize, end: usize, style: Style) -> (r: StyledSpan)
    requires
        start <= end <= chars.len(),
    ensures
        r.content@ == chars@.subrange(start as int, end as int),
        r.style == style,
{
    let mut buf: Vec<char> = Vec::new();
    let mut i = start;
    while i < end
        invariant
            start <= i <= end <= chars.len(),
            buf@ == chars@.subrange(start as int, i as int),
        decreases end - i,
    {
        buf.push(chars[i]);
        i = i + 1;
        proof {
            assert(buf@ =~= chars@.subrange(start as int, i as int));
        }
    }
    StyledSpan { content: string_from_chars(buf.as_slice()), style }
}

/// Parses a line with ANSI SGR escape sequences into styled runs of text.
/// Unrecognized sequences are skipped.
pub fn parse_ansi_line(raw: &str) -> (r: Vec<StyledSpan>)
    ensures
        spans_view(r@) == spec_parse_from(raw@, 0, spec_default_style()),
{
    let chars = str_chars(raw);
    let len = chars.len();
    let mut spans: Vec<StyledSpan> = Vec::new();
    let mut current_style = Style::new();
    let mut pos: usize = 0;
    while pos < len
        invariant
            len == chars.len(),
            chars@ == raw@,
            pos <= len,
            spans_view(spans@) + spec_parse_from(chars@, pos as int, current_style)
                == spec_parse_from(chars@, 0, spec_default_style()),
        decreases len - pos,
    {
        let ghost old_spans = spans@;
        let ghost p0 = pos as int;
        let ghost st0 = current_style;
        proof {
            lemma_find_bounds(chars@, p0, ESC);
        }
        match memchr(ESC, chars.as_slice(), pos) {
            Some(esc) => {
                if esc > pos {
                    let sp = span_of(&chars, pos, esc, current_style);
                    spans.push(sp);
                }
                proof {
                    assert(spans_view(spans@) =~= spans_view(old_spans) + (if esc > p0 {
                        seq![(chars@.subrange(p0, esc as int), st0)]
                    } else {
                        Seq::empty()
                    }));
                }
                if esc + 1 < len && chars[esc + 1] == '[' {
                    let seq_start = esc + 2;
                    let mut seq_end = seq_start;
                    proof {
                        lemma_find_bounds(chars@, seq_start as int, 'm');
                    }
                    while seq_end < len && chars[seq_end] != 'm'
                        invariant
                            len == chars.len(),
                            seq_start <= seq_end <= len,
                            spec_find(chars@, seq_end as int, 'm') == spec_find(
                                chars@,
                                seq_start as int,
                                'm',
                            ),
                        decreases len - seq_end,
                    {
                        seq_end = seq_end + 1;
                    }
                    if seq_end < len {
                        current_style = apply_sgr(current_style, &chars, seq_start, seq_end);
                        pos = seq_end + 1;
                    } else {
                        pos = esc + 1;
                    }
                } else {
                    pos = esc + 1;
                }
                proof {
                    assert(spans_view(spans@) + spec_parse_from(chars@, pos as int, current_style)
                        =~= spans_view(old_spans) + spec_parse_from(chars@, p0, st0));
                }
            },
            None => {
                let sp = span_of(&chars, pos, len, current_style);
                spans.push(sp);
                proof {
                    assert(spans_view(spans@) =~= spans_view(old_spans) + spec_parse_from(
                        chars@,
                        p0,
                        st0,
                    ));
                }
                pos = len;
            },
        }
    }
    spans
}

} // verus!
