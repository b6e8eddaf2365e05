//! Conversions between `str`/`String` and their characters or UTF-8 bytes.

use vstd::prelude::*;
use vstd::utf8::*;

verus! {

/// The characters of `s`.
pub(crate) fn str_chars(s: &str) -> (v: Vec<char>)
    ensures
        v@ == s@,
{
    broadcast use vstd::string::axiom_spec_iter;

    let mut v: Vec<char> = Vec::new();
    for c in it: s.chars()
        invariant
            v@ == it.seq().take(it.index() as int),
            it.seq() == s@,
    {
        v.push(c);
    }
    v
}

/// The string made of `chars`.
///
/// Trusted: collects the characters into a `String` (`FromIterator<char>`);
/// claims the result holds exactly these characters.
#[verifier::external_body]
pub(crate) fn string_from_chars(chars: &[char]) -> (s: String)
    ensures
        s@ == chars@,
{
    chars.iter().collect()
}

/// The text encoded by the UTF-8 bytes `bytes`.
///
/// Trusted: calls `std::str::from_utf8`, which succeeds on valid UTF-8 (ruled
/// in by `requires`); claims the result decodes `bytes`.
#[verifier::external_body]
pub(crate) fn str_from_utf8(bytes: &[u8]) -> (s: &str)
    requires
        valid_utf8(bytes@),
    ensures
        s@ == decode_utf8(bytes@),
{
    std::str::from_utf8(bytes).unwrap()
}

/// First index at or after `from` where `c` occurs in `s`, or `s.len()`.
pub open spec fn spec_find(s: Seq<char>, from: int, c: char) -> int
    decreases s.len() - from,
{
    if from >= s.len() {
        s.len() as int
    } else if s[from] == c {
        from
    } else {
        spec_find(s, from + 1, c)
    }
}

pub proof fn lemma_find_bounds(s: Seq<char>, from: int, c: char)
    requires
        0 <= from,
    ensures
        from <= spec_find(s, from, c) <= s.len() || (from > s.len() && spec_find(s, from, c)
            == s.len()),
        spec_find(s, from, c) < s.len() ==> s[spec_find(s, from, c)] == c,
        forall|k: int| from <= k < spec_find(s, from, c) ==> s[k] != c,
    decreases s.len() - from,
{
    if from < s.len() && s[from] != c {
        lemma_find_bounds(s, from + 1, c);
    }
}

/// Index of the first `c` in `chars[from..to]`, or `to`.
pub(crate) fn find_in(chars: &Vec<char>, from: usize, to: usize, c: char) -> (r: usize)
    requires
        from <= to <= chars.len(),
    ensures
        from <= r <= to,
        r < to ==> chars@[r as int] == c,
        forall|k: int| from <= k < r ==> chars@[k] != c,
        r == spec_find(chars@.subrange(0, to as int), from as int, c),
{
    let ghost t = chars@.subrange(0, to as int);
    let mut i = from;
    while i < to && chars[i] != c
        invariant
            from <= i <= to <= chars.len(),
            t == chars@.subrange(0, to as int),
            spec_find(t, i as int, c) == spec_find(t, from as int, c),
            forall|k: int| from <= k < i ==> chars@[k] != c,
        decreases to - i,
    {
        i = i + 1;
    }
    i
}

/// The string made of `chars[a..b]`.
pub(crate) fn substring(chars: &Vec<char>, a: usize, b: usize) -> (r: String)
    requires
        a <= b <= chars.len(),
    ensures
        r@ == chars@.subrange(a as int, b as int),
{
    let mut buf: Vec<char> = Vec::new();
    let mut i = a;
    while i < b
        invariant
            a <= i <= b <= chars.len(),
            buf@ == chars@.subrange(a as int, i as int),
        decreases b - i,
    {
        buf.push(chars[i]);
        i = i + 1;
        proof {
            assert(buf@ =~= chars@.subrange(a as int, i as int));
        }
    }
    string_from_chars(buf.as_slice())
}

/// Whether `c` is white space (Unicode `White_Space`, as `char::is_whitespace`).
pub open spec fn spec_is_whitespace(c: char) -> bool {
    let u = c as u32;
    (0x09 <= u <= 0x0D) || u == 0x20 || u == 0x85 || u == 0xA0 || u == 0x1680 || (0x2000 <= u
        <= 0x200A) || u == 0x2028 || u == 0x2029 || u == 0x202F || u == 0x205F || u == 0x3000
}

pub(crate) fn is_whitespace(c: char) -> (r: bool)
    ensures
        r == spec_is_whitespace(c),
{
    let u = c as u32;
    (0x09 <= u && u <= 0x0D) || u == 0x20 || u == 0x85 || u == 0xA0 || u == 0x1680 || (0x2000
        <= u && u <= 0x200A) || u == 0x2028 || u == 0x2029 || u == 0x202F || u == 0x205F || u
        == 0x3000
}

/// Start of `s[a..b]` once leading white space is skipped.
pub open spec fn spec_trim_start(s: Seq<char>, a: int, b: int) -> int
    decreases b - a,
{
    if a < b && spec_is_whitespace(s[a]) {
        spec_trim_start(s, a + 1, b)
    } else {
        a
    }
}

/// End of `s[a..b]` once trailing white space is dropped.
pub open spec fn spec_trim_end(s: Seq<char>, a: int, b: int) -> int
    decreases b - a,
{
    if a < b && spec_is_whitespace(s[b - 1]) {
        spec_trim_end(s, a, b - 1)
    } else {
        b
    }
}

pub proof fn lemma_trim_bounds(s: Seq<char>, a: int, b: int)
    requires
        a <= b,
    ensures
        a <= spec_trim_start(s, a, b) <= b,
        a <= spec_trim_end(s, a, b) <= b,
        spec_trim_start(s, a, spec_trim_end(s, a, b)) <= spec_trim_end(s, a, b),
    decreases b - a,
{
    if a < b {
        if spec_is_whitespace(s[a]) {
            lemma_trim_bounds(s, a + 1, b);
        }
        if spec_is_whitespace(s[b - 1]) {
            lemma_trim_bounds(s, a, b - 1);
        }
    }
    lemma_trim_start_le(s, a, spec_trim_end_raw(s, a, b));
}

pub open spec fn spec_trim_end_raw(s: Seq<char>, a: int, b: int) -> int {
    spec_trim_end(s, a, b)
}

proof fn lemma_trim_start_le(s: Seq<char>, a: int, b: int)
    requires
        a <= b,
    ensures
        a <= spec_trim_start(s, a, b) <= b,
    decreases b - a,
{
    if a < b && spec_is_whitespace(s[a]) {
        lemma_trim_start_le(s, a + 1, b);
    }
}

/// `chars[a..b]` without leading white space: the new start.
pub(crate) fn trim_start_at(chars: &Vec<char>, a: usize, b: usize) -> (r: usize)
    requires
        a <= b <= chars.len(),
    ensures
        r == spec_trim_start(chars@, a as int, b as int),
        a <= r <= b,
{
    proof {
        lemma_trim_start_le(chars@, a as int, b as int);
    }
    let mut i = a;
    while i < b && is_whitespace(chars[i])
        invariant
            a <= i <= b <= chars.len(),
            spec_trim_start(chars@, i as int, b as int) == spec_trim_start(
                chars@,
                a as int,
                b as int,
            ),
        decreases b - i,
    {
        i = i + 1;
    }
    i
}

/// `chars[a..b]` without trailing white space: the new end.
pub(crate) fn trim_end_at(chars: &Vec<char>, a: usize, b: usize) -> (r: usize)
    requires
        a <= b <= chars.len(),
    ensures
        r == spec_trim_end(chars@, a as int, b as int),
        a <= r <= b,
{
    proof {
        lemma_trim_bounds(chars@, a as int, b as int);
    }
    let mut j = b;
    while j > a && is_whitespace(chars[j - 1])
        invariant
            a <= j <= b <= chars.len(),
            spec_trim_end(chars@, a as int, j as int) == spec_trim_end(
                chars@,
                a as int,
                b as int,
            ),
        decreases j,
    {
        j = j - 1;
    }
    j
}

/// The pieces of `s[a..b]` between occurrences of `sep` (as `str::split`:
/// always at least one piece), as index ranges into `s`.
pub open spec fn spec_split_from(s: Seq<char>, a: int, b: int, sep: char) -> Seq<(int, int)>
    decreases b - a,
{
    if a > b || b > s.len() || a < 0 {
        Seq::empty()
    } else {
        let e = spec_find(s.subrange(0, b), a, sep);
        proof {
            lemma_find_bounds(s.subrange(0, b), a, sep);
        }
        if e < b {
            seq![(a, e)] + spec_split_from(s, e + 1, b, sep)
        } else {
            seq![(a, b)]
        }
    }
}

/// Index ranges as pairs of integers.
pub open spec fn int_ranges(v: Seq<(usize, usize)>) -> Seq<(int, int)> {
    v.map_values(|p: (usize, usize)| (p.0 as int, p.1 as int))
}

/// `s[a..b]` split at `sep`, as index ranges into `s`.
pub(crate) fn split_ranges(chars: &Vec<char>, a: usize, b: usize, sep: char) -> (r: Vec<(usize, usize)>)
    requires
        a <= b <= chars.len(),
    ensures
        int_ranges(r@) == spec_split_from(chars@, a as int, b as int, sep),
        forall|i: int| 0 <= i < r@.len() ==> (#[trigger] r@[i]).0 <= r@[i].1 <= b,
{
    let ghost target = spec_split_from(chars@, a as int, b as int, sep);
    let mut out: Vec<(usize, usize)> = Vec::new();
    let mut start = a;
    proof {
        assert(int_ranges(out@) + spec_split_from(chars@, start as int, b as int, sep) =~= target);
    }
    loop
        invariant
            a <= start <= b <= chars.len(),
            target == spec_split_from(chars@, a as int, b as int, sep),
            int_ranges(out@) + spec_split_from(chars@, start as int, b as int, sep) == target,
            forall|i: int| 0 <= i < out@.len() ==> (#[trigger] out@[i]).0 <= out@[i].1 <= b,
        decreases b - start,
    {
        let e = find_in(chars, start, b, sep);
        let ghost rest = spec_split_from(chars@, start as int, b as int, sep);
        let ghost before = int_ranges(out@);
        proof {
            lemma_find_bounds(chars@.subrange(0, b as int), start as int, sep);
        }
        out.push((start, e));
        proof {
            assert(int_ranges(out@) =~= before.push((start as int, e as int)));
        }
        if e < b {
            proof {
                let tail = spec_split_from(chars@, e + 1, b as int, sep);
                assert(rest == seq![(start as int, e as int)] + tail);
                assert(int_ranges(out@) + tail =~= before + rest);
            }
            start = e + 1;
        } else {
            proof {
                assert(rest == seq![(start as int, b as int)]);
                assert(int_ranges(out@) =~= before + rest);
            }
            return out;
        }
    }
}

/// The lines of `s[a..]` (as `str::lines`: split after each `\n`, which is
/// dropped together with a `\r` just before it; no line after a final `\n`),
/// as index ranges into `s`.
pub open spec fn spec_lines_from(s: Seq<char>, a: int) -> Seq<(int, int)>
    decreases s.len() - a,
{
    if a < 0 || a >= s.len() {
        Seq::empty()
    } else {
        let e = spec_find(s, a, '\n');
        proof {
            lemma_find_bounds(s, a, '\n');
        }
        if e < s.len() {
            let end = if e > a && s[e - 1] == '\r' { e - 1 } else { e };
            seq![(a, end)] + spec_lines_from(s, e + 1)
        } else {
            seq![(a, s.len() as int)]
        }
    }
}

/// The lines of `chars`, as index ranges.
pub(crate) fn line_ranges(chars: &Vec<char>) -> (r: Vec<(usize, usize)>)
    ensures
        int_ranges(r@) == spec_lines_from(chars@, 0),
        forall|i: int| 0 <= i < r@.len() ==> (#[trigger] r@[i]).0 <= r@[i].1 <= chars.len(),
{
    let ghost target = spec_lines_from(chars@, 0);
    let len = chars.len();
    let mut out: Vec<(usize, usize)> = Vec::new();
    let mut start: usize = 0;
    proof {
        assert(int_ranges(out@) + spec_lines_from(chars@, start as int) =~= target);
    }
    while start < len
        invariant
            len == chars.len(),
            start <= len,
            target == spec_lines_from(chars@, 0),
            int_ranges(out@) + spec_lines_from(chars@, start as int) == target,
            forall|i: int| 0 <= i < out@.len() ==> (#[trigger] out@[i]).0 <= out@[i].1 <= len,
        decreases len - start,
    {
        let e = find_in(chars, start, len, '\n');
        let ghost rest = spec_lines_from(chars@, start as int);
        let ghost before = int_ranges(out@);
        proof {
            assert(chars@.subrange(0, len as int) =~= chars@);
            lemma_find_bounds(chars@, start as int, '\n');
        }
        if e < len {
            let end = if e > start && chars[e - 1] == '\r' { e - 1 } else { e };
            out.push((start, end));
            proof {
                assert(int_ranges(out@) =~= before.push((start as int, end as int)));
                let tail = spec_lines_from(chars@, e + 1);
                assert(rest == seq![(start as int, end as int)] + tail);
                assert(int_ranges(out@) + tail =~= before + rest);
            }
            start = e + 1;
        } else {
            out.push((start, len));
            proof {
                assert(int_ranges(out@) =~= before.push((start as int, len as int)));
                assert(rest == seq![(start as int, len as int)]);
                assert(spec_lines_from(chars@, len as int) =~= Seq::<(int, int)>::empty());
                assert(int_ranges(out@) + spec_lines_from(chars@, len as int) =~= before + rest);
            }
            start = len;
        }
    }
    proof {
        assert(spec_lines_from(chars@, start as int) =~= Seq::<(int, int)>::empty());
        assert(int_ranges(out@) =~= target);
    }
    out
}

/// Whether `chars[a..b]` is the text `lit`.
pub(crate) fn range_eq(chars: &Vec<char>, a: usize, b: usize, lit: &str) -> (r: bool)
    requires
        a <= b <= chars.len(),
    ensures
        r == (chars@.subrange(a as int, b as int) == lit@),
{
    let l = str_chars(lit);
    if b - a != l.len() {
        proof {
            assert(chars@.subrange(a as int, b as int).len() != lit@.len());
        }
        return false;
    }
    let mut i: usize = 0;
    while i < l.len()
        invariant
            a <= b <= chars.len(),
            l@ == lit@,
            b - a == l.len(),
            i <= l.len(),
            forall|k: int| 0 <= k < i ==> chars@[a + k] == l@[k],
        decreases l.len() - i,
    {
        if chars[a + i] != l[i] {
            proof {
                assert(chars@.subrange(a as int, b as int)[i as int] != lit@[i as int]);
            }
            return false;
        }
        i = i + 1;
    }
    proof {
        assert(chars@.subrange(a as int, b as int) =~= lit@);
    }
    true
}

/// The characters `chars[a..b]`.
pub(crate) fn sub_chars(chars: &Vec<char>, a: usize, b: usize) -> (r: Vec<char>)
    requires
        a <= b <= chars.len(),
    ensures
        r@ == chars@.subrange(a as int, b as int),
{
    let mut out: Vec<char> = Vec::new();
    let mut i = a;
    while i < b
        invariant
            a <= i <= b <= chars.len(),
            out@ == chars@.subrange(a as int, i as int),
        decreases b - i,
    {
        out.push(chars[i]);
        i = i + 1;
        proof {
            assert(out@ =~= chars@.subrange(a as int, i as int));
        }
    }
    out
}

/// The pieces of `t` between occurrences of `sep` (as `str::split`).
pub open spec fn spec_split(t: Seq<char>, sep: char) -> Seq<Seq<char>> {
    spec_split_from(t, 0, t.len() as int, sep).map_values(|r: (int, int)| t.subrange(r.0, r.1))
}

/// The lines of `t` (as `str::lines`).
pub open spec fn spec_lines(t: Seq<char>) -> Seq<Seq<char>> {
    spec_lines_from(t, 0).map_values(|r: (int, int)| t.subrange(r.0, r.1))
}

/// The pieces of a list of ranges of `chars`, each copied out.
fn pieces(chars: &Vec<char>, ranges: &Vec<(usize, usize)>) -> (r: Vec<Vec<char>>)
    requires
        forall|i: int| 0 <= i < ranges@.len() ==> (#[trigger] ranges@[i]).0 <= ranges@[i].1 <= chars.len(),
    ensures
        r@.len() == ranges@.len(),
        forall|i: int| 0 <= i < r@.len() ==> (#[trigger] r@[i])@ == chars@.subrange(
            ranges@[i].0 as int,
            ranges@[i].1 as int,
        ),
{
    let mut out: Vec<Vec<char>> = Vec::new();
    let mut i: usize = 0;
    while i < ranges.len()
        invariant
            i <= ranges@.len(),
            out@.len() == i,
            forall|k: int| 0 <= k < ranges@.len() ==> (#[trigger] ranges@[k]).0 <= ranges@[k].1 <= chars.len(),
            forall|k: int| 0 <= k < i ==> (#[trigger] out@[k])@ == chars@.subrange(
                ranges@[k].0 as int,
                ranges@[k].1 as int,
            ),
        decreases ranges.len() - i,
    {
        let (a, b) = ranges[i];
        let piece = sub_chars(chars, a, b);
        out.push(piece);
        i = i + 1;
    }
    out
}

/// `t` split at every `sep`.
pub(crate) fn split_chars(t: &Vec<char>, sep: char) -> (r: Vec<Vec<char>>)
    ensures
        r@.len() == spec_split(t@, sep).len(),
        forall|i: int| 0 <= i < r@.len() ==> (#[trigger] r@[i])@ == spec_split(t@, sep)[i],
{
    let ranges = split_ranges(t, 0, t.len(), sep);
    let r = pieces(t, &ranges);
    proof {
        assert forall|i: int| 0 <= i < r@.len() implies (#[trigger] r@[i])@ == spec_split(t@, sep)[i] by {
            assert(int_ranges(ranges@)[i] == (ranges@[i].0 as int, ranges@[i].1 as int));
        }
    }
    r
}

/// The lines of `t`.
pub(crate) fn lines_chars(t: &Vec<char>) -> (r: Vec<Vec<char>>)
    ensures
        r@.len() == spec_lines(t@).len(),
        forall|i: int| 0 <= i < r@.len() ==> (#[trigger] r@[i])@ == spec_lines(t@)[i],
{
    let ranges = line_ranges(t);
    let r = pieces(t, &ranges);
    proof {
        assert forall|i: int| 0 <= i < r@.len() implies (#[trigger] r@[i])@ == spec_lines(t@)[i] by {
            assert(int_ranges(ranges@)[i] == (ranges@[i].0 as int, ranges@[i].1 as int));
        }
    }
    r
}

/// Whether `t` holds only white space (`t.trim().is_empty()`).
pub open spec fn spec_is_blank(t: Seq<char>) -> bool {
    spec_trim_start(t, 0, t.len() as int) == t.len()
}

/// `t` without leading and trailing white space (as `str::trim`).
pub open spec fn spec_trim(t: Seq<char>) -> Seq<char> {
    let e = spec_trim_end(t, 0, t.len() as int);
    t.subrange(spec_trim_start(t, 0, e), e)
}

/// `t` without leading white space (as `str::trim_start`).
pub open spec fn spec_trim_start_seq(t: Seq<char>) -> Seq<char> {
    t.subrange(spec_trim_start(t, 0, t.len() as int), t.len() as int)
}

pub(crate) fn is_blank(t: &Vec<char>) -> (r: bool)
    ensures
        r == spec_is_blank(t@),
{
    trim_start_at(t, 0, t.len()) == t.len()
}

pub(crate) fn trim_chars(t: &Vec<char>) -> (r: Vec<char>)
    ensures
        r@ == spec_trim(t@),
{
    let e = trim_end_at(t, 0, t.len());
    let a = trim_start_at(t, 0, e);
    sub_chars(t, a, e)
}

pub(crate) fn trim_start_chars(t: &Vec<char>) -> (r: Vec<char>)
    ensures
        r@ == spec_trim_start_seq(t@),
{
    let a = trim_start_at(t, 0, t.len());
    sub_chars(t, a, t.len())
}

/// `t` split at its first `c` (as `str::split_once`).
pub open spec fn spec_split_once(t: Seq<char>, c: char) -> Option<(Seq<char>, Seq<char>)> {
    let i = spec_find(t, 0, c);
    if i < t.len() {
        Some((t.subrange(0, i), t.subrange(i + 1, t.len() as int)))
    } else {
        None
    }
}

pub(crate) fn split_once_chars(t: &Vec<char>, c: char) -> (r: Option<(Vec<char>, Vec<char>)>)
    ensures
        match r {
            Some((x, y)) => spec_split_once(t@, c) == Some((x@, y@)),
            None => spec_split_once(t@, c) is None,
        },
{
    let i = find_in(t, 0, t.len(), c);
    proof {
        assert(t@.subrange(0, t.len() as int) =~= t@);
        lemma_find_bounds(t@, 0, c);
    }
    if i < t.len() {
        Some((sub_chars(t, 0, i), sub_chars(t, i + 1, t.len())))
    } else {
        None
    }
}

/// Whether `t` is the text `lit`.
pub(crate) fn eq_str(t: &Vec<char>, lit: &str) -> (r: bool)
    ensures
        r == (t@ == lit@),
{
    let r = range_eq(t, 0, t.len(), lit);
    proof {
        assert(t@.subrange(0, t.len() as int) =~= t@);
    }
    r
}

/// Appends the characters of `s` to `buf`.
pub(crate) fn push_str(buf: &mut Vec<char>, s: &str)
    ensures
        final(buf)@ == old(buf)@ + s@,
{
    let cs = str_chars(s);
    let mut i: usize = 0;
    while i < cs.len()
        invariant
            i <= cs@.len(),
            cs@ == s@,
            buf@ == old(buf)@ + cs@.subrange(0, i as int),
        decreases cs.len() - i,
    {
        buf.push(cs[i]);
        i = i + 1;
        proof {
            assert(buf@ =~= old(buf)@ + cs@.subrange(0, i as int));
        }
    }
    proof {
        assert(cs@.subrange(0, cs@.len() as int) =~= cs@);
    }
}

/// Appends the characters `t` to `buf`.
pub(crate) fn push_chars(buf: &mut Vec<char>, t: &Vec<char>)
    ensures
        final(buf)@ == old(buf)@ + t@,
{
    let mut i: usize = 0;
    while i < t.len()
        invariant
            i <= t@.len(),
            buf@ == old(buf)@ + t@.subrange(0, i as int),
        decreases t.len() - i,
    {
        buf.push(t[i]);
        i = i + 1;
        proof {
            assert(buf@ =~= old(buf)@ + t@.subrange(0, i as int));
        }
    }
    proof {
        assert(t@.subrange(0, t@.len() as int) =~= t@);
    }
}

/// The string holding the characters `t`.
pub(crate) fn string_of(t: &Vec<char>) -> (r: String)
    ensures
        r@ == t@,
{
    string_from_chars(t.as_slice())
}

/// Number of bytes of the UTF-8 text `cs`.
pub(crate) fn utf8_len(cs: &Vec<char>) -> (r: usize)
    requires
        spec_utf8_len(cs@) <= usize::MAX,
    ensures
        r == spec_utf8_len(cs@),
{
    let mut acc: usize = 0;
    let mut i: usize = 0;
    while i < cs.len()
        invariant
            i <= cs@.len(),
            spec_utf8_len(cs@) <= usize::MAX,
            acc == spec_utf8_len(cs@.take(i as int)),
        decreases cs.len() - i,
    {
        proof {
            lemma_utf8_len_prefix(cs@, i + 1);
            lemma_utf8_len_mono(cs@, i + 1, cs@.len() as int);
            assert(cs@.take(cs@.len() as int) =~= cs@);
        }
        acc = acc + char_width(cs[i]);
        i = i + 1;
    }
    proof {
        assert(cs@.take(i as int) =~= cs@);
    }
    acc
}

/// The index of the character that starts `b` bytes into `cs` (or its
/// length, when `b` is the length of the whole text).
pub(crate) fn char_index_at(cs: &Vec<char>, b: usize) -> (r: usize)
    requires
        exists|k: int| 0 <= k <= cs@.len() && #[trigger] spec_utf8_len(cs@.take(k)) == b,
    ensures
        r <= cs@.len(),
        spec_utf8_len(cs@.take(r as int)) == b,
{
    let ghost c = cs@;
    let ghost kk = choose|k: int| 0 <= k <= c.len() && #[trigger] spec_utf8_len(c.take(k)) == b;
    let mut bytes: usize = 0;
    let mut i: usize = 0;
    while bytes < b
        invariant
            c == cs@,
            c.len() == cs.len(),
            0 <= kk <= c.len(),
            spec_utf8_len(c.take(kk)) == b,
            i <= kk,
            bytes == spec_utf8_len(c.take(i as int)),
        decreases kk - i,
    {
        proof {
            if i == kk {
                assert(false);
            }
            lemma_utf8_len_prefix(c, i + 1);
            lemma_utf8_len_mono(c, i + 1, kk);
        }
        bytes = bytes + char_width(cs[i]);
        i = i + 1;
    }
    proof {
        lemma_utf8_len_mono(c, i as int, kk);
    }
    i
}

/// Number of bytes of the UTF-8 encoding of `c`.
pub open spec fn spec_char_width(c: char) -> nat {
    if (c as u32) < 0x80 {
        1
    } else if (c as u32) < 0x800 {
        2
    } else if (c as u32) < 0x10000 {
        3
    } else {
        4
    }
}

/// Number of bytes of the UTF-8 encoding of `s`.
pub open spec fn spec_utf8_len(s: Seq<char>) -> nat
    decreases s.len(),
{
    if s.len() == 0 {
        0
    } else {
        spec_utf8_len(s.drop_last()) + spec_char_width(s.last())
    }
}

pub fn char_width(c: char) -> (w: usize)
    ensures
        w == spec_char_width(c),
{
    let u = c as u32;
    if u < 0x80 {
        1
    } else if u < 0x800 {
        2
    } else if u < 0x10000 {
        3
    } else {
        4
    }
}

pub proof fn lemma_utf8_len_prefix(s: Seq<char>, k: int)
    requires
        0 < k <= s.len(),
    ensures
        spec_utf8_len(s.take(k)) == spec_utf8_len(s.take(k - 1)) + spec_char_width(s[k - 1]),
{
    assert(s.take(k).drop_last() =~= s.take(k - 1));
}

pub proof fn lemma_utf8_len_mono(s: Seq<char>, i: int, j: int)
    requires
        0 <= i <= j <= s.len(),
    ensures
        spec_utf8_len(s.take(i)) <= spec_utf8_len(s.take(j)),
    decreases j - i,
{
    if i < j {
        lemma_utf8_len_prefix(s, j);
        lemma_utf8_len_mono(s, i, j - 1);
    }
}

pub proof fn lemma_utf8_len_strict(s: Seq<char>, i: int, j: int)
    requires
        0 <= i <= j <= s.len(),
        spec_utf8_len(s.take(i)) == spec_utf8_len(s.take(j)),
    ensures
        i == j,
{
    if i < j {
        lemma_utf8_len_prefix(s, j);
        lemma_utf8_len_mono(s, i, j - 1);
    }
}

/// The decimal digits of `n`.
pub open spec fn spec_decimal(n: nat) -> Seq<char>
    decreases n,
{
    if n < 10 {
        seq![(('0' as u32) + n) as char]
    } else {
        spec_decimal(n / 10) + seq![(('0' as u32) + n % 10) as char]
    }
}

/// Appends the decimal digits of `n` to `buf`.
pub fn push_decimal(buf: &mut Vec<char>, n: u64)
    ensures
        final(buf)@ == old(buf)@ + spec_decimal(n as nat),
    decreases n,
{
    if n >= 10 {
        push_decimal(buf, n / 10);
    }
    let d = (n % 10) as u32;
    buf.push(char_from_digit(d));
    proof {
        assert(final(buf)@ =~= old(buf)@ + spec_decimal(n as nat));
    }
}

fn char_from_digit(d: u32) -> (c: char)
    requires
        d < 10,
    ensures
        c == (('0' as u32) + d) as char,
{
    if d == 0 { '0' } else if d == 1 { '1' } else if d == 2 { '2' } else if d == 3 { '3' }
    else if d == 4 { '4' } else if d == 5 { '5' } else if d == 6 { '6' } else if d == 7 { '7' }
    else if d == 8 { '8' } else { '9' }
}

} // verus!
