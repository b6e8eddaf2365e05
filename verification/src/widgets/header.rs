//! The header line of the review screen.

use vstd::prelude::*;

use crate::ansi::spans_view;
use crate::style::{spec_default_style, Color, Style, StyledSpan, BOLD};
use crate::text::{
    char_width, lemma_utf8_len_mono, lemma_utf8_len_prefix, lemma_utf8_len_strict, push_str,
    spec_utf8_len, str_chars, string_of,
};

verus! {

/// A screen title, a change id and a commit summary.
pub struct HeaderWidget<'a> {
    pub title: &'a str,
    pub change_id: &'a str,
    pub summary: &'a str,
}

/// Whether the first `n` bytes of the UTF-8 text of `s` end between two
/// characters (or `s` is no longer).
pub open spec fn cuts_at_char(s: Seq<char>, n: nat) -> bool {
    spec_utf8_len(s) <= n || exists|k: int| 0 <= k <= s.len() && #[trigger] spec_utf8_len(s.take(k)) == n
}

/// The characters of the first `n` bytes of `s`, or all of `s` when it is
/// no longer (where `cuts_at_char(s, n)`).
pub open spec fn spec_byte_prefix(s: Seq<char>, n: nat) -> Seq<char> {
    if spec_utf8_len(s) <= n {
        s
    } else {
        s.take(choose|k: int| 0 <= k <= s.len() && #[trigger] spec_utf8_len(s.take(k)) == n)
    }
}

/// The spans of the header: the title and a colon in dark gray, the first
/// eight bytes of the change id in bold magenta, then the summary in white.
pub open spec fn spec_header_spans(title: Seq<char>, change_id: Seq<char>, summary: Seq<char>) -> Seq<
    (Seq<char>, Style),
> {
    seq![
        (title + ": "@, spec_default_style().spec_fg(Color::DarkGray)),
        (
            spec_byte_prefix(change_id, 8) + " "@,
            spec_default_style().spec_fg(Color::Magenta).spec_add_modifier(BOLD),
        ),
        (summary, spec_default_style().spec_fg(Color::White)),
    ]
}

/// The characters of `s` up to byte `n`.
fn byte_prefix(s: &str, n: usize) -> (r: Vec<char>)
    requires
        cuts_at_char(s@, n as nat),
    ensures
        r@ == spec_byte_prefix(s@, n as nat),
{
    let cs = str_chars(s);
    let ghost c = cs@;
    let mut bytes: usize = 0;
    let mut i: usize = 0;
    while i < cs.len() && bytes < n
        invariant
            c == cs@,
            cuts_at_char(c, n as nat),
            i <= c.len(),
            bytes == spec_utf8_len(c.take(i as int)),
            bytes <= n,
        decreases c.len() - i,
    {
        proof {
            lemma_utf8_len_prefix(c, i + 1);
            if spec_utf8_len(c) <= n {
                lemma_utf8_len_mono(c, i + 1, c.len() as int);
                assert(c.take(c.len() as int) =~= c);
            } else {
                let kk = choose|k: int| 0 <= k <= c.len() && #[trigger] spec_utf8_len(c.take(k)) == n;
                if kk <= i {
                    lemma_utf8_len_mono(c, kk, i as int);
                }
                lemma_utf8_len_mono(c, i + 1, kk);
            }
        }
        bytes = bytes + char_width(cs[i]);
        i = i + 1;
    }
    proof {
        if i == c.len() {
            assert(c.take(i as int) =~= c);
        } else {
            assert(bytes == n);
            if spec_utf8_len(c) > n {
                let kk = choose|k: int| 0 <= k <= c.len() && #[trigger] spec_utf8_len(c.take(k)) == n;
                if kk < i {
                    lemma_utf8_len_mono(c, kk, i as int);
                    lemma_utf8_len_strict(c, kk, i as int);
                } else {
                    lemma_utf8_len_mono(c, i as int, kk);
                    lemma_utf8_len_strict(c, i as int, kk);
                }
            } else {
                lemma_utf8_len_mono(c, i as int, c.len() as int);
                assert(c.take(c.len() as int) =~= c);
                lemma_utf8_len_strict(c, i as int, c.len() as int);
            }
        }
    }
    let mut out: Vec<char> = Vec::new();
    let mut j: usize = 0;
    while j < i
        invariant
            c == cs@,
            i <= c.len(),
            j <= i,
            out@ == c.take(j as int),
        decreases i - j,
    {
        out.push(cs[j]);
        j = j + 1;
        proof {
            assert(out@ =~= c.take(j as int));
        }
    }
    out
}

impl<'a> HeaderWidget<'a> {
    pub fn new(title: &'a str, change_id: &'a str, summary: &'a str) -> (w: Self)
        ensures
            w.title@ == title@,
            w.change_id@ == change_id@,
            w.summary@ == summary@,
    {
        HeaderWidget { title, change_id, summary }
    }

    /// The line to draw; the change id is cut after eight bytes, which must
    /// end a character.
    pub fn line(&self) -> (r: Vec<StyledSpan>)
        requires
            cuts_at_char(self.change_id@, 8),
        ensures
            spans_view(r@) == spec_header_spans(self.title@, self.change_id@, self.summary@),
    {
        let mut head: Vec<char> = Vec::new();
        push_str(&mut head, self.title);
        push_str(&mut head, ": ");
        let mut id = byte_prefix(self.change_id, 8);
        push_str(&mut id, " ");
        let mut out: Vec<StyledSpan> = Vec::new();
        out.push(StyledSpan { content: string_of(&head), style: Style::new().fg(Color::DarkGray) });
        out.push(
            StyledSpan {
                content: string_of(&id),
                style: Style::new().fg(Color::Magenta).add_modifier(BOLD),
            },
        );
        out.push(StyledSpan { content: self.summary.to_owned(), style: Style::new().fg(Color::White) });
        proof {
            assert(spans_view(out@) =~= spec_header_spans(self.title@, self.change_id@, self.summary@));
        }
        out
    }
}

} // verus!
