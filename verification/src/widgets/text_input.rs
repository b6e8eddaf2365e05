use vstd::prelude::*;

use crate::ansi::spans_view;
use crate::keys::{KeyCode, KeyEvent};
use crate::style::{spec_default_style, Color, Style, StyledSpan, BOLD};
use crate::text::{
    char_index_at, char_width, lemma_utf8_len_mono, lemma_utf8_len_prefix, lemma_utf8_len_strict,
    spec_utf8_len, str_chars, string_from_chars, string_of, sub_chars, utf8_len,
};

verus! {

/// Outcome from handling a key event in the text input.
pub enum TextInputOutcome {
    /// Input is still active, keep rendering.
    Continue,
    /// User confirmed the input (pressed Enter).
    Confirm(String),
    /// User cancelled the input (pressed Esc).
    Cancel,
}

/// Abstract value of a [`TextInput`]: its prompt, its text and the cursor as a
/// character index into the text.
pub struct TextInputView {
    pub prompt: Seq<char>,
    pub content: Seq<char>,
    pub cursor: nat,
}

/// Moves left from `k` over spaces.
pub open spec fn spec_skip_spaces_back(s: Seq<char>, k: int) -> int
    decreases k,
{
    if k > 0 && s[k - 1] == ' ' {
        spec_skip_spaces_back(s, k - 1)
    } else {
        k
    }
}

/// Moves left from `k` over non-spaces.
pub open spec fn spec_skip_word_back(s: Seq<char>, k: int) -> int
    decreases k,
{
    if k > 0 && s[k - 1] != ' ' {
        spec_skip_word_back(s, k - 1)
    } else {
        k
    }
}

/// Start of the word before `k`: trailing spaces, then the word itself.
pub open spec fn spec_prev_word_boundary(s: Seq<char>, k: int) -> int {
    spec_skip_word_back(s, spec_skip_spaces_back(s, k))
}

proof fn lemma_skip_bounds(s: Seq<char>, k: int)
    requires
        0 <= k,
    ensures
        0 <= spec_skip_spaces_back(s, k) <= k,
        0 <= spec_skip_word_back(s, k) <= k,
    decreases k,
{
    if k > 0 {
        lemma_skip_bounds(s, k - 1);
    }
}

/// `s` without the characters `a..b`.
pub open spec fn spec_cut(s: Seq<char>, a: int, b: int) -> Seq<char> {
    s.subrange(0, a) + s.subrange(b, s.len() as int)
}

/// The state after a key press (text and character cursor).
pub open spec fn spec_key_step(v: TextInputView, key: KeyEvent) -> TextInputView {
    let c = v.content;
    let k = v.cursor as int;
    match key.code {
        KeyCode::Char(ch) => if key.ctrl {
            if ch == 'a' {
                TextInputView { cursor: 0, ..v }
            } else if ch == 'e' {
                TextInputView { cursor: c.len(), ..v }
            } else if ch == 'u' {
                TextInputView { content: c.subrange(k, c.len() as int), cursor: 0, ..v }
            } else if ch == 'k' {
                TextInputView { content: c.subrange(0, k), ..v }
            } else if ch == 'w' {
                let b = spec_prev_word_boundary(c, k);
                TextInputView { content: spec_cut(c, b, k), cursor: b as nat, ..v }
            } else {
                v
            }
        } else {
            TextInputView { content: c.insert(k, ch), cursor: (k + 1) as nat, ..v }
        },
        KeyCode::Backspace => if k > 0 {
            TextInputView { content: c.remove(k - 1), cursor: (k - 1) as nat, ..v }
        } else {
            v
        },
        KeyCode::Delete => if k < c.len() {
            TextInputView { content: c.remove(k), ..v }
        } else {
            v
        },
        KeyCode::Left => if k > 0 {
            TextInputView { cursor: (k - 1) as nat, ..v }
        } else {
            v
        },
        KeyCode::Right => if k < c.len() {
            TextInputView { cursor: (k + 1) as nat, ..v }
        } else {
            v
        },
        KeyCode::Home => TextInputView { cursor: 0, ..v },
        KeyCode::End => TextInputView { cursor: c.len(), ..v },
        _ => v,
    }
}

/// A single-line text input with a cursor.
pub struct TextInput {
    prompt: Vec<char>,
    content: Vec<char>,
    cursor: usize,
}

impl View for TextInput {
    type V = TextInputView;

    closed spec fn view(&self) -> TextInputView {
        TextInputView { prompt: self.prompt@, content: self.content@, cursor: self.cursor as nat }
    }
}

/// `v` without the elements `a..b`.
fn cut(v: &Vec<char>, a: usize, b: usize) -> (r: Vec<char>)
    requires
        a <= b <= v.len(),
    ensures
        r@ == spec_cut(v@, a as int, b as int),
{
    let mut out: Vec<char> = Vec::new();
    let mut i: usize = 0;
    while i < v.len()
        invariant
            a <= b <= v.len(),
            i <= v.len(),
            out@ == (if i <= a {
                v@.subrange(0, i as int)
            } else if i <= b {
                v@.subrange(0, a as int)
            } else {
                v@.subrange(0, a as int) + v@.subrange(b as int, i as int)
            }),
        decreases v.len() - i,
    {
        if i < a || i >= b {
            out.push(v[i]);
        }
        i = i + 1;
        proof {
            if i <= a {
                assert(out@ =~= v@.subrange(0, i as int));
            } else if i <= b {
            } else {
                assert(out@ =~= v@.subrange(0, a as int) + v@.subrange(b as int, i as int));
            }
        }
    }
    proof {
        assert(out@ =~= spec_cut(v@, a as int, b as int));
    }
    out
}

impl TextInput {
    #[verifier::type_invariant]
    closed spec fn wf(self) -> bool {
        self.cursor <= self.content.len()
    }

    /// A text input showing `prompt`, holding `initial`, with the cursor at the end.
    pub fn new(prompt: &str, initial: &str) -> (r: Self)
        ensures
            r@.prompt == prompt@,
            r@.content == initial@,
            r@.cursor == initial@.len(),
    {
        let content = str_chars(initial);
        let cursor = content.len();
        TextInput { prompt: str_chars(prompt), content, cursor }
    }

    /// The text typed so far.
    pub fn content(&self) -> (r: String)
        ensures
            r@ == self@.content,
    {
        string_from_chars(self.content.as_slice())
    }

    /// The prompt shown before the text.
    pub fn prompt(&self) -> (r: String)
        ensures
            r@ == self@.prompt,
    {
        string_from_chars(self.prompt.as_slice())
    }

    /// The cursor as a byte offset into the UTF-8 text.
    pub fn cursor(&self) -> (r: usize)
        requires
            spec_utf8_len(self@.content) <= usize::MAX,
        ensures
            r == spec_utf8_len(self@.content.take(self@.cursor as int)),
    {
        proof {
            use_type_invariant(self);
        }
        let mut bytes: usize = 0;
        let mut i: usize = 0;
        while i < self.cursor
            invariant
                i <= self.cursor <= self.content.len(),
                bytes == spec_utf8_len(self.content@.take(i as int)),
                spec_utf8_len(self.content@) <= usize::MAX,
            decreases self.cursor - i,
        {
            proof {
                lemma_utf8_len_prefix(self.content@, i + 1);
                lemma_utf8_len_mono(self.content@, i + 1, self.content@.len() as int);
                assert(self.content@.take(self.content@.len() as int) =~= self.content@);
            }
            bytes = bytes + char_width(self.content[i]);
            i = i + 1;
        }
        bytes
    }

    /// Moves the cursor to byte offset `pos`, which must be where a character
    /// of the text starts (or its end).
    pub fn set_cursor(&mut self, pos: usize)
        requires
            exists|k: int|
                0 <= k <= old(self)@.content.len() && #[trigger] spec_utf8_len(
                    old(self)@.content.take(k),
                ) == pos,
        ensures
            final(self)@.content == old(self)@.content,
            final(self)@.prompt == old(self)@.prompt,
            final(self)@.cursor <= final(self)@.content.len(),
            final(self)@.cursor == char_at_byte(old(self)@.content, pos as int),
            forall|k: int|
                0 <= k <= old(self)@.content.len() && #[trigger] spec_utf8_len(
                    old(self)@.content.take(k),
                ) == pos ==> final(self)@.cursor == k,
            spec_utf8_len(final(self)@.content.take(final(self)@.cursor as int)) == pos,
    {
        let ghost c = self.content@;
        let ghost kk = choose|k: int|
            0 <= k <= c.len() && #[trigger] spec_utf8_len(c.take(k)) == pos;
        let mut bytes: usize = 0;
        let mut i: usize = 0;
        while bytes < pos
            invariant
                c == self.content@,
                c.len() == self.content.len(),
                0 <= kk <= c.len(),
                spec_utf8_len(c.take(kk)) == pos,
                i <= kk,
                bytes == spec_utf8_len(c.take(i as int)),
            decreases kk - i,
        {
            proof {
                if i == kk {
                    assert(false);
                }
                lemma_utf8_len_prefix(c, i + 1);
                lemma_utf8_len_mono(c, i + 1, kk);
            }
            bytes = bytes + char_width(self.content[i]);
            i = i + 1;
        }
        proof {
            lemma_utf8_len_mono(c, i as int, kk);
            lemma_utf8_len_strict(c, i as int, kk);
            let ck = char_at_byte(c, pos as int);
            lemma_utf8_index_order(c, ck, i as int);
            lemma_utf8_index_order(c, i as int, ck);
            assert forall|k: int| 0 <= k <= c.len() && #[trigger] spec_utf8_len(c.take(k)) == pos
                implies i == k by {
                lemma_utf8_index_order(c, k, i as int);
                lemma_utf8_index_order(c, i as int, k);
            }
        }
        self.cursor = i;
    }

    /// Handles a key press.
    pub fn handle_key_event(&mut self, key: KeyEvent) -> (r: TextInputOutcome)
        ensures
            final(self)@ == spec_key_step(old(self)@, key),
            key.code == KeyCode::Enter ==> (r matches TextInputOutcome::Confirm(s) && s@
                == old(self)@.content),
            key.code == KeyCode::Esc ==> r is Cancel,
            key.code != KeyCode::Enter && key.code != KeyCode::Esc ==> r is Continue,
    {
        proof {
            use_type_invariant(&*self);
        }
        match key.code {
            KeyCode::Enter => TextInputOutcome::Confirm(string_from_chars(self.content.as_slice())),
            KeyCode::Esc => TextInputOutcome::Cancel,
            KeyCode::Char(c) => {
                if key.ctrl {
                    if c == 'a' {
                        self.cursor = 0;
                    } else if c == 'e' {
                        self.cursor = self.content.len();
                    } else if c == 'u' {
                        let rest = cut(&self.content, 0, self.cursor);
                        proof {
                            assert(rest@ =~= self.content@.subrange(
                                self.cursor as int,
                                self.content@.len() as int,
                            ));
                        }
                        self.cursor = 0;
                        self.content = rest;
                    } else if c == 'k' {
                        let len = self.content.len();
                        let kept = cut(&self.content, self.cursor, len);
                        proof {
                            assert(kept@ =~= self.content@.subrange(0, self.cursor as int));
                        }
                        self.content = kept;
                    } else if c == 'w' {
                        let new_cursor = self.prev_word_boundary();
                        let kept = cut(&self.content, new_cursor, self.cursor);
                        self.cursor = new_cursor;
                        self.content = kept;
                    }
                } else {
                    let k = self.cursor;
                    let mut grown = cut(&self.content, k, self.content.len());
                    proof {
                        assert(grown@ =~= self.content@.subrange(0, k as int));
                    }
                    grown.push(c);
                    let mut j = k;
                    while j < self.content.len()
                        invariant
                            k <= j <= self.content.len(),
                            grown@ == self.content@.insert(k as int, c).subrange(0, j + 1),
                        decreases self.content.len() - j,
                    {
                        grown.push(self.content[j]);
                        j = j + 1;
                        proof {
                            assert(grown@ =~= self.content@.insert(k as int, c).subrange(
                                0,
                                j + 1,
                            ));
                        }
                    }
                    proof {
                        assert(grown@ =~= self.content@.insert(k as int, c));
                    }
                    self.content = grown;
                    self.cursor = k + 1;
                }
                TextInputOutcome::Continue
            },
            KeyCode::Backspace => {
                if self.cursor > 0 {
                    let prev = self.cursor - 1;
                    let kept = cut(&self.content, prev, self.cursor);
                    proof {
                        assert(kept@ =~= self.content@.remove(prev as int));
                    }
                    self.cursor = prev;
                    self.content = kept;
                }
                TextInputOutcome::Continue
            },
            KeyCode::Delete => {
                if self.cursor < self.content.len() {
                    let k = self.cursor;
                    let kept = cut(&self.content, k, k + 1);
                    proof {
                        assert(kept@ =~= self.content@.remove(k as int));
                    }
                    self.content = kept;
                }
                TextInputOutcome::Continue
            },
            KeyCode::Left => {
                if self.cursor > 0 {
                    self.cursor = self.cursor - 1;
                }
                TextInputOutcome::Continue
            },
            KeyCode::Right => {
                if self.cursor < self.content.len() {
                    self.cursor = self.cursor + 1;
                }
                TextInputOutcome::Continue
            },
            KeyCode::Home => {
                self.cursor = 0;
                TextInputOutcome::Continue
            },
            KeyCode::End => {
                self.cursor = self.content.len();
                TextInputOutcome::Continue
            },
            _ => TextInputOutcome::Continue,
        }
    }

    /// Start of the word before the cursor (trailing spaces are skipped first).
    fn prev_word_boundary(&self) -> (r: usize)
        ensures
            r == spec_prev_word_boundary(self@.content, self@.cursor as int),
            r <= self@.cursor,
    {
        proof {
            use_type_invariant(self);
        }
        let mut pos = self.cursor;
        while pos > 0 && self.content[pos - 1] == ' '
            invariant
                pos <= self.cursor <= self.content.len(),
                spec_skip_spaces_back(self.content@, pos as int) == spec_skip_spaces_back(
                    self.content@,
                    self.cursor as int,
                ),
            decreases pos,
        {
            pos = pos - 1;
        }
        let ghost mid = pos as int;
        while pos > 0 && self.content[pos - 1] != ' '
            invariant
                pos <= mid <= self.content.len(),
                spec_skip_word_back(self.content@, pos as int) == spec_skip_word_back(
                    self.content@,
                    mid,
                ),
            decreases pos,
        {
            pos = pos - 1;
        }
        pos
    }

    /// The widget that draws this input.
    pub fn widget(&self) -> (w: TextInputWidget<'_>)
        ensures
            w.input == self,
    {
        TextInputWidget { input: self }
    }
}

/// Draws a [`TextInput`]: prompt, text, and the cursor.
pub struct TextInputWidget<'a> {
    pub input: &'a TextInput,
}

/// Whether the first `b` bytes of the UTF-8 text of `s` end between two
/// characters.
pub open spec fn byte_boundary(s: Seq<char>, b: int) -> bool {
    exists|k: int| 0 <= k <= s.len() && #[trigger] spec_utf8_len(s.take(k)) == b
}

/// The index of the character that starts `b` bytes into `s`.
pub open spec fn char_at_byte(s: Seq<char>, b: int) -> int {
    choose|k: int| 0 <= k <= s.len() && #[trigger] spec_utf8_len(s.take(k)) == b
}

/// The columns the prompt takes: its length in bytes, kept to 16 bits.
pub open spec fn prompt_width(v: TextInputView) -> int {
    (spec_utf8_len(v.prompt) % 65536) as int
}

/// The part of the text shown `width` columns wide, as byte offsets
/// `(first, end)`: the columns after the prompt, scrolled so that the cursor
/// stays in view.
pub open spec fn spec_visible_bytes(v: TextInputView, width: u16) -> (int, int) {
    let pw = prompt_width(v);
    let avail: int = if width >= pw { width - pw } else { 0 };
    let c = spec_utf8_len(v.content.take(v.cursor as int)) as int;
    let n = spec_utf8_len(v.content) as int;
    let first = if c >= avail { c - avail + 1 } else { 0 };
    (first, if first + avail < n { first + avail } else { n })
}

/// Whether the input can be drawn `width` columns wide: a column is left
/// after the prompt, and the shown part starts and ends between characters.
pub open spec fn spec_drawable(v: TextInputView, width: u16) -> bool {
    &&& width > prompt_width(v)
    &&& byte_boundary(v.content, spec_visible_bytes(v, width).0)
    &&& byte_boundary(v.content, spec_visible_bytes(v, width).1)
}

/// The spans of the input drawn `width` columns wide: the prompt in bold
/// yellow, the shown text before the cursor in white, the character under
/// the cursor (a space at the end) in black on white, and the shown text
/// after it in white.
pub open spec fn spec_input_spans(v: TextInputView, width: u16) -> Seq<(Seq<char>, Style)> {
    let (s, e) = spec_visible_bytes(v, width);
    let ks = char_at_byte(v.content, s);
    let ke = char_at_byte(v.content, e);
    let k = v.cursor as int;
    let text = spec_default_style().spec_fg(Color::White);
    let cur = spec_default_style().spec_fg(Color::Black).spec_bg(Color::White);
    seq![(v.prompt, spec_default_style().spec_fg(Color::Yellow).spec_add_modifier(BOLD))] + (if ks
        < k {
        seq![(v.content.subrange(ks, k), text)]
    } else {
        Seq::empty()
    }) + (if k >= ke {
        seq![(" "@, cur)]
    } else {
        seq![(seq![v.content[k]], cur)] + (if k + 1 < ke {
            seq![(v.content.subrange(k + 1, ke), text)]
        } else {
            Seq::empty()
        })
    })
}

/// Prefixes with no more bytes have no more characters.
proof fn lemma_utf8_index_order(s: Seq<char>, i: int, j: int)
    requires
        0 <= i <= s.len(),
        0 <= j <= s.len(),
        spec_utf8_len(s.take(i)) <= spec_utf8_len(s.take(j)),
    ensures
        i <= j,
        spec_utf8_len(s.take(i)) == spec_utf8_len(s.take(j)) ==> i == j,
{
    if i > j {
        lemma_utf8_len_mono(s, j, i);
        lemma_utf8_len_strict(s, j, i);
    } else if spec_utf8_len(s.take(i)) == spec_utf8_len(s.take(j)) {
        lemma_utf8_len_strict(s, i, j);
    }
}

/// Whether the first `b` bytes of `cs` end between two characters.
fn is_byte_boundary(cs: &Vec<char>, b: usize) -> (r: bool)
    ensures
        r == byte_boundary(cs@, b as int),
{
    let ghost c = cs@;
    let mut bytes: usize = 0;
    let mut i: usize = 0;
    while i < cs.len() && bytes < b
        invariant
            c == cs@,
            i <= c.len(),
            bytes == spec_utf8_len(c.take(i as int)),
            bytes <= b || i == 0,
            forall|k: int| 0 <= k < i ==> spec_utf8_len(#[trigger] c.take(k)) < b,
        decreases c.len() - i,
    {
        proof {
            lemma_utf8_len_prefix(c, i + 1);
        }
        let w = char_width(cs[i]);
        if w > b - bytes {
            proof {
                assert forall|k: int| 0 <= k <= c.len() implies #[trigger] spec_utf8_len(c.take(k)) != b by {
                    if k > i {
                        lemma_utf8_len_mono(c, i + 1, k);
                    }
                }
            }
            return false;
        }
        bytes = bytes + w;
        i = i + 1;
    }
    if bytes == b {
        proof {
            assert(spec_utf8_len(c.take(i as int)) == b);
        }
        true
    } else {
        proof {
            assert(i == c.len());
            assert forall|k: int| 0 <= k <= c.len() implies #[trigger] spec_utf8_len(c.take(k)) != b by {
                if k == i {
                    assert(spec_utf8_len(c.take(k)) == bytes);
                }
            }
        }
        false
    }
}

impl<'a> TextInputWidget<'a> {
    /// Whether the input can be drawn `width` columns wide (see
    /// `spec_drawable`).
    pub fn is_drawable(&self, width: u16) -> (r: bool)
        requires
            spec_utf8_len(self.input@.prompt) <= usize::MAX,
            spec_utf8_len(self.input@.content) <= usize::MAX,
        ensures
            r == spec_drawable(self.input@, width),
    {
        let input = self.input;
        proof {
            use_type_invariant(input);
        }
        let ghost v = input@;
        let ghost cs = input.content@;
        let pb = utf8_len(&input.prompt);
        let pw: u16 = (pb % 65536) as u16;
        if width <= pw {
            return false;
        }
        let avail: usize = (width - pw) as usize;
        let c = input.cursor();
        let n = utf8_len(&input.content);
        proof {
            lemma_utf8_len_mono(cs, input.cursor as int, cs.len() as int);
            assert(cs.take(cs.len() as int) =~= cs);
        }
        let first: usize = if c >= avail { c - avail + 1 } else { 0 };
        let end: usize = if avail < n - first { first + avail } else { n };
        assert((first as int, end as int) == spec_visible_bytes(v, width));
        is_byte_boundary(&input.content, first) && is_byte_boundary(&input.content, end)
    }

    /// The line to draw in `width` columns.
    pub fn line(&self, width: u16) -> (r: Vec<StyledSpan>)
        requires
            spec_utf8_len(self.input@.prompt) <= usize::MAX,
            spec_utf8_len(self.input@.content) <= usize::MAX,
            spec_drawable(self.input@, width),
        ensures
            spans_view(r@) == spec_input_spans(self.input@, width),
    {
        let input = self.input;
        proof {
            use_type_invariant(input);
        }
        let ghost v = input@;
        let ghost cs = input.content@;
        let pb = utf8_len(&input.prompt);
        let pw: u16 = (pb % 65536) as u16;
        let avail: usize = if width >= pw { (width - pw) as usize } else { 0 };
        let c = input.cursor();
        let n = utf8_len(&input.content);
        proof {
            lemma_utf8_len_mono(cs, input.cursor as int, cs.len() as int);
            assert(cs.take(cs.len() as int) =~= cs);
        }
        let first: usize = if c >= avail { c - avail + 1 } else { 0 };
        let end: usize = if avail < n - first { first + avail } else { n };
        assert((first as int, end as int) == spec_visible_bytes(v, width));
        let ks = char_index_at(&input.content, first);
        let ke = char_index_at(&input.content, end);
        let k = input.cursor;
        proof {
            let cks = char_at_byte(cs, first as int);
            let cke = char_at_byte(cs, end as int);
            lemma_utf8_index_order(cs, ks as int, cks);
            lemma_utf8_index_order(cs, cks, ks as int);
            lemma_utf8_index_order(cs, ke as int, cke);
            lemma_utf8_index_order(cs, cke, ke as int);
            lemma_utf8_index_order(cs, ks as int, k as int);
            lemma_utf8_index_order(cs, k as int, ke as int);
        }
        let text = Style::new().fg(Color::White);
        let cur = Style::new().fg(Color::Black).bg(Color::White);
        let mut out: Vec<StyledSpan> = Vec::new();
        out.push(
            StyledSpan {
                content: string_of(&input.prompt),
                style: Style::new().fg(Color::Yellow).add_modifier(BOLD),
            },
        );
        if ks < k {
            out.push(StyledSpan { content: string_of(&sub_chars(&input.content, ks, k)), style: text });
        }
        if k >= ke {
            out.push(StyledSpan { content: " ".to_owned(), style: cur });
        } else {
            let mut one: Vec<char> = Vec::new();
            one.push(input.content[k]);
            out.push(StyledSpan { content: string_of(&one), style: cur });
            if k + 1 < ke {
                out.push(
                    StyledSpan { content: string_of(&sub_chars(&input.content, k + 1, ke)), style: text },
                );
            }
        }
        proof {
            assert(spans_view(out@) =~= spec_input_spans(v, width));
        }
        out
    }
}

} // verus!
