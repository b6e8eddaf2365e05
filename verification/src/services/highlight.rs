//! Highlighted file contents, kept by line.

use vstd::prelude::*;

use two_face::re_exports::syntect::highlighting::{HighlightIterator, HighlightState, Highlighter, Theme};
use two_face::re_exports::syntect::parsing::{ParseState, ScopeStack, SyntaxSet};

use crate::services::diff::Token;
use crate::text::{lines_chars, spec_lines, str_chars, string_of};

verus! {

/// The highlight tokens of each line of a file (line `n` at index `n - 1`).
pub struct HighlightedFile {
    lines: Vec<Vec<Token>>,
}

/// The two lowercase hexadecimal digits of a byte.
pub open spec fn spec_hex2(b: u8) -> Seq<char> {
    seq![spec_hex_digit(b / 16), spec_hex_digit(b % 16)]
}

/// The lowercase hexadecimal digit of `d` (below 16).
pub open spec fn spec_hex_digit(d: u8) -> char {
    if d < 10 {
        ('0' as u8 + d) as char
    } else {
        ('a' as u8 + (d - 10)) as char
    }
}

fn hex_digit(d: u8) -> (c: char)
    requires
        d < 16,
    ensures
        c == spec_hex_digit(d),
{
    if d < 10 {
        ('0' as u8 + d) as char
    } else {
        ('a' as u8 + (d - 10)) as char
    }
}

/// Appends the two lowercase hexadecimal digits of `b` to `buf`.
pub fn push_hex2(buf: &mut Vec<char>, b: u8)
    ensures
        final(buf)@ == old(buf)@ + spec_hex2(b),
{
    buf.push(hex_digit(b / 16));
    buf.push(hex_digit(b % 16));
    proof {
        assert(final(buf)@ =~= old(buf)@ + spec_hex2(b));
    }
}

/// The CSS hex color `#rrggbb` of a red, green and blue value.
pub fn color_to_hex(r: u8, g: u8, b: u8) -> (s: String)
    ensures
        s@ == seq!['#'] + spec_hex2(r) + spec_hex2(g) + spec_hex2(b),
{
    let mut buf: Vec<char> = Vec::new();
    buf.push('#');
    push_hex2(&mut buf, r);
    push_hex2(&mut buf, g);
    push_hex2(&mut buf, b);
    proof {
        assert(buf@ =~= seq!['#'] + spec_hex2(r) + spec_hex2(g) + spec_hex2(b));
    }
    string_of(&buf)
}

/// A line as a single token without color.
pub fn plain_tokens(line: &str) -> (r: Vec<Token>)
    ensures
        r@.len() == 1,
        r@[0].content@ == line@,
        r@[0].color is None,
{
    let mut v: Vec<Token> = Vec::new();
    v.push(Token { content: line.to_owned(), color: None });
    v
}

impl HighlightedFile {
    /// The tokens of each line.
    pub closed spec fn spec_lines(&self) -> Seq<Vec<Token>> {
        self.lines@
    }

    /// A file with these highlighted lines.
    pub fn new(lines: Vec<Vec<Token>>) -> (f: Self)
        ensures
            f.spec_lines() == lines@,
    {
        HighlightedFile { lines }
    }

    /// The number of lines.
    pub fn len(&self) -> (n: usize)
        ensures
            n == self.spec_lines().len(),
    {
        self.lines.len()
    }

    /// The tokens of the line at index `i` (line `i + 1`).
    pub fn line_at(&self, i: usize) -> (r: &Vec<Token>)
        requires
            i < self.spec_lines().len(),
        ensures
            *r == self.spec_lines()[i as int],
    {
        &self.lines[i]
    }

    /// A file without lines (for binary files or missing contents).
    pub fn empty() -> (f: Self)
        ensures
            f.spec_lines().len() == 0,
    {
        HighlightedFile { lines: Vec::new() }
    }

    /// The tokens of line `lineno` (counted from 1); `None` for 0 or past
    /// the end.
    pub fn get(&self, lineno: u32) -> (r: Option<&Vec<Token>>)
        ensures
            match r {
                Some(t) => 1 <= lineno <= self.spec_lines().len() && *t == self.spec_lines()[lineno
                    - 1],
                None => lineno == 0 || lineno > self.spec_lines().len(),
            },
    {
        if lineno == 0 {
            return None;
        }
        let i = (lineno - 1) as usize;
        if i < self.lines.len() {
            Some(&self.lines[i])
        } else {
            None
        }
    }

    /// The file's text unhighlighted: each line one token without color.
    pub fn plain(content: &str) -> (f: Self)
        ensures
            file_view(f.spec_lines()) == plain_view(content@),
            f.spec_lines().len() == spec_lines(content@).len(),
            forall|i: int|
                0 <= i < f.spec_lines().len() ==> (#[trigger] f.spec_lines()[i])@.len() == 1
                    && f.spec_lines()[i]@[0].content@ == spec_lines(content@)[i]
                    && f.spec_lines()[i]@[0].color is None,
    {
        let chars = str_chars(content);
        let ls = lines_chars(&chars);
        let mut lines: Vec<Vec<Token>> = Vec::new();
        let mut i: usize = 0;
        while i < ls.len()
            invariant
                i <= ls@.len(),
                ls@.len() == spec_lines(content@).len(),
                forall|j: int| 0 <= j < ls@.len() ==> (#[trigger] ls@[j])@ == spec_lines(content@)[j],
                lines@.len() == i,
                forall|j: int|
                    0 <= j < i ==> (#[trigger] lines@[j])@.len() == 1 && lines@[j]@[0].content@
                        == spec_lines(content@)[j] && lines@[j]@[0].color is None,
            decreases ls.len() - i,
        {
            let text = string_of(&ls[i]);
            lines.push(plain_tokens(text.as_str()));
            i = i + 1;
        }
        proof {
            assert forall|j: int| 0 <= j < lines@.len() implies file_view(lines@)[j] == plain_view(
                content@,
            )[j] by {
                assert(line_tokens_view(lines@[j]) =~= seq![(spec_lines(content@)[j], None::<Seq<char>>)]);
            }
            assert(file_view(lines@) =~= plain_view(content@));
        }
        HighlightedFile { lines }
    }
}

#[verifier::external_type_specification]
#[verifier::external_body]
pub struct ExSyntaxSet(SyntaxSet);

#[verifier::external_type_specification]
#[verifier::external_body]
pub struct ExTheme(Theme);

/// Syntax highlighting with the syntaxes and the theme embedded in
/// `two-face`.
pub struct HighlightService {
    syntax_set: SyntaxSet,
    theme: Theme,
}

/// The embedded syntax definitions.
///
/// Trusted: calls `two_face::syntax::extra_newlines`; nothing is claimed.
#[verifier::external_body]
fn load_syntax_set() -> SyntaxSet {
    two_face::syntax::extra_newlines()
}

/// The embedded "base16-ocean.dark" theme.
///
/// Trusted: takes the theme from `two_face::theme::extra`; nothing is
/// claimed.
#[verifier::external_body]
fn load_theme() -> Theme {
    two_face::theme::extra()[two_face::theme::EmbeddedThemeName::Base16OceanDark].clone()
}

/// The name of the embedded syntax that `path`'s file name or extension
/// selects, if any (no file is read for it).
pub uninterp spec fn syntax_by_path_name(path: Seq<char>) -> Option<Seq<char>>;

/// The name of the syntax for `file_path`, if one is known.
///
/// Trusted: calls `SyntaxSet::find_syntax_for_file` (an error counts as
/// none). It first looks the path's file name and then its extension up
/// among the syntaxes' extensions; claims that when that lookup finds a
/// syntax (`syntax_by_path_name`), its name is returned. Only when it finds
/// none does syntect read the file's first line from disk, so nothing is
/// claimed of the result then.
#[verifier::external_body]
fn find_syntax_name(set: &SyntaxSet, file_path: &str) -> (r: Option<String>)
    ensures
        syntax_by_path_name(file_path@) is Some ==> r is Some && r->0@ == syntax_by_path_name(
            file_path@,
        )->0,
{
    match set.find_syntax_for_file(file_path) {
        Ok(Some(syntax)) => Some(syntax.name.clone()),
        _ => None,
    }
}

/// What highlighting `content` with the syntax `syntax_name` (embedded
/// syntaxes, embedded theme) gives: for each line, its runs of text with
/// their foreground color; `None` when a line cannot be parsed.
pub uninterp spec fn highlighted_runs(content: Seq<char>, syntax_name: Seq<char>) -> Option<
    Seq<Seq<(Seq<char>, (u8, u8, u8))>>,
>;

/// The runs of each line by their text and color.
pub open spec fn runs_view(r: Seq<Vec<(String, (u8, u8, u8))>>) -> Seq<
    Seq<(Seq<char>, (u8, u8, u8))>,
> {
    r.map_values(
        |line: Vec<(String, (u8, u8, u8))>|
            line@.map_values(|run: (String, (u8, u8, u8))| (run.0@, run.1)),
    )
}

/// The text of a line's runs, joined.
pub open spec fn runs_text(runs: Seq<(Seq<char>, (u8, u8, u8))>) -> Seq<char>
    decreases runs.len(),
{
    if runs.len() == 0 {
        Seq::empty()
    } else {
        runs_text(runs.drop_last()) + runs.last().0
    }
}

/// Highlights each line of `content` with the named syntax.
///
/// Trusted: runs syntect's `ParseState::parse_line` and `HighlightIterator`
/// over `content.lines()`, one state for the whole text, and lists each
/// run's text and foreground color; a line that fails to parse gives `None`.
/// Claims the result is `highlighted_runs(content, syntax_name)` (the set and
/// the theme are the embedded ones, which `HighlightService::new` alone
/// builds), with one entry per line whose runs join to the line (as syntect
/// documents). An unknown syntax name gives plain runs.
#[verifier::external_body]
fn highlight_runs(set: &SyntaxSet, theme: &Theme, content: &str, syntax_name: &str) -> (r: Option<
    Vec<Vec<(String, (u8, u8, u8))>>,
>)
    ensures
        match r {
            None => highlighted_runs(content@, syntax_name@) is None,
            Some(v) => highlighted_runs(content@, syntax_name@) == Some(runs_view(v@)),
        },
        r matches Some(v) ==> v@.len() == spec_lines(content@).len(),
        r matches Some(v) ==> forall|i: int|
            0 <= i < v@.len() ==> runs_text(#[trigger] runs_view(v@)[i]) == spec_lines(content@)[i],
{
    let syntax = set.find_syntax_by_name(syntax_name).unwrap_or_else(|| set.find_syntax_plain_text());
    let highlighter = Highlighter::new(theme);
    let mut parse_state = ParseState::new(syntax);
    let mut state = HighlightState::new(&highlighter, ScopeStack::new());
    content.lines().map(|line| {
        let ops = parse_state.parse_line(line, set).ok()?;
        Some(HighlightIterator::new(&mut state, &ops, line, &highlighter)
            .map(|(style, text)| (text.to_string(), (style.foreground.r, style.foreground.g, style.foreground.b)))
            .collect())
    }).collect()
}

/// A line of highlighted runs as tokens: each run with its color as CSS hex.
pub open spec fn run_line_view(line: Seq<(Seq<char>, (u8, u8, u8))>) -> Seq<
    (Seq<char>, Option<Seq<char>>),
> {
    line.map_values(
        |run: (Seq<char>, (u8, u8, u8))|
            (run.0, Some(seq!['#'] + spec_hex2(run.1.0) + spec_hex2(run.1.1) + spec_hex2(run.1.2))),
    )
}

/// The text of a line of tokens, joined.
pub open spec fn tokens_text(line: Seq<(Seq<char>, Option<Seq<char>>)>) -> Seq<char>
    decreases line.len(),
{
    if line.len() == 0 {
        Seq::empty()
    } else {
        tokens_text(line.drop_last()) + line.last().0
    }
}

/// Whether `lines` has one line of tokens per line of `content`, whose text
/// is that line.
pub open spec fn lines_follow_content(lines: Seq<Vec<Token>>, content: Seq<char>) -> bool {
    &&& lines.len() == spec_lines(content).len()
    &&& forall|i: int|
        0 <= i < lines.len() ==> tokens_text(line_tokens_view(#[trigger] lines[i]))
            == spec_lines(content)[i]
}

proof fn lemma_run_line_text(runs: Seq<(Seq<char>, (u8, u8, u8))>)
    ensures
        tokens_text(run_line_view(runs)) == runs_text(runs),
    decreases runs.len(),
{
    if runs.len() > 0 {
        lemma_run_line_text(runs.drop_last());
        assert(run_line_view(runs).drop_last() =~= run_line_view(runs.drop_last()));
    }
}

/// The highlighted lines of `content` as tokens, if every line parses.
pub open spec fn highlighted_view(content: Seq<char>, syntax_name: Seq<char>) -> Option<
    Seq<Seq<(Seq<char>, Option<Seq<char>>)>>,
> {
    match highlighted_runs(content, syntax_name) {
        Some(runs) => Some(runs.map_values(|l: Seq<(Seq<char>, (u8, u8, u8))>| run_line_view(l))),
        None => None,
    }
}

/// A line of tokens by their text and color.
pub open spec fn line_tokens_view(line: Vec<Token>) -> Seq<(Seq<char>, Option<Seq<char>>)> {
    line@.map_values(
        |t: Token|
            (
                t.content@,
                match t.color {
                    Some(c) => Some(c@),
                    None => None,
                },
            ),
    )
}

/// Each line of a highlighted file by its tokens' text and color.
pub open spec fn file_view(lines: Seq<Vec<Token>>) -> Seq<Seq<(Seq<char>, Option<Seq<char>>)>> {
    lines.map_values(|line: Vec<Token>| line_tokens_view(line))
}

/// Each line of `content` as one token without color.
pub open spec fn plain_view(content: Seq<char>) -> Seq<Seq<(Seq<char>, Option<Seq<char>>)>> {
    spec_lines(content).map_values(|l: Seq<char>| seq![(l, None::<Seq<char>>)])
}

/// The tokens of one line's runs.
fn run_tokens(runs: &Vec<(String, (u8, u8, u8))>) -> (r: Vec<Token>)
    ensures
        line_tokens_view(r) == run_line_view(
            runs@.map_values(|run: (String, (u8, u8, u8))| (run.0@, run.1)),
        ),
{
    let ghost want = run_line_view(
        runs@.map_values(|run: (String, (u8, u8, u8))| (run.0@, run.1)),
    );
    let mut out: Vec<Token> = Vec::new();
    let mut i: usize = 0;
    while i < runs.len()
        invariant
            i <= runs@.len(),
            want == run_line_view(runs@.map_values(|run: (String, (u8, u8, u8))| (run.0@, run.1))),
            out@.len() == i,
            forall|j: int| 0 <= j < i ==> line_tokens_view(out)[j] == want[j],
        decreases runs.len() - i,
    {
        let text = &runs[i].0;
        let (r, g, b) = runs[i].1;
        let ghost old_out = out;
        out.push(Token { content: text.clone(), color: Some(color_to_hex(r, g, b)) });
        proof {
            assert forall|j: int| 0 <= j < i + 1 implies line_tokens_view(out)[j] == want[j] by {
                if j < i {
                    assert(out@[j] == old_out@[j]);
                    assert(line_tokens_view(old_out)[j] == want[j]);
                }
            }
        }
        i = i + 1;
    }
    proof {
        assert(line_tokens_view(out) =~= want);
    }
    out
}

impl HighlightService {
    /// A service with the embedded syntaxes and theme.
    pub fn new() -> (s: Self) {
        HighlightService { syntax_set: load_syntax_set(), theme: load_theme() }
    }

    /// Highlights a file with the named syntax, or, with none, makes each
    /// line one token without color; `None` when a line cannot be parsed
    /// with the syntax.
    pub fn highlight_with(&self, content: &str, syntax_name: Option<String>) -> (r: Option<
        HighlightedFile,
    >)
        ensures
            (match r {
                Some(f) => Some(file_view(f.spec_lines())),
                None => None,
            }) == match syntax_name {
                None => Some(plain_view(content@)),
                Some(n) => highlighted_view(content@, n@),
            },
            r matches Some(f) ==> lines_follow_content(f.spec_lines(), content@),
    {
        match syntax_name {
            None => {
                let f = HighlightedFile::plain(content);
                proof {
                    assert forall|i: int| 0 <= i < f.spec_lines().len() implies tokens_text(
                        line_tokens_view(#[trigger] f.spec_lines()[i]),
                    ) == spec_lines(content@)[i] by {
                        let lv = line_tokens_view(f.spec_lines()[i]);
                        assert(lv.len() == 1);
                        assert(lv.drop_last() =~= Seq::<(Seq<char>, Option<Seq<char>>)>::empty());
                        assert(tokens_text(lv.drop_last()) =~= Seq::<char>::empty());
                        assert(lv.last().0 == spec_lines(content@)[i]);
                    }
                }
                Some(f)
            },
            Some(name) => {
                let runs = match highlight_runs(&self.syntax_set, &self.theme, content, name.as_str()) {
                    Some(runs) => runs,
                    None => return None,
                };
                let ghost all = runs_view(runs@);
                let ghost want = all.map_values(
                    |l: Seq<(Seq<char>, (u8, u8, u8))>| run_line_view(l),
                );
                let mut lines: Vec<Vec<Token>> = Vec::new();
                let mut i: usize = 0;
                while i < runs.len()
                    invariant
                        i <= runs@.len(),
                        all == runs_view(runs@),
                        want == all.map_values(
                            |l: Seq<(Seq<char>, (u8, u8, u8))>| run_line_view(l),
                        ),
                        lines@.len() == i,
                        forall|j: int| 0 <= j < i ==> file_view(lines@)[j] == want[j],
                    decreases runs.len() - i,
                {
                    let ghost old_lines = lines@;
                    lines.push(run_tokens(&runs[i]));
                    proof {
                        assert(runs_view(runs@)[i as int] == runs@[i as int]@.map_values(
                            |run: (String, (u8, u8, u8))| (run.0@, run.1),
                        ));
                        assert forall|j: int| 0 <= j < i + 1 implies file_view(lines@)[j] == want[j] by {
                            if j < i {
                                assert(lines@[j] == old_lines[j]);
                                assert(file_view(old_lines)[j] == want[j]);
                            }
                        }
                    }
                    i = i + 1;
                }
                proof {
                    assert(file_view(lines@) =~= want);
                    assert forall|j: int| 0 <= j < lines@.len() implies tokens_text(
                        line_tokens_view(#[trigger] lines@[j]),
                    ) == spec_lines(content@)[j] by {
                        assert(line_tokens_view(lines@[j]) == file_view(lines@)[j]);
                        lemma_run_line_text(all[j]);
                        assert(runs_text(runs_view(runs@)[j]) == spec_lines(content@)[j]);
                    }
                }
                Some(HighlightedFile { lines })
            },
        }
    }

    /// Highlights a whole file with the syntax found for its path; when none
    /// is found, each line becomes one token without color; `None` when a
    /// line cannot be parsed with the syntax found. The path's file name or
    /// extension selects the syntax; only when neither is known may the
    /// file's first line on disk select one.
    pub fn highlight_file(&self, content: &str, file_path: &str) -> (r: Option<HighlightedFile>)
        ensures
            r matches Some(f) ==> file_view(f.spec_lines()) == plain_view(content@) || exists|
                n: Seq<char>,
            | #[trigger] highlighted_view(content@, n) == Some(file_view(f.spec_lines())),
            r is None ==> exists|n: Seq<char>| #[trigger] highlighted_view(content@, n) is None,
            r matches Some(f) ==> lines_follow_content(f.spec_lines(), content@),
            syntax_by_path_name(file_path@) matches Some(n) ==> (match r {
                Some(f) => Some(file_view(f.spec_lines())),
                None => None,
            }) == highlighted_view(content@, n),
    {
        let name = find_syntax_name(&self.syntax_set, file_path);
        let ghost found = match &name {
            Some(n) => Some(n@),
            None => None,
        };
        let r = self.highlight_with(content, name);
        proof {
            if let Some(n) = found {
                assert(highlighted_view(content@, n) == match r {
                    Some(f) => Some(file_view(f.spec_lines())),
                    None => None,
                });
            }
        }
        r
    }
}

} // verus!
