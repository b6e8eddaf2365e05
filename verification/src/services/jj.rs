//! Reading the output of the `jj` command line tool.
//!
//! Running `jj` is left to the caller; this module turns what it printed into
//! commits.  Each commit line of `jj log` holds fields separated by NUL
//! characters; the description field is a JSON string.

use vstd::prelude::*;

use crate::models::change_id::{
    invalid_change_id_message, is_change_id_text, ChangeId, InvalidChangeIdError,
};
use crate::models::jj::{JjCommit, JjLogResult, JjStatus};
use crate::models::pr::PRCommit;
use crate::text::{
    is_blank, lines_chars, push_chars, push_str, spec_is_blank, spec_lines, spec_split,
    spec_split_once, spec_trim, spec_trim_start_seq, split_chars, split_once_chars, str_chars,
    string_of, trim_chars, trim_start_chars, eq_str,
};

verus! {

/// What can go wrong when asking `jj`.
#[derive(Debug)]
pub enum Error {
    /// `jj` could not be run.
    Command(String),
    /// `jj` ran and reported failure.
    JjFailed(String),
    /// What `jj` printed could not be read.
    Parse(String),
}

impl Error {
    /// The error's message, as shown to the user.
    pub fn message(&self) -> (r: String)
        ensures
            r@ == match self {
                Error::Command(m) => "Failed to run jj command: "@ + m@,
                Error::JjFailed(m) => "jj command failed: "@ + m@,
                Error::Parse(m) => "Failed to parse output: "@ + m@,
            },
    {
        let mut buf: Vec<char> = Vec::new();
        match self {
            Error::Command(m) => {
                push_str(&mut buf, "Failed to run jj command: ");
                push_str(&mut buf, m.as_str());
            },
            Error::JjFailed(m) => {
                push_str(&mut buf, "jj command failed: ");
                push_str(&mut buf, m.as_str());
            },
            Error::Parse(m) => {
                push_str(&mut buf, "Failed to parse output: ");
                push_str(&mut buf, m.as_str());
            },
        }
        string_of(&buf)
    }
}

impl From<InvalidChangeIdError> for Error {
    fn from(err: InvalidChangeIdError) -> (r: Error)
        ensures
            r matches Error::Parse(m) && m@ == invalid_change_id_message(err.spec_received()),
    {
        Error::Parse(err.message())
    }
}

impl vstd::std_specs::convert::FromSpecImpl<InvalidChangeIdError> for Error {
    open spec fn obeys_from_spec() -> bool {
        false
    }

    /// Unused: `obeys_from_spec` is false, and `from` states its result in
    /// its own `ensures`.
    closed spec fn from_spec(v: InvalidChangeIdError) -> Error {
        vstd::pervasive::arbitrary()
    }
}

/// What `serde_json::from_str::<String>` gives for `text`: the decoded string,
/// or the message of its error.
pub uninterp spec fn json_string_decode(text: Seq<char>) -> Result<Seq<char>, Seq<char>>;

/// Decodes the JSON string literal `text`.
///
/// Trusted: calls `serde_json::from_str::<String>`; claims the result (or the
/// error's `Display` text) is `json_string_decode(text)`, a function of
/// `text` alone.
#[verifier::external_body]
fn decode_json_string(text: &str) -> (r: Result<String, String>)
    ensures
        json_string_decode(text@) == json_result_view(r),
{
    match serde_json::from_str::<String>(text) {
        Ok(v) => Ok(v),
        Err(e) => Err(e.to_string()),
    }
}

/// A decoding result by the views of its strings.
pub open spec fn json_result_view(r: Result<String, String>) -> Result<Seq<char>, Seq<char>> {
    match r {
        Ok(v) => Ok(v@),
        Err(m) => Err(m@),
    }
}

/// The views of a list of character vectors.
pub open spec fn char_seqs(v: Seq<Vec<char>>) -> Seq<Seq<char>> {
    v.map_values(|x: Vec<char>| x@)
}

/// The non-empty pieces of `ps`, in order.
pub open spec fn nonempty_pieces(ps: Seq<Seq<char>>) -> Seq<Seq<char>>
    decreases ps.len(),
{
    if ps.len() == 0 {
        Seq::empty()
    } else if ps.last().len() > 0 {
        nonempty_pieces(ps.drop_last()).push(ps.last())
    } else {
        nonempty_pieces(ps.drop_last())
    }
}

/// The parent change ids of a commit: the non-empty comma-separated pieces.
pub open spec fn parent_texts(field: Seq<char>) -> Seq<Seq<char>> {
    nonempty_pieces(spec_split(field, ','))
}

/// Index of the first piece of `ps` (from `i` on) that is no change id, or
/// `ps.len()`.
pub open spec fn first_invalid(ps: Seq<Seq<char>>, i: int) -> int
    decreases ps.len() - i,
{
    if i >= ps.len() {
        ps.len() as int
    } else if !is_change_id_text(ps[i]) {
        i
    } else {
        first_invalid(ps, i + 1)
    }
}

/// Summary of a full description: its first line.
pub open spec fn log_summary(full: Seq<char>) -> Seq<char> {
    match spec_split_once(full, '\n') {
        Some((first, _)) => first,
        None => full,
    }
}

/// Body of a full description: what follows the first line, without leading
/// white space.
pub open spec fn log_description(full: Seq<char>) -> Seq<char> {
    match spec_split_once(full, '\n') {
        Some((_, rest)) => spec_trim_start_seq(rest),
        None => Seq::empty(),
    }
}

/// The error message for the fields of a `jj log` commit line, if any:
/// first a bad parent id, then a bad description, then a bad change id.
pub open spec fn log_fields_error(
    parts: Seq<Seq<char>>,
    description: Result<Seq<char>, Seq<char>>,
) -> Option<Seq<char>> {
    let ps = parent_texts(parts[8]);
    let k = first_invalid(ps, 0);
    if k < ps.len() {
        Some(invalid_change_id_message(ps[k]))
    } else if description is Err {
        Some(description->Err_0)
    } else if !is_change_id_text(parts[0]) {
        Some(invalid_change_id_message(parts[0]))
    } else {
        None
    }
}

/// Whether `c` is the commit described by the fields `parts`, with `full`
/// the decoded description.
pub open spec fn log_commit_matches(c: JjCommit, parts: Seq<Seq<char>>, full: Seq<char>) -> bool {
    let ps = parent_texts(parts[8]);
    &&& c.change_id.spec_text() == parts[0]
    &&& c.commit_id@ == parts[1]
    &&& c.summary@ == log_summary(full)
    &&& c.description@ == log_description(full)
    &&& c.author@ == parts[3]
    &&& c.email@ == parts[4]
    &&& c.timestamp@ == parts[5]
    &&& c.is_immutable == (parts[6] == "true"@)
    &&& c.is_working_copy == (parts[7] == "true"@)
    &&& c.parents@.len() == ps.len()
    &&& forall|k: int| 0 <= k < ps.len() ==> (#[trigger] c.parents@[k]).spec_text() == ps[k]
}

/// Parses the change ids in a comma-separated list, skipping empty pieces.
fn parse_parents(field: &Vec<char>) -> (r: Result<Vec<ChangeId>, Error>)
    ensures
        ({
            let ps = parent_texts(field@);
            let k = first_invalid(ps, 0);
            match r {
                Ok(ids) => k == ps.len() && ids@.len() == ps.len() && forall|j: int|
                    0 <= j < ps.len() ==> (#[trigger] ids@[j]).spec_text() == ps[j],
                Err(e) => k < ps.len() && (e matches Error::Parse(m) && m@
                    == invalid_change_id_message(ps[k])),
            }
        }),
{
    let pieces = split_chars(field, ',');
    let ghost all = char_seqs(pieces@);
    proof {
        assert(all =~= spec_split(field@, ','));
    }
    let mut ids: Vec<ChangeId> = Vec::new();
    let mut i: usize = 0;
    while i < pieces.len()
        invariant
            i <= pieces@.len(),
            all == char_seqs(pieces@),
            all == spec_split(field@, ','),
            ids@.len() == nonempty_pieces(all.take(i as int)).len(),
            first_invalid(nonempty_pieces(all.take(i as int)), 0) == nonempty_pieces(
                all.take(i as int),
            ).len(),
            forall|j: int|
                0 <= j < ids@.len() ==> (#[trigger] ids@[j]).spec_text() == nonempty_pieces(
                    all.take(i as int),
                )[j],
        decreases pieces.len() - i,
    {
        let ghost before = nonempty_pieces(all.take(i as int));
        proof {
            assert(all.take(i + 1).drop_last() =~= all.take(i as int));
            assert(all.take(i + 1).last() == pieces@[i as int]@);
        }
        if pieces[i].len() > 0 {
            let text = string_of(&pieces[i]);
            match ChangeId::parse(text.as_str()) {
                Ok(id) => {
                    ids.push(id);
                    proof {
                        let after = nonempty_pieces(all.take(i + 1));
                        assert(after == before.push(pieces@[i as int]@));
                        lemma_first_invalid_push(before, pieces@[i as int]@);
                    }
                },
                Err(e) => {
                    proof {
                        let after = nonempty_pieces(all.take(i + 1));
                        assert(after == before.push(pieces@[i as int]@));
                        lemma_first_invalid_push(before, pieces@[i as int]@);
                        lemma_nonempty_prefix(all, i + 1);
                        assert(all.take(all.len() as int) =~= all);
                        let ps = parent_texts(field@);
                        assert(first_invalid(ps, 0) == before.len());
                        assert(ps[before.len() as int] == after[before.len() as int]);
                    }
                    return Err(Error::from(e));
                },
            }
        } else {
            proof {
                assert(nonempty_pieces(all.take(i + 1)) == before);
            }
        }
        i = i + 1;
    }
    proof {
        assert(all.take(i as int) =~= all);
    }
    Ok(ids)
}

proof fn lemma_first_invalid_push(ps: Seq<Seq<char>>, x: Seq<char>)
    requires
        first_invalid(ps, 0) == ps.len(),
    ensures
        first_invalid(ps.push(x), 0) == (if is_change_id_text(x) {
            ps.len() + 1int
        } else {
            ps.len() as int
        }),
{
    lemma_first_invalid_push_from(ps, x, 0);
}

proof fn lemma_first_invalid_push_from(ps: Seq<Seq<char>>, x: Seq<char>, i: int)
    requires
        0 <= i <= ps.len(),
        first_invalid(ps, i) == ps.len(),
    ensures
        first_invalid(ps.push(x), i) == (if is_change_id_text(x) {
            ps.len() + 1int
        } else {
            ps.len() as int
        }),
    decreases ps.len() - i,
{
    if i < ps.len() {
        assert(ps.push(x)[i] == ps[i]);
        lemma_first_invalid_push_from(ps, x, i + 1);
    } else {
        assert(ps.push(x)[i] == x);
        assert(first_invalid(ps.push(x), i + 1) == ps.len() + 1);
    }
}

/// The non-empty pieces of a prefix are a prefix of the non-empty pieces.
proof fn lemma_nonempty_prefix(all: Seq<Seq<char>>, m: int)
    requires
        0 <= m <= all.len(),
    ensures
        nonempty_pieces(all.take(m)).len() <= nonempty_pieces(all).len(),
        forall|j: int|
            0 <= j < nonempty_pieces(all.take(m)).len() ==> nonempty_pieces(all)[j]
                == #[trigger] nonempty_pieces(all.take(m))[j],
        first_invalid(nonempty_pieces(all.take(m)), 0) < nonempty_pieces(all.take(m)).len()
            ==> first_invalid(nonempty_pieces(all), 0) == first_invalid(
            nonempty_pieces(all.take(m)),
            0,
        ),
    decreases all.len() - m,
{
    if m == all.len() {
        assert(all.take(m) =~= all);
    } else {
        lemma_nonempty_prefix(all, m + 1);
        assert(all.take(m + 1).drop_last() =~= all.take(m));
        let a = nonempty_pieces(all.take(m));
        let b = nonempty_pieces(all.take(m + 1));
        assert forall|j: int| 0 <= j < a.len() implies b[j] == #[trigger] a[j] by {}
        if first_invalid(a, 0) < a.len() {
            lemma_first_invalid_extend(a, b, 0);
        }
    }
}

/// A first bad piece stays first when pieces are added after it.
proof fn lemma_first_invalid_extend(a: Seq<Seq<char>>, b: Seq<Seq<char>>, i: int)
    requires
        0 <= i <= a.len() <= b.len(),
        forall|j: int| 0 <= j < a.len() ==> b[j] == #[trigger] a[j],
        first_invalid(a, i) < a.len(),
    ensures
        first_invalid(b, i) == first_invalid(a, i),
    decreases a.len() - i,
{
    if i < a.len() && is_change_id_text(a[i]) {
        lemma_first_invalid_extend(a, b, i + 1);
    }
}

/// Builds the commit of a `jj log` line from its fields and its decoded
/// description.
pub fn log_commit_from_fields(
    parts: &Vec<Vec<char>>,
    full_description: Result<String, String>,
) -> (r: Result<JjCommit, Error>)
    requires
        parts@.len() >= 9,
    ensures
        ({
            let ps = char_seqs(parts@);
            let d = json_result_view(full_description);
            match r {
                Ok(c) => log_fields_error(ps, d) is None && log_commit_matches(c, ps, d->Ok_0),
                Err(e) => (log_fields_error(ps, d) matches Some(msg) && (e matches Error::Parse(
                    m,
                ) && m@ == msg)),
            }
        }),
{
    let ghost ps = char_seqs(parts@);
    proof {
        assert(ps[8] == parts@[8]@);
        assert(ps[0] == parts@[0]@);
    }
    let parents = match parse_parents(&parts[8]) {
        Ok(p) => p,
        Err(e) => return Err(e),
    };
    let full = match full_description {
        Ok(d) => d,
        Err(m) => return Err(Error::Parse(m)),
    };
    let full_chars = str_chars(full.as_str());
    let (summary, description) = match split_once_chars(&full_chars, '\n') {
        Some((first, rest)) => (string_of(&first), string_of(&trim_start_chars(&rest))),
        None => (full, String::new()),
    };
    let id_text = string_of(&parts[0]);
    let change_id = match ChangeId::parse(id_text.as_str()) {
        Ok(id) => id,
        Err(e) => return Err(Error::from(e)),
    };
    proof {
        assert(ps[1] == parts@[1]@);
        assert(ps[3] == parts@[3]@);
        assert(ps[4] == parts@[4]@);
        assert(ps[5] == parts@[5]@);
        assert(ps[6] == parts@[6]@);
        assert(ps[7] == parts@[7]@);
    }
    let is_immutable = eq_str(&parts[6], "true");
    let is_working_copy = eq_str(&parts[7], "true");
    Ok(
        JjCommit {
            change_id,
            commit_id: string_of(&parts[1]),
            summary,
            description,
            author: string_of(&parts[3]),
            email: string_of(&parts[4]),
            timestamp: string_of(&parts[5]),
            is_immutable,
            is_working_copy,
            parents,
        },
    )
}

/// The lines of `jj` output that hold a commit: not blank, with at least
/// `min_fields` NUL-separated fields (the others are skipped).
pub open spec fn kept_lines(ls: Seq<Seq<char>>, min_fields: nat) -> Seq<Seq<char>>
    decreases ls.len(),
{
    if ls.len() == 0 {
        Seq::empty()
    } else if !spec_is_blank(ls.last()) && spec_split(ls.last(), '\x00').len() >= min_fields {
        kept_lines(ls.drop_last(), min_fields).push(ls.last())
    } else {
        kept_lines(ls.drop_last(), min_fields)
    }
}

/// The kept lines of a prefix are a prefix of the kept lines.
proof fn lemma_kept_prefix(ls: Seq<Seq<char>>, min_fields: nat, m: int)
    requires
        0 <= m <= ls.len(),
    ensures
        kept_lines(ls.take(m), min_fields).len() <= kept_lines(ls, min_fields).len(),
        forall|j: int|
            0 <= j < kept_lines(ls.take(m), min_fields).len() ==> kept_lines(ls, min_fields)[j]
                == #[trigger] kept_lines(ls.take(m), min_fields)[j],
    decreases ls.len() - m,
{
    if m == ls.len() {
        assert(ls.take(m) =~= ls);
    } else {
        lemma_kept_prefix(ls, min_fields, m + 1);
        assert(ls.take(m + 1).drop_last() =~= ls.take(m));
        let a = kept_lines(ls.take(m), min_fields);
        let b = kept_lines(ls.take(m + 1), min_fields);
        assert forall|j: int| 0 <= j < a.len() implies b[j] == #[trigger] a[j] by {}
    }
}

/// The fields of a line of `jj` output.
pub open spec fn line_fields(t: Seq<char>) -> Seq<Seq<char>> {
    spec_split(t, '\x00')
}

/// The error message for a commit line of `jj log`, if any.
pub open spec fn log_line_error(t: Seq<char>) -> Option<Seq<char>> {
    log_fields_error(line_fields(t), json_string_decode(line_fields(t)[2]))
}

/// What reading `jj log` output gives: the commits of its commit lines, in
/// order, or the error of the first commit line that has one.
pub open spec fn log_parse_spec(output: Seq<char>, r: Result<Vec<JjCommit>, Error>) -> bool {
    let ks = kept_lines(spec_lines(output), 9);
    match r {
        Ok(v) => v@.len() == ks.len() && forall|i: int|
            0 <= i < ks.len() ==> log_line_error(ks[i]) is None && log_commit_matches(
                #[trigger] v@[i],
                line_fields(ks[i]),
                json_string_decode(line_fields(ks[i])[2])->Ok_0,
            ),
        Err(e) => exists|i: int|
            0 <= i < ks.len() && (forall|j: int| 0 <= j < i ==> log_line_error(ks[j]) is None)
                && (#[trigger] log_line_error(ks[i]) matches Some(msg) && (e matches Error::Parse(
                m,
            ) && m@ == msg)),
    }
}

/// Reads the output of `jj log` run with the NUL-separated commit template.
pub fn parse_log_output(output: &str) -> (r: Result<Vec<JjCommit>, Error>)
    ensures
        log_parse_spec(output@, r),
{
    let chars = str_chars(output);
    let lines = lines_chars(&chars);
    let ghost ls = char_seqs(lines@);
    proof {
        assert(ls =~= spec_lines(output@));
    }
    let mut commits: Vec<JjCommit> = Vec::new();
    let mut i: usize = 0;
    while i < lines.len()
        invariant
            i <= lines@.len(),
            ls == char_seqs(lines@),
            ls == spec_lines(output@),
            commits@.len() == kept_lines(ls.take(i as int), 9).len(),
            forall|k: int|
                0 <= k < commits@.len() ==> log_line_error(
                    #[trigger] kept_lines(ls.take(i as int), 9)[k],
                ) is None,
            forall|k: int|
                0 <= k < commits@.len() ==> log_commit_matches(
                    #[trigger] commits@[k],
                    line_fields(kept_lines(ls.take(i as int), 9)[k]),
                    json_string_decode(line_fields(kept_lines(ls.take(i as int), 9)[k])[2])->Ok_0,
                ),
        decreases lines.len() - i,
    {
        let ghost before = kept_lines(ls.take(i as int), 9);
        let ghost t = ls[i as int];
        proof {
            assert(ls.take(i + 1).drop_last() =~= ls.take(i as int));
            assert(ls.take(i + 1).last() == t);
            assert(t == lines@[i as int]@);
        }
        if is_blank(&lines[i]) {
            proof {
                assert(kept_lines(ls.take(i + 1), 9) == before);
            }
        } else {
            let parts = split_chars(&lines[i], '\x00');
            proof {
                assert(char_seqs(parts@) =~= line_fields(t));
            }
            if parts.len() < 9 {
                proof {
                    assert(kept_lines(ls.take(i + 1), 9) == before);
                }
            } else {
                proof {
                    assert(kept_lines(ls.take(i + 1), 9) == before.push(t));
                    assert(line_fields(t)[2] == parts@[2]@);
                }
                let desc_text = string_of(&parts[2]);
                let desc = decode_json_string(desc_text.as_str());
                let ghost dv = json_result_view(desc);
                proof {
                    assert(dv == json_string_decode(line_fields(t)[2]));
                }
                let ghost old_commits = commits@;
                match log_commit_from_fields(&parts, desc) {
                    Ok(c) => {
                        commits.push(c);
                        proof {
                            let after = kept_lines(ls.take(i + 1), 9);
                            assert forall|k: int| 0 <= k < commits@.len() implies log_line_error(
                                #[trigger] after[k],
                            ) is None by {
                                if k < before.len() {
                                    assert(after[k] == before[k]);
                                } else {
                                    assert(after[k] == t);
                                }
                            }
                            assert forall|k: int| 0 <= k < commits@.len() implies log_commit_matches(
                                #[trigger] commits@[k],
                                line_fields(after[k]),
                                json_string_decode(line_fields(after[k])[2])->Ok_0,
                            ) by {
                                if k < before.len() {
                                    assert(after[k] == before[k]);
                                    assert(commits@[k] == old_commits[k]);
                                } else {
                                    assert(after[k] == t);
                                }
                            }
                        }
                    },
                    Err(e) => {
                        proof {
                            lemma_kept_prefix(ls, 9, i + 1);
                            let ks = kept_lines(ls, 9);
                            let w = before.len() as int;
                            let after = kept_lines(ls.take(i + 1), 9);
                            assert(after[w] == t);
                            assert(ks[w] == t);
                            assert forall|j: int| 0 <= j < w implies log_line_error(ks[j]) is None by {
                                assert(log_line_error(before[j]) is None);
                                assert(ks[j] == after[j]);
                                assert(after[j] == before[j]);
                            }
                            assert(log_line_error(ks[w]) == log_line_error(t));
                        }
                        return Err(e);
                    },
                }
            }
        }
        i = i + 1;
    }
    proof {
        assert(ls.take(i as int) =~= ls);
    }
    Ok(commits)
}

/// Summary of a full description in a range listing: its first line, or the
/// whole description trimmed when it is one line.
pub open spec fn range_summary(full: Seq<char>) -> Seq<char> {
    match spec_split_once(full, '\n') {
        Some((first, _)) => first,
        None => spec_trim(full),
    }
}

/// Body of a full description in a range listing: what follows the first
/// line, trimmed.
pub open spec fn range_description(full: Seq<char>) -> Seq<char> {
    match spec_split_once(full, '\n') {
        Some((_, rest)) => spec_trim(rest),
        None => Seq::empty(),
    }
}

/// The error message for the fields of a commit line of a range listing, if
/// any: first a bad description, then a bad change id.
pub open spec fn range_fields_error(
    parts: Seq<Seq<char>>,
    description: Result<Seq<char>, Seq<char>>,
) -> Option<Seq<char>> {
    if description is Err {
        Some(description->Err_0)
    } else if !is_change_id_text(parts[0]) {
        Some(invalid_change_id_message(parts[0]))
    } else {
        None
    }
}

/// Whether `c` is the commit described by the fields `parts` of a range
/// listing, with `full` the decoded description.
pub open spec fn range_commit_matches(c: PRCommit, parts: Seq<Seq<char>>, full: Seq<char>) -> bool {
    &&& c.change_id matches Some(id) && id.spec_text() == parts[0]
    &&& c.sha@ == parts[1]
    &&& c.summary@ == range_summary(full)
    &&& c.description@ == range_description(full)
}

/// Builds the commit of a line of a range listing from its fields and its
/// decoded description.
pub fn pr_commit_from_fields(
    parts: &Vec<Vec<char>>,
    full_description: Result<String, String>,
) -> (r: Result<PRCommit, Error>)
    requires
        parts@.len() >= 3,
    ensures
        ({
            let ps = char_seqs(parts@);
            let d = json_result_view(full_description);
            match r {
                Ok(c) => range_fields_error(ps, d) is None && range_commit_matches(c, ps, d->Ok_0),
                Err(e) => (range_fields_error(ps, d) matches Some(msg) && (e matches Error::Parse(
                    m,
                ) && m@ == msg)),
            }
        }),
{
    let ghost ps = char_seqs(parts@);
    proof {
        assert(ps[0] == parts@[0]@);
        assert(ps[1] == parts@[1]@);
    }
    let full = match full_description {
        Ok(d) => d,
        Err(m) => return Err(Error::Parse(m)),
    };
    let full_chars = str_chars(full.as_str());
    let (summary, description) = match split_once_chars(&full_chars, '\n') {
        Some((first, rest)) => (string_of(&first), string_of(&trim_chars(&rest))),
        None => (string_of(&trim_chars(&full_chars)), String::new()),
    };
    let id_text = string_of(&parts[0]);
    let change_id = match ChangeId::parse(id_text.as_str()) {
        Ok(id) => id,
        Err(e) => return Err(Error::from(e)),
    };
    Ok(
        PRCommit {
            change_id: Some(change_id),
            sha: string_of(&parts[1]),
            summary,
            description,
        },
    )
}

/// The error message for a commit line of a range listing, if any.
pub open spec fn range_line_error(t: Seq<char>) -> Option<Seq<char>> {
    range_fields_error(line_fields(t), json_string_decode(line_fields(t)[2]))
}

/// What reading a range listing gives: the commits of its commit lines, in
/// order, or the error of the first commit line that has one.
pub open spec fn range_parse_spec(output: Seq<char>, r: Result<Vec<PRCommit>, Error>) -> bool {
    let ks = kept_lines(spec_lines(output), 3);
    match r {
        Ok(v) => v@.len() == ks.len() && forall|i: int|
            0 <= i < ks.len() ==> range_line_error(ks[i]) is None && range_commit_matches(
                #[trigger] v@[i],
                line_fields(ks[i]),
                json_string_decode(line_fields(ks[i])[2])->Ok_0,
            ),
        Err(e) => exists|i: int|
            0 <= i < ks.len() && (forall|j: int| 0 <= j < i ==> range_line_error(ks[j]) is None)
                && (#[trigger] range_line_error(ks[i]) matches Some(msg) && (e matches Error::Parse(
                m,
            ) && m@ == msg)),
    }
}

/// Reads the output of `jj log` listing the commits of a range.
pub fn parse_commits_in_range_output(output: &str) -> (r: Result<Vec<PRCommit>, Error>)
    ensures
        range_parse_spec(output@, r),
{
    let chars = str_chars(output);
    let lines = lines_chars(&chars);
    let ghost ls = char_seqs(lines@);
    proof {
        assert(ls =~= spec_lines(output@));
    }
    let mut commits: Vec<PRCommit> = Vec::new();
    let mut i: usize = 0;
    while i < lines.len()
        invariant
            i <= lines@.len(),
            ls == char_seqs(lines@),
            ls == spec_lines(output@),
            commits@.len() == kept_lines(ls.take(i as int), 3).len(),
            forall|k: int|
                0 <= k < commits@.len() ==> range_line_error(
                    #[trigger] kept_lines(ls.take(i as int), 3)[k],
                ) is None,
            forall|k: int|
                0 <= k < commits@.len() ==> range_commit_matches(
                    #[trigger] commits@[k],
                    line_fields(kept_lines(ls.take(i as int), 3)[k]),
                    json_string_decode(line_fields(kept_lines(ls.take(i as int), 3)[k])[2])->Ok_0,
                ),
        decreases lines.len() - i,
    {
        let ghost before = kept_lines(ls.take(i as int), 3);
        let ghost t = ls[i as int];
        proof {
            assert(ls.take(i + 1).drop_last() =~= ls.take(i as int));
            assert(ls.take(i + 1).last() == t);
            assert(t == lines@[i as int]@);
        }
        if is_blank(&lines[i]) {
            proof {
                assert(kept_lines(ls.take(i + 1), 3) == before);
            }
        } else {
            let parts = split_chars(&lines[i], '\x00');
            proof {
                assert(char_seqs(parts@) =~= line_fields(t));
            }
            if parts.len() < 3 {
                proof {
                    assert(kept_lines(ls.take(i + 1), 3) == before);
                }
            } else {
                proof {
                    assert(kept_lines(ls.take(i + 1), 3) == before.push(t));
                    assert(line_fields(t)[2] == parts@[2]@);
                }
                let desc_text = string_of(&parts[2]);
                let desc = decode_json_string(desc_text.as_str());
                let ghost dv = json_result_view(desc);
                proof {
                    assert(dv == json_string_decode(line_fields(t)[2]));
                }
                let ghost old_commits = commits@;
                match pr_commit_from_fields(&parts, desc) {
                    Ok(c) => {
                        commits.push(c);
                        proof {
                            let after = kept_lines(ls.take(i + 1), 3);
                            assert forall|k: int| 0 <= k < commits@.len() implies range_line_error(
                                #[trigger] after[k],
                            ) is None by {
                                if k < before.len() {
                                    assert(after[k] == before[k]);
                                } else {
                                    assert(after[k] == t);
                                }
                            }
                            assert forall|k: int| 0 <= k < commits@.len() implies range_commit_matches(
                                #[trigger] commits@[k],
                                line_fields(after[k]),
                                json_string_decode(line_fields(after[k])[2])->Ok_0,
                            ) by {
                                if k < before.len() {
                                    assert(after[k] == before[k]);
                                    assert(commits@[k] == old_commits[k]);
                                } else {
                                    assert(after[k] == t);
                                }
                            }
                        }
                    },
                    Err(e) => {
                        proof {
                            lemma_kept_prefix(ls, 3, i + 1);
                            let ks = kept_lines(ls, 3);
                            let w = before.len() as int;
                            let after = kept_lines(ls.take(i + 1), 3);
                            assert(after[w] == t);
                            assert(ks[w] == t);
                            assert forall|j: int| 0 <= j < w implies range_line_error(ks[j]) is None by {
                                assert(range_line_error(before[j]) is None);
                                assert(ks[j] == after[j]);
                                assert(after[j] == before[j]);
                            }
                            assert(range_line_error(ks[w]) == range_line_error(t));
                        }
                        return Err(e);
                    },
                }
            }
        }
        i = i + 1;
    }
    proof {
        assert(ls.take(i as int) =~= ls);
    }
    Ok(commits)
}

/// The status of jj for a directory, from whether jj is installed and
/// whether the directory is a jj repository.
pub fn get_status(is_installed: bool, is_jj_repo: bool) -> (r: JjStatus)
    ensures
        r.is_installed == is_installed,
        r.is_jj_repo == is_jj_repo,
{
    JjStatus { is_installed, is_jj_repo }
}

/// The revset of the commits after `base_sha` up to `head_sha`.
pub fn range_revset(base_sha: &str, head_sha: &str) -> (r: String)
    ensures
        r@ == base_sha@ + ".."@ + head_sha@,
{
    let mut buf: Vec<char> = Vec::new();
    push_str(&mut buf, base_sha);
    push_str(&mut buf, "..");
    push_str(&mut buf, head_sha);
    proof {
        assert(buf@ =~= base_sha@ + ".."@ + head_sha@);
    }
    string_of(&buf)
}

/// The log read from a run of `jj log`: `JjFailed` with what it wrote to
/// standard error when it failed, else the commits of its output.
pub fn get_log(success: bool, stdout: &str, stderr: &str) -> (r: Result<
    JjLogResult,
    Error,
>)
    ensures
        !success ==> (r matches Err(Error::JjFailed(m)) && m@ == stderr@),
        success ==> match r {
            Ok(l) => log_parse_spec(stdout@, Ok(l.commits)),
            Err(e) => log_parse_spec(stdout@, Err(e)),
        },
{
    if !success {
        return Err(Error::JjFailed(stderr.to_owned()));
    }
    match parse_log_output(stdout) {
        Ok(commits) => Ok(JjLogResult { commits }),
        Err(e) => Err(e),
    }
}

/// The commits read from a run of `jj log` over a range: `JjFailed` with what
/// it wrote to standard error when it failed, else the commits of its output.
pub fn get_commits_in_range(success: bool, stdout: &str, stderr: &str) -> (r: Result<
    Vec<PRCommit>,
    Error,
>)
    ensures
        !success ==> (r matches Err(Error::JjFailed(m)) && m@ == stderr@),
        success ==> range_parse_spec(stdout@, r),
{
    if !success {
        return Err(Error::JjFailed(stderr.to_owned()));
    }
    parse_commits_in_range_output(stdout)
}

/// The message when `jj` printed no change id for the commit `sha`.
pub open spec fn no_change_id_message(sha: Seq<char>, stdout: Seq<char>) -> Seq<char> {
    "No change_id found for commit "@ + sha + ". Output: "@ + stdout
}

/// The change id read from a run of `jj log -T change_id` on the commit
/// `sha`: `JjFailed` when it failed or printed nothing but white space, else
/// the trimmed output as a change id.
pub fn get_change_id(success: bool, stdout: &str, stderr: &str, sha: &str) -> (r: Result<
    ChangeId,
    Error,
>)
    ensures
        !success ==> (r matches Err(Error::JjFailed(m)) && m@ == stderr@),
        success && spec_trim(stdout@).len() == 0 ==> (r matches Err(Error::JjFailed(m)) && m@
            == no_change_id_message(sha@, stdout@)),
        success && spec_trim(stdout@).len() > 0 ==> match r {
            Ok(id) => is_change_id_text(spec_trim(stdout@)) && id.spec_text() == spec_trim(
                stdout@,
            ),
            Err(e) => !is_change_id_text(spec_trim(stdout@)) && (e matches Error::Parse(m) && m@
                == invalid_change_id_message(spec_trim(stdout@))),
        },
{
    if !success {
        return Err(Error::JjFailed(stderr.to_owned()));
    }
    let chars = str_chars(stdout);
    let trimmed = trim_chars(&chars);
    if trimmed.len() == 0 {
        let mut buf: Vec<char> = Vec::new();
        push_str(&mut buf, "No change_id found for commit ");
        push_str(&mut buf, sha);
        push_str(&mut buf, ". Output: ");
        push_chars(&mut buf, &chars);
        proof {
            assert(buf@ =~= no_change_id_message(sha@, stdout@));
        }
        return Err(Error::JjFailed(string_of(&buf)));
    }
    let text = string_of(&trimmed);
    match ChangeId::parse(text.as_str()) {
        Ok(id) => Ok(id),
        Err(e) => Err(Error::from(e)),
    }
}

} // verus!
