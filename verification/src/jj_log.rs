//! The colored `jj log` shown by the commit log screen.
//!
//! Each commit header line carries, after a `\x01` marker, its change id,
//! commit id, immutability, working-copy flag and summary, separated by NUL
//! characters. What precedes the marker is shown as it is, colors included.

use std::collections::HashMap;

use vstd::prelude::*;

use crate::ansi::{parse_ansi_line, spans_view, spec_parse_from, spec_strip_from, strip_ansi};
use crate::models::change_id::{invalid_change_id_message, is_change_id_text, ChangeId};
use crate::models::jj::JjCommit;
use crate::services::jj::{char_seqs, Error};
use crate::style::{spec_default_style, StyledSpan};
use crate::text::{
    eq_str, find_in, is_blank, lemma_find_bounds, lines_chars, spec_find, spec_is_blank,
    spec_lines, spec_split, spec_trim, split_chars, str_chars, string_of, sub_chars, trim_chars,
};

verus! {

broadcast use vstd::std_specs::hash::group_hash_axioms;

/// The commit data carried by a header line of the log.
#[derive(Clone, Debug)]
pub struct LogCommit {
    pub change_id: ChangeId,
    pub commit_id: String,
    pub summary: String,
    pub is_immutable: bool,
    pub is_working_copy: bool,
}

impl LogCommit {
    /// The commit as a full `JjCommit`, its other fields empty.
    pub fn to_jj_commit(&self) -> (c: JjCommit)
        ensures
            c.change_id == self.change_id,
            c.commit_id@ == self.commit_id@,
            c.summary@ == self.summary@,
            c.description@.len() == 0,
            c.author@.len() == 0,
            c.email@.len() == 0,
            c.timestamp@.len() == 0,
            c.is_immutable == self.is_immutable,
            c.is_working_copy == self.is_working_copy,
            c.parents@.len() == 0,
    {
        JjCommit {
            change_id: self.change_id,
            commit_id: self.commit_id.clone(),
            summary: self.summary.clone(),
            description: String::new(),
            author: String::new(),
            email: String::new(),
            timestamp: String::new(),
            is_immutable: self.is_immutable,
            is_working_copy: self.is_working_copy,
            parents: Vec::new(),
        }
    }
}

/// The parsed log: styled display lines, and the commit of each header line.
pub struct JjLogOutput {
    /// Display lines, colors parsed into styled spans.
    pub lines: Vec<Vec<StyledSpan>>,
    /// The commit of each header line, by its index in `lines`.
    pub commits_by_line: HashMap<usize, LogCommit>,
    /// The indices of the header lines, in increasing order.
    pub commit_lines: Vec<usize>,
}

impl JjLogOutput {
    /// A log with no lines.
    pub fn empty() -> (r: JjLogOutput)
        ensures
            r.lines@.len() == 0,
            r.commits_by_line@ == Map::<usize, LogCommit>::empty(),
            r.commit_lines@.len() == 0,
    {
        JjLogOutput { lines: Vec::new(), commits_by_line: HashMap::new(), commit_lines: Vec::new() }
    }
}

/// The field `i` of `fs`, or the empty text when there is none.
pub open spec fn field_or_empty(fs: Seq<Seq<char>>, i: int) -> Seq<char> {
    if 0 <= i < fs.len() {
        fs[i]
    } else {
        Seq::empty()
    }
}

/// The fields of the data part of a header line, escapes removed.
pub open spec fn header_fields(data: Seq<char>) -> Seq<Seq<char>> {
    spec_split(spec_strip_from(data, 0), '\x00')
}

/// Whether `c` is the commit carried by the data part `data` of a header line.
pub open spec fn log_commit_of(c: LogCommit, data: Seq<char>) -> bool {
    let fs = header_fields(data);
    &&& c.change_id.spec_text() == field_or_empty(fs, 0)
    &&& c.commit_id@ == field_or_empty(fs, 1)
    &&& c.is_immutable == (field_or_empty(fs, 2) == "true"@)
    &&& c.is_working_copy == (field_or_empty(fs, 3) == "true"@)
    &&& c.summary@ == field_or_empty(fs, 4)
}

/// The log read from raw lines `ls`: the shown lines, the index among them of
/// each header line, and the data part of each header line.
pub open spec fn log_view(ls: Seq<Seq<char>>) -> (Seq<Seq<char>>, Seq<int>, Seq<Seq<char>>)
    decreases ls.len(),
{
    if ls.len() == 0 {
        (Seq::empty(), Seq::empty(), Seq::empty())
    } else {
        let prev = log_view(ls.drop_last());
        let t = ls.last();
        let m = spec_find(t, 0, '\x01');
        if m < t.len() {
            (
                prev.0.push(t.subrange(0, m)),
                prev.1.push(prev.0.len() as int),
                prev.2.push(t.subrange(m + 1, t.len() as int)),
            )
        } else if !spec_is_blank(t) {
            (prev.0.push(t), prev.1, prev.2)
        } else {
            prev
        }
    }
}

/// Whether the header data `hd` up to `k` all carry valid change ids.
pub open spec fn headers_valid_before(hd: Seq<Seq<char>>, k: int) -> bool {
    forall|j: int| 0 <= j < k ==> is_change_id_text(field_or_empty(#[trigger] header_fields(hd[j]), 0))
}

/// Whether the display lines `lines`, header line indices `commit_lines` and
/// commits by line `map` are those of the log view `v`.
pub open spec fn log_output_matches(
    lines: Seq<Vec<StyledSpan>>,
    commit_lines: Seq<usize>,
    map: Map<usize, LogCommit>,
    v: (Seq<Seq<char>>, Seq<int>, Seq<Seq<char>>),
) -> bool {
    &&& lines.len() == v.0.len()
    &&& forall|i: int|
        0 <= i < v.0.len() ==> spans_view((#[trigger] lines[i])@) == spec_parse_from(
            v.0[i],
            0,
            spec_default_style(),
        )
    &&& commit_lines.len() == v.1.len()
    &&& v.1.len() == v.2.len()
    &&& forall|k: int| 0 <= k < v.1.len() ==> (#[trigger] commit_lines[k]) == v.1[k]
    &&& forall|k: int| 0 <= k < v.1.len() ==> #[trigger] v.1[k] < v.0.len()
    &&& forall|k: int, j: int| 0 <= k < j < v.1.len() ==> #[trigger] v.1[k] < #[trigger] v.1[j]
    &&& forall|x: usize| #[trigger] map.contains_key(x) <==> commit_lines.contains(x)
    &&& forall|k: int|
        0 <= k < v.1.len() ==> log_commit_of(map[#[trigger] commit_lines[k]], v.2[k])
}

/// What reading the colored log `stdout` gives: the log of its lines, or the
/// error of the first header line whose change id is invalid.
pub open spec fn jj_log_spec(stdout: Seq<char>, r: Result<JjLogOutput, Error>) -> bool {
    let v = log_view(spec_lines(stdout));
    match r {
        Ok(out) => headers_valid_before(v.2, v.2.len() as int) && log_output_matches(
            out.lines@,
            out.commit_lines@,
            out.commits_by_line@,
            v,
        ),
        Err(e) => exists|k: int|
            0 <= k < v.2.len() && headers_valid_before(v.2, k) && !is_change_id_text(
                field_or_empty(#[trigger] header_fields(v.2[k]), 0),
            ) && (e matches Error::Parse(m) && m@ == invalid_change_id_message(
                field_or_empty(header_fields(v.2[k]), 0),
            )),
    }
}

/// Adding a header line keeps the output matching the view.
proof fn lemma_header_step(
    lines: Seq<Vec<StyledSpan>>,
    commit_lines: Seq<usize>,
    map: Map<usize, LogCommit>,
    prev: (Seq<Seq<char>>, Seq<int>, Seq<Seq<char>>),
    line: Vec<StyledSpan>,
    idx: usize,
    commit: LogCommit,
    display: Seq<char>,
    data: Seq<char>,
)
    requires
        log_output_matches(lines, commit_lines, map, prev),
        idx == lines.len(),
        spans_view(line@) == spec_parse_from(display, 0, spec_default_style()),
        log_commit_of(commit, data),
    ensures
        log_output_matches(
            lines.push(line),
            commit_lines.push(idx),
            map.insert(idx, commit),
            (prev.0.push(display), prev.1.push(prev.0.len() as int), prev.2.push(data)),
        ),
{
    let v = (prev.0.push(display), prev.1.push(prev.0.len() as int), prev.2.push(data));
    let nl = lines.push(line);
    let ncl = commit_lines.push(idx);
    let nmap = map.insert(idx, commit);
    assert forall|i: int| 0 <= i < v.0.len() implies spans_view((#[trigger] nl[i])@)
        == spec_parse_from(v.0[i], 0, spec_default_style()) by {
        if i < prev.0.len() {
            assert(nl[i] == lines[i]);
        }
    }
    assert forall|k: int| 0 <= k < v.1.len() implies (#[trigger] ncl[k]) == v.1[k] by {
        if k < prev.1.len() {
            assert(ncl[k] == commit_lines[k]);
        }
    }
    assert forall|k: int| 0 <= k < v.1.len() implies #[trigger] v.1[k] < v.0.len() by {
        if k < prev.1.len() {
            assert(v.1[k] == prev.1[k]);
        }
    }
    assert forall|k: int, j: int| 0 <= k < j < v.1.len() implies #[trigger] v.1[k] < #[trigger] v.1[j] by {
        assert(v.1[k] == prev.1[k]);
        assert(prev.1[k] < prev.0.len());
        if j < prev.1.len() {
            assert(v.1[j] == prev.1[j]);
        }
    }
    assert forall|x: usize| #[trigger] nmap.contains_key(x) <==> ncl.contains(x) by {
        if ncl.contains(x) && x != idx {
            let k = choose|k: int| 0 <= k < ncl.len() && ncl[k] == x;
            assert(commit_lines[k] == x);
            assert(commit_lines.contains(x));
        }
        if commit_lines.contains(x) {
            let k = choose|k: int| 0 <= k < commit_lines.len() && commit_lines[k] == x;
            assert(ncl[k] == x);
        }
        assert(ncl[commit_lines.len() as int] == idx);
    }
    assert forall|k: int| 0 <= k < v.1.len() implies log_commit_of(
        nmap[#[trigger] ncl[k]],
        v.2[k],
    ) by {
        if k < prev.1.len() {
            assert(ncl[k] == commit_lines[k]);
            assert(commit_lines[k] == prev.1[k]);
            assert(prev.1[k] < prev.0.len());
            assert(nmap[commit_lines[k]] == map[commit_lines[k]]);
        }
    }
}

/// Adding a plain line keeps the output matching the view.
proof fn lemma_plain_step(
    lines: Seq<Vec<StyledSpan>>,
    commit_lines: Seq<usize>,
    map: Map<usize, LogCommit>,
    prev: (Seq<Seq<char>>, Seq<int>, Seq<Seq<char>>),
    line: Vec<StyledSpan>,
    t: Seq<char>,
)
    requires
        log_output_matches(lines, commit_lines, map, prev),
        spans_view(line@) == spec_parse_from(t, 0, spec_default_style()),
    ensures
        log_output_matches(lines.push(line), commit_lines, map, (prev.0.push(t), prev.1, prev.2)),
{
    let v = (prev.0.push(t), prev.1, prev.2);
    let nl = lines.push(line);
    assert forall|i: int| 0 <= i < v.0.len() implies spans_view((#[trigger] nl[i])@)
        == spec_parse_from(v.0[i], 0, spec_default_style()) by {
        if i < prev.0.len() {
            assert(nl[i] == lines[i]);
        }
    }
    assert forall|k: int| 0 <= k < v.1.len() implies #[trigger] v.1[k] < v.0.len() by {
        assert(v.1[k] == prev.1[k]);
    }
}

/// The field `i` of `fs`, or the empty text.
fn field_or_empty_exec(fs: &Vec<Vec<char>>, i: usize) -> (r: Vec<char>)
    ensures
        r@ == field_or_empty(char_seqs(fs@), i as int),
{
    if i < fs.len() {
        fs[i].clone()
    } else {
        Vec::new()
    }
}

/// The commit carried by the data part of a header line.
fn commit_of_data(data: &Vec<char>) -> (r: Result<LogCommit, Error>)
    ensures
        match r {
            Ok(c) => is_change_id_text(field_or_empty(header_fields(data@), 0)) && log_commit_of(
                c,
                data@,
            ),
            Err(e) => !is_change_id_text(field_or_empty(header_fields(data@), 0)) && (e matches Error::Parse(m)
                && m@ == invalid_change_id_message(field_or_empty(header_fields(data@), 0))),
        },
{
    let data_text = string_of(data);
    let plain = strip_ansi(data_text.as_str());
    let plain_chars = str_chars(plain.as_str());
    let fields = split_chars(&plain_chars, '\x00');
    proof {
        assert(char_seqs(fields@) =~= header_fields(data@));
    }
    let id_chars = field_or_empty_exec(&fields, 0);
    let commit_id = string_of(&field_or_empty_exec(&fields, 1));
    let is_immutable = eq_str(&field_or_empty_exec(&fields, 2), "true");
    let is_working_copy = eq_str(&field_or_empty_exec(&fields, 3), "true");
    let summary = string_of(&field_or_empty_exec(&fields, 4));
    let id_text = string_of(&id_chars);
    match ChangeId::parse(id_text.as_str()) {
        Ok(change_id) => Ok(LogCommit { change_id, commit_id, summary, is_immutable, is_working_copy }),
        Err(e) => Err(Error::from(e)),
    }
}

/// Reads the output of `jj log --color always` run with the marker template.
pub fn parse_log_output(stdout: &str) -> (r: Result<JjLogOutput, Error>)
    ensures
        jj_log_spec(stdout@, r),
{
    let chars = str_chars(stdout);
    let raw_lines = lines_chars(&chars);
    let ghost ls = char_seqs(raw_lines@);
    proof {
        assert(ls =~= spec_lines(stdout@));
    }
    let mut out = JjLogOutput::empty();
    let mut i: usize = 0;
    while i < raw_lines.len()
        invariant
            i <= raw_lines@.len(),
            ls == char_seqs(raw_lines@),
            ls == spec_lines(stdout@),
            headers_valid_before(log_view(ls.take(i as int)).2, log_view(ls.take(i as int)).2.len() as int),
            log_output_matches(
                out.lines@,
                out.commit_lines@,
                out.commits_by_line@,
                log_view(ls.take(i as int)),
            ),
        decreases raw_lines.len() - i,
    {
        let ghost prev = log_view(ls.take(i as int));
        let ghost t = ls[i as int];
        proof {
            assert(ls.take(i + 1).drop_last() =~= ls.take(i as int));
            assert(ls.take(i + 1).last() == t);
            assert(t == raw_lines@[i as int]@);
        }
        let raw = &raw_lines[i];
        let m = find_in(raw, 0, raw.len(), '\x01');
        proof {
            assert(raw@.subrange(0, raw@.len() as int) =~= raw@);
            lemma_find_bounds(raw@, 0, '\x01');
        }
        if m < raw.len() {
            let display = sub_chars(raw, 0, m);
            let data = sub_chars(raw, m + 1, raw.len());
            let commit = match commit_of_data(&data) {
                Ok(c) => c,
                Err(e) => {
                    proof {
                        let full = log_view(ls);
                        lemma_log_view_prefix(ls, i + 1);
                        let w = prev.2.len() as int;
                        assert(log_view(ls.take(i + 1)).2 == prev.2.push(data@));
                        assert(log_view(ls.take(i + 1)).2[w] == data@);
                        assert(full.2[w] == log_view(ls.take(i + 1)).2[w]);
                        assert forall|j: int| 0 <= j < w implies is_change_id_text(
                            field_or_empty(#[trigger] header_fields(full.2[j]), 0),
                        ) by {
                            assert(log_view(ls.take(i + 1)).2[j] == prev.2[j]);
                            assert(full.2[j] == log_view(ls.take(i + 1)).2[j]);
                            assert(is_change_id_text(field_or_empty(header_fields(prev.2[j]), 0)));
                        }
                    }
                    return Err(e);
                },
            };
            let display_text = string_of(&display);
            let line = parse_ansi_line(display_text.as_str());
            let idx = out.lines.len();
            let ghost old_lines = out.lines@;
            let ghost old_commit_lines = out.commit_lines@;
            let ghost old_map = out.commits_by_line@;
            let ghost commit_view = commit;
            out.lines.push(line);
            out.commits_by_line.insert(idx, commit);
            out.commit_lines.push(idx);
            proof {
                let v = log_view(ls.take(i + 1));
                assert(v == (prev.0.push(display@), prev.1.push(prev.0.len() as int), prev.2.push(data@)));
                lemma_header_step(old_lines, old_commit_lines, old_map, prev, line, idx, commit_view, display@, data@);
                assert(headers_valid_before(v.2, v.2.len() as int)) by {
                    assert forall|j: int| 0 <= j < v.2.len() implies is_change_id_text(
                        field_or_empty(#[trigger] header_fields(v.2[j]), 0),
                    ) by {
                        if j < prev.2.len() {
                            assert(v.2[j] == prev.2[j]);
                        }
                    }
                }
            }
        } else if !is_blank(raw) {
            let raw_text = string_of(raw);
            let line = parse_ansi_line(raw_text.as_str());
            let ghost old_lines = out.lines@;
            out.lines.push(line);
            proof {
                let v = log_view(ls.take(i + 1));
                assert(v == (prev.0.push(t), prev.1, prev.2));
                lemma_plain_step(old_lines, out.commit_lines@, out.commits_by_line@, prev, line, t);
            }
        } else {
            proof {
                assert(log_view(ls.take(i + 1)) == prev);
            }
        }
        i = i + 1;
    }
    proof {
        assert(ls.take(i as int) =~= ls);
    }
    Ok(out)
}

/// The header data of a prefix of the lines is a prefix of the header data.
proof fn lemma_log_view_prefix(ls: Seq<Seq<char>>, m: int)
    requires
        0 <= m <= ls.len(),
    ensures
        log_view(ls.take(m)).2.len() <= log_view(ls).2.len(),
        forall|j: int|
            0 <= j < log_view(ls.take(m)).2.len() ==> log_view(ls).2[j]
                == #[trigger] log_view(ls.take(m)).2[j],
    decreases ls.len() - m,
{
    if m == ls.len() {
        assert(ls.take(m) =~= ls);
    } else {
        lemma_log_view_prefix(ls, m + 1);
        assert(ls.take(m + 1).drop_last() =~= ls.take(m));
        let a = log_view(ls.take(m)).2;
        let b = log_view(ls.take(m + 1)).2;
        assert forall|j: int| 0 <= j < a.len() implies b[j] == #[trigger] a[j] by {}
    }
}

/// What a run of `jj log` with the marker template gives: when jj failed,
/// its standard error, trimmed and without escape sequences, as
/// `JjFailed`; else the log read from its standard output.
pub fn get_jj_log(success: bool, stdout: &str, stderr: &str) -> (r: Result<JjLogOutput, Error>)
    ensures
        !success ==> (r matches Err(Error::JjFailed(m)) && m@ == spec_strip_from(
            spec_trim(stderr@),
            0,
        )),
        success ==> jj_log_spec(stdout@, r),
{
    if !success {
        let trimmed = string_of(&trim_chars(&str_chars(stderr)));
        return Err(Error::JjFailed(strip_ansi(trimmed.as_str())));
    }
    parse_log_output(stdout)
}

} // verus!
