//! Reading the graph `jj log` draws for the commits.
//!
//! Each commit line holds the graph gutter, a `\x01` marker, then six fields
//! separated by NUL characters: change id, commit id, summary, author,
//! immutability and working-copy flag. Lines without the marker that draw
//! more of the graph belong to the commit above them.

use vstd::prelude::*;

use crate::models::change_id::{
    invalid_change_id_message, is_change_id_text, ChangeId, InvalidChangeIdError,
};
use crate::services::jj::char_seqs;
use crate::text::{
    eq_str, find_in, lemma_find_bounds, lines_chars, push_str, spec_find, spec_lines, spec_split,
    spec_trim, split_chars, str_chars, string_of, sub_chars, trim_chars,
};

verus! {

/// A commit as shown in the graph.
#[derive(Clone, Debug)]
pub struct GraphCommit {
    pub change_id: ChangeId,
    pub commit_id: String,
    pub summary: String,
    pub author: String,
    pub is_working_copy: bool,
    pub is_immutable: bool,
}

/// A commit of the graph with the graph lines drawn for it.
#[derive(Clone, Debug)]
pub struct JjGraphEntry {
    pub commit: GraphCommit,
    /// Graph characters of the commit's own line (such as `"○  "`).
    pub gutter: String,
    /// Graph-only lines after the commit's line (such as `"├─╯"`).
    pub continuation_lines: Vec<String>,
}

/// Whether the trimmed line `t` carries nothing: empty, or only `~`.
pub open spec fn is_graph_filler(t: Seq<char>) -> bool {
    spec_trim(t).len() == 0 || spec_trim(t) == "~"@
}

/// The entries read from the lines `ls`: for each commit line with at least
/// six fields, its gutter, its fields and its continuation lines.
pub open spec fn graph_view(ls: Seq<Seq<char>>) -> Seq<(Seq<char>, Seq<Seq<char>>, Seq<Seq<char>>)>
    decreases ls.len(),
{
    if ls.len() == 0 {
        Seq::empty()
    } else {
        let prev = graph_view(ls.drop_last());
        let t = ls.last();
        let m = spec_find(t, 0, '\x01');
        if m < t.len() {
            let parts = spec_split(t.subrange(m + 1, t.len() as int), '\x00');
            if parts.len() < 6 {
                prev
            } else {
                prev.push((t.subrange(0, m), parts, Seq::empty()))
            }
        } else if is_graph_filler(t) || prev.len() == 0 {
            prev
        } else {
            let last = prev.last();
            prev.update(prev.len() - 1, (last.0, last.1, last.2.push(t)))
        }
    }
}

/// Whether `e` is the entry described by `g`.
pub open spec fn graph_entry_matches(
    e: JjGraphEntry,
    g: (Seq<char>, Seq<Seq<char>>, Seq<Seq<char>>),
) -> bool {
    let parts = g.1;
    &&& e.gutter@ == g.0
    &&& e.commit.change_id.spec_text() == parts[0]
    &&& e.commit.commit_id@ == parts[1]
    &&& e.commit.summary@ == parts[2]
    &&& e.commit.author@ == parts[3]
    &&& e.commit.is_immutable == (parts[4] == "true"@)
    &&& e.commit.is_working_copy == (parts[5] == "true"@)
    &&& e.continuation_lines@.len() == g.2.len()
    &&& forall|j: int| 0 <= j < g.2.len() ==> (#[trigger] e.continuation_lines@[j])@ == g.2[j]
}

/// Whether the entries `gv` up to `k` all carry valid change ids.
pub open spec fn graph_ids_valid_before(
    gv: Seq<(Seq<char>, Seq<Seq<char>>, Seq<Seq<char>>)>,
    k: int,
) -> bool {
    forall|j: int| 0 <= j < k ==> is_change_id_text((#[trigger] gv[j]).1[0])
}

/// What reading the graph output `output` gives: its entries, or the error
/// of the first commit line whose change id is invalid.
pub open spec fn graph_parse_spec(
    output: Seq<char>,
    r: Result<Vec<JjGraphEntry>, InvalidChangeIdError>,
) -> bool {
    let gv = graph_view(spec_lines(output));
    match r {
        Ok(v) => graph_ids_valid_before(gv, gv.len() as int) && v@.len() == gv.len() && forall|
            k: int,
        | 0 <= k < gv.len() ==> graph_entry_matches(#[trigger] v@[k], gv[k]),
        Err(e) => exists|k: int|
            0 <= k < gv.len() && graph_ids_valid_before(gv, k) && !is_change_id_text(
                (#[trigger] gv[k]).1[0],
            ) && e.spec_received() == gv[k].1[0],
    }
}

/// The graph entries of a prefix of the lines, up to the last one, are those
/// of the lines; the last may only gain continuation lines.
proof fn lemma_graph_view_prefix(ls: Seq<Seq<char>>, m: int)
    requires
        0 <= m <= ls.len(),
    ensures
        graph_view(ls.take(m)).len() <= graph_view(ls).len(),
        forall|j: int|
            0 <= j < graph_view(ls.take(m)).len() ==> (#[trigger] graph_view(ls)[j]).1
                == graph_view(ls.take(m))[j].1,
    decreases ls.len() - m,
{
    if m == ls.len() {
        assert(ls.take(m) =~= ls);
    } else {
        lemma_graph_view_prefix(ls, m + 1);
        assert(ls.take(m + 1).drop_last() =~= ls.take(m));
        let a = graph_view(ls.take(m));
        let b = graph_view(ls.take(m + 1));
        assert forall|j: int| 0 <= j < a.len() implies (#[trigger] b[j]).1 == a[j].1 by {}
    }
}

/// Reads the output of `jj log` run with the graph marker template.
pub fn parse_graph_output(output: &str) -> (r: Result<Vec<JjGraphEntry>, InvalidChangeIdError>)
    ensures
        graph_parse_spec(output@, r),
{
    let chars = str_chars(output);
    let raw_lines = lines_chars(&chars);
    let ghost ls = char_seqs(raw_lines@);
    proof {
        assert(ls =~= spec_lines(output@));
    }
    let mut entries: Vec<JjGraphEntry> = Vec::new();
    let mut i: usize = 0;
    while i < raw_lines.len()
        invariant
            i <= raw_lines@.len(),
            ls == char_seqs(raw_lines@),
            ls == spec_lines(output@),
            graph_ids_valid_before(graph_view(ls.take(i as int)), graph_view(ls.take(i as int)).len() as int),
            entries@.len() == graph_view(ls.take(i as int)).len(),
            forall|k: int|
                0 <= k < entries@.len() ==> graph_entry_matches(
                    #[trigger] entries@[k],
                    graph_view(ls.take(i as int))[k],
                ),
        decreases raw_lines.len() - i,
    {
        let ghost prev = graph_view(ls.take(i as int));
        let ghost t = ls[i as int];
        let ghost old_entries = entries@;
        proof {
            assert(ls.take(i + 1).drop_last() =~= ls.take(i as int));
            assert(ls.take(i + 1).last() == t);
            assert(t == raw_lines@[i as int]@);
        }
        let raw = &raw_lines[i];
        let m = find_in(raw, 0, raw.len(), '\x01');
        proof {
            assert(raw@.subrange(0, raw@.len() as int) =~= raw@);
            lemma_find_bounds(raw@, 0, '\x01');
        }
        if m < raw.len() {
            let data = sub_chars(raw, m + 1, raw.len());
            let parts = split_chars(&data, '\x00');
            proof {
                assert(char_seqs(parts@) =~= spec_split(data@, '\x00'));
            }
            if parts.len() >= 6 {
                let ghost g = (t.subrange(0, m as int), char_seqs(parts@), Seq::<Seq<char>>::empty());
                proof {
                    assert(graph_view(ls.take(i + 1)) == prev.push(g));
                    assert(g.1[0] == parts@[0]@);
                }
                let id_text = string_of(&parts[0]);
                let change_id = match ChangeId::parse(id_text.as_str()) {
                    Ok(id) => id,
                    Err(e) => {
                        proof {
                            lemma_graph_view_prefix(ls, i + 1);
                            let full = graph_view(ls);
                            let w = prev.len() as int;
                            assert(graph_view(ls.take(i + 1))[w] == g);
                            assert(full[w].1 == g.1);
                            assert forall|j: int| 0 <= j < w implies is_change_id_text(
                                (#[trigger] full[j]).1[0],
                            ) by {
                                assert(graph_view(ls.take(i + 1))[j] == prev[j]);
                                assert(full[j].1 == prev[j].1);
                            }
                        }
                        return Err(e);
                    },
                };
                let gutter = string_of(&sub_chars(raw, 0, m));
                proof {
                    assert(g.1[1] == parts@[1]@);
                    assert(g.1[2] == parts@[2]@);
                    assert(g.1[3] == parts@[3]@);
                    assert(g.1[4] == parts@[4]@);
                    assert(g.1[5] == parts@[5]@);
                }
                let is_immutable = eq_str(&parts[4], "true");
                let is_working_copy = eq_str(&parts[5], "true");
                let commit = GraphCommit {
                    change_id,
                    commit_id: string_of(&parts[1]),
                    summary: string_of(&parts[2]),
                    author: string_of(&parts[3]),
                    is_working_copy,
                    is_immutable,
                };
                entries.push(JjGraphEntry { commit, gutter, continuation_lines: Vec::new() });
                proof {
                    let v = graph_view(ls.take(i + 1));
                    assert forall|k: int| 0 <= k < entries@.len() implies graph_entry_matches(
                        #[trigger] entries@[k],
                        v[k],
                    ) by {
                        if k < old_entries.len() {
                            assert(entries@[k] == old_entries[k]);
                        }
                    }
                    assert forall|j: int| 0 <= j < v.len() implies is_change_id_text(
                        (#[trigger] v[j]).1[0],
                    ) by {
                        if j < prev.len() {
                            assert(v[j] == prev[j]);
                        }
                    }
                }
            } else {
                proof {
                    assert(graph_view(ls.take(i + 1)) == prev);
                }
            }
        } else {
            let trimmed = trim_chars(raw);
            let filler = trimmed.len() == 0 || eq_str(&trimmed, "~");
            if filler || entries.len() == 0 {
                proof {
                    assert(graph_view(ls.take(i + 1)) == prev);
                }
            } else {
                let mut last = entries.pop().unwrap();
                let ghost before_last = last;
                last.continuation_lines.push(string_of(raw));
                entries.push(last);
                proof {
                    let v = graph_view(ls.take(i + 1));
                    let pl = prev.last();
                    assert(v == prev.update(prev.len() - 1, (pl.0, pl.1, pl.2.push(t))));
                    assert(before_last == old_entries[old_entries.len() - 1]);
                    assert forall|k: int| 0 <= k < entries@.len() implies graph_entry_matches(
                        #[trigger] entries@[k],
                        v[k],
                    ) by {
                        if k < old_entries.len() - 1 {
                            assert(entries@[k] == old_entries[k]);
                        } else {
                            assert(graph_entry_matches(before_last, pl));
                            assert forall|j: int| 0 <= j < v[k].2.len() implies (
                            #[trigger] entries@[k].continuation_lines@[j])@ == v[k].2[j] by {
                                if j < pl.2.len() {
                                    assert(entries@[k].continuation_lines@[j]
                                        == before_last.continuation_lines@[j]);
                                }
                            }
                        }
                    }
                    assert forall|j: int| 0 <= j < v.len() implies is_change_id_text(
                        (#[trigger] v[j]).1[0],
                    ) by {
                        assert(v[j].1 == prev[j].1);
                    }
                }
            }
        }
        i = i + 1;
    }
    proof {
        assert(ls.take(i as int) =~= ls);
    }
    Ok(entries)
}

/// The message of a failed `jj log` run with the given exit status and
/// standard error.
pub open spec fn graph_log_failure_message(status: Seq<char>, stderr: Seq<char>) -> Seq<char> {
    "jj log command failed with status "@ + status + ": "@ + stderr
}

/// What a run of `jj log --color never` with the graph template gives: when
/// jj failed, a message with its exit status (as the caller prints it) and
/// standard error; else the entries read from its standard output, or the
/// message of the first invalid change id.
pub fn get_log_with_graph(success: bool, status: &str, stdout: &str, stderr: &str) -> (r: Result<
    Vec<JjGraphEntry>,
    String,
>)
    ensures
        !success ==> (r matches Err(m) && m@ == graph_log_failure_message(status@, stderr@)),
        success ==> match r {
            Ok(v) => graph_parse_spec(stdout@, Ok(v)),
            Err(m) => exists|e: InvalidChangeIdError|
                #[trigger] graph_parse_spec(stdout@, Err(e)) && m@ == invalid_change_id_message(
                    e.spec_received(),
                ),
        },
{
    if !success {
        let mut buf: Vec<char> = Vec::new();
        push_str(&mut buf, "jj log command failed with status ");
        push_str(&mut buf, status);
        push_str(&mut buf, ": ");
        push_str(&mut buf, stderr);
        proof {
            reveal_strlit("jj log command failed with status ");
            reveal_strlit(": ");
        }
        return Err(string_of(&buf));
    }
    match parse_graph_output(stdout) {
        Ok(v) => Ok(v),
        Err(e) => {
            let m = e.message();
            proof {
                assert(graph_parse_spec(stdout@, Err(e)));
            }
            Err(m)
        },
    }
}

} // verus!
