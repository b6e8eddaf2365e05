//! Word-level changes inside paired lines of a diff hunk.
//!
//! Within a hunk, a run of deleted lines followed by added lines forms a
//! block; its lines are paired in order, and each pair is diffed word by word
//! (with the `similar` crate) to find the byte ranges that changed.

use std::collections::BTreeMap;

use vstd::prelude::*;
use vstd::utf8::encode_utf8;

use crate::text::int_ranges;

verus! {

broadcast use {vstd::std_specs::btree::group_btree_axioms, vstd::laws_cmp::group_laws_cmp};

/// A deleted or added line of a block: its line number and text.
pub struct SideLine {
    pub lineno: u32,
    pub content: String,
}

/// The deleted lines and the added lines between two context lines.
pub struct Block {
    pub old_lines: Vec<SideLine>,
    pub new_lines: Vec<SideLine>,
}

/// The kind of a word change.
#[derive(Debug, Clone, Copy, PartialEq, Eq, Structural)]
pub enum WordChangeTag {
    Equal,
    Delete,
    Insert,
}

/// A source of blocks of deleted and added lines.
pub trait HunkLines {
    /// The blocks, in order.
    fn blocks(&self) -> Vec<Block>;
}

/// Word-level change byte ranges, keyed by line number.
pub struct WordDiffResult {
    /// Old line number → (paired new line number, byte ranges deleted in it).
    pub deletions: BTreeMap<u32, (u32, Vec<(usize, usize)>)>,
    /// New line number → (paired old line number, byte ranges inserted in it).
    pub insertions: BTreeMap<u32, (u32, Vec<(usize, usize)>)>,
}

/// The byte ranges changed on each side of a pair of lines.
pub struct InlineDiffRanges {
    pub old_ranges: Vec<(usize, usize)>,
    pub new_ranges: Vec<(usize, usize)>,
}

/// What `similar::TextDiff::from_words(old, new).iter_all_changes()` yields:
/// the tag and byte length of each change, in order.
pub uninterp spec fn word_diff_changes(old: Seq<char>, new: Seq<char>) -> Seq<(WordChangeTag, usize)>;

/// Bytes of the old text covered by `changes` (equal and deleted words).
pub open spec fn old_total(changes: Seq<(WordChangeTag, usize)>) -> nat
    decreases changes.len(),
{
    if changes.len() == 0 {
        0
    } else {
        old_total(changes.drop_last()) + if changes.last().0 != WordChangeTag::Insert {
            changes.last().1 as nat
        } else {
            0
        }
    }
}

/// Bytes of the new text covered by `changes` (equal and inserted words).
pub open spec fn new_total(changes: Seq<(WordChangeTag, usize)>) -> nat
    decreases changes.len(),
{
    if changes.len() == 0 {
        0
    } else {
        new_total(changes.drop_last()) + if changes.last().0 != WordChangeTag::Delete {
            changes.last().1 as nat
        } else {
            0
        }
    }
}

/// The word changes between `old` and `new`.
///
/// Trusted: runs `similar::TextDiff::from_words` and lists `tag()` and
/// `value().len()` of each change of `iter_all_changes`. Claims the list is
/// `word_diff_changes(old, new)`, and that the equal and deleted words cover
/// the old text and the equal and inserted words the new text (the words
/// tokenize each whole text).
#[verifier::external_body]
fn word_changes(old: &str, new: &str) -> (r: Vec<(WordChangeTag, usize)>)
    ensures
        r@ == word_diff_changes(old@, new@),
        old_total(r@) == encode_utf8(old@).len(),
        new_total(r@) == encode_utf8(new@).len(),
{
    let diff = similar::TextDiff::from_words(old, new);
    let mut out = Vec::new();
    for change in diff.iter_all_changes() {
        let tag = match change.tag() {
            similar::ChangeTag::Equal => WordChangeTag::Equal,
            similar::ChangeTag::Delete => WordChangeTag::Delete,
            similar::ChangeTag::Insert => WordChangeTag::Insert,
        };
        out.push((tag, change.value().len()));
    }
    out
}

/// The byte ranges deleted from the old text and inserted in the new text,
/// read from a list of word changes.
pub open spec fn spec_inline_ranges(changes: Seq<(WordChangeTag, usize)>) -> (Seq<(int, int)>, Seq<(int, int)>)
    decreases changes.len(),
{
    if changes.len() == 0 {
        (Seq::empty(), Seq::empty())
    } else {
        let prev = spec_inline_ranges(changes.drop_last());
        let (tag, len) = changes.last();
        let op = old_total(changes.drop_last()) as int;
        let np = new_total(changes.drop_last()) as int;
        match tag {
            WordChangeTag::Delete => (prev.0.push((op, op + len)), prev.1),
            WordChangeTag::Insert => (prev.0, prev.1.push((np, np + len))),
            WordChangeTag::Equal => prev,
        }
    }
}

proof fn lemma_totals_prefix(changes: Seq<(WordChangeTag, usize)>, i: int)
    requires
        0 <= i <= changes.len(),
    ensures
        old_total(changes.take(i)) <= old_total(changes),
        new_total(changes.take(i)) <= new_total(changes),
    decreases changes.len() - i,
{
    if i < changes.len() {
        lemma_totals_prefix(changes, i + 1);
        assert(changes.take(i + 1).drop_last() =~= changes.take(i));
    } else {
        assert(changes.take(i) =~= changes);
    }
}

/// The changed byte ranges of each side, from the word changes.
pub fn inline_ranges_from_changes(changes: &Vec<(WordChangeTag, usize)>) -> (r: InlineDiffRanges)
    requires
        old_total(changes@) <= usize::MAX,
        new_total(changes@) <= usize::MAX,
    ensures
        int_ranges(r.old_ranges@) == spec_inline_ranges(changes@).0,
        int_ranges(r.new_ranges@) == spec_inline_ranges(changes@).1,
{
    let mut old_ranges: Vec<(usize, usize)> = Vec::new();
    let mut new_ranges: Vec<(usize, usize)> = Vec::new();
    let mut old_pos: usize = 0;
    let mut new_pos: usize = 0;
    let mut i: usize = 0;
    while i < changes.len()
        invariant
            i <= changes@.len(),
            old_total(changes@) <= usize::MAX,
            new_total(changes@) <= usize::MAX,
            old_pos == old_total(changes@.take(i as int)),
            new_pos == new_total(changes@.take(i as int)),
            int_ranges(old_ranges@) == spec_inline_ranges(changes@.take(i as int)).0,
            int_ranges(new_ranges@) == spec_inline_ranges(changes@.take(i as int)).1,
        decreases changes.len() - i,
    {
        proof {
            assert(changes@.take(i + 1).drop_last() =~= changes@.take(i as int));
            assert(changes@.take(i + 1).last() == changes@[i as int]);
            lemma_totals_prefix(changes@, i + 1);
        }
        let (tag, len) = changes[i];
        let ghost before_old = old_ranges@;
        let ghost before_new = new_ranges@;
        match tag {
            WordChangeTag::Delete => {
                old_ranges.push((old_pos, old_pos + len));
                old_pos = old_pos + len;
                proof {
                    assert(int_ranges(old_ranges@) =~= int_ranges(before_old).push(
                        ((old_pos - len) as int, old_pos as int),
                    ));
                }
            },
            WordChangeTag::Insert => {
                new_ranges.push((new_pos, new_pos + len));
                new_pos = new_pos + len;
                proof {
                    assert(int_ranges(new_ranges@) =~= int_ranges(before_new).push(
                        ((new_pos - len) as int, new_pos as int),
                    ));
                }
            },
            WordChangeTag::Equal => {
                old_pos = old_pos + len;
                new_pos = new_pos + len;
            },
        }
        i = i + 1;
    }
    proof {
        assert(changes@.take(i as int) =~= changes@);
    }
    InlineDiffRanges { old_ranges, new_ranges }
}

/// The changed byte ranges of a pair of lines.
pub fn compute_inline_diff(old_line: &str, new_line: &str) -> (r: InlineDiffRanges)
    ensures
        int_ranges(r.old_ranges@) == spec_inline_ranges(word_diff_changes(old_line@, new_line@)).0,
        int_ranges(r.new_ranges@) == spec_inline_ranges(word_diff_changes(old_line@, new_line@)).1,
{
    let old_bytes = old_line.as_bytes();
    let new_bytes = new_line.as_bytes();
    proof {
        assert(old_bytes@.len() == old_bytes.len());
        assert(new_bytes@.len() == new_bytes.len());
    }
    let changes = word_changes(old_line, new_line);
    inline_ranges_from_changes(&changes)
}

/// A block by its deleted and added lines (line number and text).
pub open spec fn block_view(b: Block) -> (Seq<(u32, Seq<char>)>, Seq<(u32, Seq<char>)>) {
    (
        b.old_lines@.map_values(|l: SideLine| (l.lineno, l.content@)),
        b.new_lines@.map_values(|l: SideLine| (l.lineno, l.content@)),
    )
}

/// The line pairs of a block: its deleted and added lines, paired in order
/// (the surplus of the longer side is unpaired).
pub open spec fn block_pairs(b: (Seq<(u32, Seq<char>)>, Seq<(u32, Seq<char>)>)) -> Seq<
    (u32, Seq<char>, u32, Seq<char>),
> {
    let n = if b.0.len() <= b.1.len() {
        b.0.len()
    } else {
        b.1.len()
    };
    Seq::new(n, |i: int| (b.0[i].0, b.0[i].1, b.1[i].0, b.1[i].1))
}

/// The line pairs of all blocks, in order.
pub open spec fn all_pairs(blocks: Seq<(Seq<(u32, Seq<char>)>, Seq<(u32, Seq<char>)>)>) -> Seq<
    (u32, Seq<char>, u32, Seq<char>),
>
    decreases blocks.len(),
{
    if blocks.len() == 0 {
        Seq::empty()
    } else {
        all_pairs(blocks.drop_last()) + block_pairs(blocks.last())
    }
}

/// The views of a list of blocks.
pub open spec fn blocks_view(blocks: Seq<Block>) -> Seq<(Seq<(u32, Seq<char>)>, Seq<(u32, Seq<char>)>)> {
    blocks.map_values(|b: Block| block_view(b))
}

/// The deletions found in `pairs`: each old line with a deleted range, mapped
/// to its paired new line and the ranges; a later pair for the same line wins.
pub open spec fn spec_deletions(pairs: Seq<(u32, Seq<char>, u32, Seq<char>)>) -> Map<
    u32,
    (u32, Seq<(int, int)>),
>
    decreases pairs.len(),
{
    if pairs.len() == 0 {
        Map::empty()
    } else {
        let m = spec_deletions(pairs.drop_last());
        let p = pairs.last();
        let r = spec_inline_ranges(word_diff_changes(p.1, p.3)).0;
        if r.len() > 0 {
            m.insert(p.0, (p.2, r))
        } else {
            m
        }
    }
}

/// The insertions found in `pairs`: each new line with an inserted range,
/// mapped to its paired old line and the ranges; a later pair for the same
/// line wins.
pub open spec fn spec_insertions(pairs: Seq<(u32, Seq<char>, u32, Seq<char>)>) -> Map<
    u32,
    (u32, Seq<(int, int)>),
>
    decreases pairs.len(),
{
    if pairs.len() == 0 {
        Map::empty()
    } else {
        let m = spec_insertions(pairs.drop_last());
        let p = pairs.last();
        let r = spec_inline_ranges(word_diff_changes(p.1, p.3)).1;
        if r.len() > 0 {
            m.insert(p.2, (p.0, r))
        } else {
            m
        }
    }
}

/// Whether the map `m` holds exactly the entries of `s`, ranges as integers.
pub open spec fn ranges_map_matches(
    m: Map<u32, (u32, Vec<(usize, usize)>)>,
    s: Map<u32, (u32, Seq<(int, int)>)>,
) -> bool {
    &&& m.dom() == s.dom()
    &&& forall|k: u32|
        #[trigger] m.contains_key(k) ==> m[k].0 == s[k].0 && int_ranges(m[k].1@) == s[k].1
}

/// The word-level changes of the paired lines of `blocks`.
pub fn compute_word_diff(blocks: &Vec<Block>) -> (r: WordDiffResult)
    ensures
        ranges_map_matches(r.deletions@, spec_deletions(all_pairs(blocks_view(blocks@)))),
        ranges_map_matches(r.insertions@, spec_insertions(all_pairs(blocks_view(blocks@)))),
{
    let mut deletions: BTreeMap<u32, (u32, Vec<(usize, usize)>)> = BTreeMap::new();
    let mut insertions: BTreeMap<u32, (u32, Vec<(usize, usize)>)> = BTreeMap::new();
    let mut b: usize = 0;
    while b < blocks.len()
        invariant
            b <= blocks@.len(),
            ranges_map_matches(
                deletions@,
                spec_deletions(all_pairs(blocks_view(blocks@).take(b as int))),
            ),
            ranges_map_matches(
                insertions@,
                spec_insertions(all_pairs(blocks_view(blocks@).take(b as int))),
            ),
        decreases blocks.len() - b,
    {
        let block = &blocks[b];
        let ghost bvs = blocks_view(blocks@);
        let ghost done = all_pairs(bvs.take(b as int));
        proof {
            assert(bvs.take(b + 1).drop_last() =~= bvs.take(b as int));
            assert(bvs.take(b + 1).last() == block_view(*block));
        }
        let n = if block.old_lines.len() <= block.new_lines.len() {
            block.old_lines.len()
        } else {
            block.new_lines.len()
        };
        let ghost bp = block_pairs(block_view(*block));
        let mut j: usize = 0;
        while j < n
            invariant
                j <= n,
                n == bp.len(),
                bp == block_pairs(block_view(*block)),
                n <= block.old_lines@.len(),
                n <= block.new_lines@.len(),
                ranges_map_matches(deletions@, spec_deletions(done + bp.take(j as int))),
                ranges_map_matches(insertions@, spec_insertions(done + bp.take(j as int))),
            decreases n - j,
        {
            let old_line = &block.old_lines[j];
            let new_line = &block.new_lines[j];
            let ghost pairs_j = done + bp.take(j as int);
            proof {
                assert((done + bp.take(j + 1)).drop_last() =~= pairs_j);
                assert((done + bp.take(j + 1)).last() == bp[j as int]);
            }
            let ranges = compute_inline_diff(old_line.content.as_str(), new_line.content.as_str());
            let ghost od = deletions@;
            let ghost oi = insertions@;
            let ghost sd = spec_deletions(pairs_j);
            let ghost si = spec_insertions(pairs_j);
            let ghost ro = ranges.old_ranges@;
            let ghost rn = ranges.new_ranges@;
            if ranges.old_ranges.len() > 0 {
                deletions.insert(old_line.lineno, (new_line.lineno, ranges.old_ranges));
                proof {
                    let s2 = sd.insert(old_line.lineno, (new_line.lineno, int_ranges(ro)));
                    assert(deletions@.dom() =~= s2.dom());
                    assert forall|k: u32| #[trigger] deletions@.contains_key(k) implies deletions@[k].0
                        == s2[k].0 && int_ranges(deletions@[k].1@) == s2[k].1 by {
                        if k != old_line.lineno {
                            assert(od.contains_key(k));
                        }
                    }
                }
            }
            if ranges.new_ranges.len() > 0 {
                insertions.insert(new_line.lineno, (old_line.lineno, ranges.new_ranges));
                proof {
                    let s2 = si.insert(new_line.lineno, (old_line.lineno, int_ranges(rn)));
                    assert(insertions@.dom() =~= s2.dom());
                    assert forall|k: u32| #[trigger] insertions@.contains_key(k) implies insertions@[k].0
                        == s2[k].0 && int_ranges(insertions@[k].1@) == s2[k].1 by {
                        if k != new_line.lineno {
                            assert(oi.contains_key(k));
                        }
                    }
                }
            }
            j = j + 1;
        }
        proof {
            assert(bp.take(n as int) =~= bp);
            assert(all_pairs(bvs.take(b + 1)) == done + bp);
        }
        b = b + 1;
    }
    proof {
        assert(blocks_view(blocks@).take(b as int) =~= blocks_view(blocks@));
    }
    WordDiffResult { deletions, insertions }
}

} // verus!
