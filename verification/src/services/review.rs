//! Content ids of file patches, so that a reviewed change can be recognized
//! after a rebase.

use sha1::Digest;
use vstd::prelude::*;
use vstd::utf8::encode_utf8;

use crate::models::git::PatchId;
use crate::services::diff::{HunkData, HunkLine, LineOrigin};
use crate::services::highlight::{push_hex2, spec_hex2};
use crate::text::{spec_trim_end, str_chars, string_of, sub_chars, trim_end_at};

verus! {

/// What SHA-1 gives for `data`: its digest.
pub uninterp spec fn sha1_digest(data: Seq<u8>) -> Seq<u8>;

/// The SHA-1 digest of `data`.
///
/// Trusted: hashes `data` with `sha1::Sha1` (`Digest::update` then
/// `finalize`); claims the result is `sha1_digest(data)`, 20 bytes long.
#[verifier::external_body]
fn sha1(data: &[u8]) -> (r: Vec<u8>)
    ensures
        r@ == sha1_digest(data@),
        r@.len() == 20,
{
    let mut hasher = sha1::Sha1::new();
    hasher.update(data);
    hasher.finalize().to_vec()
}

/// The bytes a patch line adds to the hashed text: for an added or deleted
/// line, its sign, its text without trailing white space, and a newline;
/// nothing for other lines.
pub open spec fn spec_line_bytes(l: HunkLine) -> Seq<u8> {
    let c = l.content@;
    let trimmed = c.subrange(0, spec_trim_end(c, 0, c.len() as int));
    match l.origin {
        LineOrigin::Addition => seq!['+' as u8] + encode_utf8(trimmed) + seq!['\n' as u8],
        LineOrigin::Deletion => seq!['-' as u8] + encode_utf8(trimmed) + seq!['\n' as u8],
        _ => Seq::empty(),
    }
}

/// The hashed text of a list of lines.
pub open spec fn spec_lines_bytes(lines: Seq<HunkLine>) -> Seq<u8>
    decreases lines.len(),
{
    if lines.len() == 0 {
        Seq::empty()
    } else {
        spec_lines_bytes(lines.drop_last()) + spec_line_bytes(lines.last())
    }
}

/// The hashed text of a patch: that of its hunks' lines, in order.
pub open spec fn spec_patch_bytes(hunks: Seq<HunkData>) -> Seq<u8>
    decreases hunks.len(),
{
    if hunks.len() == 0 {
        Seq::empty()
    } else {
        spec_patch_bytes(hunks.drop_last()) + spec_lines_bytes(hunks.last().lines@)
    }
}

/// The text of a line without trailing white space.
pub open spec fn spec_trimmed_end(c: Seq<char>) -> Seq<char> {
    c.subrange(0, spec_trim_end(c, 0, c.len() as int))
}

/// The added and deleted lines of `lines`, in order, each as its kind and
/// its text without trailing white space.
pub open spec fn spec_changed_lines(lines: Seq<HunkLine>) -> Seq<(LineOrigin, Seq<char>)>
    decreases lines.len(),
{
    if lines.len() == 0 {
        Seq::empty()
    } else {
        let l = lines.last();
        let prev = spec_changed_lines(lines.drop_last());
        if l.origin == LineOrigin::Addition || l.origin == LineOrigin::Deletion {
            prev.push((l.origin, spec_trimmed_end(l.content@)))
        } else {
            prev
        }
    }
}

/// All lines of a patch's hunks, in order.
pub open spec fn spec_patch_lines(hunks: Seq<HunkData>) -> Seq<HunkLine>
    decreases hunks.len(),
{
    if hunks.len() == 0 {
        Seq::empty()
    } else {
        spec_patch_lines(hunks.drop_last()) + hunks.last().lines@
    }
}

/// The lowercase hexadecimal text of a byte string.
pub open spec fn spec_hex(bytes: Seq<u8>) -> Seq<char>
    decreases bytes.len(),
{
    if bytes.len() == 0 {
        Seq::empty()
    } else {
        spec_hex(bytes.drop_last()) + spec_hex2(bytes.last())
    }
}

/// Appends the bytes of a line to `buf`.
fn push_line_bytes(buf: &mut Vec<u8>, l: &HunkLine)
    ensures
        final(buf)@ == old(buf)@ + spec_line_bytes(*l),
{
    let sign: u8 = match l.origin {
        LineOrigin::Addition => '+' as u8,
        LineOrigin::Deletion => '-' as u8,
        _ => {
            proof {
                assert(old(buf)@ + spec_line_bytes(*l) =~= old(buf)@);
            }
            return;
        },
    };
    let chars = str_chars(l.content.as_str());
    let e = trim_end_at(&chars, 0, chars.len());
    let trimmed = string_of(&sub_chars(&chars, 0, e));
    let bytes = trimmed.as_str().as_bytes();
    buf.push(sign);
    let ghost mid = buf@;
    let mut i: usize = 0;
    while i < bytes.len()
        invariant
            i <= bytes@.len(),
            buf@ == mid + bytes@.subrange(0, i as int),
        decreases bytes.len() - i,
    {
        buf.push(bytes[i]);
        i = i + 1;
        proof {
            assert(buf@ =~= mid + bytes@.subrange(0, i as int));
        }
    }
    buf.push('\n' as u8);
    proof {
        assert(bytes@.subrange(0, bytes@.len() as int) =~= bytes@);
        assert(final(buf)@ =~= old(buf)@ + spec_line_bytes(*l));
    }
}

/// The patch id of a file patch: the SHA-1, in lowercase hexadecimal, of its
/// added and deleted lines, each as its sign, its text without trailing
/// white space and a newline (context lines are left out).
pub fn compute_file_patch_id(hunks: &Vec<HunkData>) -> (r: PatchId)
    ensures
        r@ == spec_hex(sha1_digest(spec_patch_bytes(hunks@))),
        r@.len() == 40,
{
    let mut data: Vec<u8> = Vec::new();
    let mut h: usize = 0;
    while h < hunks.len()
        invariant
            h <= hunks@.len(),
            data@ == spec_patch_bytes(hunks@.take(h as int)),
        decreases hunks.len() - h,
    {
        let lines = &hunks[h].lines;
        let ghost before = data@;
        proof {
            assert(hunks@.take(h + 1).drop_last() =~= hunks@.take(h as int));
            assert(hunks@.take(h + 1).last() == hunks@[h as int]);
        }
        let mut i: usize = 0;
        while i < lines.len()
            invariant
                i <= lines@.len(),
                data@ == before + spec_lines_bytes(lines@.take(i as int)),
            decreases lines.len() - i,
        {
            proof {
                assert(lines@.take(i + 1).drop_last() =~= lines@.take(i as int));
                assert(lines@.take(i + 1).last() == lines@[i as int]);
            }
            push_line_bytes(&mut data, &lines[i]);
            i = i + 1;
            proof {
                assert(data@ =~= before + spec_lines_bytes(lines@.take(i as int)));
            }
        }
        proof {
            assert(lines@.take(i as int) =~= lines@);
        }
        h = h + 1;
    }
    proof {
        assert(hunks@.take(h as int) =~= hunks@);
    }
    let digest = sha1(data.as_slice());
    let mut hex: Vec<char> = Vec::new();
    let mut k: usize = 0;
    while k < digest.len()
        invariant
            k <= digest@.len(),
            digest@.len() == 20,
            hex@ == spec_hex(digest@.take(k as int)),
            hex@.len() == 2 * k,
        decreases digest.len() - k,
    {
        proof {
            assert(digest@.take(k + 1).drop_last() =~= digest@.take(k as int));
        }
        push_hex2(&mut hex, digest[k]);
        k = k + 1;
    }
    proof {
        assert(digest@.take(k as int) =~= digest@);
    }
    PatchId::from(string_of(&hex))
}

} // verus!
