//! Git object ids given as text.

use vstd::prelude::*;

use crate::color::{hex_value, is_hex_digit};
use crate::services::highlight::push_hex2;
use crate::services::review::spec_hex;
use crate::text::string_of;

verus! {

/// Whether `t` is read as an object id: one to forty hexadecimal digits.
pub open spec fn is_oid_text(t: Seq<char>) -> bool {
    &&& 0 < t.len() <= 40
    &&& forall|i: int| 0 <= i < t.len() ==> is_hex_digit(#[trigger] t[i])
}

/// The value of digit `k` of `t`, or zero past its end.
pub open spec fn oid_nibble(t: Seq<char>, k: int) -> int {
    if 0 <= k < t.len() {
        hex_value(t[k]) as int
    } else {
        0
    }
}

/// The twenty bytes of the object id written `t`, missing digits counting
/// as zero.
pub open spec fn spec_oid_bytes(t: Seq<char>) -> Seq<u8> {
    Seq::new(20, |i: int| (oid_nibble(t, 2 * i) * 16 + oid_nibble(t, 2 * i + 1)) as u8)
}

/// The bytes of the object id written `hex`, if it is one.
///
/// Trusted: calls `git2::Oid::from_str`, which (through libgit2's
/// `git_oid_fromstrn`) fails on an empty text, one longer than forty
/// characters or one with a non-hexadecimal character, and otherwise fills
/// the twenty bytes from the digits, two per byte, leaving the rest zero.
/// Claims exactly that.
#[verifier::external_body]
fn parse_oid(hex: &str) -> (r: Option<Vec<u8>>)
    ensures
        r is Some <==> is_oid_text(hex@),
        r matches Some(b) ==> b@ == spec_oid_bytes(hex@),
{
    match git2::Oid::from_str(hex) {
        Ok(oid) => Some(oid.as_bytes().to_vec()),
        Err(_) => None,
    }
}

/// The full lowercase text of the object id written `hex` (as git prints
/// it), if `hex` is one.
pub fn oid_text(hex: &str) -> (r: Option<String>)
    ensures
        r is Some <==> is_oid_text(hex@),
        r matches Some(s) ==> s@ == spec_hex(spec_oid_bytes(hex@)),
        r matches Some(s) ==> s@.len() == 40,
{
    let bytes = match parse_oid(hex) {
        Some(b) => b,
        None => return None,
    };
    let mut out: Vec<char> = Vec::new();
    let mut k: usize = 0;
    while k < bytes.len()
        invariant
            k <= bytes@.len(),
            bytes@.len() == 20,
            out@ == spec_hex(bytes@.take(k as int)),
            out@.len() == 2 * k,
        decreases bytes.len() - k,
    {
        proof {
            assert(bytes@.take(k + 1).drop_last() =~= bytes@.take(k as int));
        }
        push_hex2(&mut out, bytes[k]);
        k = k + 1;
    }
    proof {
        assert(bytes@.take(k as int) =~= bytes@);
    }
    Some(string_of(&out))
}

} // verus!
