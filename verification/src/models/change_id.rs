use vstd::prelude::*;
use vstd::string::StringSliceAdditionalSpecFns;
use vstd::utf8::*;

use crate::text::{push_str, str_from_utf8, string_of};

verus! {

broadcast use {vstd::utf8::encode_utf8_valid_utf8, vstd::utf8::encode_utf8_decode_utf8};

/// A string that is not a valid change id (not 32 bytes long).
#[derive(Debug)]
pub struct InvalidChangeIdError {
    received: String,
}

impl InvalidChangeIdError {
    /// The rejected text.
    pub fn received(&self) -> (r: &str)
        ensures
            r@ == self.spec_received(),
    {
        self.received.as_str()
    }

    pub closed spec fn spec_received(&self) -> Seq<char> {
        self.received@
    }

    /// The error's message, as shown to the user.
    pub fn message(&self) -> (r: String)
        ensures
            r@ == invalid_change_id_message(self.spec_received()),
    {
        let mut buf: Vec<char> = Vec::new();
        push_str(&mut buf, "Invalid ChangeId: expected a 32-character string, got '");
        push_str(&mut buf, self.received.as_str());
        push_str(&mut buf, "'");
        string_of(&buf)
    }
}

/// The message of the error for the rejected text `received`.
pub open spec fn invalid_change_id_message(received: Seq<char>) -> Seq<char> {
    "Invalid ChangeId: expected a 32-character string, got '"@ + received + "'"@
}

/// Whether `t` can be a change id: exactly 32 bytes once encoded as UTF-8.
pub open spec fn is_change_id_text(t: Seq<char>) -> bool {
    encode_utf8(t).len() == 32
}

/// A jj change id: exactly 32 bytes of UTF-8 text.
#[derive(Clone, Copy, Debug, PartialEq, Eq, Hash)]
pub struct ChangeId([u8; 32]);

impl View for ChangeId {
    type V = Seq<u8>;

    closed spec fn view(&self) -> Seq<u8> {
        self.0@
    }
}

impl ChangeId {
    #[verifier::type_invariant]
    closed spec fn wf(self) -> bool {
        valid_utf8(self.0@)
    }

    /// The text of the id.
    pub open spec fn spec_text(self) -> Seq<char> {
        decode_utf8(self@)
    }

    /// Parses a change id: exactly 32 bytes of text.
    pub fn parse(value: &str) -> (r: Result<ChangeId, InvalidChangeIdError>)
        ensures
            r is Ok <==> value.spec_bytes().len() == 32,
            r matches Ok(id) ==> id@ == value.spec_bytes() && id.spec_text() == value@,
            r matches Err(e) ==> e.spec_received() == value@,
    {
        let bytes = value.as_bytes();
        if bytes.len() != 32 {
            return Err(InvalidChangeIdError { received: value.to_owned() });
        }
        let mut arr = [0u8; 32];
        let mut i: usize = 0;
        while i < 32
            invariant
                bytes@ == value.spec_bytes(),
                bytes.len() == 32,
                i <= 32,
                forall|j: int| 0 <= j < i ==> arr@[j] == bytes@[j],
            decreases 32 - i,
        {
            arr[i] = bytes[i];
            i = i + 1;
        }
        assert(arr@ =~= bytes@);
        Ok(ChangeId(arr))
    }

    /// The id as an owned string.
    pub fn to_string(&self) -> (s: String)
        ensures
            s@ == self.spec_text(),
    {
        proof {
            use_type_invariant(self);
        }
        str_from_utf8(self.0.as_slice()).to_owned()
    }
}

impl<'a> TryFrom<&'a str> for ChangeId {
    type Error = InvalidChangeIdError;

    fn try_from(value: &'a str) -> (r: Result<ChangeId, InvalidChangeIdError>)
        ensures
            r is Ok <==> value.spec_bytes().len() == 32,
            r matches Ok(id) ==> id@ == value.spec_bytes() && id.spec_text() == value@,
            r matches Err(e) ==> e.spec_received() == value@,
    {
        ChangeId::parse(value)
    }
}

impl<'a> vstd::std_specs::convert::TryFromSpecImpl<&'a str> for ChangeId {
    open spec fn obeys_try_from_spec() -> bool {
        false
    }

    /// Unused: `obeys_try_from_spec` is false, and `try_from` states its
    /// result in its own `ensures`.
    closed spec fn try_from_spec(v: &'a str) -> Result<ChangeId, InvalidChangeIdError> {
        vstd::pervasive::arbitrary()
    }
}

} // verus!
