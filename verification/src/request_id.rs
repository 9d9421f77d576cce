//! Validated request identifiers.

use vstd::prelude::*;
use vstd::string::StringSliceAdditionalSpecFns;

use crate::text::{ascii_chars, decimal_digits, decimal_string, is_ows, utf8_of};

verus! {

/// ASCII URI-unreserved bytes: `A-Z`, `a-z`, `0-9`, `-`, `.`, `_`, `~`.
pub open spec fn is_unreserved(b: u8) -> bool {
    (0x41 <= b <= 0x5a) || (0x61 <= b <= 0x7a) || (0x30 <= b <= 0x39) || b == 0x2d || b == 0x2e
        || b == 0x5f || b == 0x7e
}

/// The baseline request-ID grammar: 1 to 128 URI-unreserved bytes.
pub open spec fn is_baseline_request_id(s: Seq<u8>) -> bool {
    &&& 1 <= s.len() <= 128
    &&& forall|i: int| 0 <= i < s.len() ==> is_unreserved(#[trigger] s[i])
}

/// Text that an HTTP field can carry exactly: non-empty, no leading or
/// trailing space or tab, and no control byte other than horizontal tab.
pub open spec fn is_native_field_content(s: Seq<u8>) -> bool {
    &&& s.len() > 0
    &&& !is_ows(s[0])
    &&& !is_ows(s.last())
    &&& forall|i: int| 0 <= i < s.len() ==> (#[trigger] s[i] == 0x09 || (s[i] >= 0x20 && s[i] != 0x7f))
}

/// The baseline validation failure that `s` is reported with: emptiness
/// first, then length, then the first byte outside the grammar.
pub open spec fn rejects_with(s: Seq<u8>, error: InvalidRequestId) -> bool {
    match error {
        InvalidRequestId::Empty => s.len() == 0,
        InvalidRequestId::TooLong { length } => s.len() > 128 && length == s.len(),
        InvalidRequestId::InvalidCharacter { index } => {
            &&& 1 <= s.len() <= 128
            &&& index < s.len()
            &&& !is_unreserved(s[index as int])
            &&& forall|k: int| 0 <= k < index ==> is_unreserved(#[trigger] s[k])
        },
    }
}

/// A validated request identifier.
///
/// Values parsed from caller text or generated by the crate contain between 1
/// and [`MAX_LEN`](Self::MAX_LEN) ASCII URI-unreserved bytes. Values admitted by
/// a broader caller policy are still exact native HTTP field content.
#[derive(Debug, PartialEq, Eq, Hash, PartialOrd, Ord)]
pub struct RequestId {
    value: String,
}

impl View for RequestId {
    type V = Seq<u8>;

    closed spec fn view(&self) -> Seq<u8> {
        utf8_of(self.value@)
    }
}

impl Clone for RequestId {
    fn clone(&self) -> (copy: Self)
        ensures
            copy@ == self@,
    {
        proof {
            use_type_invariant(self);
        }
        RequestId { value: self.value.clone() }
    }
}

impl RequestId {
    /// Maximum accepted baseline request-ID length in bytes.
    pub const MAX_LEN: usize = 128;

    #[verifier::type_invariant]
    closed spec fn carries_native_field_content(self) -> bool {
        is_native_field_content(utf8_of(self.value@))
    }

    /// Parses and validates a request identifier against the baseline
    /// grammar.
    ///
    /// Returns the first deterministic baseline validation failure without
    /// retaining or echoing the rejected value.
    pub fn parse(value: &str) -> (parsed: Result<RequestId, InvalidRequestId>)
        ensures
            parsed is Ok <==> is_baseline_request_id(value.spec_bytes()),
            parsed matches Ok(id) ==> id@ == value.spec_bytes(),
            parsed matches Err(e) ==> rejects_with(value.spec_bytes(), e),
    {
        match validate(value) {
            Ok(()) => Ok(RequestId { value: value.to_owned() }),
            Err(e) => Err(e),
        }
    }

    /// Accepts any value that an HTTP field carries exactly, for caller
    /// values admitted by a configured policy broader than the baseline.
    pub(crate) fn from_native_header(value: &str) -> (id: Option<RequestId>)
        ensures
            id is Some <==> is_native_field_content(value.spec_bytes()),
            id matches Some(id) ==> id@ == value.spec_bytes(),
    {
        if native_field_content(value) {
            Some(RequestId { value: value.to_owned() })
        } else {
            None
        }
    }

    /// Returns the validated identifier.
    pub fn as_str(&self) -> (text: &str)
        ensures
            text.spec_bytes() == self@,
            is_native_field_content(self@),
    {
        proof {
            use_type_invariant(self);
        }
        self.value.as_str()
    }
}

/// Lowercase hexadecimal digit character.
pub open spec fn is_lower_hex_char(c: char) -> bool {
    ('0' <= c <= '9') || ('a' <= c <= 'f')
}

/// The shape of the package-owned fallback ID: 32 lowercase hexadecimal
/// digits, which satisfy the baseline grammar.
pub open spec fn is_fallback_shaped(id: Seq<u8>) -> bool {
    &&& is_baseline_request_id(id)
    &&& id.len() == 32
    &&& forall|i: int| 0 <= i < 32 ==> is_lower_hex_char(#[trigger] (id[i] as char))
}

/// `uuid::Uuid::new_v4().simple().to_string()`: 128 random bits rendered in
/// the simple format, which is 32 lowercase hexadecimal digits. Which digits
/// come out is left to the random source.
#[verifier::external_body]
fn random_simple_uuid() -> (text: String)
    ensures
        text@.len() == 32,
        forall|i: int| 0 <= i < 32 ==> is_lower_hex_char(#[trigger] text@[i]),
{
    uuid::Uuid::new_v4().simple().to_string()
}

/// The package-owned fallback: 128 random bits as 32 lowercase hexadecimal
/// characters, which satisfy the baseline grammar.
pub fn random_request_id() -> (id: RequestId)
    ensures
        is_baseline_request_id(id@),
        id@.len() == 32,
        forall|i: int| 0 <= i < 32 ==> is_lower_hex_char(#[trigger] (id@[i] as char)),
        is_fallback_shaped(id@),
{
    let value = random_simple_uuid();
    proof {
        let chars = value@;
        assert(vstd::utf8::is_ascii_chars(chars)) by {
            assert forall|i: int| 0 <= i < chars.len() implies (#[trigger] chars[i] as nat) < 128 by {
                assert(is_lower_hex_char(chars[i]));
            }
        }
        vstd::utf8::is_ascii_chars_encode_utf8(chars);
        let bytes = utf8_of(chars);
        assert(bytes =~= Seq::new(chars.len(), |i| chars.index(i) as u8));
        assert forall|i: int| 0 <= i < 32 implies is_lower_hex_char(#[trigger] (bytes[i] as char)) && is_unreserved(bytes[i]) by {
            assert(is_lower_hex_char(chars[i]));
            assert(bytes[i] == chars[i] as u8);
        }
    }
    RequestId { value }
}

/// True when `value` is exact native HTTP field content.
pub fn native_field_content(value: &str) -> (ok: bool)
    ensures
        ok == is_native_field_content(value.spec_bytes()),
{
    let bytes = value.as_bytes();
    let n = bytes.len();
    if n == 0 || bytes[0] == 0x20u8 || bytes[0] == 0x09u8 || bytes[n - 1] == 0x20u8 || bytes[n
        - 1] == 0x09u8 {
        return false;
    }
    let mut i: usize = 0;
    while i < n
        invariant
            n == bytes@.len(),
            bytes@ == value.spec_bytes(),
            0 <= i <= n,
            forall|k: int| 0 <= k < i ==> (#[trigger] bytes@[k] == 0x09 || (bytes@[k] >= 0x20 && bytes@[k] != 0x7f)),
        decreases n - i,
    {
        let b = bytes[i];
        if !(b == 0x09u8 || (b >= 0x20u8 && b != 0x7fu8)) {
            assert(!(bytes@[i as int] == 0x09 || (bytes@[i as int] >= 0x20 && bytes@[i as int] != 0x7f)));
            return false;
        }
        i = i + 1;
    }
    true
}

fn is_unreserved_byte(b: u8) -> (ok: bool)
    ensures
        ok == is_unreserved(b),
{
    (0x41u8 <= b && b <= 0x5au8) || (0x61u8 <= b && b <= 0x7au8) || (0x30u8 <= b && b <= 0x39u8)
        || b == 0x2du8 || b == 0x2eu8 || b == 0x5fu8 || b == 0x7eu8
}

fn validate(value: &str) -> (checked: Result<(), InvalidRequestId>)
    ensures
        checked is Ok <==> is_baseline_request_id(value.spec_bytes()),
        checked matches Err(e) ==> rejects_with(value.spec_bytes(), e),
{
    let bytes = value.as_bytes();
    let n = bytes.len();
    if n == 0 {
        return Err(InvalidRequestId::Empty);
    }
    if n > RequestId::MAX_LEN {
        return Err(InvalidRequestId::TooLong { length: n });
    }
    let mut i: usize = 0;
    while i < n
        invariant
            n == bytes@.len(),
            bytes@ == value.spec_bytes(),
            1 <= n <= 128,
            0 <= i <= n,
            forall|k: int| 0 <= k < i ==> is_unreserved(#[trigger] bytes@[k]),
        decreases n - i,
    {
        if !is_unreserved_byte(bytes[i]) {
            assert(!is_unreserved(bytes@[i as int]));
            return Err(InvalidRequestId::InvalidCharacter { index: i });
        }
        i = i + 1;
    }
    Ok(())
}

/// Reason a request identifier failed baseline validation.
#[derive(Clone, Copy, Debug, PartialEq, Eq, Structural)]
#[non_exhaustive]
pub enum InvalidRequestId {
    /// The identifier was empty.
    Empty,
    /// The identifier exceeded [`RequestId::MAX_LEN`] bytes.
    TooLong {
        /// Rejected byte length.
        length: usize,
    },
    /// The identifier contained a byte outside the URI-unreserved set.
    InvalidCharacter {
        /// Byte index of the first invalid character.
        index: usize,
    },
}

/// The stable, redacted message for a validation failure.
pub open spec fn invalid_request_id_message(error: InvalidRequestId) -> Seq<char> {
    match error {
        InvalidRequestId::Empty => "request ID must not be empty"@,
        InvalidRequestId::TooLong { length } => "request ID length "@ + ascii_chars(
            decimal_digits(length as nat),
        ) + " exceeds 128 bytes"@,
        InvalidRequestId::InvalidCharacter { index } => "request ID contains an invalid character at byte index "@
            + ascii_chars(decimal_digits(index as nat)),
    }
}

/// Byte `index` of `s` is its first byte outside the baseline grammar.
pub open spec fn first_invalid_at(s: Seq<u8>, index: int) -> bool {
    &&& 0 <= index < s.len()
    &&& !is_unreserved(s[index])
    &&& forall|k: int| 0 <= k < index ==> is_unreserved(#[trigger] s[k])
}

/// A rejection depends only on the value's length and on where its first
/// byte outside the grammar is, and its message only on the rejection: two
/// values that agree on those get the same error and the same message.
pub proof fn law_rejection_depends_on_length_and_first_invalid_byte(
    s1: Seq<u8>,
    s2: Seq<u8>,
    e1: InvalidRequestId,
    e2: InvalidRequestId,
)
    requires
        rejects_with(s1, e1),
        rejects_with(s2, e2),
        s1.len() == s2.len(),
        forall|i: int| #[trigger] first_invalid_at(s1, i) <==> first_invalid_at(s2, i),
    ensures
        e1 == e2,
        invalid_request_id_message(e1) == invalid_request_id_message(e2),
{
    match e1 {
        InvalidRequestId::InvalidCharacter { index } => {
            assert(first_invalid_at(s1, index as int));
            assert(first_invalid_at(s2, index as int));
            match e2 {
                InvalidRequestId::InvalidCharacter { index: other } => {
                    if other < index {
                        assert(is_unreserved(s2[other as int]));
                    } else if other > index {
                        assert(is_unreserved(s2[index as int]));
                    }
                },
                _ => {},
            }
        },
        _ => {},
    }
}

impl InvalidRequestId {
    /// Renders the stable, redacted message; it never contains the rejected
    /// value.
    pub fn to_string(&self) -> (message: String)
        ensures
            message@ == invalid_request_id_message(*self),
    {
        match self {
            InvalidRequestId::Empty => String::from_str("request ID must not be empty"),
            InvalidRequestId::TooLong { length } => {
                let mut message = String::from_str("request ID length ");
                let digits = decimal_string(*length as u64);
                message.append(digits.as_str());
                message.append(" exceeds 128 bytes");
                message
            },
            InvalidRequestId::InvalidCharacter { index } => {
                let mut message = String::from_str(
                    "request ID contains an invalid character at byte index ",
                );
                let digits = decimal_string(*index as u64);
                message.append(digits.as_str());
                message
            },
        }
    }
}

impl std::str::FromStr for RequestId {
    type Err = InvalidRequestId;

    fn from_str(value: &str) -> (parsed: Result<Self, Self::Err>)
        ensures
            parsed is Ok <==> is_baseline_request_id(value.spec_bytes()),
            parsed matches Ok(id) ==> id@ == value.spec_bytes(),
            parsed matches Err(e) ==> rejects_with(value.spec_bytes(), e),
    {
        RequestId::parse(value)
    }
}

impl TryFrom<&str> for RequestId {
    type Error = InvalidRequestId;

    fn try_from(value: &str) -> (parsed: Result<Self, Self::Error>)
        ensures
            parsed is Ok <==> is_baseline_request_id(value.spec_bytes()),
            parsed matches Ok(id) ==> id@ == value.spec_bytes(),
            parsed matches Err(e) ==> rejects_with(value.spec_bytes(), e),
    {
        RequestId::parse(value)
    }
}

impl TryFrom<String> for RequestId {
    type Error = InvalidRequestId;

    fn try_from(value: String) -> (parsed: Result<Self, Self::Error>)
        ensures
            parsed is Ok <==> is_baseline_request_id(utf8_of(value@)),
            parsed matches Ok(id) ==> id@ == utf8_of(value@),
            parsed matches Err(e) ==> rejects_with(utf8_of(value@), e),
    {
        RequestId::parse(value.as_str())
    }
}

// The contract of the conversions is the one of `RequestId::parse`; the
// trait-level specification is left unclaimed.
impl vstd::std_specs::convert::TryFromSpecImpl<&str> for RequestId {
    open spec fn obeys_try_from_spec() -> bool {
        false
    }

    open spec fn try_from_spec(value: &str) -> Result<Self, InvalidRequestId> {
        Err(InvalidRequestId::Empty)
    }
}

impl vstd::std_specs::convert::TryFromSpecImpl<String> for RequestId {
    open spec fn obeys_try_from_spec() -> bool {
        false
    }

    open spec fn try_from_spec(value: String) -> Result<Self, InvalidRequestId> {
        Err(InvalidRequestId::Empty)
    }
}

impl AsRef<str> for RequestId {
    fn as_ref(&self) -> (text: &str)
        ensures
            text.spec_bytes() == self@,
    {
        self.as_str()
    }
}

} // verus!
