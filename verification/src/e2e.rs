//! The decisions of the end-to-end consumer server: which configuration a
//! case name selects, which port it listens on, and which requests carry the
//! expected bearer token.

use vstd::prelude::*;
use vstd::string::StrSliceExecFns;

use crate::text::str_equal;
use crate::{FieldConvention, TraceContextLevel};

verus! {

/// The configurations the consumer server can be started with.
#[derive(Clone, Copy, Debug, PartialEq, Eq, Structural)]
pub enum E2eCase {
    /// Generic fields, W3C Trace Context Level 1.
    CommonLevel1,
    /// Generic fields, W3C Trace Context Level 2.
    CommonLevel2,
    /// AWS fields, Level 1.
    AwsLevel1,
    /// Azure fields, Level 1.
    AzureLevel1,
    /// Google Cloud fields with a nested access enrichment, Level 1.
    GcpLevel1,
}

/// The case a name selects.
pub open spec fn case_named(name: Seq<char>) -> Option<E2eCase> {
    if name == "common_level1"@ {
        Some(E2eCase::CommonLevel1)
    } else if name == "common_level2"@ {
        Some(E2eCase::CommonLevel2)
    } else if name == "aws_level1"@ {
        Some(E2eCase::AwsLevel1)
    } else if name == "azure_level1"@ {
        Some(E2eCase::AzureLevel1)
    } else if name == "gcp_level1"@ {
        Some(E2eCase::GcpLevel1)
    } else {
        None
    }
}

impl E2eCase {
    /// Selects a case by its exact name.
    pub fn parse(name: &str) -> (case: Option<E2eCase>)
        ensures
            case == case_named(name@),
    {
        if str_equal(name, "common_level1") {
            Some(E2eCase::CommonLevel1)
        } else if str_equal(name, "common_level2") {
            Some(E2eCase::CommonLevel2)
        } else if str_equal(name, "aws_level1") {
            Some(E2eCase::AwsLevel1)
        } else if str_equal(name, "azure_level1") {
            Some(E2eCase::AzureLevel1)
        } else if str_equal(name, "gcp_level1") {
            Some(E2eCase::GcpLevel1)
        } else {
            None
        }
    }

    /// The Trace Context level of the case.
    pub fn trace_context_level(self) -> (level: TraceContextLevel)
        ensures
            level == (if self == E2eCase::CommonLevel2 {
                TraceContextLevel::Level2
            } else {
                TraceContextLevel::Level1
            }),
    {
        match self {
            E2eCase::CommonLevel2 => TraceContextLevel::Level2,
            _ => TraceContextLevel::Level1,
        }
    }

    /// The field convention of the case.
    pub fn field_convention(self) -> (convention: FieldConvention)
        ensures
            convention == (match self {
                E2eCase::AwsLevel1 => FieldConvention::Aws,
                E2eCase::AzureLevel1 => FieldConvention::Azure,
                E2eCase::GcpLevel1 => FieldConvention::Gcp,
                _ => FieldConvention::Generic,
            }),
    {
        match self {
            E2eCase::AwsLevel1 => FieldConvention::Aws,
            E2eCase::AzureLevel1 => FieldConvention::Azure,
            E2eCase::GcpLevel1 => FieldConvention::Gcp,
            _ => FieldConvention::Generic,
        }
    }

    /// Whether the case adds the nested access enrichment.
    pub fn enriches_access(self) -> (enriches: bool)
        ensures
            enriches == (self == E2eCase::GcpLevel1),
    {
        match self {
            E2eCase::GcpLevel1 => true,
            _ => false,
        }
    }
}

/// The value of decimal digits.
pub open spec fn digits_value(digits: Seq<char>) -> nat
    decreases digits.len(),
{
    if digits.len() == 0 {
        0
    } else {
        digits_value(digits.drop_last()) * 10 + (digits.last() as nat - '0' as nat) as nat
    }
}

/// An ASCII decimal digit.
pub open spec fn is_digit_char(c: char) -> bool {
    '0' <= c <= '9'
}

/// Every character is a decimal digit.
pub open spec fn all_digits(text: Seq<char>) -> bool {
    forall|i: int| 0 <= i < text.len() ==> is_digit_char(#[trigger] text[i])
}

/// The digits of an unsigned number: the text after an optional `+` sign.
pub open spec fn unsigned_digits(text: Seq<char>) -> Seq<char> {
    if text.len() > 0 && text[0] == '+' {
        text.drop_first()
    } else {
        text
    }
}

/// `str::parse::<u16>`: an optional `+` sign, then one or more decimal
/// digits whose value fits in 16 bits.
pub open spec fn parsed_u16(text: Seq<char>) -> Option<u16> {
    let digits = unsigned_digits(text);
    if digits.len() > 0 && all_digits(digits) && digits_value(digits) <= 65535 {
        Some(digits_value(digits) as u16)
    } else {
        None
    }
}

proof fn lemma_digits_value_grows(digits: Seq<char>, k: int)
    requires
        0 <= k <= digits.len(),
        all_digits(digits),
    ensures
        digits_value(digits.take(k)) <= digits_value(digits),
    decreases digits.len() - k,
{
    if k < digits.len() {
        lemma_digits_value_grows(digits, k + 1);
        assert(digits.take(k + 1).drop_last() =~= digits.take(k));
    } else {
        assert(digits.take(k) =~= digits);
    }
}

/// Parses a decimal `u16` as `str::parse` does.
pub fn parse_u16(text: &str) -> (value: Option<u16>)
    ensures
        value == parsed_u16(text@),
{
    let n = text.unicode_len();
    let start: usize = if n > 0 && text.get_char(0) == '+' {
        1
    } else {
        0
    };
    let ghost digits = unsigned_digits(text@);
    if start >= n {
        return None;
    }
    let mut value: u32 = 0;
    let mut i = start;
    while i < n
        invariant
            n == text@.len(),
            start <= i <= n,
            start == text@.len() - digits.len(),
            digits == unsigned_digits(text@),
            digits == text@.subrange(start as int, n as int),
            forall|k: int| 0 <= k < i - start ==> is_digit_char(#[trigger] digits[k]),
            value == digits_value(digits.take(i - start)),
            value <= 65535,
        decreases n - i,
    {
        let c = text.get_char(i);
        assert(digits[i - start] == c);
        if !('0' <= c && c <= '9') {
            assert(!is_digit_char(digits[i - start]));
            assert(!all_digits(digits));
            return None;
        }
        let digit = (c as u32) - ('0' as u32);
        let next = value * 10 + digit;
        proof {
            assert(digits.take(i + 1 - start).drop_last() =~= digits.take(i - start));
            assert(digits.take(i + 1 - start).last() == c);
            assert(digits_value(digits.take(i + 1 - start)) == next);
        }
        if next > 65535 {
            proof {
                if all_digits(digits) {
                    lemma_digits_value_grows(digits, i + 1 - start);
                }
            }
            return None;
        }
        value = next;
        i = i + 1;
    }
    assert(digits.take(n - start) =~= digits);
    Some(value as u16)
}

/// Why a configured port is refused.
#[derive(Clone, Copy, Debug, PartialEq, Eq, Structural)]
pub enum PortError {
    /// The text is not a 16-bit decimal number.
    Invalid,
    /// Port zero does not name a listening port.
    Zero,
}

/// Reads the listening port: a 16-bit decimal number other than zero.
pub fn parse_port(raw: &str) -> (port: Result<u16, PortError>)
    ensures
        port == (match parsed_u16(raw@) {
            None => Err(PortError::Invalid),
            Some(p) => if p == 0 {
                Err(PortError::Zero)
            } else {
                Ok(p)
            },
        }),
{
    match parse_u16(raw) {
        None => Err(PortError::Invalid),
        Some(p) => if p == 0 {
            Err(PortError::Zero)
        } else {
            Ok(p)
        },
    }
}

/// True when an `Authorization` value is exactly `Bearer ` followed by the
/// expected token.
pub fn bearer_matches(authorization: &str, token: &str) -> (matches: bool)
    ensures
        matches == (authorization@ == "Bearer "@ + token@),
{
    let mut expected = String::from_str("Bearer ");
    expected.append(token);
    str_equal(authorization, expected.as_str())
}

} // verus!
