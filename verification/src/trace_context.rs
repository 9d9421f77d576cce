//! Strict W3C `traceparent` and `tracestate` parsing.

use vstd::prelude::*;
use vstd::string::StringSliceAdditionalSpecFns;

use crate::context::{TraceContext, TraceContextView};
use crate::text::{
    all_ascii, ascii_string, bytes_equal, is_ows, join_bytes, join_slices, join_with,
    lemma_join_ascii, lemma_join_groups, lemma_join_split, lemma_split_join, lemma_split_on_no_sep,
    lemma_split_on_nonempty,
    lemma_split_on_parts_free, lemma_trim_ows_from_input, lemma_trim_ows_untrimmed, split_bytes,
    split_on, trim_ows, trim_ows_bytes, utf8_of,
};
use crate::TraceContextLevel;

verus! {

// ---------------------------------------------------------------------------
// traceparent
// ---------------------------------------------------------------------------

/// Lowercase hexadecimal digit.
pub open spec fn lower_hex_digit(b: u8) -> bool {
    (0x30 <= b <= 0x39) || (0x61 <= b <= 0x66)
}

/// Value of a lowercase hexadecimal digit.
pub open spec fn hex_value(b: u8) -> nat {
    if 0x30 <= b <= 0x39 {
        (b - 0x30) as nat
    } else if 0x61 <= b <= 0x66 {
        (b - 0x61 + 10) as nat
    } else {
        0
    }
}

/// The byte that two hexadecimal digits denote.
pub open spec fn hex_pair_value(high: u8, low: u8) -> u8 {
    (hex_value(high) * 16 + hex_value(low)) as u8
}

/// Bytes `lo..hi` of `s` are lowercase hexadecimal digits.
pub open spec fn lower_hex_span(s: Seq<u8>, lo: int, hi: int) -> bool {
    forall|i: int| lo <= i < hi ==> lower_hex_digit(#[trigger] s[i])
}

/// Bytes `lo..hi` of `s` are all the digit zero.
pub open spec fn zero_span(s: Seq<u8>, lo: int, hi: int) -> bool {
    forall|i: int| lo <= i < hi ==> #[trigger] s[i] == 0x30
}

/// Bytes a native HTTP field can carry: anything but controls other than
/// horizontal tab, and DEL.
pub open spec fn is_field_safe(b: u8) -> bool {
    !((b < 0x20 && b != 0x09) || b == 0x7f)
}

/// The strict `traceparent` grammar: `version-traceid-parentid-flags` in
/// lowercase hexadecimal, with nonzero identifiers and a version other than
/// `ff`. Version `00` has exactly 55 bytes; higher versions may continue after
/// a `-` delimiter with opaque field-safe bytes.
pub open spec fn is_valid_traceparent(s: Seq<u8>) -> bool {
    &&& s.len() >= 55
    &&& forall|i: int| 0 <= i < s.len() ==> is_field_safe(#[trigger] s[i])
    &&& s[2] == 0x2d && s[35] == 0x2d && s[52] == 0x2d
    &&& lower_hex_span(s, 0, 2)
    &&& lower_hex_span(s, 3, 35)
    &&& lower_hex_span(s, 36, 52)
    &&& lower_hex_span(s, 53, 55)
    &&& !(s[0] == 0x66 && s[1] == 0x66)
    &&& !zero_span(s, 3, 35)
    &&& !zero_span(s, 36, 52)
    &&& if s[0] == 0x30 && s[1] == 0x30 {
        s.len() == 55
    } else {
        s.len() == 55 || s[55] == 0x2d
    }
}

/// The trace context that an accepted `traceparent` denotes.
pub open spec fn traceparent_view(s: Seq<u8>, level: TraceContextLevel) -> TraceContextView {
    TraceContextView {
        version: hex_pair_value(s[0], s[1]),
        trace_id: s.subrange(3, 35),
        parent_id: s.subrange(36, 52),
        flags: hex_pair_value(s[53], s[54]),
        level,
        traceparent: s,
        tracestate: None,
    }
}

fn is_lower_hex(value: &[u8]) -> (ok: bool)
    ensures
        ok == lower_hex_span(value@, 0, value@.len() as int),
{
    let mut i: usize = 0;
    while i < value.len()
        invariant
            0 <= i <= value@.len(),
            lower_hex_span(value@, 0, i as int),
        decreases value@.len() - i,
    {
        let b = value[i];
        if !((0x30u8 <= b && b <= 0x39u8) || (0x61u8 <= b && b <= 0x66u8)) {
            assert(!lower_hex_digit(value@[i as int]));
            return false;
        }
        i = i + 1;
    }
    true
}

/// `s[lo..hi]` is lowercase hexadecimal.
fn is_lower_hex_at(s: &[u8], lo: usize, hi: usize) -> (ok: bool)
    requires
        lo <= hi <= s@.len(),
    ensures
        ok == lower_hex_span(s@, lo as int, hi as int),
{
    let ok = is_lower_hex(&s[lo..hi]);
    proof {
        let sub = s@.subrange(lo as int, hi as int);
        if ok {
            assert forall|i: int| lo <= i < hi implies lower_hex_digit(#[trigger] s@[i]) by {
                assert(s@[i] == sub[i - lo]);
            }
        } else {
            let k = choose|k: int| 0 <= k < sub.len() && !lower_hex_digit(#[trigger] sub[k]);
            assert(s@[k + lo] == sub[k]);
        }
    }
    ok
}

fn is_zero_span(s: &[u8], lo: usize, hi: usize) -> (ok: bool)
    requires
        lo <= hi <= s@.len(),
    ensures
        ok == zero_span(s@, lo as int, hi as int),
{
    let mut i = lo;
    while i < hi
        invariant
            lo <= i <= hi <= s@.len(),
            zero_span(s@, lo as int, i as int),
        decreases hi - i,
    {
        if s[i] != 0x30u8 {
            assert(s@[i as int] != 0x30);
            return false;
        }
        i = i + 1;
    }
    true
}

fn all_field_safe(s: &[u8]) -> (ok: bool)
    ensures
        ok == forall|i: int| 0 <= i < s@.len() ==> is_field_safe(#[trigger] s@[i]),
{
    let mut i: usize = 0;
    while i < s.len()
        invariant
            0 <= i <= s@.len(),
            forall|k: int| 0 <= k < i ==> is_field_safe(#[trigger] s@[k]),
        decreases s@.len() - i,
    {
        let b = s[i];
        if (b < 0x20u8 && b != 0x09u8) || b == 0x7fu8 {
            assert(!is_field_safe(s@[i as int]));
            return false;
        }
        i = i + 1;
    }
    true
}

fn hex_nibble(b: u8) -> (value: u8)
    ensures
        value == hex_value(b),
        value < 16,
{
    if 0x30u8 <= b && b <= 0x39u8 {
        b - 0x30u8
    } else if 0x61u8 <= b && b <= 0x66u8 {
        b - 0x61u8 + 10
    } else {
        0
    }
}

fn decode_hex_byte(high: u8, low: u8) -> (value: u8)
    ensures
        value == hex_pair_value(high, low),
{
    let h = hex_nibble(high);
    let l = hex_nibble(low);
    assert((h << 4u8) | l == h * 16 + l) by (bit_vector)
        requires
            h < 16,
            l < 16,
    ;
    (h << 4u8) | l
}

/// Parses one W3C `traceparent` value for the selected Trace Context level.
pub fn parse_traceparent_with_level(value: &[u8], level: TraceContextLevel) -> (trace: Option<
    TraceContext,
>)
    ensures
        trace is Some <==> is_valid_traceparent(value@),
        trace matches Some(t) ==> t@ == traceparent_view(value@, level),
{
    let s = value;
    if s.len() < 55 || !all_field_safe(s) || s[2] != 0x2du8 || s[35] != 0x2du8 || s[52] != 0x2du8
        || !is_lower_hex_at(s, 0, 2) || !is_lower_hex_at(s, 3, 35) || !is_lower_hex_at(
        s,
        36,
        52,
    ) || !is_lower_hex_at(s, 53, 55) || (s[0] == 0x66u8 && s[1] == 0x66u8) || is_zero_span(
        s,
        3,
        35,
    ) || is_zero_span(s, 36, 52) {
        return None;
    }
    if s[0] == 0x30u8 && s[1] == 0x30u8 {
        if s.len() != 55 {
            return None;
        }
    } else if s.len() > 55 && s[55] != 0x2du8 {
        return None;
    }
    let version = decode_hex_byte(s[0], s[1]);
    let flags = decode_hex_byte(s[53], s[54]);
    proof {
        assert forall|i: int| 0 <= i < 32 implies (#[trigger] s@.subrange(3, 35)[i]) < 0x80u8 by {
            assert(lower_hex_digit(s@[i + 3]));
        }
        assert forall|i: int| 0 <= i < 16 implies (#[trigger] s@.subrange(36, 52)[i]) < 0x80u8 by {
            assert(lower_hex_digit(s@[i + 36]));
        }
    }
    let trace_id = ascii_string(&s[3..35]);
    let parent_id = ascii_string(&s[36..52]);
    let raw = vstd::slice::slice_to_vec(s);
    Some(TraceContext::new(version, trace_id, parent_id, flags, level, raw))
}

/// The lowercase hexadecimal digit of a value below 16.
pub open spec fn hex_digit_byte(n: nat) -> u8 {
    if n < 10 {
        (0x30 + n) as u8
    } else {
        (0x61 + n - 10) as u8
    }
}

/// The two lowercase hexadecimal digits of a byte.
pub open spec fn hex_byte(b: u8) -> Seq<u8> {
    seq![hex_digit_byte((b / 16) as nat), hex_digit_byte((b % 16) as nat)]
}

/// Bytes in lowercase hexadecimal, two digits per byte.
pub open spec fn lower_hex(bytes: Seq<u8>) -> Seq<u8>
    decreases bytes.len(),
{
    if bytes.len() == 0 {
        Seq::<u8>::empty()
    } else {
        lower_hex(bytes.drop_last()) + hex_byte(bytes.last())
    }
}

/// The version `00` `traceparent` of a trace ID, a parent ID and flags.
pub open spec fn encoded_traceparent(trace_id: Seq<u8>, parent_id: Seq<u8>, flags: u8) -> Seq<
    u8,
> {
    seq![0x30u8, 0x30u8, 0x2du8] + lower_hex(trace_id) + seq![0x2du8] + lower_hex(parent_id)
        + seq![0x2du8] + hex_byte(flags)
}

proof fn lemma_hex_digit(n: nat)
    requires
        n < 16,
    ensures
        lower_hex_digit(hex_digit_byte(n)),
        hex_value(hex_digit_byte(n)) == n,
        hex_digit_byte(n) == 0x30 <==> n == 0,
{
}

proof fn lemma_hex_byte_value(b: u8)
    ensures
        hex_pair_value(hex_byte(b)[0], hex_byte(b)[1]) == b,
{
    lemma_hex_digit((b / 16) as nat);
    lemma_hex_digit((b % 16) as nat);
}

proof fn lemma_lower_hex(bytes: Seq<u8>)
    ensures
        lower_hex(bytes).len() == 2 * bytes.len(),
        forall|k: int|
            0 <= k < bytes.len() ==> lower_hex(bytes)[2 * k] == hex_digit_byte(
                (#[trigger] bytes[k] / 16) as nat,
            ) && lower_hex(bytes)[2 * k + 1] == hex_digit_byte((bytes[k] % 16) as nat),
    decreases bytes.len(),
{
    if bytes.len() > 0 {
        let rest = bytes.drop_last();
        lemma_lower_hex(rest);
        assert forall|k: int| 0 <= k < bytes.len() implies lower_hex(bytes)[2 * k]
            == hex_digit_byte((#[trigger] bytes[k] / 16) as nat) && lower_hex(bytes)[2 * k + 1]
            == hex_digit_byte((bytes[k] % 16) as nat) by {
            if k < rest.len() {
                assert(bytes[k] == rest[k]);
            }
        }
    }
}

/// Every byte of an encoding is a lowercase hexadecimal digit, and the
/// encoding is all `0` digits only for all-zero bytes.
proof fn lemma_lower_hex_digits(bytes: Seq<u8>)
    ensures
        forall|i: int| 0 <= i < lower_hex(bytes).len() ==> lower_hex_digit(#[trigger] lower_hex(bytes)[i]),
        (exists|k: int| 0 <= k < bytes.len() && #[trigger] bytes[k] != 0) ==> exists|i: int|
            0 <= i < lower_hex(bytes).len() && #[trigger] lower_hex(bytes)[i] != 0x30,
{
    lemma_lower_hex(bytes);
    assert forall|i: int| 0 <= i < lower_hex(bytes).len() implies lower_hex_digit(
        #[trigger] lower_hex(bytes)[i],
    ) by {
        let k = i / 2;
        assert(bytes[k] == bytes[k]);
        lemma_hex_digit((bytes[k] / 16) as nat);
        lemma_hex_digit((bytes[k] % 16) as nat);
        assert(i == 2 * k || i == 2 * k + 1);
    }
    if exists|k: int| 0 <= k < bytes.len() && #[trigger] bytes[k] != 0 {
        let k = choose|k: int| 0 <= k < bytes.len() && #[trigger] bytes[k] != 0;
        lemma_hex_digit((bytes[k] / 16) as nat);
        lemma_hex_digit((bytes[k] % 16) as nat);
        if bytes[k] / 16 != 0 {
            assert(lower_hex(bytes)[2 * k] != 0x30);
        } else {
            assert(lower_hex(bytes)[2 * k + 1] != 0x30);
        }
    }
}

/// Encoding a trace ID and a parent ID that are not all zero, with any
/// flags, gives a valid version `00` `traceparent` that parses back to
/// exactly those identifiers, digits and flags.
pub proof fn law_traceparent_round_trip(trace_id: Seq<u8>, parent_id: Seq<u8>, flags: u8)
    requires
        trace_id.len() == 16,
        parent_id.len() == 8,
        exists|k: int| 0 <= k < 16 && #[trigger] trace_id[k] != 0,
        exists|k: int| 0 <= k < 8 && #[trigger] parent_id[k] != 0,
    ensures
        is_valid_traceparent(encoded_traceparent(trace_id, parent_id, flags)),
        traceparent_view(encoded_traceparent(trace_id, parent_id, flags), TraceContextLevel::Level1)
            == (TraceContextView {
            version: 0,
            trace_id: lower_hex(trace_id),
            parent_id: lower_hex(parent_id),
            flags,
            level: TraceContextLevel::Level1,
            traceparent: encoded_traceparent(trace_id, parent_id, flags),
            tracestate: None,
        }),
{
    let s = encoded_traceparent(trace_id, parent_id, flags);
    let t = lower_hex(trace_id);
    let p = lower_hex(parent_id);
    let f = hex_byte(flags);
    lemma_lower_hex(trace_id);
    lemma_lower_hex(parent_id);
    lemma_lower_hex_digits(trace_id);
    lemma_lower_hex_digits(parent_id);
    lemma_hex_digit((flags / 16) as nat);
    lemma_hex_digit((flags % 16) as nat);
    lemma_hex_byte_value(flags);
    assert(s.len() == 55);
    assert forall|i: int| 3 <= i < 35 implies s[i] == t[i - 3] by {}
    assert forall|i: int| 36 <= i < 52 implies s[i] == p[i - 36] by {}
    assert(s[53] == f[0] && s[54] == f[1]);
    assert(s.subrange(3, 35) =~= t);
    assert(s.subrange(36, 52) =~= p);
    assert forall|i: int| 0 <= i < s.len() implies is_field_safe(#[trigger] s[i]) by {
        if 3 <= i < 35 {
            assert(lower_hex_digit(t[i - 3]));
        } else if 36 <= i < 52 {
            assert(lower_hex_digit(p[i - 36]));
        }
    }
    assert(lower_hex_span(s, 3, 35)) by {
        assert forall|i: int| 3 <= i < 35 implies lower_hex_digit(#[trigger] s[i]) by {
            assert(lower_hex_digit(t[i - 3]));
        }
    }
    assert(lower_hex_span(s, 36, 52)) by {
        assert forall|i: int| 36 <= i < 52 implies lower_hex_digit(#[trigger] s[i]) by {
            assert(lower_hex_digit(p[i - 36]));
        }
    }
    assert(!zero_span(s, 3, 35)) by {
        let i = choose|i: int| 0 <= i < t.len() && #[trigger] t[i] != 0x30;
        assert(s[i + 3] != 0x30);
    }
    assert(!zero_span(s, 36, 52)) by {
        let i = choose|i: int| 0 <= i < p.len() && #[trigger] p[i] != 0x30;
        assert(s[i + 36] != 0x30);
    }
}

/// Parses a single `traceparent` text value with W3C Trace Context Level 1.
pub fn parse_traceparent(value: &str) -> (trace: Option<TraceContext>)
    ensures
        trace is Some <==> is_valid_traceparent(value.spec_bytes()),
        trace matches Some(t) ==> t@ == traceparent_view(
            value.spec_bytes(),
            TraceContextLevel::Level1,
        ),
{
    parse_traceparent_with_level(value.as_bytes(), TraceContextLevel::Level1)
}

// ---------------------------------------------------------------------------
// tracestate
// ---------------------------------------------------------------------------

/// Lowercase ASCII letter.
pub open spec fn is_lcalpha(b: u8) -> bool {
    0x61 <= b <= 0x7a
}

/// ASCII digit.
pub open spec fn is_digit(b: u8) -> bool {
    0x30 <= b <= 0x39
}

/// Bytes allowed after the first byte of a `tracestate` key:
/// `a-z`, `0-9`, `_`, `-`, `*`, `/`.
pub open spec fn key_char(b: u8) -> bool {
    is_lcalpha(b) || is_digit(b) || b == 0x5f || b == 0x2d || b == 0x2a || b == 0x2f
}

/// Every byte of `s` is a key byte.
pub open spec fn all_key_chars(s: Seq<u8>) -> bool {
    forall|i: int| 0 <= i < s.len() ==> key_char(#[trigger] s[i])
}

/// Level 1 key grammar: a simple key `lcalpha *key-char`, or a multi-tenant
/// key `tenant@system` with a tenant of at most 241 bytes starting with a
/// letter or digit and a system of at most 14 bytes starting with a letter.
pub open spec fn level_one_key(key: Seq<u8>) -> bool {
    let parts = split_on(key, 0x40);
    if parts.len() == 1 {
        key.len() > 0 && is_lcalpha(key[0]) && all_key_chars(key)
    } else if parts.len() == 2 {
        let tenant = parts[0];
        let system = parts[1];
        &&& 1 <= tenant.len() <= 241
        &&& (is_lcalpha(tenant[0]) || is_digit(tenant[0]))
        &&& all_key_chars(tenant)
        &&& 1 <= system.len() <= 14
        &&& is_lcalpha(system[0])
        &&& all_key_chars(system)
    } else {
        false
    }
}

/// Level 2 key grammar: a first byte that is a letter or digit, then key
/// bytes or `@` in any position.
pub open spec fn level_two_key(key: Seq<u8>) -> bool {
    &&& key.len() > 0
    &&& (is_lcalpha(key[0]) || is_digit(key[0]))
    &&& forall|i: int| 0 <= i < key.len() ==> (key_char(#[trigger] key[i]) || key[i] == 0x40)
}

/// A `tracestate` key for the selected level: 1 to 256 ASCII bytes in the
/// level's grammar.
pub open spec fn valid_tracestate_key(key: Seq<u8>, level: TraceContextLevel) -> bool {
    &&& 1 <= key.len() <= 256
    &&& all_ascii(key)
    &&& match level {
        TraceContextLevel::Level1 => level_one_key(key),
        TraceContextLevel::Level2 => level_two_key(key),
    }
}

/// A `tracestate` value: 1 to 256 printable ASCII bytes other than `,` and
/// `=`, not ending in a space.
pub open spec fn valid_tracestate_value(value: Seq<u8>) -> bool {
    &&& 1 <= value.len() <= 256
    &&& value.last() != 0x20
    &&& forall|i: int|
        0 <= i < value.len() ==> (0x20 <= #[trigger] value[i] <= 0x7e && value[i] != 0x2c
            && value[i] != 0x3d)
}

/// A non-empty list member: exactly one `=` between a valid key and a valid
/// value.
pub open spec fn is_valid_member(member: Seq<u8>, level: TraceContextLevel) -> bool {
    let parts = split_on(member, 0x3d);
    &&& parts.len() == 2
    &&& valid_tracestate_key(parts[0], level)
    &&& valid_tracestate_value(parts[1])
}

/// The key of a member: the bytes before its first `=`.
pub open spec fn member_key(member: Seq<u8>) -> Seq<u8> {
    split_on(member, 0x3d)[0]
}

/// The list members of the combined header values, in wire order, with
/// optional whitespace trimmed; empty members are kept.
pub open spec fn tracestate_members(values: Seq<Seq<u8>>) -> Seq<Seq<u8>> {
    split_on(join_with(values, 0x2c), 0x2c).map_values(|m: Seq<u8>| trim_ows(m))
}

/// Every non-empty member is valid for the level.
pub open spec fn members_valid(members: Seq<Seq<u8>>, level: TraceContextLevel) -> bool {
    forall|i: int|
        0 <= i < members.len() ==> (#[trigger] members[i]).len() == 0 || is_valid_member(
            members[i],
            level,
        )
}

/// No two non-empty members share a key.
pub open spec fn member_keys_unique(members: Seq<Seq<u8>>) -> bool {
    forall|i: int, j: int|
        0 <= i < j < members.len() && members[i].len() > 0 && members[j].len() > 0 ==> member_key(
            #[trigger] members[i],
        ) != member_key(#[trigger] members[j])
}

/// The combined `tracestate` accepted from the header values, in wire order:
/// at most 32 members (empty ones included), each non-empty member valid for
/// the level, and keys unique. Anything else discards the whole value.
pub open spec fn tracestate_result(values: Seq<Seq<u8>>, level: TraceContextLevel) -> Option<
    Seq<u8>,
> {
    let members = tracestate_members(values);
    if values.len() == 0 {
        None
    } else if members.len() > 32 {
        None
    } else if members_valid(members, level) && member_keys_unique(members) {
        Some(join_with(members, 0x2c))
    } else {
        None
    }
}

fn is_key_char(byte: u8) -> (ok: bool)
    ensures
        ok == key_char(byte),
{
    (0x61u8 <= byte && byte <= 0x7au8) || (0x30u8 <= byte && byte <= 0x39u8) || byte == 0x5fu8
        || byte == 0x2du8 || byte == 0x2au8 || byte == 0x2fu8
}

fn is_level_two_key_char(byte: u8) -> (ok: bool)
    ensures
        ok == (key_char(byte) || byte == 0x40),
{
    is_key_char(byte) || byte == 0x40u8
}

fn all_key_bytes(s: &[u8]) -> (ok: bool)
    ensures
        ok == all_key_chars(s@),
{
    let mut i: usize = 0;
    while i < s.len()
        invariant
            0 <= i <= s@.len(),
            forall|k: int| 0 <= k < i ==> key_char(#[trigger] s@[k]),
        decreases s@.len() - i,
    {
        if !is_key_char(s[i]) {
            return false;
        }
        i = i + 1;
    }
    true
}

fn is_valid_level_one_key(key: &[u8]) -> (ok: bool)
    ensures
        ok == level_one_key(key@),
{
    let parts = split_bytes(key, 0x40u8);
    proof {
        lemma_split_on_nonempty(key@, 0x40u8);
    }
    if parts.len() == 1 {
        proof {
            lemma_join_split(key@, 0x40u8);
            assert(parts.deep_view()[0] == parts[0]@);
        }
        key.len() > 0 && 0x61u8 <= key[0] && key[0] <= 0x7au8 && all_key_bytes(key)
    } else if parts.len() == 2 {
        let tenant = parts[0].as_slice();
        let system = parts[1].as_slice();
        assert(tenant@ == parts.deep_view()[0]);
        assert(system@ == parts.deep_view()[1]);
        1 <= tenant.len() && tenant.len() <= 241 && ((0x61u8 <= tenant[0] && tenant[0] <= 0x7au8)
            || (0x30u8 <= tenant[0] && tenant[0] <= 0x39u8)) && all_key_bytes(tenant) && 1
            <= system.len() && system.len() <= 14 && 0x61u8 <= system[0] && system[0] <= 0x7au8
            && all_key_bytes(system)
    } else {
        false
    }
}

fn is_valid_level_two_key(key: &[u8]) -> (ok: bool)
    ensures
        ok == level_two_key(key@),
{
    if key.len() == 0 || !((0x61u8 <= key[0] && key[0] <= 0x7au8) || (0x30u8 <= key[0] && key[0]
        <= 0x39u8)) {
        return false;
    }
    let mut i: usize = 0;
    while i < key.len()
        invariant
            0 <= i <= key@.len(),
            forall|k: int| 0 <= k < i ==> (key_char(#[trigger] key@[k]) || key@[k] == 0x40),
        decreases key@.len() - i,
    {
        if !is_level_two_key_char(key[i]) {
            return false;
        }
        i = i + 1;
    }
    true
}

fn is_ascii_bytes(s: &[u8]) -> (ok: bool)
    ensures
        ok == all_ascii(s@),
{
    let mut i: usize = 0;
    while i < s.len()
        invariant
            0 <= i <= s@.len(),
            forall|k: int| 0 <= k < i ==> #[trigger] s@[k] < 0x80u8,
        decreases s@.len() - i,
    {
        if s[i] >= 0x80u8 {
            assert(!(s@[i as int] < 0x80u8));
            return false;
        }
        i = i + 1;
    }
    true
}

fn is_valid_tracestate_key(key: &[u8], level: TraceContextLevel) -> (ok: bool)
    ensures
        ok == valid_tracestate_key(key@, level),
{
    if key.len() == 0 || key.len() > 256 || !is_ascii_bytes(key) {
        return false;
    }
    match level {
        TraceContextLevel::Level1 => is_valid_level_one_key(key),
        TraceContextLevel::Level2 => is_valid_level_two_key(key),
    }
}

fn is_valid_tracestate_value(value: &[u8]) -> (ok: bool)
    ensures
        ok == valid_tracestate_value(value@),
{
    let n = value.len();
    if n == 0 || n > 256 || value[n - 1] == 0x20u8 {
        return false;
    }
    let mut i: usize = 0;
    while i < n
        invariant
            n == value@.len(),
            0 <= i <= n,
            forall|k: int|
                0 <= k < i ==> (0x20 <= #[trigger] value@[k] <= 0x7e && value@[k] != 0x2c
                    && value@[k] != 0x3d),
        decreases n - i,
    {
        let b = value[i];
        if !(0x20u8 <= b && b <= 0x7eu8 && b != 0x2cu8 && b != 0x3du8) {
            assert(!(0x20 <= value@[i as int] <= 0x7e && value@[i as int] != 0x2c
                && value@[i as int] != 0x3d));
            return false;
        }
        i = i + 1;
    }
    true
}

/// True when `key` is one of `keys`.
fn contains_key(keys: &Vec<Vec<u8>>, key: &[u8]) -> (found: bool)
    ensures
        found == keys.deep_view().contains(key@),
{
    let mut t: usize = 0;
    while t < keys.len()
        invariant
            0 <= t <= keys@.len(),
            forall|u: int| 0 <= u < t ==> keys.deep_view()[u] != key@,
        decreases keys@.len() - t,
    {
        assert(keys[t as int]@ == keys.deep_view()[t as int]);
        if bytes_equal(keys[t].as_slice(), key) {
            assert(keys.deep_view()[t as int] == key@);
            return true;
        }
        t = t + 1;
    }
    false
}

/// A valid member is ASCII.
proof fn lemma_valid_member_ascii(member: Seq<u8>, level: TraceContextLevel)
    requires
        is_valid_member(member, level),
    ensures
        all_ascii(member),
{
    let parts = split_on(member, 0x3d);
    lemma_join_split(member, 0x3d);
    assert(parts.drop_last() =~= seq![parts[0]]);
    assert(join_with(parts.drop_last(), 0x3d) == parts[0]);
    assert(parts.last() == parts[1]);
    assert(member =~= parts[0] + seq![0x3du8] + parts[1]);
    assert forall|i: int| 0 <= i < member.len() implies #[trigger] member[i] < 0x80u8 by {
        if i < parts[0].len() {
            assert(member[i] == parts[0][i]);
        } else if i > parts[0].len() {
            assert(member[i] == parts[1][i - parts[0].len() - 1]);
        }
    }
}

/// A valid member starts with a key byte and ends with a value byte, so it
/// has no optional whitespace at its edges.
proof fn lemma_valid_member_untrimmed(member: Seq<u8>, level: TraceContextLevel)
    requires
        is_valid_member(member, level),
    ensures
        member.len() > 0,
        !is_ows(member[0]),
        !is_ows(member.last()),
{
    let parts = split_on(member, 0x3d);
    lemma_join_split(member, 0x3d);
    assert(parts.drop_last() =~= seq![parts[0]]);
    assert(join_with(parts.drop_last(), 0x3d) == parts[0]);
    assert(member =~= parts[0] + seq![0x3du8] + parts[1]);
    let key = parts[0];
    let value = parts[1];
    assert(member[0] == key[0]);
    assert(member.last() == value.last());
    assert(0x20 <= value[value.len() - 1] <= 0x7e);
    match level {
        TraceContextLevel::Level1 => {
            let halves = split_on(key, 0x40);
            if halves.len() == 2 {
                lemma_join_split(key, 0x40);
                assert(halves.drop_last() =~= seq![halves[0]]);
                assert(join_with(halves.drop_last(), 0x40) == halves[0]);
                assert(key =~= halves[0] + seq![0x40u8] + halves[1]);
                assert(key[0] == halves[0][0]);
            }
        },
        TraceContextLevel::Level2 => {},
    }
}

/// Combining is stable: validating an accepted combined `tracestate` again,
/// as the one value of its header, accepts it unchanged.
pub proof fn law_tracestate_reparses_to_itself(values: Seq<Seq<u8>>, level: TraceContextLevel)
    requires
        tracestate_result(values, level) is Some,
    ensures
        tracestate_result(seq![tracestate_result(values, level)->0], level) == tracestate_result(
            values,
            level,
        ),
{
    let members = tracestate_members(values);
    let combined = join_with(values, 0x2c);
    let raw = split_on(combined, 0x2c);
    let t = join_with(members, 0x2c);
    lemma_split_on_nonempty(combined, 0x2c);
    lemma_split_on_parts_free(combined, 0x2c);
    assert forall|i: int| 0 <= i < members.len() implies !(#[trigger] members[i]).contains(0x2cu8) by {
        assert(members[i] == trim_ows(raw[i]));
        if members[i].contains(0x2cu8) {
            lemma_trim_ows_from_input(raw[i], 0x2cu8);
        }
    }
    lemma_split_join(members, 0x2c);
    let single = seq![t];
    assert(join_with(single, 0x2c) == t);
    assert forall|i: int| 0 <= i < members.len() implies trim_ows(#[trigger] members[i])
        == members[i] by {
        if members[i].len() > 0 {
            lemma_valid_member_untrimmed(members[i], level);
        }
        lemma_trim_ows_untrimmed(members[i]);
    }
    assert(tracestate_members(single) =~= members);
}

/// How list members are spread across `tracestate` header values does not
/// matter: members grouped into header values in any way give the same
/// result as one member per header value.
pub proof fn law_tracestate_independent_of_header_split(
    groups: Seq<Seq<Seq<u8>>>,
    level: TraceContextLevel,
)
    requires
        groups.len() >= 1,
        forall|i: int| 0 <= i < groups.len() ==> (#[trigger] groups[i]).len() >= 1,
    ensures
        tracestate_result(groups.map_values(|g: Seq<Seq<u8>>| join_with(g, 0x2cu8)), level)
            == tracestate_result(groups.flatten(), level),
{
    lemma_join_groups(groups, 0x2cu8);
}

/// A valid member holds no `,`: neither its key nor its value may.
proof fn lemma_valid_member_no_comma(member: Seq<u8>, level: TraceContextLevel)
    requires
        is_valid_member(member, level),
    ensures
        !member.contains(0x2cu8),
{
    let parts = split_on(member, 0x3d);
    lemma_join_split(member, 0x3d);
    assert(parts.drop_last() =~= seq![parts[0]]);
    assert(join_with(parts.drop_last(), 0x3d) == parts[0]);
    assert(member =~= parts[0] + seq![0x3du8] + parts[1]);
    let key = parts[0];
    let value = parts[1];
    assert forall|i: int| 0 <= i < key.len() implies #[trigger] key[i] != 0x2cu8 by {
        match level {
            TraceContextLevel::Level1 => {
                let halves = split_on(key, 0x40);
                if halves.len() == 2 {
                    lemma_join_split(key, 0x40);
                    assert(halves.drop_last() =~= seq![halves[0]]);
                    assert(join_with(halves.drop_last(), 0x40) == halves[0]);
                    assert(key =~= halves[0] + seq![0x40u8] + halves[1]);
                    if i < halves[0].len() {
                        assert(key[i] == halves[0][i]);
                        assert(key_char(halves[0][i]));
                    } else if i > halves[0].len() {
                        assert(key[i] == halves[1][i - halves[0].len() - 1]);
                        assert(key_char(halves[1][i - halves[0].len() - 1]));
                    }
                } else {
                    assert(key_char(key[i]));
                }
            },
            TraceContextLevel::Level2 => {
                assert(key_char(key[i]) || key[i] == 0x40);
            },
        }
    }
    if member.contains(0x2cu8) {
        let i = choose|i: int| 0 <= i < member.len() && member[i] == 0x2cu8;
        if i < key.len() {
            assert(member[i] == key[i]);
        } else if i > key.len() {
            assert(member[i] == value[i - key.len() - 1]);
        }
    }
}

/// Valid list members with distinct keys, at most 32 of them, are accepted
/// and combined in wire order, however they are spread across header
/// values: each group of consecutive members is one header value.
pub proof fn law_valid_members_accepted_whatever_the_split(
    groups: Seq<Seq<Seq<u8>>>,
    level: TraceContextLevel,
)
    requires
        groups.len() >= 1,
        forall|i: int| 0 <= i < groups.len() ==> (#[trigger] groups[i]).len() >= 1,
        groups.flatten().len() <= 32,
        forall|i: int|
            0 <= i < groups.flatten().len() ==> is_valid_member(
                #[trigger] groups.flatten()[i],
                level,
            ),
        member_keys_unique(groups.flatten()),
    ensures
        tracestate_result(groups.map_values(|g: Seq<Seq<u8>>| join_with(g, 0x2cu8)), level)
            == Some(join_with(groups.flatten(), 0x2cu8)),
{
    law_tracestate_independent_of_header_split(groups, level);
    let members = groups.flatten();
    assert(members == groups[0] + groups.drop_first().flatten());
    assert forall|i: int| 0 <= i < members.len() implies !(#[trigger] members[i]).contains(
        0x2cu8,
    ) by {
        lemma_valid_member_no_comma(members[i], level);
    }
    lemma_split_join(members, 0x2c);
    assert forall|i: int| 0 <= i < members.len() implies trim_ows(#[trigger] members[i])
        == members[i] by {
        lemma_valid_member_untrimmed(members[i], level);
        lemma_trim_ows_untrimmed(members[i]);
    }
    assert(tracestate_members(members) =~= members);
}

/// Every byte of a valid key is a key byte or `@`.
proof fn lemma_valid_key_bytes(key: Seq<u8>, level: TraceContextLevel)
    requires
        valid_tracestate_key(key, level),
    ensures
        forall|i: int| 0 <= i < key.len() ==> key_char(#[trigger] key[i]) || key[i] == 0x40,
{
    assert forall|i: int| 0 <= i < key.len() implies key_char(#[trigger] key[i]) || key[i]
        == 0x40 by {
        match level {
            TraceContextLevel::Level1 => {
                let halves = split_on(key, 0x40);
                if halves.len() == 2 {
                    lemma_join_split(key, 0x40);
                    assert(halves.drop_last() =~= seq![halves[0]]);
                    assert(join_with(halves.drop_last(), 0x40) == halves[0]);
                    assert(key =~= halves[0] + seq![0x40u8] + halves[1]);
                    if i < halves[0].len() {
                        assert(key[i] == halves[0][i]);
                    } else if i > halves[0].len() {
                        assert(key[i] == halves[1][i - halves[0].len() - 1]);
                    }
                }
            },
            TraceContextLevel::Level2 => {},
        }
    }
}

/// A one-byte `tracestate` value is any printable ASCII byte other than a
/// space, `,` and `=`.
pub proof fn law_tracestate_value_bytes(b: u8)
    ensures
        valid_tracestate_value(seq![b]) <==> (0x21 <= b <= 0x7e && b != 0x2c && b != 0x3d),
{
    if 0x21 <= b <= 0x7e && b != 0x2c && b != 0x3d {
        assert(seq![b].last() == b);
    }
    if valid_tracestate_value(seq![b]) {
        assert(seq![b][0] == b);
    }
}

/// The value grammar on its own: one member made of a valid key, `=` and a
/// value of 1 to 256 printable ASCII bytes, none of them `,` or `=`, that
/// does not end in a space, is accepted as it is, at either level.
pub proof fn law_single_member_accepted_for_any_value(
    key: Seq<u8>,
    value: Seq<u8>,
    level: TraceContextLevel,
)
    requires
        valid_tracestate_key(key, level),
        1 <= value.len() <= 256,
        value.last() != 0x20,
        forall|i: int|
            0 <= i < value.len() ==> (0x20 <= #[trigger] value[i] <= 0x7e && value[i] != 0x2c
                && value[i] != 0x3d),
    ensures
        tracestate_result(seq![key + seq![0x3du8] + value], level) == Some(
            key + seq![0x3du8] + value,
        ),
{
    let member = key + seq![0x3du8] + value;
    let parts = seq![key, value];
    lemma_valid_key_bytes(key, level);
    assert(!key.contains(0x3du8)) by {
        if key.contains(0x3du8) {
            let i = choose|i: int| 0 <= i < key.len() && key[i] == 0x3du8;
            assert(key_char(key[i]) || key[i] == 0x40);
        }
    }
    assert(!value.contains(0x3du8));
    assert(parts.drop_last() =~= seq![key]);
    assert(join_with(parts.drop_last(), 0x3d) == key);
    assert(join_with(parts, 0x3d) == member);
    lemma_split_join(parts, 0x3d);
    assert(split_on(member, 0x3d) == parts);
    assert(is_valid_member(member, level));
    let groups = seq![seq![member]];
    groups.lemma_flatten_one_element();
    assert(groups.flatten() == seq![member]);
    assert(member_keys_unique(groups.flatten()));
    law_valid_members_accepted_whatever_the_split(groups, level);
    assert(join_with(seq![member], 0x2cu8) == member);
    assert(groups.map_values(|g: Seq<Seq<u8>>| join_with(g, 0x2cu8)) =~= seq![member]);
}

/// The key grammar in literal bytes. A simple key of 1 to 256 bytes that
/// starts with `a-z` and holds only `a-z`, `0-9`, `_`, `-`, `*` and `/` is
/// valid at both levels; at Level 2 a key may also start with a digit and
/// hold `@` anywhere.
pub proof fn law_tracestate_key_grammar(key: Seq<u8>)
    ensures
        ({
            &&& 1 <= key.len() <= 256
            &&& 0x61 <= key[0] <= 0x7a
            &&& forall|i: int|
                0 <= i < key.len() ==> ((0x61 <= #[trigger] key[i] <= 0x7a) || (0x30 <= key[i]
                    <= 0x39) || key[i] == 0x5f || key[i] == 0x2d || key[i] == 0x2a || key[i]
                    == 0x2f)
        }) ==> valid_tracestate_key(key, TraceContextLevel::Level1) && valid_tracestate_key(
            key,
            TraceContextLevel::Level2,
        ),
        ({
            &&& 1 <= key.len() <= 256
            &&& ((0x61 <= key[0] <= 0x7a) || (0x30 <= key[0] <= 0x39))
            &&& forall|i: int|
                0 <= i < key.len() ==> ((0x61 <= #[trigger] key[i] <= 0x7a) || (0x30 <= key[i]
                    <= 0x39) || key[i] == 0x5f || key[i] == 0x2d || key[i] == 0x2a || key[i]
                    == 0x2f || key[i] == 0x40)
        }) ==> valid_tracestate_key(key, TraceContextLevel::Level2),
{
    if 1 <= key.len() <= 256 && forall|i: int|
        0 <= i < key.len() ==> ((0x61 <= #[trigger] key[i] <= 0x7a) || (0x30 <= key[i] <= 0x39)
            || key[i] == 0x5f || key[i] == 0x2d || key[i] == 0x2a || key[i] == 0x2f || key[i]
            == 0x40) {
        assert(all_ascii(key));
    }
    if 1 <= key.len() <= 256 && 0x61 <= key[0] <= 0x7a && forall|i: int|
        0 <= i < key.len() ==> ((0x61 <= #[trigger] key[i] <= 0x7a) || (0x30 <= key[i] <= 0x39)
            || key[i] == 0x5f || key[i] == 0x2d || key[i] == 0x2a || key[i] == 0x2f) {
        assert(!key.contains(0x40u8)) by {
            if key.contains(0x40u8) {
                let k = choose|k: int| 0 <= k < key.len() && key[k] == 0x40u8;
                assert(key[k] != 0x40u8);
            }
        }
        lemma_split_on_no_sep(key, 0x40);
        assert(all_key_chars(key));
        assert(all_ascii(key));
    }
}

/// The whole `tracestate` is discarded when the combined list has more than
/// 32 members, empty ones included, when any non-empty member is invalid
/// for the level, or when two non-empty members share a key.
pub proof fn law_tracestate_discarded_on_any_fault(
    values: Seq<Seq<u8>>,
    level: TraceContextLevel,
    i: int,
    j: int,
)
    ensures
        split_on(join_with(values, 0x2cu8), 0x2cu8).len() > 32 ==> tracestate_result(
            values,
            level,
        ) is None,
        ({
            let members = tracestate_members(values);
            0 <= i < members.len() && members[i].len() > 0 && !is_valid_member(members[i], level)
        }) ==> tracestate_result(values, level) is None,
        ({
            let members = tracestate_members(values);
            &&& 0 <= i < j < members.len()
            &&& members[i].len() > 0
            &&& members[j].len() > 0
            &&& split_on(members[i], 0x3du8)[0] == split_on(members[j], 0x3du8)[0]
        }) ==> tracestate_result(values, level) is None,
{
    let members = tracestate_members(values);
    if 0 <= i < members.len() && members[i].len() > 0 && !is_valid_member(members[i], level) {
        assert(!members_valid(members, level));
    }
    if 0 <= i < j < members.len() && members[i].len() > 0 && members[j].len() > 0 && split_on(
        members[i],
        0x3du8,
    )[0] == split_on(members[j], 0x3du8)[0] {
        assert(member_key(members[i]) == member_key(members[j]));
        assert(!member_keys_unique(members));
    }
}

/// Validates and combines W3C `tracestate` header values, given as bytes, in
/// wire order for the selected level.
pub fn parse_tracestate_bytes(values: &[&[u8]], level: TraceContextLevel) -> (tracestate: Option<
    String,
>)
    ensures
        tracestate is Some <==> tracestate_result(values@.map_values(|v: &[u8]| v@), level) is Some,
        tracestate matches Some(t) ==> Some(utf8_of(t@)) == tracestate_result(
            values@.map_values(|v: &[u8]| v@),
            level,
        ),
{
    let ghost views = values@.map_values(|v: &[u8]| v@);
    if values.len() == 0 {
        return None;
    }
    let combined = join_slices(values, 0x2cu8);
    let raw = split_bytes(combined.as_slice(), 0x2cu8);
    let ghost expected = tracestate_members(views);
    let mut members: Vec<Vec<u8>> = Vec::new();
    let mut i: usize = 0;
    while i < raw.len()
        invariant
            0 <= i <= raw@.len(),
            raw.deep_view() == split_on(combined@, 0x2cu8),
            combined@ == join_with(views, 0x2cu8),
            expected == tracestate_members(views),
            members.deep_view() =~= expected.take(i as int),
        decreases raw@.len() - i,
    {
        let trimmed = trim_ows_bytes(raw[i].as_slice());
        let ghost before = members.deep_view();
        assert(raw[i as int]@ == raw.deep_view()[i as int]);
        assert(trimmed.deep_view() =~= trimmed@);
        members.push(trimmed);
        assert(members.deep_view() =~= before.push(trimmed@));
        i = i + 1;
    }
    assert(expected.take(raw@.len() as int) =~= expected);
    if members.len() > 32 {
        return None;
    }
    let mut keys: Vec<Vec<u8>> = Vec::new();
    let ghost mut owners: Seq<int> = Seq::empty();
    let mut j: usize = 0;
    while j < members.len()
        invariant
            0 <= j <= members@.len(),
            members@.len() <= 32,
            values@.len() > 0,
            views == values@.map_values(|v: &[u8]| v@),
            members.deep_view() == expected,
            expected == tracestate_members(views),
            forall|k: int|
                0 <= k < j ==> (#[trigger] expected[k]).len() == 0 || is_valid_member(
                    expected[k],
                    level,
                ),
            forall|a: int, b: int|
                0 <= a < b < j && expected[a].len() > 0 && expected[b].len() > 0 ==> member_key(
                    #[trigger] expected[a],
                ) != member_key(#[trigger] expected[b]),
            forall|a: int|
                0 <= a < j && expected[a].len() > 0 ==> keys.deep_view().contains(
                    member_key(#[trigger] expected[a]),
                ),
            owners.len() == keys.deep_view().len(),
            forall|t: int|
                0 <= t < owners.len() ==> 0 <= #[trigger] owners[t] < j && expected[owners[t]].len()
                    > 0 && keys.deep_view()[t] == member_key(expected[owners[t]]),
        decreases members@.len() - j,
    {
        let member = members[j].as_slice();
        assert(member@ == expected[j as int]);
        if member.len() > 0 {
            let parts = split_bytes(member, 0x3du8);
            if parts.len() != 2 {
                assert(parts.deep_view().len() == parts@.len());
                assert(!is_valid_member(expected[j as int], level));
                assert(!members_valid(expected, level));
                return None;
            }
            let key = parts[0].as_slice();
            let value = parts[1].as_slice();
            assert(key@ == parts.deep_view()[0]);
            assert(value@ == parts.deep_view()[1]);
            if !is_valid_tracestate_key(key, level) || !is_valid_tracestate_value(value) {
                assert(!is_valid_member(expected[j as int], level));
                assert(!members_valid(expected, level));
                return None;
            }
            assert(member_key(expected[j as int]) == key@);
            if contains_key(&keys, key) {
                proof {
                    let w = choose|w: int|
                        0 <= w < keys.deep_view().len() && keys.deep_view()[w] == key@;
                    let a = owners[w];
                    assert(member_key(expected[a]) == member_key(expected[j as int]));
                    assert(!member_keys_unique(expected));
                }
                return None;
            }
            let ghost before = keys.deep_view();
            let owned_key = vstd::slice::slice_to_vec(key);
            assert(owned_key.deep_view() =~= owned_key@);
            keys.push(owned_key);
            proof {
                assert(keys.deep_view() =~= before.push(key@));
                owners = owners.push(j as int);
                assert forall|a: int|
                    0 <= a < j + 1 && expected[a].len() > 0 implies keys.deep_view().contains(
                    member_key(#[trigger] expected[a]),
                ) by {
                    if a < j {
                        let w = choose|w: int|
                            0 <= w < before.len() && before[w] == member_key(expected[a]);
                        assert(keys.deep_view()[w] == member_key(expected[a]));
                    } else {
                        assert(keys.deep_view()[before.len() as int] == key@);
                    }
                }
                assert forall|a: int, b: int|
                    0 <= a < b < j + 1 && expected[a].len() > 0 && expected[b].len()
                        > 0 implies member_key(#[trigger] expected[a]) != member_key(
                    #[trigger] expected[b],
                ) by {
                    if b == j {
                        let w = choose|w: int|
                            0 <= w < before.len() && before[w] == member_key(expected[a]);
                        assert(before[w] != key@);
                    }
                }
                assert forall|t: int| 0 <= t < owners.len() implies 0 <= #[trigger] owners[t] < j
                    + 1 && expected[owners[t]].len() > 0 && keys.deep_view()[t] == member_key(
                    expected[owners[t]],
                ) by {
                    if t < before.len() {
                        assert(keys.deep_view()[t] == before[t]);
                    }
                }
            }
        }
        j = j + 1;
    }
    proof {
        assert(members_valid(expected, level));
        assert(member_keys_unique(expected));
        assert forall|k: int| 0 <= k < expected.len() implies all_ascii(#[trigger] expected[k]) by {
            if expected[k].len() > 0 {
                lemma_valid_member_ascii(expected[k], level);
            }
        }
        lemma_join_ascii(expected, 0x2cu8);
    }
    let joined = join_bytes(&members, 0x2cu8);
    Some(ascii_string(joined.as_slice()))
}

/// Validates and combines W3C `tracestate` text values for the selected
/// level.
pub fn parse_tracestate_with_level(values: &[&str], level: TraceContextLevel) -> (tracestate:
    Option<String>)
    ensures
        tracestate is Some <==> tracestate_result(
            values@.map_values(|v: &str| v.spec_bytes()),
            level,
        ) is Some,
        tracestate matches Some(t) ==> Some(utf8_of(t@)) == tracestate_result(
            values@.map_values(|v: &str| v.spec_bytes()),
            level,
        ),
{
    let mut slices: Vec<&[u8]> = Vec::new();
    let mut i: usize = 0;
    while i < values.len()
        invariant
            0 <= i <= values@.len(),
            slices@.len() == i,
            forall|k: int| 0 <= k < i ==> (#[trigger] slices@[k])@ == values@[k].spec_bytes(),
        decreases values@.len() - i,
    {
        slices.push(values[i].as_bytes());
        i = i + 1;
    }
    assert(slices@.map_values(|v: &[u8]| v@) =~= values@.map_values(|v: &str| v.spec_bytes()));
    parse_tracestate_bytes(slices.as_slice(), level)
}

/// Validates and combines W3C `tracestate` text values with W3C Trace
/// Context Level 1.
pub fn parse_tracestate(values: &[&str]) -> (tracestate: Option<String>)
    ensures
        tracestate is Some <==> tracestate_result(
            values@.map_values(|v: &str| v.spec_bytes()),
            TraceContextLevel::Level1,
        ) is Some,
        tracestate matches Some(t) ==> Some(utf8_of(t@)) == tracestate_result(
            values@.map_values(|v: &str| v.spec_bytes()),
            TraceContextLevel::Level1,
        ),
{
    parse_tracestate_with_level(values, TraceContextLevel::Level1)
}

} // verus!
