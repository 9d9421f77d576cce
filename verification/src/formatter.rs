//! The newline-delimited JSON formatter: the JSON object written for each
//! event, with its level names, reserved keys, access records, provider trace
//! fields and Google Cloud latency text, the event timestamp, and the redacted
//! diagnostics of dropped events.

use vstd::prelude::*;
use vstd::string::StrSliceExecFns;

use crate::json::{
    keys_distinct, lemma_object_contains, member_views, object_of, FieldMap, JsonValue, JsonView,
};
use crate::middleware::EventLevel;
use crate::request_id::is_lower_hex_char;
use crate::text::{
    all_ascii, ascii_chars, ascii_string, decimal_bytes, decimal_digits, lemma_decimal_digits_ascii,
    str_equal, utf8_of,
};
use crate::FieldConvention;

verus! {

// ---------------------------------------------------------------------------
// the layer's configuration
// ---------------------------------------------------------------------------

/// A composable newline-delimited JSON formatter configuration: the writer,
/// the field convention snapshotted at construction, and whether redacted
/// diagnostics of dropped events are reported.
pub struct JsonLayer<W> {
    writer: W,
    field_convention: FieldConvention,
    log_internal_errors: bool,
}

impl<W> JsonLayer<W> {
    /// The field convention the layer formats with.
    pub closed spec fn convention(&self) -> FieldConvention {
        self.field_convention
    }

    /// Whether redacted diagnostics are reported.
    pub closed spec fn reports_internal_errors(&self) -> bool {
        self.log_internal_errors
    }

    /// The configured writer.
    pub closed spec fn writer_value(&self) -> W {
        self.writer
    }

    /// Creates a layer that snapshots `field_convention`; diagnostics are on.
    pub fn from_convention(writer: W, field_convention: FieldConvention) -> (layer: Self)
        ensures
            layer.convention() == field_convention,
            layer.reports_internal_errors(),
            layer.writer_value() == writer,
    {
        JsonLayer { writer, field_convention, log_internal_errors: true }
    }

    /// Enables or disables redacted formatter diagnostics on stderr.
    ///
    /// Diagnostics contain only the failed stage and, for writes, the kind
    /// of I/O error. They never include an event payload or the writer's
    /// error text.
    pub fn log_internal_errors(self, enabled: bool) -> (layer: Self)
        ensures
            layer.convention() == self.convention(),
            layer.reports_internal_errors() == enabled,
            layer.writer_value() == self.writer_value(),
    {
        JsonLayer { log_internal_errors: enabled, ..self }
    }

    /// The field convention the layer formats with.
    pub fn field_convention(&self) -> (convention: FieldConvention)
        ensures
            convention == self.convention(),
    {
        self.field_convention
    }

    /// Whether redacted diagnostics are reported.
    pub fn internal_errors_enabled(&self) -> (enabled: bool)
        ensures
            enabled == self.reports_internal_errors(),
    {
        self.log_internal_errors
    }

    /// The configured writer.
    pub fn writer(&self) -> (writer: &W)
        ensures
            *writer == self.writer_value(),
    {
        &self.writer
    }
}

// ---------------------------------------------------------------------------
// levels and reserved keys
// ---------------------------------------------------------------------------

/// The level text of an event: `tracing`'s names, except that Google Cloud
/// maps `TRACE` and `DEBUG` to `DEBUG` and `WARN` to `WARNING`.
pub open spec fn level_name_of(level: EventLevel, convention: FieldConvention) -> Seq<char> {
    if convention == FieldConvention::Gcp {
        match level {
            EventLevel::Trace => "DEBUG"@,
            EventLevel::Debug => "DEBUG"@,
            EventLevel::Info => "INFO"@,
            EventLevel::Warn => "WARNING"@,
            EventLevel::Error => "ERROR"@,
        }
    } else {
        match level {
            EventLevel::Trace => "TRACE"@,
            EventLevel::Debug => "DEBUG"@,
            EventLevel::Info => "INFO"@,
            EventLevel::Warn => "WARN"@,
            EventLevel::Error => "ERROR"@,
        }
    }
}

/// The level text of an event under a field convention.
pub fn level_name(level: EventLevel, convention: FieldConvention) -> (name: &'static str)
    ensures
        name@ == level_name_of(level, convention),
{
    match convention {
        FieldConvention::Gcp => match level {
            EventLevel::Trace => "DEBUG",
            EventLevel::Debug => "DEBUG",
            EventLevel::Info => "INFO",
            EventLevel::Warn => "WARNING",
            EventLevel::Error => "ERROR",
        },
        _ => match level {
            EventLevel::Trace => "TRACE",
            EventLevel::Debug => "DEBUG",
            EventLevel::Info => "INFO",
            EventLevel::Warn => "WARN",
            EventLevel::Error => "ERROR",
        },
    }
}

/// The key that carries the level: `severity` on Google Cloud, `level`
/// otherwise.
pub fn level_key(convention: FieldConvention) -> (key: &'static str)
    ensures
        key@ == (if convention == FieldConvention::Gcp {
            "severity"@
        } else {
            "level"@
        }),
{
    match convention {
        FieldConvention::Gcp => "severity",
        _ => "level",
    }
}

/// Correlation fields owned by the package request span.
pub open spec fn is_request_field_name(key: Seq<char>) -> bool {
    ||| key == "request_id"@
    ||| key == "correlation_id"@
    ||| key == "trace_id"@
    ||| key == "parent_id"@
    ||| key == "trace_flags"@
    ||| key == "trace_sampled"@
    ||| key == "trace_id_random"@
}

/// The envelope every line carries.
pub open spec fn is_envelope_name(key: Seq<char>) -> bool {
    ||| key == "timestamp"@
    ||| key == "level"@
    ||| key == "severity"@
    ||| key == "target"@
}

/// The catalog fields of a terminal access record.
pub open spec fn is_access_field_name(key: Seq<char>) -> bool {
    ||| key == "method"@
    ||| key == "path"@
    ||| key == "path_template"@
    ||| key == "operation_id"@
    ||| key == "status"@
    ||| key == "duration_ms"@
    ||| key == "peer_ip"@
    ||| key == "user_agent"@
    ||| key == "terminal_reason"@
}

/// The provider fields the formatter writes.
pub open spec fn is_provider_field_name(key: Seq<char>) -> bool {
    ||| key == "httpRequest"@
    ||| key == "logging.googleapis.com/trace"@
    ||| key == "logging.googleapis.com/trace_sampled"@
    ||| key == "xray_trace_id"@
    ||| key == "operation_Id"@
    ||| key == "operation_ParentId"@
}

/// `key` begins with `prefix`.
pub open spec fn starts_with(key: Seq<char>, prefix: Seq<char>) -> bool {
    prefix.len() <= key.len() && key.subrange(0, prefix.len() as int) == prefix
}

/// Keys an application event cannot set: correlation, envelope, access
/// catalog and provider fields, the whole Google Cloud special-field
/// namespace, and the package's internal `obs.` namespace. An event keeps its
/// `message` and its own `error`.
pub open spec fn is_event_reserved_name(key: Seq<char>) -> bool {
    ||| is_request_field_name(key)
    ||| is_envelope_name(key)
    ||| is_access_field_name(key)
    ||| is_provider_field_name(key)
    ||| starts_with(key, "logging.googleapis.com/"@)
    ||| starts_with(key, "obs."@)
}

/// The provider fields owned by the active convention: none for `Generic`.
pub open spec fn is_convention_field_name(key: Seq<char>, convention: FieldConvention) -> bool {
    match convention {
        FieldConvention::Generic => false,
        FieldConvention::Gcp => {
            ||| key == "httpRequest"@
            ||| key == "logging.googleapis.com/trace"@
            ||| key == "logging.googleapis.com/trace_sampled"@
        },
        FieldConvention::Aws => key == "xray_trace_id"@,
        FieldConvention::Azure => {
            ||| key == "operation_Id"@
            ||| key == "operation_ParentId"@
        },
    }
}

/// Keys access enrichment cannot set under `convention`: correlation,
/// envelope and access catalog fields, the record's `message` and `error`,
/// the internal record carrier, and the provider fields of the active
/// convention. Aliases owned only by another convention stay application
/// data.
pub open spec fn is_reserved_name(key: Seq<char>, convention: FieldConvention) -> bool {
    ||| is_request_field_name(key)
    ||| is_envelope_name(key)
    ||| is_access_field_name(key)
    ||| key == "message"@
    ||| key == "error"@
    ||| key == "obs.record"@
    ||| is_convention_field_name(key, convention)
}

/// True for the correlation fields of the package request span.
pub fn is_request_field(key: &str) -> (reserved: bool)
    ensures
        reserved == is_request_field_name(key@),
{
    str_equal(key, "request_id") || str_equal(key, "correlation_id") || str_equal(key, "trace_id")
        || str_equal(key, "parent_id") || str_equal(key, "trace_flags") || str_equal(
        key,
        "trace_sampled",
    ) || str_equal(key, "trace_id_random")
}

fn is_envelope(key: &str) -> (found: bool)
    ensures
        found == is_envelope_name(key@),
{
    str_equal(key, "timestamp") || str_equal(key, "level") || str_equal(key, "severity")
        || str_equal(key, "target")
}

fn is_access_field(key: &str) -> (found: bool)
    ensures
        found == is_access_field_name(key@),
{
    str_equal(key, "method") || str_equal(key, "path") || str_equal(key, "path_template")
        || str_equal(key, "operation_id") || str_equal(key, "status") || str_equal(
        key,
        "duration_ms",
    ) || str_equal(key, "peer_ip") || str_equal(key, "user_agent") || str_equal(
        key,
        "terminal_reason",
    )
}

fn is_provider_field(key: &str) -> (found: bool)
    ensures
        found == is_provider_field_name(key@),
{
    str_equal(key, "httpRequest") || str_equal(key, "logging.googleapis.com/trace") || str_equal(
        key,
        "logging.googleapis.com/trace_sampled",
    ) || str_equal(key, "xray_trace_id") || str_equal(key, "operation_Id") || str_equal(
        key,
        "operation_ParentId",
    )
}

/// True when `key` begins with `prefix`.
fn has_prefix(key: &str, prefix: &str) -> (found: bool)
    ensures
        found == starts_with(key@, prefix@),
{
    let n = prefix.unicode_len();
    if key.unicode_len() < n {
        return false;
    }
    let mut i: usize = 0;
    while i < n
        invariant
            n == prefix@.len(),
            n <= key@.len(),
            0 <= i <= n,
            forall|k: int| 0 <= k < i ==> key@[k] == prefix@[k],
        decreases n - i,
    {
        if key.get_char(i) != prefix.get_char(i) {
            assert(key@.subrange(0, n as int)[i as int] != prefix@[i as int]);
            return false;
        }
        i = i + 1;
    }
    assert(key@.subrange(0, n as int) =~= prefix@);
    true
}

/// True for keys that application events cannot set.
pub fn is_event_reserved(key: &str) -> (reserved: bool)
    ensures
        reserved == is_event_reserved_name(key@),
{
    is_request_field(key) || is_envelope(key) || is_access_field(key) || is_provider_field(key)
        || has_prefix(key, "logging.googleapis.com/") || has_prefix(key, "obs.")
}

fn is_convention_field(key: &str, convention: FieldConvention) -> (found: bool)
    ensures
        found == is_convention_field_name(key@, convention),
{
    match convention {
        FieldConvention::Generic => false,
        FieldConvention::Gcp => str_equal(key, "httpRequest") || str_equal(
            key,
            "logging.googleapis.com/trace",
        ) || str_equal(key, "logging.googleapis.com/trace_sampled"),
        FieldConvention::Aws => str_equal(key, "xray_trace_id"),
        FieldConvention::Azure => str_equal(key, "operation_Id") || str_equal(
            key,
            "operation_ParentId",
        ),
    }
}

/// True for keys that access enrichment cannot set under `convention`.
pub fn is_reserved(key: &str, convention: FieldConvention) -> (reserved: bool)
    ensures
        reserved == is_reserved_name(key@, convention),
{
    is_request_field(key) || is_envelope(key) || is_access_field(key) || str_equal(key, "message")
        || str_equal(key, "error") || str_equal(key, "obs.record") || is_convention_field(
        key,
        convention,
    )
}

/// True when an event or span comes from the package's own callsite: the
/// expected target, emitted from the package's callsite module. Only such an
/// access event's record payload, and only such a request span's fields, are
/// trusted.
pub fn is_package_callsite(
    target: &str,
    module: Option<&str>,
    expected_target: &str,
    package_module: &str,
) -> (trusted: bool)
    ensures
        trusted == (target@ == expected_target@ && (module is Some && module->0@
            == package_module@)),
{
    if !str_equal(target, expected_target) {
        return false;
    }
    match module {
        Some(m) => str_equal(m, package_module),
        None => false,
    }
}

// ---------------------------------------------------------------------------
// provider trace fields
// ---------------------------------------------------------------------------

/// A W3C trace ID: 32 lowercase hexadecimal digits, not all zero.
pub open spec fn is_valid_trace_id_text(trace_id: Seq<char>) -> bool {
    &&& trace_id.len() == 32
    &&& forall|i: int| 0 <= i < 32 ==> is_lower_hex_char(#[trigger] trace_id[i])
    &&& exists|i: int| 0 <= i < 32 && #[trigger] trace_id[i] != '0'
}

/// True when `trace_id` is a valid W3C trace ID; provider fields are only
/// projected from such a value.
pub fn is_valid_trace_id(trace_id: &str) -> (valid: bool)
    ensures
        valid == is_valid_trace_id_text(trace_id@),
{
    if trace_id.unicode_len() != 32 {
        return false;
    }
    let mut nonzero = false;
    let mut i: usize = 0;
    while i < 32
        invariant
            trace_id@.len() == 32,
            0 <= i <= 32,
            forall|k: int| 0 <= k < i ==> is_lower_hex_char(#[trigger] trace_id@[k]),
            nonzero == exists|k: int| 0 <= k < i && #[trigger] trace_id@[k] != '0',
        decreases 32 - i,
    {
        let c = trace_id.get_char(i);
        if !(('0' <= c && c <= '9') || ('a' <= c && c <= 'f')) {
            assert(!is_lower_hex_char(trace_id@[i as int]));
            return false;
        }
        if c != '0' {
            nonzero = true;
        }
        i = i + 1;
    }
    nonzero
}

/// The X-Ray form of a W3C trace ID: `1-` and the first 8 digits, `-` and
/// the remaining 24.
pub open spec fn xray_form(trace_id: Seq<char>) -> Seq<char> {
    "1-"@ + trace_id.subrange(0, 8) + "-"@ + trace_id.subrange(8, 32)
}

/// Renders a valid W3C trace ID in the AWS X-Ray `1-8hex-24hex` form.
pub fn xray_trace_id(trace_id: &str) -> (xray: String)
    requires
        is_valid_trace_id_text(trace_id@),
    ensures
        xray@ == xray_form(trace_id@),
{
    assert(trace_id.is_ascii()) by {
        assert forall|i: int| 0 <= i < trace_id@.len() implies '\0' <= #[trigger] trace_id@[i]
            <= '\u{7f}' by {
            assert(is_lower_hex_char(trace_id@[i]));
        }
    }
    let mut xray = String::from_str("1-");
    xray.append(trace_id.substring_ascii(0, 8));
    xray.append("-");
    xray.append(trace_id.substring_ascii(8, 32));
    xray
}

// ---------------------------------------------------------------------------
// Google Cloud latency
// ---------------------------------------------------------------------------

/// One past the largest protobuf `Duration`, in milliseconds.
pub open spec fn max_latency_millis_exclusive() -> u64 {
    315_576_000_001_000
}

/// The `width` low decimal digits of `n`, zero-padded.
pub open spec fn padded_digits(n: nat, width: nat) -> Seq<u8>
    decreases width,
{
    if width == 0 {
        Seq::<u8>::empty()
    } else {
        padded_digits(n / 10, (width - 1) as nat) + seq![(0x30 + n % 10) as u8]
    }
}

/// `s` without its trailing `0` digits.
pub open spec fn trim_trailing_zeros(s: Seq<u8>) -> Seq<u8>
    decreases s.len(),
{
    if s.len() > 0 && s.last() == 0x30 {
        trim_trailing_zeros(s.drop_last())
    } else {
        s
    }
}

/// A decimal number: the digits of `whole`, then, when `frac` is not zero,
/// a point and the `width`-digit fraction `frac` without trailing zeros.
pub open spec fn decimal_text(whole: nat, frac: nat, width: nat) -> Seq<u8> {
    if frac == 0 {
        decimal_digits(whole)
    } else {
        decimal_digits(whole) + seq![0x2eu8] + trim_trailing_zeros(padded_digits(frac, width))
    }
}

/// The canonical fraction of a protobuf JSON `Duration`: none for whole
/// seconds, otherwise a point and the fewest of 3, 6 or 9 digits that hold
/// the nanoseconds exactly.
pub open spec fn canonical_fraction(nanos: nat) -> Seq<u8> {
    if nanos == 0 {
        Seq::<u8>::empty()
    } else if nanos % 1_000_000 == 0 {
        seq![0x2eu8] + padded_digits(nanos / 1_000_000, 3)
    } else if nanos % 1_000 == 0 {
        seq![0x2eu8] + padded_digits(nanos / 1_000, 6)
    } else {
        seq![0x2eu8] + padded_digits(nanos, 9)
    }
}

/// The protobuf JSON `Duration` text: whole seconds, the canonical fraction,
/// then `s`.
pub open spec fn duration_text(seconds: u64, nanos: u32) -> Seq<u8> {
    decimal_digits(seconds as nat) + canonical_fraction(nanos as nat) + seq![0x73u8]
}

/// The latency text of a whole number of milliseconds.
pub open spec fn gcp_latency_text(millis: u64) -> Seq<u8> {
    duration_text(millis / 1000, ((millis % 1000) * 1_000_000) as u32)
}

proof fn lemma_padded_digits(n: nat, width: nat)
    ensures
        padded_digits(n, width).len() == width,
        forall|i: int|
            0 <= i < width ==> 0x30 <= #[trigger] padded_digits(n, width)[i] <= 0x39,
    decreases width,
{
    if width > 0 {
        lemma_padded_digits(n / 10, (width - 1) as nat);
    }
}

fn padded_decimal(n: u64, width: u8) -> (digits: Vec<u8>)
    ensures
        digits@ == padded_digits(n as nat, width as nat),
    decreases width,
{
    if width == 0 {
        Vec::new()
    } else {
        let mut digits = padded_decimal(n / 10, width - 1);
        digits.push((0x30 + n % 10) as u8);
        assert(digits@ =~= padded_digits(n as nat, width as nat));
        digits
    }
}

proof fn lemma_trim_trailing_zeros_take(s: Seq<u8>, k: int)
    requires
        0 <= k <= s.len(),
        forall|i: int| k <= i < s.len() ==> #[trigger] s[i] == 0x30,
    ensures
        trim_trailing_zeros(s) == trim_trailing_zeros(s.take(k)),
    decreases s.len() - k,
{
    if k < s.len() {
        lemma_trim_trailing_zeros_take(s.drop_last(), k);
        assert(s.drop_last().take(k) =~= s.take(k));
    } else {
        assert(s.take(k) =~= s);
    }
}

/// The bytes of [`decimal_text`].
pub(crate) fn decimal_text_bytes(whole: u64, frac: u64, width: u8) -> (digits: Vec<u8>)
    ensures
        digits@ == decimal_text(whole as nat, frac as nat, width as nat),
        all_ascii(digits@),
{
    let mut out = decimal_bytes(whole);
    proof {
        lemma_decimal_digits_ascii(whole as nat);
    }
    if frac != 0 {
        out.push(0x2eu8);
        let fraction = padded_decimal(frac, width);
        proof {
            lemma_padded_digits(frac as nat, width as nat);
        }
        let mut end: usize = fraction.len();
        while end > 0 && fraction[end - 1] == 0x30u8
            invariant
                0 <= end <= fraction@.len(),
                forall|i: int| end <= i < fraction@.len() ==> #[trigger] fraction@[i] == 0x30,
            decreases end,
        {
            end = end - 1;
        }
        proof {
            lemma_trim_trailing_zeros_take(fraction@, end as int);
            let t = fraction@.take(end as int);
            assert(!(t.len() > 0 && t.last() == 0x30));
            assert(trim_trailing_zeros(t) == t);
        }
        let ghost base = out@;
        let mut k: usize = 0;
        while k < end
            invariant
                0 <= k <= end <= fraction@.len(),
                out@ == base + fraction@.take(k as int),
            decreases end - k,
        {
            out.push(fraction[k]);
            k = k + 1;
            assert(out@ =~= base + fraction@.take(k as int));
        }
    }
    assert(out@ =~= decimal_text(whole as nat, frac as nat, width as nat));
    proof {
        assert forall|i: int| 0 <= i < out@.len() implies #[trigger] out@[i] < 0x80u8 by {
            let d = decimal_digits(whole as nat);
            if i < d.len() {
                assert(0x30 <= d[i] <= 0x39);
            } else if frac != 0 && d.len() < i {
                let f = padded_digits(frac as nat, width as nat);
                lemma_padded_digits(frac as nat, width as nat);
                assert(out@[i] == trim_trailing_zeros(f)[i - d.len() - 1]);
                assert(trim_trailing_zeros(f) =~= f.take(trim_trailing_zeros(f).len() as int))
                    by {
                    lemma_trim_trailing_zeros_prefix(f);
                }
            }
        }
    }
    out
}

/// Renders a duration of `seconds` and `nanos` as protobuf JSON `Duration`
/// text, as Google Cloud expects for `latency`.
pub fn gcp_duration_text(seconds: u64, nanos: u32) -> (text: String)
    requires
        nanos < 1_000_000_000,
    ensures
        utf8_of(text@) == duration_text(seconds, nanos),
        text@ == ascii_chars(duration_text(seconds, nanos)),
{
    let mut out = decimal_bytes(seconds);
    proof {
        lemma_decimal_digits_ascii(seconds as nat);
    }
    if nanos != 0 {
        let (digits, width): (u64, u8) = if nanos % 1_000_000 == 0 {
            ((nanos / 1_000_000) as u64, 3)
        } else if nanos % 1_000 == 0 {
            ((nanos / 1_000) as u64, 6)
        } else {
            (nanos as u64, 9)
        };
        let fraction = padded_decimal(digits, width);
        proof {
            lemma_padded_digits(digits as nat, width as nat);
        }
        let ghost base = out@;
        out.push(0x2eu8);
        let mut k: usize = 0;
        while k < fraction.len()
            invariant
                0 <= k <= fraction@.len(),
                out@ == base + seq![0x2eu8] + fraction@.take(k as int),
            decreases fraction@.len() - k,
        {
            out.push(fraction[k]);
            k = k + 1;
            assert(out@ =~= base + seq![0x2eu8] + fraction@.take(k as int));
        }
        assert(fraction@.take(fraction@.len() as int) =~= fraction@);
        assert(out@ =~= base + canonical_fraction(nanos as nat));
    } else {
        assert(out@ =~= out@ + canonical_fraction(nanos as nat));
    }
    out.push(0x73u8);
    assert(out@ =~= duration_text(seconds, nanos));
    proof {
        let d = decimal_digits(seconds as nat);
        assert forall|i: int| 0 <= i < out@.len() implies #[trigger] out@[i] < 0x80u8 by {
            if i < d.len() {
                assert(0x30 <= d[i] <= 0x39);
            } else if nanos != 0 && d.len() < i < out@.len() - 1 {
                if nanos % 1_000_000 == 0 {
                    lemma_padded_digits((nanos / 1_000_000) as nat, 3);
                } else if nanos % 1_000 == 0 {
                    lemma_padded_digits((nanos / 1_000) as nat, 6);
                } else {
                    lemma_padded_digits(nanos as nat, 9);
                }
            }
        }
    }
    ascii_string(out.as_slice())
}

/// Renders a whole-millisecond duration as a Google Cloud `latency` value,
/// or `None` beyond the largest protobuf duration.
pub fn gcp_latency_millis(millis: u64) -> (latency: Option<String>)
    ensures
        latency is Some <==> millis < max_latency_millis_exclusive(),
        latency matches Some(t) ==> utf8_of(t@) == gcp_latency_text(millis) && t@ == ascii_chars(
            gcp_latency_text(millis),
        ),
{
    if millis >= 315_576_000_001_000 {
        return None;
    }
    let nanos = ((millis % 1000) * 1_000_000) as u32;
    Some(gcp_duration_text(millis / 1000, nanos))
}

proof fn lemma_trim_trailing_zeros_prefix(s: Seq<u8>)
    ensures
        trim_trailing_zeros(s).len() <= s.len(),
        trim_trailing_zeros(s) =~= s.take(trim_trailing_zeros(s).len() as int),
    decreases s.len(),
{
    if s.len() > 0 && s.last() == 0x30 {
        lemma_trim_trailing_zeros_prefix(s.drop_last());
        assert(s.drop_last().take(trim_trailing_zeros(s).len() as int) =~= s.take(
            trim_trailing_zeros(s).len() as int,
        ));
    } else {
        assert(s.take(s.len() as int) =~= s);
    }
}

// ---------------------------------------------------------------------------
// the JSON line of an event
// ---------------------------------------------------------------------------

/// Which members a merge keeps.
#[derive(Clone, Copy, Debug, PartialEq, Eq, Structural)]
pub enum MergeRule {
    /// Application event fields: keys an event may set.
    Event,
    /// Access enrichment under a field convention: keys enrichment may set.
    Enrichment(FieldConvention),
    /// Terminal record fields: values other than `null`.
    RecordField,
    /// Request-span fields: the correlation fields only.
    RequestField,
}

/// Whether a merge under `rule` keeps the member `key: value`.
pub open spec fn merge_keeps(rule: MergeRule, key: Seq<char>, value: JsonView) -> bool {
    match rule {
        MergeRule::Event => !is_event_reserved_name(key),
        MergeRule::Enrichment(convention) => !is_reserved_name(key, convention),
        MergeRule::RecordField => value != JsonView::Null,
        MergeRule::RequestField => is_request_field_name(key),
    }
}

/// The members of `object` that a merge under `rule` keeps.
pub open spec fn kept(object: Map<Seq<char>, JsonView>, rule: MergeRule) -> Map<
    Seq<char>,
    JsonView,
> {
    Map::new(
        |k: Seq<char>| object.contains_key(k) && merge_keeps(rule, k, object[k]),
        |k: Seq<char>| object[k],
    )
}

/// The value at `key`, if any.
pub open spec fn entry(object: Map<Seq<char>, JsonView>, key: Seq<char>) -> Option<JsonView> {
    if object.contains_key(key) {
        Some(object[key])
    } else {
        None
    }
}

/// The key that carries the level under a convention.
pub open spec fn level_key_of(convention: FieldConvention) -> Seq<char> {
    if convention == FieldConvention::Gcp {
        "severity"@
    } else {
        "level"@
    }
}

/// The envelope of every line: the event's own fields that it may set, then
/// the timestamp, the target and the level.
pub open spec fn envelope_of(
    event: Map<Seq<char>, JsonView>,
    timestamp: Seq<char>,
    target: Seq<char>,
    level: EventLevel,
    convention: FieldConvention,
) -> Map<Seq<char>, JsonView> {
    kept(event, MergeRule::Event).insert("timestamp"@, JsonView::Str(timestamp)).insert(
        "target"@,
        JsonView::Str(target),
    ).insert(level_key_of(convention), JsonView::Str(level_name_of(level, convention)))
}

/// One `httpRequest` member copied from `object[from]`, when present.
pub open spec fn copied_member(object: Map<Seq<char>, JsonView>, from: Seq<char>, to: Seq<char>) -> Seq<
    (Seq<char>, JsonView),
> {
    if object.contains_key(from) {
        seq![(to, object[from])]
    } else {
        seq![]
    }
}

/// The `latency` member: a whole number of milliseconds below the protobuf
/// limit is rendered exactly; any other number uses the text computed for it
/// outside the library; anything else has none.
pub open spec fn latency_member(duration: Option<JsonView>, fractional: Option<Seq<char>>) -> Seq<
    (Seq<char>, JsonView),
> {
    match duration {
        Some(JsonView::UInt(ms)) => if ms < max_latency_millis_exclusive() {
            seq![("latency"@, JsonView::Str(ascii_chars(gcp_latency_text(ms))))]
        } else {
            seq![]
        },
        Some(JsonView::Number(_)) => match fractional {
            Some(text) => seq![("latency"@, JsonView::Str(text))],
            None => seq![],
        },
        _ => seq![],
    }
}

/// The Google Cloud `httpRequest` object of an access line.
pub open spec fn http_request_of(
    object: Map<Seq<char>, JsonView>,
    fractional: Option<Seq<char>>,
) -> Seq<(Seq<char>, JsonView)> {
    copied_member(object, "method"@, "requestMethod"@) + copied_member(
        object,
        "path"@,
        "requestUrl"@,
    ) + copied_member(object, "status"@, "status"@) + copied_member(
        object,
        "peer_ip"@,
        "remoteIp"@,
    ) + copied_member(object, "user_agent"@, "userAgent"@) + latency_member(
        entry(object, "duration_ms"@),
        fractional,
    )
}

/// An access line: the record's non-null fields, the fixed message, the
/// enrichment members it may set, and for Google Cloud the `httpRequest`
/// object.
pub open spec fn with_access_record(
    out: Map<Seq<char>, JsonView>,
    record: Map<Seq<char>, JsonView>,
    convention: FieldConvention,
    fractional: Option<Seq<char>>,
) -> Map<Seq<char>, JsonView> {
    let merged = out.union_prefer_right(kept(record.remove("enrichment"@), MergeRule::RecordField)).insert(
        "message"@,
        JsonView::Str("request completed"@),
    );
    let enriched = match entry(record, "enrichment"@) {
        Some(JsonView::Object(members)) => merged.union_prefer_right(
            kept(object_of(members), MergeRule::Enrichment(convention)),
        ),
        _ => merged,
    };
    if convention == FieldConvention::Gcp {
        enriched.insert("httpRequest"@, JsonView::Object(http_request_of(enriched, fractional)))
    } else {
        enriched
    }
}

/// The provider trace fields projected from a valid `trace_id`.
pub open spec fn with_provider_fields(out: Map<Seq<char>, JsonView>, convention: FieldConvention) -> Map<
    Seq<char>,
    JsonView,
> {
    match entry(out, "trace_id"@) {
        Some(JsonView::Str(t)) => if is_valid_trace_id_text(t) {
            match convention {
                FieldConvention::Generic => out,
                FieldConvention::Gcp => {
                    let traced = out.insert("logging.googleapis.com/trace"@, JsonView::Str(t));
                    match entry(out, "trace_sampled"@) {
                        Some(sampled) => traced.insert(
                            "logging.googleapis.com/trace_sampled"@,
                            sampled,
                        ),
                        None => traced,
                    }
                },
                FieldConvention::Aws => out.insert("xray_trace_id"@, JsonView::Str(xray_form(t))),
                FieldConvention::Azure => {
                    let traced = out.insert("operation_Id"@, JsonView::Str(t));
                    match entry(out, "parent_id"@) {
                        Some(parent) => traced.insert("operation_ParentId"@, parent),
                        None => traced,
                    }
                },
            }
        } else {
            out
        },
        _ => out,
    }
}

/// The view of an optional value.
pub open spec fn optional_view(value: Option<JsonValue>) -> Option<JsonView> {
    match value {
        Some(v) => Some(v.view_of()),
        None => None,
    }
}

/// The view of an optional text.
pub open spec fn optional_chars(text: Option<String>) -> Option<Seq<char>> {
    match text {
        Some(t) => Some(t@),
        None => None,
    }
}

/// The JSON object written for one event: the envelope; for a trusted
/// access payload that is an object, the access record; the request span's
/// correlation fields, which replace anything else under their keys; then
/// the provider trace fields.
pub open spec fn event_record(
    event: Map<Seq<char>, JsonView>,
    access: Option<JsonView>,
    span: Map<Seq<char>, JsonView>,
    timestamp: Seq<char>,
    target: Seq<char>,
    level: EventLevel,
    convention: FieldConvention,
    fractional: Option<Seq<char>>,
) -> Map<Seq<char>, JsonView> {
    let base = envelope_of(event, timestamp, target, level, convention);
    let accessed = match access {
        Some(JsonView::Object(members)) => with_access_record(
            base,
            object_of(members),
            convention,
            fractional,
        ),
        _ => base,
    };
    with_provider_fields(
        accessed.union_prefer_right(kept(span, MergeRule::RequestField)),
        convention,
    )
}

fn merge_keeps_exec(rule: MergeRule, key: &str, value: &JsonValue) -> (keep: bool)
    ensures
        keep == merge_keeps(rule, key@, value.view_of()),
{
    match rule {
        MergeRule::Event => !is_event_reserved(key),
        MergeRule::Enrichment(convention) => !is_reserved(key, convention),
        MergeRule::RecordField => match value {
            JsonValue::Null => false,
            _ => true,
        },
        MergeRule::RequestField => is_request_field(key),
    }
}

proof fn lemma_kept_insert(
    object: Map<Seq<char>, JsonView>,
    key: Seq<char>,
    value: JsonView,
    rule: MergeRule,
)
    requires
        !object.contains_key(key),
    ensures
        kept(object.insert(key, value), rule) == (if merge_keeps(rule, key, value) {
            kept(object, rule).insert(key, value)
        } else {
            kept(object, rule)
        }),
{
    if merge_keeps(rule, key, value) {
        assert(kept(object.insert(key, value), rule) =~= kept(object, rule).insert(key, value));
    } else {
        assert(kept(object.insert(key, value), rule) =~= kept(object, rule));
    }
}

/// Adds the members of `members` that `rule` keeps, replacing earlier values.
fn merge(out: &mut FieldMap, members: Vec<(String, JsonValue)>, rule: MergeRule)
    requires
        keys_distinct(member_views(members@)),
    ensures
        final(out)@ == old(out)@.union_prefer_right(kept(object_of(member_views(members@)), rule)),
{
    let ghost all = members@;
    let ghost base = out@;
    let total = members.len();
    let mut rest = members;
    let mut k: usize = 0;
    assert(kept(object_of(member_views(all.take(0))), rule) =~= Map::empty()) by {
        assert(member_views(all.take(0)) =~= Seq::empty());
    }
    assert(base.union_prefer_right(Map::empty()) =~= base);
    while rest.len() > 0
        invariant
            0 <= k <= all.len(),
            all.len() == total,
            rest@ == all.subrange(k as int, all.len() as int),
            keys_distinct(member_views(all)),
            out@ == base.union_prefer_right(kept(object_of(member_views(all.take(k as int))), rule)),
        decreases rest@.len(),
    {
        let (key, value) = rest.remove(0);
        proof {
            let before = member_views(all.take(k as int));
            let after = member_views(all.take(k + 1));
            assert(all[k as int] == (key, value));
            assert(after.drop_last() =~= before);
            assert(after.last() == (key@, value.view_of()));
            lemma_object_contains(before, key@);
            if object_of(before).contains_key(key@) {
                let j = choose|j: int| 0 <= j < before.len() && (#[trigger] before[j]).0 == key@;
                assert(member_views(all)[j].0 == member_views(all)[k as int].0);
            }
            lemma_kept_insert(object_of(before), key@, value.view_of(), rule);
        }
        if merge_keeps_exec(rule, key.as_str(), &value) {
            let ghost kv = key@;
            let ghost vv = value.view_of();
            out.insert(key, value);
            assert(out@ =~= base.union_prefer_right(
                kept(object_of(member_views(all.take(k as int))), rule).insert(kv, vv),
            ));
        }
        k = k + 1;
    }
    assert(all.take(all.len() as int) =~= all);
}

/// Appends `to: object[from]` when `from` is present.
fn copy_as(
    object: &FieldMap,
    members: &mut Vec<(String, JsonValue)>,
    from: &str,
    to: &str,
)
    ensures
        member_views(final(members)@) == member_views(old(members)@) + copied_member(
            object@,
            from@,
            to@,
        ),
{
    let ghost before = member_views(members@);
    match object.get(from) {
        Some(value) => {
            members.push((String::from_str(to), value.copy()));
            assert(member_views(members@) =~= before + copied_member(object@, from@, to@));
        },
        None => {
            assert(member_views(members@) =~= before + copied_member(object@, from@, to@));
        },
    }
}

/// The Google Cloud `httpRequest` members of an access line.
fn http_request(object: &FieldMap, fractional_latency: Option<String>) -> (members: Vec<
    (String, JsonValue),
>)
    ensures
        member_views(members@) == http_request_of(object@, optional_chars(fractional_latency)),
{
    let mut members: Vec<(String, JsonValue)> = Vec::new();
    assert(member_views(members@) =~= Seq::empty());
    copy_as(object, &mut members, "method", "requestMethod");
    copy_as(object, &mut members, "path", "requestUrl");
    copy_as(object, &mut members, "status", "status");
    copy_as(object, &mut members, "peer_ip", "remoteIp");
    copy_as(object, &mut members, "user_agent", "userAgent");
    let ghost copied = member_views(members@);
    let ghost latency = latency_member(
        entry(object@, "duration_ms"@),
        optional_chars(fractional_latency),
    );
    match object.get("duration_ms") {
        Some(JsonValue::UInt(ms)) => {
            match gcp_latency_millis(*ms) {
                Some(text) => {
                    members.push((String::from_str("latency"), JsonValue::Str(text)));
                },
                None => {},
            }
        },
        Some(JsonValue::Number(_)) => {
            match fractional_latency {
                Some(text) => {
                    members.push((String::from_str("latency"), JsonValue::Str(text)));
                },
                None => {},
            }
        },
        _ => {},
    }
    assert(member_views(members@) =~= copied + latency);
    members
}

/// Adds the provider trace fields of `convention` when `trace_id` holds a
/// valid W3C trace ID.
fn add_provider_trace_fields(out: &mut FieldMap, convention: FieldConvention)
    ensures
        final(out)@ == with_provider_fields(old(out)@, convention),
{
    let trace_id = match out.get("trace_id") {
        Some(JsonValue::Str(t)) => if is_valid_trace_id(t.as_str()) {
            Some(t.clone())
        } else {
            None
        },
        _ => None,
    };
    match trace_id {
        None => {},
        Some(t) => match convention {
            FieldConvention::Generic => {},
            FieldConvention::Gcp => {
                let sampled = match out.get("trace_sampled") {
                    Some(v) => Some(v.copy()),
                    None => None,
                };
                out.insert(String::from_str("logging.googleapis.com/trace"), JsonValue::Str(t));
                match sampled {
                    Some(v) => out.insert(
                        String::from_str("logging.googleapis.com/trace_sampled"),
                        v,
                    ),
                    None => {},
                }
            },
            FieldConvention::Aws => {
                let xray = xray_trace_id(t.as_str());
                out.insert(String::from_str("xray_trace_id"), JsonValue::Str(xray));
            },
            FieldConvention::Azure => {
                let parent = match out.get("parent_id") {
                    Some(v) => Some(v.copy()),
                    None => None,
                };
                out.insert(String::from_str("operation_Id"), JsonValue::Str(t));
                match parent {
                    Some(v) => out.insert(String::from_str("operation_ParentId"), v),
                    None => {},
                }
            },
        },
    }
}

/// Builds the JSON object written for one event from the event's fields in
/// record order, the access payload of a trusted access callsite (parsed
/// from its carrier field), the request span's fields from the root span
/// outwards, the formatted timestamp, the target, the level and the field
/// convention. `fractional_latency` is the Google Cloud latency text of an
/// access duration that is not a whole number of milliseconds, computed with
/// floating point outside the library.
pub fn format_event(
    event: Vec<(String, JsonValue)>,
    access: Option<JsonValue>,
    span: Vec<(String, JsonValue)>,
    timestamp: String,
    target: String,
    level: EventLevel,
    convention: FieldConvention,
    fractional_latency: Option<String>,
) -> (record: FieldMap)
    ensures
        record@ == event_record(
            object_of(member_views(event@)),
            optional_view(access),
            object_of(member_views(span@)),
            timestamp@,
            target@,
            level,
            convention,
            optional_chars(fractional_latency),
        ),
{
    let ghost event_view = object_of(member_views(event@));
    let ghost span_view = object_of(member_views(span@));
    let ghost fractional = optional_chars(fractional_latency);
    let mut out = FieldMap::new();
    let event_map = FieldMap::from_members(event);
    merge(&mut out, event_map.into_members(), MergeRule::Event);
    assert(out@ =~= kept(event_view, MergeRule::Event));
    out.insert(String::from_str("timestamp"), JsonValue::Str(timestamp));
    out.insert(String::from_str("target"), JsonValue::Str(target));
    out.insert(
        String::from_str(level_key(convention)),
        JsonValue::Str(String::from_str(level_name(level, convention))),
    );
    let ghost base = out@;
    match access {
        Some(JsonValue::Object(members)) => {
            let ghost record_view = object_of(member_views(members@));
            let mut record = FieldMap::from_members(members);
            let enrichment = record.remove("enrichment");
            merge(&mut out, record.into_members(), MergeRule::RecordField);
            out.insert(
                String::from_str("message"),
                JsonValue::Str(String::from_str("request completed")),
            );
            let ghost merged = out@;
            match enrichment {
                Some(JsonValue::Object(extra)) => {
                    proof {
                        assert(member_views(extra@) =~= JsonValue::Object(extra).view_of()->Object_0);
                    }
                    let extra_map = FieldMap::from_members(extra);
                    merge(&mut out, extra_map.into_members(), MergeRule::Enrichment(convention));
                },
                _ => {},
            }
            if convention == FieldConvention::Gcp {
                let http = http_request(&out, fractional_latency);
                let value = JsonValue::Object(http);
                assert(value.view_of()->Object_0 =~= member_views(http@));
                out.insert(String::from_str("httpRequest"), value);
            }
            proof {
                assert(JsonValue::Object(members).view_of()->Object_0 =~= member_views(members@));
            }
        },
        _ => {},
    }
    let span_map = FieldMap::from_members(span);
    merge(&mut out, span_map.into_members(), MergeRule::RequestField);
    add_provider_trace_fields(&mut out, convention);
    out
}

// ---------------------------------------------------------------------------
// laws of the JSON line
// ---------------------------------------------------------------------------

/// The two objects hold the same entry under every key that `keys` admits.
pub open spec fn agree_on(
    m1: Map<Seq<char>, JsonView>,
    m2: Map<Seq<char>, JsonView>,
    keys: spec_fn(Seq<char>) -> bool,
) -> bool {
    forall|k: Seq<char>| #[trigger] keys(k) ==> entry(m1, k) == entry(m2, k)
}

/// `keys` admits every key the line's derived fields are read from.
pub open spec fn covers_read_keys(keys: spec_fn(Seq<char>) -> bool) -> bool {
    &&& keys("method"@)
    &&& keys("path"@)
    &&& keys("status"@)
    &&& keys("peer_ip"@)
    &&& keys("user_agent"@)
    &&& keys("duration_ms"@)
    &&& keys("trace_id"@)
    &&& keys("trace_sampled"@)
    &&& keys("parent_id"@)
}

proof fn lemma_agree_union(
    m1: Map<Seq<char>, JsonView>,
    m2: Map<Seq<char>, JsonView>,
    extra: Map<Seq<char>, JsonView>,
    keys: spec_fn(Seq<char>) -> bool,
)
    requires
        agree_on(m1, m2, keys),
    ensures
        agree_on(m1.union_prefer_right(extra), m2.union_prefer_right(extra), keys),
{
    assert forall|k: Seq<char>| #[trigger] keys(k) implies entry(m1.union_prefer_right(extra), k)
        == entry(m2.union_prefer_right(extra), k) by {
        assert(entry(m1, k) == entry(m2, k));
    }
}

proof fn lemma_agree_insert(
    m1: Map<Seq<char>, JsonView>,
    m2: Map<Seq<char>, JsonView>,
    key: Seq<char>,
    value: JsonView,
    keys: spec_fn(Seq<char>) -> bool,
)
    requires
        agree_on(m1, m2, keys),
    ensures
        agree_on(m1.insert(key, value), m2.insert(key, value), keys),
{
    assert forall|k: Seq<char>| #[trigger] keys(k) implies entry(m1.insert(key, value), k) == entry(
        m2.insert(key, value),
        k,
    ) by {
        assert(entry(m1, k) == entry(m2, k));
    }
}

proof fn lemma_http_request_agree(
    m1: Map<Seq<char>, JsonView>,
    m2: Map<Seq<char>, JsonView>,
    fractional: Option<Seq<char>>,
    keys: spec_fn(Seq<char>) -> bool,
)
    requires
        agree_on(m1, m2, keys),
        covers_read_keys(keys),
    ensures
        http_request_of(m1, fractional) == http_request_of(m2, fractional),
{
    assert(entry(m1, "method"@) == entry(m2, "method"@));
    assert(entry(m1, "path"@) == entry(m2, "path"@));
    assert(entry(m1, "status"@) == entry(m2, "status"@));
    assert(entry(m1, "peer_ip"@) == entry(m2, "peer_ip"@));
    assert(entry(m1, "user_agent"@) == entry(m2, "user_agent"@));
    assert(entry(m1, "duration_ms"@) == entry(m2, "duration_ms"@));
}

proof fn lemma_provider_agree(
    m1: Map<Seq<char>, JsonView>,
    m2: Map<Seq<char>, JsonView>,
    convention: FieldConvention,
    keys: spec_fn(Seq<char>) -> bool,
)
    requires
        agree_on(m1, m2, keys),
        covers_read_keys(keys),
    ensures
        agree_on(with_provider_fields(m1, convention), with_provider_fields(m2, convention), keys),
{
    assert(entry(m1, "trace_id"@) == entry(m2, "trace_id"@));
    assert(entry(m1, "trace_sampled"@) == entry(m2, "trace_sampled"@));
    assert(entry(m1, "parent_id"@) == entry(m2, "parent_id"@));
    match entry(m1, "trace_id"@) {
        Some(JsonView::Str(t)) => {
            if is_valid_trace_id_text(t) {
                match convention {
                    FieldConvention::Generic => {},
                    FieldConvention::Gcp => {
                        let v = JsonView::Str(t);
                        lemma_agree_insert(m1, m2, "logging.googleapis.com/trace"@, v, keys);
                        if m1.contains_key("trace_sampled"@) {
                            lemma_agree_insert(
                                m1.insert("logging.googleapis.com/trace"@, v),
                                m2.insert("logging.googleapis.com/trace"@, v),
                                "logging.googleapis.com/trace_sampled"@,
                                m1["trace_sampled"@],
                                keys,
                            );
                        }
                    },
                    FieldConvention::Aws => {
                        lemma_agree_insert(m1, m2, "xray_trace_id"@, JsonView::Str(xray_form(t)), keys);
                    },
                    FieldConvention::Azure => {
                        let v = JsonView::Str(t);
                        lemma_agree_insert(m1, m2, "operation_Id"@, v, keys);
                        if m1.contains_key("parent_id"@) {
                            lemma_agree_insert(
                                m1.insert("operation_Id"@, v),
                                m2.insert("operation_Id"@, v),
                                "operation_ParentId"@,
                                m1["parent_id"@],
                                keys,
                            );
                        }
                    },
                }
            }
        },
        _ => {},
    }
}

proof fn lemma_access_agree(
    m1: Map<Seq<char>, JsonView>,
    m2: Map<Seq<char>, JsonView>,
    record: Map<Seq<char>, JsonView>,
    convention: FieldConvention,
    fractional: Option<Seq<char>>,
    keys: spec_fn(Seq<char>) -> bool,
)
    requires
        agree_on(m1, m2, keys),
        covers_read_keys(keys),
    ensures
        agree_on(
            with_access_record(m1, record, convention, fractional),
            with_access_record(m2, record, convention, fractional),
            keys,
        ),
{
    let fields = kept(record.remove("enrichment"@), MergeRule::RecordField);
    let message = JsonView::Str("request completed"@);
    lemma_agree_union(m1, m2, fields, keys);
    lemma_agree_insert(
        m1.union_prefer_right(fields),
        m2.union_prefer_right(fields),
        "message"@,
        message,
        keys,
    );
    let merged1 = m1.union_prefer_right(fields).insert("message"@, message);
    let merged2 = m2.union_prefer_right(fields).insert("message"@, message);
    let (enriched1, enriched2) = match entry(record, "enrichment"@) {
        Some(JsonView::Object(members)) => {
            let extra = kept(object_of(members), MergeRule::Enrichment(convention));
            lemma_agree_union(merged1, merged2, extra, keys);
            (merged1.union_prefer_right(extra), merged2.union_prefer_right(extra))
        },
        _ => (merged1, merged2),
    };
    if convention == FieldConvention::Gcp {
        lemma_http_request_agree(enriched1, enriched2, fractional, keys);
        lemma_agree_insert(
            enriched1,
            enriched2,
            "httpRequest"@,
            JsonView::Object(http_request_of(enriched1, fractional)),
            keys,
        );
    }
}

/// Application events cannot replace correlation, envelope, access-catalog
/// or provider fields: whatever fields an event carries, the line holds the
/// same entry under every key reserved from events.
pub proof fn law_event_fields_cannot_replace_package_fields(
    event1: Map<Seq<char>, JsonView>,
    event2: Map<Seq<char>, JsonView>,
    access: Option<JsonView>,
    span: Map<Seq<char>, JsonView>,
    timestamp: Seq<char>,
    target: Seq<char>,
    level: EventLevel,
    convention: FieldConvention,
    fractional: Option<Seq<char>>,
    key: Seq<char>,
)
    requires
        is_event_reserved_name(key),
    ensures
        entry(
            event_record(event1, access, span, timestamp, target, level, convention, fractional),
            key,
        ) == entry(
            event_record(event2, access, span, timestamp, target, level, convention, fractional),
            key,
        ),
{
    let keys = |k: Seq<char>| is_event_reserved_name(k);
    let base1 = envelope_of(event1, timestamp, target, level, convention);
    let base2 = envelope_of(event2, timestamp, target, level, convention);
    assert(agree_on(base1, base2, keys)) by {
        assert forall|k: Seq<char>| #[trigger] keys(k) implies entry(base1, k) == entry(base2, k) by {
            assert(!kept(event1, MergeRule::Event).contains_key(k));
            assert(!kept(event2, MergeRule::Event).contains_key(k));
        }
    }
    assert(covers_read_keys(keys));
    let (accessed1, accessed2) = match access {
        Some(JsonView::Object(members)) => {
            lemma_access_agree(base1, base2, object_of(members), convention, fractional, keys);
            (
                with_access_record(base1, object_of(members), convention, fractional),
                with_access_record(base2, object_of(members), convention, fractional),
            )
        },
        _ => (base1, base2),
    };
    let correlation = kept(span, MergeRule::RequestField);
    lemma_agree_union(accessed1, accessed2, correlation, keys);
    lemma_provider_agree(
        accessed1.union_prefer_right(correlation),
        accessed2.union_prefer_right(correlation),
        convention,
        keys,
    );
    assert(keys(key));
}

/// Access enrichment cannot replace the access record's own fields: two
/// access payloads that differ only in their enrichment give the same entry
/// under every key reserved from enrichment under the active convention,
/// its provider fields included.
pub proof fn law_enrichment_cannot_replace_access_fields(
    event: Map<Seq<char>, JsonView>,
    record1: Seq<(Seq<char>, JsonView)>,
    record2: Seq<(Seq<char>, JsonView)>,
    span: Map<Seq<char>, JsonView>,
    timestamp: Seq<char>,
    target: Seq<char>,
    level: EventLevel,
    convention: FieldConvention,
    fractional: Option<Seq<char>>,
    key: Seq<char>,
)
    requires
        object_of(record1).remove("enrichment"@) == object_of(record2).remove("enrichment"@),
        is_reserved_name(key, convention),
    ensures
        entry(
            event_record(
                event,
                Some(JsonView::Object(record1)),
                span,
                timestamp,
                target,
                level,
                convention,
                fractional,
            ),
            key,
        ) == entry(
            event_record(
                event,
                Some(JsonView::Object(record2)),
                span,
                timestamp,
                target,
                level,
                convention,
                fractional,
            ),
            key,
        ),
{
    let keys = |k: Seq<char>| is_reserved_name(k, convention);
    assert(covers_read_keys(keys));
    let base = envelope_of(event, timestamp, target, level, convention);
    let r1 = object_of(record1);
    let r2 = object_of(record2);
    let fields = kept(r1.remove("enrichment"@), MergeRule::RecordField);
    assert(fields == kept(r2.remove("enrichment"@), MergeRule::RecordField));
    let merged = base.union_prefer_right(fields).insert(
        "message"@,
        JsonView::Str("request completed"@),
    );
    let enriched1 = match entry(r1, "enrichment"@) {
        Some(JsonView::Object(members)) => merged.union_prefer_right(
            kept(object_of(members), MergeRule::Enrichment(convention)),
        ),
        _ => merged,
    };
    let enriched2 = match entry(r2, "enrichment"@) {
        Some(JsonView::Object(members)) => merged.union_prefer_right(
            kept(object_of(members), MergeRule::Enrichment(convention)),
        ),
        _ => merged,
    };
    assert(agree_on(enriched1, enriched2, keys)) by {
        assert forall|k: Seq<char>| #[trigger] keys(k) implies entry(enriched1, k) == entry(
            enriched2,
            k,
        ) by {
            match entry(r1, "enrichment"@) {
                Some(JsonView::Object(members)) => {
                    assert(!kept(object_of(members), MergeRule::Enrichment(convention)).contains_key(k));
                },
                _ => {},
            }
            match entry(r2, "enrichment"@) {
                Some(JsonView::Object(members)) => {
                    assert(!kept(object_of(members), MergeRule::Enrichment(convention)).contains_key(k));
                },
                _ => {},
            }
        }
    }
    let accessed1 = with_access_record(base, r1, convention, fractional);
    let accessed2 = with_access_record(base, r2, convention, fractional);
    if convention == FieldConvention::Gcp {
        lemma_http_request_agree(enriched1, enriched2, fractional, keys);
        lemma_agree_insert(
            enriched1,
            enriched2,
            "httpRequest"@,
            JsonView::Object(http_request_of(enriched1, fractional)),
            keys,
        );
    }
    assert(agree_on(accessed1, accessed2, keys));
    let correlation = kept(span, MergeRule::RequestField);
    lemma_agree_union(accessed1, accessed2, correlation, keys);
    lemma_provider_agree(
        accessed1.union_prefer_right(correlation),
        accessed2.union_prefer_right(correlation),
        convention,
        keys,
    );
    assert(keys(key));
}

/// The Google Cloud `httpRequest` object renames the access fields it
/// copies: `method` becomes `requestMethod`, `path` becomes `requestUrl`,
/// `status` stays `status`, `peer_ip` becomes `remoteIp` and `user_agent`
/// becomes `userAgent`. Each renamed member holds the value of its own
/// source field, and appears only when that field is present.
pub proof fn law_http_request_renames_access_fields(
    object: Map<Seq<char>, JsonView>,
    fractional: Option<Seq<char>>,
)
    ensures
        object.contains_key("method"@) ==> http_request_of(object, fractional).contains(
            ("requestMethod"@, object["method"@]),
        ),
        object.contains_key("path"@) ==> http_request_of(object, fractional).contains(
            ("requestUrl"@, object["path"@]),
        ),
        object.contains_key("status"@) ==> http_request_of(object, fractional).contains(
            ("status"@, object["status"@]),
        ),
        object.contains_key("peer_ip"@) ==> http_request_of(object, fractional).contains(
            ("remoteIp"@, object["peer_ip"@]),
        ),
        object.contains_key("user_agent"@) ==> http_request_of(object, fractional).contains(
            ("userAgent"@, object["user_agent"@]),
        ),
        forall|i: int|
            0 <= i < http_request_of(object, fractional).len() ==> {
                let (k, v) = #[trigger] http_request_of(object, fractional)[i];
                &&& k == "requestMethod"@ ==> object.contains_key("method"@) && v
                    == object["method"@]
                &&& k == "requestUrl"@ ==> object.contains_key("path"@) && v == object["path"@]
                &&& k == "status"@ ==> object.contains_key("status"@) && v == object["status"@]
                &&& k == "remoteIp"@ ==> object.contains_key("peer_ip"@) && v
                    == object["peer_ip"@]
                &&& k == "userAgent"@ ==> object.contains_key("user_agent"@) && v
                    == object["user_agent"@]
            },
{
    reveal_strlit("requestMethod");
    reveal_strlit("requestUrl");
    reveal_strlit("status");
    reveal_strlit("remoteIp");
    reveal_strlit("userAgent");
    reveal_strlit("latency");
    let a = copied_member(object, "method"@, "requestMethod"@);
    let b = copied_member(object, "path"@, "requestUrl"@);
    let c = copied_member(object, "status"@, "status"@);
    let d = copied_member(object, "peer_ip"@, "remoteIp"@);
    let e = copied_member(object, "user_agent"@, "userAgent"@);
    let l = latency_member(entry(object, "duration_ms"@), fractional);
    let r = http_request_of(object, fractional);
    assert(r == a + b + c + d + e + l);
    assert(l.len() == 0 || l[0].0 == "latency"@);
    if object.contains_key("method"@) {
        assert(r[0] == ("requestMethod"@, object["method"@]));
    }
    if object.contains_key("path"@) {
        assert(r[a.len() as int] == ("requestUrl"@, object["path"@]));
    }
    if object.contains_key("status"@) {
        assert(r[(a.len() + b.len()) as int] == ("status"@, object["status"@]));
    }
    if object.contains_key("peer_ip"@) {
        assert(r[(a.len() + b.len() + c.len()) as int] == ("remoteIp"@, object["peer_ip"@]));
    }
    if object.contains_key("user_agent"@) {
        assert(r[(a.len() + b.len() + c.len() + d.len()) as int] == (
            "userAgent"@,
            object["user_agent"@],
        ));
    }
    assert forall|i: int| 0 <= i < r.len() implies {
        let (k, v) = #[trigger] r[i];
        &&& k == "requestMethod"@ ==> object.contains_key("method"@) && v == object["method"@]
        &&& k == "requestUrl"@ ==> object.contains_key("path"@) && v == object["path"@]
        &&& k == "status"@ ==> object.contains_key("status"@) && v == object["status"@]
        &&& k == "remoteIp"@ ==> object.contains_key("peer_ip"@) && v == object["peer_ip"@]
        &&& k == "userAgent"@ ==> object.contains_key("user_agent"@) && v
            == object["user_agent"@]
    } by {
        let n1 = a.len() as int;
        let n2 = n1 + b.len();
        let n3 = n2 + c.len();
        let n4 = n3 + d.len();
        let n5 = n4 + e.len();
        if i < n1 {
            assert(r[i] == a[i]);
            assert(r[i].0.len() == 13);
        } else if i < n2 {
            assert(r[i] == b[i - n1]);
            assert(r[i].0.len() == 10);
        } else if i < n3 {
            assert(r[i] == c[i - n2]);
            assert(r[i].0.len() == 6);
        } else if i < n4 {
            assert(r[i] == d[i - n3]);
            assert(r[i].0.len() == 8);
        } else if i < n5 {
            assert(r[i] == e[i - n4]);
            assert(r[i].0.len() == 9);
        } else {
            assert(r[i] == l[i - n5]);
            assert(r[i].0.len() == 7);
        }
    }
}

/// Provider trace fields are only projected from a valid W3C trace ID:
/// without one, the line is left as it is.
pub proof fn law_no_provider_fields_without_valid_trace(
    line: Map<Seq<char>, JsonView>,
    convention: FieldConvention,
)
    requires
        !(entry(line, "trace_id"@) matches Some(JsonView::Str(t)) && is_valid_trace_id_text(t)),
    ensures
        with_provider_fields(line, convention) == line,
{
}

// ---------------------------------------------------------------------------
// redacted diagnostics
// ---------------------------------------------------------------------------

#[verifier::external_type_specification]
#[verifier::external_body]
pub struct ExIoErrorKind(std::io::ErrorKind);

/// The `Debug` text of an I/O error kind, such as `PermissionDenied`.
pub uninterp spec fn io_error_kind_debug(kind: std::io::ErrorKind) -> Seq<char>;

/// `<std::io::ErrorKind as Debug>::fmt`: the kind's variant name, which
/// depends on the kind alone.
#[verifier::external_body]
fn io_error_kind_name(kind: std::io::ErrorKind) -> (name: String)
    ensures
        name@ == io_error_kind_debug(kind),
{
    format!("{kind:?}")
}

/// Why the formatter dropped an event.
#[derive(Clone, Copy, Debug, PartialEq, Eq)]
pub enum InternalFailure {
    /// The timestamp could not be formatted.
    Timestamp,
    /// The record could not be serialized.
    Serialization,
    /// The writer failed with this kind of I/O error.
    Write(std::io::ErrorKind),
}

/// The RFC 3339 text of the instant `unix_nanos` nanoseconds after the Unix
/// epoch, seen at the UTC offset of `offset_seconds`; none when the instant
/// or the offset is out of range or RFC 3339 cannot express the result.
pub uninterp spec fn rfc3339_text(unix_nanos: i128, offset_seconds: i32) -> Option<Seq<char>>;

/// `time::OffsetDateTime::format` with `Rfc3339`, on the instant built with
/// `OffsetDateTime::from_unix_timestamp_nanos` and moved to the offset built
/// with `UtcOffset::from_whole_seconds` by `checked_to_offset`; any error of
/// these calls gives no text. The text depends on the two numbers alone.
#[verifier::external_body]
fn rfc3339(unix_nanos: i128, offset_seconds: i32) -> (text: Option<String>)
    ensures
        optional_chars(text) == rfc3339_text(unix_nanos, offset_seconds),
{
    let offset = time::UtcOffset::from_whole_seconds(offset_seconds).ok()?;
    let instant = time::OffsetDateTime::from_unix_timestamp_nanos(unix_nanos).ok()?;
    instant.checked_to_offset(offset)?.format(&time::format_description::well_known::Rfc3339).ok()
}

/// Formats an event's timestamp, or reports the timestamp stage as the
/// reason the event is dropped.
pub fn format_timestamp(unix_nanos: i128, offset_seconds: i32) -> (timestamp: Result<
    String,
    InternalFailure,
>)
    ensures
        timestamp is Ok <==> rfc3339_text(unix_nanos, offset_seconds) is Some,
        timestamp matches Ok(t) ==> rfc3339_text(unix_nanos, offset_seconds) == Some(t@),
        timestamp matches Err(e) ==> e == InternalFailure::Timestamp,
{
    match rfc3339(unix_nanos, offset_seconds) {
        Some(text) => Ok(text),
        None => Err(InternalFailure::Timestamp),
    }
}

/// The redacted diagnostic line of a dropped event: the stage, and for writes
/// the kind of I/O error; never a payload or error text.
pub open spec fn diagnostic_text(failure: InternalFailure) -> Seq<char> {
    match failure {
        InternalFailure::Timestamp => "axum-observability: JSON event dropped; stage=timestamp\n"@,
        InternalFailure::Serialization => "axum-observability: JSON event dropped; stage=serialization\n"@,
        InternalFailure::Write(kind) => "axum-observability: JSON event dropped; stage=write; kind="@
            + io_error_kind_debug(kind) + "\n"@,
    }
}

/// The diagnostic to report for a dropped event, when reporting is enabled.
pub fn internal_diagnostic(enabled: bool, failure: InternalFailure) -> (diagnostic: Option<String>)
    ensures
        diagnostic is Some <==> enabled,
        diagnostic matches Some(d) ==> d@ == diagnostic_text(failure),
{
    if !enabled {
        return None;
    }
    let diagnostic = match failure {
        InternalFailure::Timestamp => String::from_str(
            "axum-observability: JSON event dropped; stage=timestamp\n",
        ),
        InternalFailure::Serialization => String::from_str(
            "axum-observability: JSON event dropped; stage=serialization\n",
        ),
        InternalFailure::Write(kind) => {
            let mut text = String::from_str(
                "axum-observability: JSON event dropped; stage=write; kind=",
            );
            let name = io_error_kind_name(kind);
            text.append(name.as_str());
            text.append("\n");
            text
        },
    };
    Some(diagnostic)
}

} // verus!
