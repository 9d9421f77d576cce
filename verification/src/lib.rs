//! Request correlation and structured terminal access logging for Axum: the
//! request-ID, trace-context, access-record and JSON-line decisions, each
//! with its contract.

use vstd::prelude::*;

mod context;
mod e2e;
mod formatter;
mod json;
mod middleware;
mod request_id;
mod text;
mod trace_context;

pub use context::{
    MissingRequestContext, OperationId, RequestContext, RequestContextView, TraceContext,
    TraceContextView,
};
pub use e2e::{bearer_matches, parse_port, parse_u16, E2eCase, PortError};
pub use formatter::{
    format_event, format_timestamp, gcp_duration_text, gcp_latency_millis, internal_diagnostic,
    is_event_reserved, is_package_callsite, is_request_field, is_reserved, is_valid_trace_id, level_key, level_name,
    xray_trace_id, InternalFailure, JsonLayer, MergeRule,
};
pub use json::{FieldMap, JsonValue, JsonView};
pub use middleware::{
    access_record, accepts_baseline, body_poll_outcome, correlation_fields, default_level,
    duration_ms, exactly_one_header, has_well_formed_escapes, initial_body_outcome,
    select_request_id, select_trace_context, trace_flags_text, AccessLevel, BodyPoll, CaptureOptions, EventLevel,
    RequestIdSelection, RequestIdStep, RequestIdStepView, RequestMetadata, TerminalOutcome,
    TerminalRecord, TerminalTracker,
};
pub use request_id::{native_field_content, random_request_id, InvalidRequestId, RequestId};
pub use trace_context::{
    parse_traceparent, parse_traceparent_with_level, parse_tracestate, parse_tracestate_bytes,
    parse_tracestate_with_level,
};

verus! {

/// W3C Trace Context level used for inbound validation and projection.
#[derive(Clone, Copy, Debug, PartialEq, Eq, Structural, Hash)]
pub enum TraceContextLevel {
    /// W3C Trace Context Level 1. This is the compatibility default.
    Level1,
    /// W3C Trace Context Level 2, including the random trace-ID flag.
    Level2,
}

impl TraceContextLevel {
    /// Returns the numeric W3C Trace Context level.
    pub fn as_u8(self) -> (n: u8)
        ensures
            n == (match self {
                TraceContextLevel::Level1 => 1u8,
                TraceContextLevel::Level2 => 2u8,
            }),
    {
        match self {
            TraceContextLevel::Level1 => 1,
            TraceContextLevel::Level2 => 2,
        }
    }
}

impl Default for TraceContextLevel {
    fn default() -> (level: Self)
        ensures
            level == TraceContextLevel::Level1,
    {
        TraceContextLevel::Level1
    }
}

/// Structured logging field convention.
#[derive(Clone, Copy, Debug, PartialEq, Eq, Structural, Hash)]
#[non_exhaustive]
pub enum FieldConvention {
    /// Provider-neutral fields using `level`.
    Generic,
    /// Google Cloud structured logging fields using `severity` and
    /// `httpRequest`.
    Gcp,
    /// AWS-oriented fields, including an X-Ray-compatible trace identifier.
    Aws,
    /// Azure-oriented operation correlation fields.
    Azure,
}

impl Default for FieldConvention {
    fn default() -> (convention: Self)
        ensures
            convention == FieldConvention::Generic,
    {
        FieldConvention::Generic
    }
}

/// Version of the specification-defined Google Cloud structured-stdout
/// profile.
///
/// [`GcpProfileVersion::LATEST`] is the newest profile implemented by this
/// crate. Parsing an unsupported version fails instead of falling back.
#[derive(Clone, Copy, Debug, PartialEq, Eq, Structural, Hash)]
pub enum GcpProfileVersion {
    /// Google Cloud structured-stdout profile `0.1.0`.
    V0_1_0,
}

impl GcpProfileVersion {
    /// Newest Google Cloud profile implemented by this crate.
    pub const LATEST: GcpProfileVersion = GcpProfileVersion::V0_1_0;

    /// Returns the semantic profile version.
    pub fn as_str(self) -> (version: &'static str)
        ensures
            version@ == "0.1.0"@,
    {
        match self {
            GcpProfileVersion::V0_1_0 => "0.1.0",
        }
    }

    /// The semantic profile version as owned text.
    pub fn to_string(&self) -> (version: String)
        ensures
            version@ == "0.1.0"@,
    {
        self.as_str().to_owned()
    }

    /// Parses an exact supported profile pin.
    pub fn parse(value: &str) -> (version: Result<Self, InvalidGcpProfileVersion>)
        ensures
            version is Ok <==> value@ == "0.1.0"@,
            version matches Ok(v) ==> v == GcpProfileVersion::V0_1_0,
            version matches Err(e) ==> e == InvalidGcpProfileVersion,
    {
        if text::str_equal(value, "0.1.0") {
            Ok(GcpProfileVersion::V0_1_0)
        } else {
            Err(InvalidGcpProfileVersion)
        }
    }
}

impl Default for GcpProfileVersion {
    fn default() -> (version: Self)
        ensures
            version == GcpProfileVersion::V0_1_0,
    {
        GcpProfileVersion::V0_1_0
    }
}

impl std::str::FromStr for GcpProfileVersion {
    type Err = InvalidGcpProfileVersion;

    fn from_str(value: &str) -> (version: Result<Self, Self::Err>)
        ensures
            version is Ok <==> value@ == "0.1.0"@,
            version matches Ok(v) ==> v == GcpProfileVersion::V0_1_0,
            version matches Err(e) ==> e == InvalidGcpProfileVersion,
    {
        GcpProfileVersion::parse(value)
    }
}

/// Error returned when a Google Cloud profile version is unsupported.
#[derive(Clone, Copy, Debug, PartialEq, Eq, Structural)]
pub struct InvalidGcpProfileVersion;

impl InvalidGcpProfileVersion {
    /// The fixed error text.
    pub fn to_string(&self) -> (message: String)
        ensures
            message@ == "unsupported GCP profile version"@,
    {
        String::from_str("unsupported GCP profile version")
    }
}

} // verus!
