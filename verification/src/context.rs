//! Request-scoped correlation values: the accepted trace context, the
//! request context installed for handlers, and static operation identifiers.

use vstd::prelude::*;
use vstd::string::StringSliceAdditionalSpecFns;
use vstd::utf8::valid_utf8;

use crate::request_id::RequestId;
use crate::text::{utf8_of, utf8_str};
use crate::TraceContextLevel;

verus! {

/// The values a [`TraceContext`] holds, with every text field taken as its
/// bytes.
pub struct TraceContextView {
    pub version: u8,
    pub trace_id: Seq<u8>,
    pub parent_id: Seq<u8>,
    pub flags: u8,
    pub level: TraceContextLevel,
    pub traceparent: Seq<u8>,
    pub tracestate: Option<Seq<u8>>,
}

/// The value of the sampled flag: bit zero of the trace flags.
pub open spec fn flag_sampled(flags: u8) -> bool {
    flags % 2 == 1
}

/// The value of the random-trace-ID flag: bit one of the trace flags.
pub open spec fn flag_random(flags: u8) -> bool {
    (flags / 2) % 2 == 1
}

/// What `trace_id_random` reports: only Level 2 assigns meaning to the flag,
/// and only for version `00`.
pub open spec fn random_projection(view: TraceContextView) -> Option<bool> {
    if view.level == TraceContextLevel::Level2 && view.version == 0 {
        Some(flag_random(view.flags))
    } else {
        None
    }
}

/// Only Level 2 gives the random-trace-ID flag a meaning, and only for
/// version `00`: every other context reports no value, whatever its flags.
pub proof fn law_random_flag_only_for_level_two_version_zero(view: TraceContextView)
    ensures
        random_projection(view) is Some <==> (view.level == TraceContextLevel::Level2
            && view.version == 0),
        random_projection(view) matches Some(random) ==> random == flag_random(view.flags),
{
}

/// Validated inbound W3C trace context.
#[derive(Debug)]
pub struct TraceContext {
    version: u8,
    trace_id: String,
    parent_id: String,
    flags: u8,
    level: TraceContextLevel,
    traceparent: Vec<u8>,
    tracestate: Option<String>,
}

/// The bytes of an optional text value.
pub open spec fn optional_utf8(text: Option<String>) -> Option<Seq<u8>> {
    match text {
        Some(s) => Some(utf8_of(s@)),
        None => None,
    }
}

impl View for TraceContext {
    type V = TraceContextView;

    closed spec fn view(&self) -> TraceContextView {
        TraceContextView {
            version: self.version,
            trace_id: utf8_of(self.trace_id@),
            parent_id: utf8_of(self.parent_id@),
            flags: self.flags,
            level: self.level,
            traceparent: self.traceparent@,
            tracestate: optional_utf8(self.tracestate),
        }
    }
}

impl Clone for TraceContext {
    fn clone(&self) -> (copy: Self)
        ensures
            copy@ == self@,
    {
        let traceparent = self.traceparent.clone();
        assert(traceparent@ =~= self.traceparent@);
        TraceContext {
            version: self.version,
            trace_id: self.trace_id.clone(),
            parent_id: self.parent_id.clone(),
            flags: self.flags,
            level: self.level,
            traceparent,
            tracestate: match &self.tracestate {
                Some(t) => Some(t.clone()),
                None => None,
            },
        }
    }
}

impl TraceContext {
    pub(crate) fn new(
        version: u8,
        trace_id: String,
        parent_id: String,
        flags: u8,
        level: TraceContextLevel,
        traceparent: Vec<u8>,
    ) -> (trace: Self)
        ensures
            trace@ == (TraceContextView {
                version,
                trace_id: utf8_of(trace_id@),
                parent_id: utf8_of(parent_id@),
                flags,
                level,
                traceparent: traceparent@,
                tracestate: None,
            }),
    {
        TraceContext { version, trace_id, parent_id, flags, level, traceparent, tracestate: None }
    }

    /// Attaches the accepted combined `tracestate`, replacing any earlier one.
    pub fn with_tracestate(self, tracestate: Option<String>) -> (trace: Self)
        ensures
            trace@ == (TraceContextView { tracestate: optional_utf8(tracestate), ..self@ }),
    {
        TraceContext { tracestate, ..self }
    }

    /// Validated 32-character lowercase trace identifier.
    pub fn trace_id(&self) -> (id: &str)
        ensures
            id.spec_bytes() == self@.trace_id,
    {
        self.trace_id.as_str()
    }

    /// Incoming 16-character lowercase parent identifier.
    pub fn parent_id(&self) -> (id: &str)
        ensures
            id.spec_bytes() == self@.parent_id,
    {
        self.parent_id.as_str()
    }

    /// Raw W3C trace flags byte.
    pub fn flags(&self) -> (flags: u8)
        ensures
            flags == self@.flags,
    {
        self.flags
    }

    /// Whether the sampled flag is set.
    pub fn sampled(&self) -> (sampled: bool)
        ensures
            sampled == flag_sampled(self@.flags),
    {
        let flags = self.flags;
        assert(flags & 1 == flags % 2) by (bit_vector);
        flags & 1 == 1
    }

    /// Selected W3C Trace Context level.
    pub fn trace_context_level(&self) -> (level: TraceContextLevel)
        ensures
            level == self@.level,
    {
        self.level
    }

    /// Whether the caller marked the trace ID as random, in Level 2 mode for
    /// version `00`. Level 1 and higher versions assign no portable meaning to
    /// the flag, so they report `None` even when bit one is set.
    pub fn trace_id_random(&self) -> (random: Option<bool>)
        ensures
            random == random_projection(self@),
    {
        match self.level {
            TraceContextLevel::Level2 => {
                if self.version == 0 {
                    let flags = self.flags;
                    assert(flags & 2 == ((flags / 2) % 2) * 2) by (bit_vector);
                    Some(flags & 2 == 2)
                } else {
                    None
                }
            },
            TraceContextLevel::Level1 => None,
        }
    }

    /// Accepted raw `traceparent` value, when it is UTF-8.
    pub fn traceparent(&self) -> (text: Option<&str>)
        ensures
            text is Some <==> valid_utf8(self@.traceparent),
            text matches Some(t) ==> t.spec_bytes() == self@.traceparent,
    {
        utf8_str(self.traceparent.as_slice())
    }

    /// Accepted raw `traceparent` bytes, including any opaque suffix.
    pub fn traceparent_bytes(&self) -> (bytes: &[u8])
        ensures
            bytes@ == self@.traceparent,
    {
        self.traceparent.as_slice()
    }

    /// Accepted combined `tracestate`, when valid.
    pub fn tracestate(&self) -> (text: Option<&str>)
        ensures
            text is Some <==> self@.tracestate is Some,
            text matches Some(t) ==> Some(t.spec_bytes()) == self@.tracestate,
    {
        match &self.tracestate {
            Some(s) => Some(s.as_str()),
            None => None,
        }
    }
}

/// The values a [`RequestContext`] holds.
pub struct RequestContextView {
    pub request_id: Seq<u8>,
    pub correlation_id: Seq<u8>,
    pub trace_context: Option<TraceContextView>,
}

/// The correlation identifier: the trace ID when valid trace context exists,
/// otherwise the request ID.
pub open spec fn correlation_of(request_id: Seq<u8>, trace: Option<TraceContextView>) -> Seq<u8> {
    match trace {
        Some(t) => t.trace_id,
        None => request_id,
    }
}

/// Correlation metadata installed in every observed request's extensions.
#[derive(Debug)]
pub struct RequestContext {
    request_id: RequestId,
    correlation_id: String,
    trace_context: Option<TraceContext>,
}

/// The view of an optional trace context.
pub open spec fn optional_trace_view(trace: Option<TraceContext>) -> Option<TraceContextView> {
    match trace {
        Some(t) => Some(t@),
        None => None,
    }
}

impl View for RequestContext {
    type V = RequestContextView;

    closed spec fn view(&self) -> RequestContextView {
        RequestContextView {
            request_id: self.request_id@,
            correlation_id: utf8_of(self.correlation_id@),
            trace_context: optional_trace_view(self.trace_context),
        }
    }
}

impl Clone for RequestContext {
    fn clone(&self) -> (copy: Self)
        ensures
            copy@ == self@,
    {
        RequestContext {
            request_id: self.request_id.clone(),
            correlation_id: self.correlation_id.clone(),
            trace_context: match &self.trace_context {
                Some(t) => Some(t.clone()),
                None => None,
            },
        }
    }
}

impl RequestContext {
    /// Combines the selected request ID with the accepted trace context.
    pub fn new(request_id: RequestId, trace_context: Option<TraceContext>) -> (context: Self)
        ensures
            context@.request_id == request_id@,
            context@.trace_context == optional_trace_view(trace_context),
            context@.correlation_id == correlation_of(
                request_id@,
                optional_trace_view(trace_context),
            ),
    {
        let correlation_id = match &trace_context {
            Some(trace) => trace.trace_id.clone(),
            None => request_id.as_str().to_owned(),
        };
        RequestContext { request_id, correlation_id, trace_context }
    }

    /// Validated or generated request identifier.
    pub fn request_id(&self) -> (id: &RequestId)
        ensures
            id@ == self@.request_id,
    {
        &self.request_id
    }

    /// Valid trace identifier, or the request identifier when no trace exists.
    pub fn correlation_id(&self) -> (id: &str)
        ensures
            id.spec_bytes() == self@.correlation_id,
    {
        self.correlation_id.as_str()
    }

    /// Validated inbound trace context.
    pub fn trace_context(&self) -> (trace: Option<&TraceContext>)
        ensures
            trace is Some <==> self@.trace_context is Some,
            trace matches Some(t) ==> Some(t@) == self@.trace_context,
    {
        match &self.trace_context {
            Some(t) => Some(t),
            None => None,
        }
    }
}

/// Rejection reported when [`RequestContext`] is requested without the
/// observability middleware installed.
#[derive(Clone, Copy, Debug, PartialEq, Eq, Structural)]
#[non_exhaustive]
pub struct MissingRequestContext;

impl MissingRequestContext {
    /// The rejection value.
    pub fn new() -> (rejection: Self) {
        MissingRequestContext
    }

    /// The fixed, non-sensitive rejection text.
    pub fn to_string(&self) -> (message: String)
        ensures
            message@ == "request context unavailable"@,
    {
        String::from_str("request context unavailable")
    }
}

/// Stable application operation name attached to request or response
/// extensions.
#[derive(Clone, Copy, Debug, PartialEq, Eq, Hash)]
pub struct OperationId(&'static str);

impl View for OperationId {
    type V = Seq<char>;

    closed spec fn view(&self) -> Seq<char> {
        self.0@
    }
}

impl OperationId {
    /// Creates an operation identifier from static route metadata.
    ///
    /// The value should be a stable semantic operation name. It must not
    /// contain request-derived or user-derived data, and it must not be empty.
    pub fn from_static(value: &'static str) -> (id: Self)
        requires
            value@.len() > 0,
        ensures
            id@ == value@,
    {
        OperationId(value)
    }

    /// Returns the operation identifier.
    pub fn as_str(&self) -> (text: &'static str)
        ensures
            text@ == self@,
            text@.len() > 0,
    {
        proof {
            use_type_invariant(self);
        }
        self.0
    }

    /// The operation identifier as owned text.
    pub fn to_string(&self) -> (text: String)
        ensures
            text@ == self@,
    {
        self.as_str().to_owned()
    }

    #[verifier::type_invariant]
    closed spec fn is_named(self) -> bool {
        self.0@.len() > 0
    }
}

impl AsRef<str> for OperationId {
    fn as_ref(&self) -> (text: &str)
        ensures
            text@ == self@,
    {
        self.as_str()
    }
}

} // verus!
