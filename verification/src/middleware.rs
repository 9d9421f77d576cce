//! The decisions the observability middleware makes for each request:
//! which request ID is used, which trace context is trusted, when the single
//! terminal access record is emitted and at which level.

use vstd::prelude::*;
use vstd::string::StringSliceAdditionalSpecFns;

use vstd::utf8::decode_utf8;

use crate::context::{
    flag_sampled, random_projection, OperationId, RequestContext, RequestContextView,
    TraceContext, TraceContextView,
};
use crate::formatter::{decimal_text, decimal_text_bytes, optional_chars};
use crate::json::{member_views, JsonValue, JsonView};
use crate::request_id::{
    is_baseline_request_id, is_fallback_shaped, is_native_field_content, random_request_id,
    RequestId,
};
use crate::text::{ascii_chars, ascii_string, utf8_of};
use crate::trace_context::{
    hex_digit_byte, hex_pair_value, hex_value, lower_hex_digit,
    is_valid_traceparent, parse_traceparent_with_level, parse_tracestate_bytes,
    traceparent_view, tracestate_result,
};
use crate::TraceContextLevel;

verus! {

// ---------------------------------------------------------------------------
// header values
// ---------------------------------------------------------------------------

/// Bytes that `http::HeaderValue::to_str` accepts: horizontal tab and
/// visible ASCII.
pub open spec fn is_header_text(s: Seq<u8>) -> bool {
    forall|i: int| 0 <= i < s.len() ==> (#[trigger] s[i] == 0x09 || (0x20 <= s[i] <= 0x7e))
}

/// The views of a list of header values.
pub open spec fn header_views(values: Seq<&[u8]>) -> Seq<Seq<u8>> {
    values.map_values(|v: &[u8]| v@)
}

fn header_text_bytes(s: &[u8]) -> (ok: bool)
    ensures
        ok == is_header_text(s@),
{
    let mut i: usize = 0;
    while i < s.len()
        invariant
            0 <= i <= s@.len(),
            forall|k: int| 0 <= k < i ==> (#[trigger] s@[k] == 0x09 || (0x20 <= s@[k] <= 0x7e)),
        decreases s@.len() - i,
    {
        let b = s[i];
        if !(b == 0x09u8 || (0x20u8 <= b && b <= 0x7eu8)) {
            assert(!(s@[i as int] == 0x09 || (0x20 <= s@[i as int] <= 0x7e)));
            return false;
        }
        i = i + 1;
    }
    true
}

/// The text of a header that occurs exactly once with a text value.
pub open spec fn single_text_value(values: Seq<Seq<u8>>) -> Option<Seq<u8>> {
    if values.len() == 1 && is_header_text(values[0]) {
        Some(values[0])
    } else {
        None
    }
}

/// Returns the value of a header that occurs exactly once and is text;
/// repeated, absent or non-text headers are ambiguous and yield `None`.
pub fn exactly_one_header(values: &[&[u8]]) -> (text: Option<String>)
    ensures
        text is Some <==> single_text_value(header_views(values@)) is Some,
        text matches Some(t) ==> Some(utf8_of(t@)) == single_text_value(header_views(values@)),
{
    if values.len() != 1 {
        return None;
    }
    let value = values[0];
    assert(value@ == header_views(values@)[0]);
    if !header_text_bytes(value) {
        return None;
    }
    proof {
        assert forall|i: int| 0 <= i < value@.len() implies #[trigger] value@[i] < 0x80u8 by {
            assert(value@[i] == 0x09 || (0x20 <= value@[i] <= 0x7e));
        }
    }
    Some(ascii_string(value))
}

// ---------------------------------------------------------------------------
// request ID selection
// ---------------------------------------------------------------------------

/// The caller's request-ID candidate: exactly one header value that is text
/// and exact native field content.
pub open spec fn caller_candidate(values: Seq<Seq<u8>>) -> Option<Seq<u8>> {
    match single_text_value(values) {
        Some(v) => if is_native_field_content(v) {
            Some(v)
        } else {
            None
        },
        None => None,
    }
}

/// The default caller policy: accept exactly the baseline grammar.
pub fn accepts_baseline(value: &str) -> (accepted: bool)
    ensures
        accepted == is_baseline_request_id(value.spec_bytes()),
{
    RequestId::parse(value).is_ok()
}

/// What the middleware does next while selecting the request ID.
#[derive(Debug)]
pub enum RequestIdStep {
    /// Ask the configured caller policy whether to accept this caller value.
    Validate(String),
    /// Invoke the configured generator.
    Generate,
    /// Use the package-owned random identifier.
    Fallback,
    /// The request ID is selected.
    Selected(RequestId),
}

/// The request-ID selection state: the next step and the number of
/// generator calls made so far.
#[derive(Debug)]
pub struct RequestIdSelection {
    step: RequestIdStep,
    attempts: u8,
}

/// The view of a selection step.
pub enum RequestIdStepView {
    Validate(Seq<u8>),
    Generate,
    Fallback,
    Selected(Seq<u8>),
}

/// Generator calls allowed before the package-owned fallback is used.
pub open spec fn generator_attempts() -> u8 {
    2
}

impl RequestIdSelection {
    /// The step the selection is at.
    pub closed spec fn step_view(&self) -> RequestIdStepView {
        match self.step {
            RequestIdStep::Validate(text) => RequestIdStepView::Validate(utf8_of(text@)),
            RequestIdStep::Generate => RequestIdStepView::Generate,
            RequestIdStep::Fallback => RequestIdStepView::Fallback,
            RequestIdStep::Selected(id) => RequestIdStepView::Selected(id@),
        }
    }

    /// How many times the generator has been invoked.
    pub closed spec fn attempts_made(&self) -> u8 {
        self.attempts
    }

    /// An upper bound on the steps left before an ID is selected.
    pub open spec fn remaining_steps(&self) -> nat {
        let rank: nat = match self.step_view() {
            RequestIdStepView::Selected(_) => 0,
            RequestIdStepView::Fallback => 1,
            RequestIdStepView::Generate => 2,
            RequestIdStepView::Validate(_) => 3,
        };
        (generator_attempts() - self.attempts_made()) as nat * 3 + rank
    }

    /// The selection's invariant: the caller value is only ever considered
    /// before any generator call, a generator call is only requested while an
    /// attempt remains, and the fallback only after both attempts failed.
    pub open spec fn wf(&self) -> bool {
        &&& self.attempts_made() <= generator_attempts()
        &&& (self.step_view() matches RequestIdStepView::Validate(v) ==> self.attempts_made() == 0
            && is_native_field_content(v))
        &&& (self.step_view() is Generate ==> self.attempts_made() < generator_attempts())
        &&& (self.step_view() is Fallback ==> self.attempts_made() == generator_attempts())
    }

    /// Starts the selection from the values of the configured request-ID
    /// header. A single text value that is native field content goes to the
    /// caller policy; a missing, repeated or unusable value is replaced.
    pub fn begin(values: &[&[u8]]) -> (selection: Self)
        ensures
            selection.wf(),
            selection.attempts_made() == 0,
            selection.step_view() == (match caller_candidate(header_views(values@)) {
                Some(v) => RequestIdStepView::Validate(v),
                None => RequestIdStepView::Generate,
            }),
    {
        match exactly_one_header(values) {
            Some(text) => {
                if crate::request_id::native_field_content(text.as_str()) {
                    RequestIdSelection { step: RequestIdStep::Validate(text), attempts: 0 }
                } else {
                    RequestIdSelection { step: RequestIdStep::Generate, attempts: 0 }
                }
            },
            None => RequestIdSelection { step: RequestIdStep::Generate, attempts: 0 },
        }
    }

    /// The next step to perform.
    pub fn step(&self) -> (step: &RequestIdStep)
        ensures
            match (*step, self.step_view()) {
                (RequestIdStep::Validate(t), RequestIdStepView::Validate(v)) => utf8_of(t@) == v,
                (RequestIdStep::Generate, RequestIdStepView::Generate) => true,
                (RequestIdStep::Fallback, RequestIdStepView::Fallback) => true,
                (RequestIdStep::Selected(id), RequestIdStepView::Selected(v)) => id@ == v,
                _ => false,
            },
    {
        &self.step
    }

    /// Records the caller policy's answer: an accepted caller value is
    /// selected as it is; a rejected one is replaced by a generated ID.
    pub fn validated(self, accepted: bool) -> (next: Self)
        requires
            self.wf(),
            self.step_view() is Validate,
        ensures
            next.wf(),
            next.attempts_made() == self.attempts_made(),
            next.remaining_steps() < self.remaining_steps(),
            next.step_view() == (if accepted {
                RequestIdStepView::Selected(self.step_view()->Validate_0)
            } else {
                RequestIdStepView::Generate
            }),
    {
        match self.step {
            RequestIdStep::Validate(text) => {
                if accepted {
                    match RequestId::from_native_header(text.as_str()) {
                        Some(id) => RequestIdSelection {
                            step: RequestIdStep::Selected(id),
                            attempts: self.attempts,
                        },
                        None => {
                            assert(false);
                            RequestIdSelection { step: RequestIdStep::Generate, attempts: 0 }
                        },
                    }
                } else {
                    RequestIdSelection { step: RequestIdStep::Generate, attempts: self.attempts }
                }
            },
            _ => {
                assert(false);
                self
            },
        }
    }

    /// Records one generator result: a generated ID is used as it is, without
    /// the caller policy; a failed call is retried once, then the package
    /// fallback is used.
    pub fn generated(self, generated: Option<RequestId>) -> (next: Self)
        requires
            self.wf(),
            self.step_view() is Generate,
        ensures
            next.wf(),
            next.attempts_made() == self.attempts_made() + 1,
            next.remaining_steps() < self.remaining_steps(),
            next.step_view() == (match generated {
                Some(id) => RequestIdStepView::Selected(id@),
                None => if self.attempts_made() + 1 < generator_attempts() {
                    RequestIdStepView::Generate
                } else {
                    RequestIdStepView::Fallback
                },
            }),
    {
        let attempts = self.attempts + 1;
        match generated {
            Some(id) => RequestIdSelection { step: RequestIdStep::Selected(id), attempts },
            None => {
                if attempts < 2 {
                    RequestIdSelection { step: RequestIdStep::Generate, attempts }
                } else {
                    RequestIdSelection { step: RequestIdStep::Fallback, attempts }
                }
            },
        }
    }

    /// Uses the package-owned random identifier, which satisfies the
    /// baseline grammar.
    pub fn fallback(self) -> (next: Self)
        requires
            self.wf(),
            self.step_view() is Fallback,
        ensures
            next.wf(),
            next.attempts_made() == self.attempts_made(),
            next.remaining_steps() < self.remaining_steps(),
            next.step_view() is Selected,
            is_fallback_shaped(next.step_view()->Selected_0),
    {
        let id = random_request_id();
        RequestIdSelection { step: RequestIdStep::Selected(id), attempts: self.attempts }
    }
}

impl RequestIdSelection {
    /// Whether the next step is a generator call.
    pub fn is_generating(&self) -> (generating: bool)
        ensures
            generating == self.step_view() is Generate,
    {
        match self.step {
            RequestIdStep::Generate => true,
            _ => false,
        }
    }

    /// Whether an ID has been selected.
    pub fn is_selected(&self) -> (selected: bool)
        ensures
            selected == self.step_view() is Selected,
    {
        match self.step {
            RequestIdStep::Selected(_) => true,
            _ => false,
        }
    }

    /// The selected ID.
    pub fn selected(self) -> (id: RequestId)
        requires
            self.step_view() is Selected,
        ensures
            id@ == self.step_view()->Selected_0,
    {
        match self.step {
            RequestIdStep::Selected(id) => id,
            _ => {
                assert(false);
                random_request_id()
            },
        }
    }
}

/// Selection calls the generator at most twice: a generator step is only
/// reachable while fewer than two calls were made, and the fallback only
/// after both failed.
pub proof fn law_generator_called_at_most_twice(selection: RequestIdSelection)
    requires
        selection.wf(),
    ensures
        selection.attempts_made() <= 2,
        selection.step_view() is Generate ==> selection.attempts_made() < 2,
        selection.step_view() is Fallback ==> selection.attempts_made() == 2,
{
}

/// The caller policy answered `answer` for text whose bytes are `value`.
pub open spec fn policy_answered<V: Fn(&str) -> bool>(validator: V, value: Seq<u8>, answer: bool) -> bool {
    exists|text: &str| text.spec_bytes() == value && #[trigger] call_ensures(validator, (text,), answer)
}

/// `id` is the generator's result on its last of `calls` calls, every
/// earlier call having produced none; or, after two calls that produced
/// none, the package fallback: 32 lowercase hexadecimal digits.
pub open spec fn generated_or_fallback<G: Fn() -> Option<RequestId>>(
    generator: G,
    id: Seq<u8>,
    calls: u8,
) -> bool {
    ||| (1 <= calls <= 2 && (exists|g: RequestId|
        g@ == id && #[trigger] call_ensures(generator, (), Some(g))) && (calls == 2
        ==> call_ensures(generator, (), None)))
    ||| (calls == 2 && call_ensures(generator, (), None) && is_fallback_shaped(id))
}

/// The request IDs a request may be assigned, with the number of generator
/// calls made: an accepted caller candidate as it is, without any generator
/// call; otherwise, when there is no candidate or the caller policy
/// rejected it, a generated ID or the package fallback.
pub open spec fn assignable<V: Fn(&str) -> bool, G: Fn() -> Option<RequestId>>(
    values: Seq<Seq<u8>>,
    validator: V,
    generator: G,
    id: Seq<u8>,
    calls: u8,
) -> bool {
    match caller_candidate(values) {
        Some(v) => (id == v && calls == 0 && policy_answered(validator, v, true)) || (
        policy_answered(validator, v, false) && generated_or_fallback(generator, id, calls)),
        None => generated_or_fallback(generator, id, calls),
    }
}

/// Selects the request ID from the values of the configured header: the
/// single caller value when it is native field content and the caller
/// policy accepts it; otherwise a generated ID, the generator being retried
/// once when it produces none; otherwise the package-owned random fallback.
/// Generated IDs are not submitted to the caller policy. Also returns how
/// many times the generator was called.
pub fn select_request_id<V: Fn(&str) -> bool, G: Fn() -> Option<RequestId>>(
    values: &[&[u8]],
    validator: &V,
    generator: &G,
) -> (selected: (RequestId, u8))
    requires
        forall|text: &str| #[trigger] call_requires(*validator, (text,)),
        call_requires(*generator, ()),
    ensures
        assignable(header_views(values@), *validator, *generator, selected.0@, selected.1),
{
    let ghost views = header_views(values@);
    let mut selection = RequestIdSelection::begin(values);
    let mut calls: u8 = 0;
    while !selection.is_selected()
        invariant
            selection.wf(),
            calls == selection.attempts_made(),
            forall|text: &str| #[trigger] call_requires(*validator, (text,)),
            call_requires(*generator, ()),
            match selection.step_view() {
                RequestIdStepView::Validate(v) => caller_candidate(views) == Some(v),
                RequestIdStepView::Generate => (caller_candidate(views) is None
                    || policy_answered(*validator, caller_candidate(views)->0, false)) && (calls
                    >= 1 ==> call_ensures(*generator, (), None)),
                RequestIdStepView::Fallback => (caller_candidate(views) is None
                    || policy_answered(*validator, caller_candidate(views)->0, false))
                    && call_ensures(*generator, (), None),
                RequestIdStepView::Selected(x) => assignable(
                    views,
                    *validator,
                    *generator,
                    x,
                    calls,
                ),
            },
        decreases selection.remaining_steps(),
    {
        let answer = match selection.step() {
            RequestIdStep::Validate(text) => {
                let text_str = text.as_str();
                let accepted = validator(text_str);
                proof {
                    assert(call_ensures(*validator, (text_str,), accepted));
                }
                Some(accepted)
            },
            _ => None,
        };
        match answer {
            Some(accepted) => {
                selection = selection.validated(accepted);
            },
            None => {
                if selection.is_generating() {
                    let generated = generator();
                    proof {
                        if generated is Some {
                            assert(call_ensures(*generator, (), Some(generated->0)));
                        }
                    }
                    selection = selection.generated(generated);
                    calls = calls + 1;
                } else {
                    selection = selection.fallback();
                }
            },
        }
    }
    (selection.selected(), calls)
}

// ---------------------------------------------------------------------------
// trace context selection
// ---------------------------------------------------------------------------

/// The trace context trusted for a request: exactly one valid `traceparent`
/// value, with the combined `tracestate` attached when it is valid. An
/// invalid `tracestate` never invalidates a valid `traceparent`.
pub open spec fn selected_trace_context(
    traceparents: Seq<Seq<u8>>,
    tracestates: Seq<Seq<u8>>,
    level: TraceContextLevel,
) -> Option<TraceContextView> {
    if traceparents.len() == 1 && is_valid_traceparent(traceparents[0]) {
        Some(
            TraceContextView {
                tracestate: tracestate_result(tracestates, level),
                ..traceparent_view(traceparents[0], level)
            },
        )
    } else {
        None
    }
}

/// The selected trace context is read at the configured level: it carries
/// that level, the one `traceparent` value with its trace ID, parent ID and
/// flags, and, at Level 2 for version `00`, the random-trace-ID flag as bit
/// one of the flags; at Level 1 it reports no random flag.
pub proof fn law_selected_trace_context_keeps_configured_level(
    traceparents: Seq<Seq<u8>>,
    tracestates: Seq<Seq<u8>>,
    level: TraceContextLevel,
)
    ensures
        selected_trace_context(traceparents, tracestates, level) matches Some(t) ==> {
            let tp = traceparents[0];
            &&& traceparents.len() == 1
            &&& t.level == level
            &&& t.traceparent == tp
            &&& t.trace_id == tp.subrange(3, 35)
            &&& t.parent_id == tp.subrange(36, 52)
            &&& t.flags == hex_pair_value(tp[53], tp[54])
            &&& (level == TraceContextLevel::Level2 && tp[0] == 0x30 && tp[1] == 0x30
                ==> random_projection(t) == Some((t.flags / 2) % 2 == 1))
            &&& (level == TraceContextLevel::Level1 ==> random_projection(t) is None)
        },
{
    if let Some(t) = selected_trace_context(traceparents, tracestates, level) {
        let tp = traceparents[0];
        if tp[0] == 0x30 && tp[1] == 0x30 {
            assert(hex_value(0x30u8) == 0);
            assert(t.version == 0);
        }
    }
}

/// Selects the trusted trace context from the `traceparent` and
/// `tracestate` header values, in wire order.
pub fn select_trace_context(
    traceparents: &[&[u8]],
    tracestates: &[&[u8]],
    level: TraceContextLevel,
) -> (trace: Option<TraceContext>)
    ensures
        trace is Some <==> selected_trace_context(
            header_views(traceparents@),
            header_views(tracestates@),
            level,
        ) is Some,
        trace matches Some(t) ==> Some(t@) == selected_trace_context(
            header_views(traceparents@),
            header_views(tracestates@),
            level,
        ),
{
    if traceparents.len() != 1 {
        return None;
    }
    let value = traceparents[0];
    assert(value@ == header_views(traceparents@)[0]);
    match parse_traceparent_with_level(value, level) {
        Some(trace) => {
            let tracestate = parse_tracestate_bytes(tracestates, level);
            assert(header_views(tracestates@) =~= tracestates@.map_values(|v: &[u8]| v@));
            Some(trace.with_tracestate(tracestate))
        },
        None => None,
    }
}

/// A `tracestate` never decides whether a `traceparent` is trusted: the
/// same `traceparent` values give the same trace context whatever the
/// `tracestate` values are, apart from the attached `tracestate`.
pub proof fn law_tracestate_never_invalidates_traceparent(
    traceparents: Seq<Seq<u8>>,
    tracestates1: Seq<Seq<u8>>,
    tracestates2: Seq<Seq<u8>>,
    level: TraceContextLevel,
)
    ensures
        selected_trace_context(traceparents, tracestates1, level) is Some
            <==> selected_trace_context(traceparents, tracestates2, level) is Some,
        selected_trace_context(traceparents, tracestates1, level) matches Some(t1)
            ==> (TraceContextView {
            tracestate: tracestate_result(tracestates2, level),
            ..t1
        }) == selected_trace_context(traceparents, tracestates2, level)->0,
{
}

// ---------------------------------------------------------------------------
// terminal access record
// ---------------------------------------------------------------------------

/// Severity of an emitted event, mirroring `tracing::Level`.
#[derive(Clone, Copy, Debug, PartialEq, Eq, Structural, Hash)]
pub enum EventLevel {
    Trace,
    Debug,
    Info,
    Warn,
    Error,
}

/// The default status mapping: `ERROR` for 5xx, `WARN` for 4xx, `INFO`
/// otherwise.
pub open spec fn default_level_of(status: u16) -> EventLevel {
    if 500 <= status <= 599 {
        EventLevel::Error
    } else if 400 <= status <= 499 {
        EventLevel::Warn
    } else {
        EventLevel::Info
    }
}

/// Maps a final response status to the default access-record level.
pub fn default_level(status: u16) -> (level: EventLevel)
    ensures
        level == default_level_of(status),
{
    if 500 <= status && status <= 599 {
        EventLevel::Error
    } else if 400 <= status && status <= 499 {
        EventLevel::Warn
    } else {
        EventLevel::Info
    }
}

/// Status classes decide the default level: every client error (400 to
/// 499) is `WARN`, every server error (500 to 599) is `ERROR`, and every
/// other status is `INFO`.
pub proof fn law_default_level_by_status_class(status: u16)
    ensures
        400 <= status <= 499 ==> default_level_of(status) == EventLevel::Warn,
        500 <= status <= 599 ==> default_level_of(status) == EventLevel::Error,
        !(400 <= status <= 599) ==> default_level_of(status) == EventLevel::Info,
{
}

/// How a response finished.
#[derive(Clone, Copy, Debug, PartialEq, Eq, Structural)]
pub enum TerminalOutcome {
    /// The body reached its end.
    Completed,
    /// The inner service returned an error.
    ServiceError,
    /// The response body returned an error.
    BodyError,
    /// The response or service future was dropped before completion.
    ResponseDropped,
}

/// The `terminal_reason` field of an outcome; normal completion has none.
pub open spec fn terminal_reason_of(outcome: TerminalOutcome) -> Option<Seq<char>> {
    match outcome {
        TerminalOutcome::Completed => None,
        TerminalOutcome::ServiceError => Some("service_error"@),
        TerminalOutcome::BodyError => Some("body_error"@),
        TerminalOutcome::ResponseDropped => Some("response_dropped"@),
    }
}

/// The fixed, controlled `error` summary of an outcome.
pub open spec fn error_summary_of(outcome: TerminalOutcome) -> Option<Seq<char>> {
    match outcome {
        TerminalOutcome::ServiceError => Some("downstream service failed"@),
        TerminalOutcome::BodyError => Some("response body failed"@),
        _ => None,
    }
}

/// The view of an optional static text.
pub open spec fn optional_text(text: Option<&'static str>) -> Option<Seq<char>> {
    match text {
        Some(t) => Some(t@),
        None => None,
    }
}

impl TerminalOutcome {
    /// The `terminal_reason` and `error` fields the outcome contributes.
    pub fn record_fields(self) -> (fields: (Option<&'static str>, Option<&'static str>))
        ensures
            optional_text(fields.0) == terminal_reason_of(self),
            optional_text(fields.1) == error_summary_of(self),
    {
        match self {
            TerminalOutcome::Completed => (None, None),
            TerminalOutcome::ServiceError => (Some("service_error"), Some("downstream service failed")),
            TerminalOutcome::BodyError => (Some("body_error"), Some("response body failed")),
            TerminalOutcome::ResponseDropped => (Some("response_dropped"), None),
        }
    }
}

/// How the level of a terminal record is chosen.
#[derive(Clone, Copy, Debug, PartialEq, Eq, Structural)]
pub enum AccessLevel {
    /// A fixed level.
    Fixed(EventLevel),
    /// The configured status mapper's level for this status; the default
    /// mapping when the mapper fails.
    Mapped(u16),
}

/// The level rule of each outcome: normal completion and a dropped response
/// with a known status use the status mapper; service and body errors are
/// `ERROR`; a response dropped before any status is `WARN`.
pub open spec fn access_level_of(outcome: TerminalOutcome, status: Option<u16>) -> AccessLevel {
    match outcome {
        TerminalOutcome::Completed => AccessLevel::Mapped(status->0),
        TerminalOutcome::ServiceError => AccessLevel::Fixed(EventLevel::Error),
        TerminalOutcome::BodyError => AccessLevel::Fixed(EventLevel::Error),
        TerminalOutcome::ResponseDropped => match status {
            Some(s) => AccessLevel::Mapped(s),
            None => AccessLevel::Fixed(EventLevel::Warn),
        },
    }
}

/// Everything the terminal record needs from the response lifecycle.
#[derive(Debug)]
pub struct TerminalRecord {
    pub outcome: TerminalOutcome,
    pub status: Option<u16>,
    pub operation_id: Option<OperationId>,
    pub level: AccessLevel,
    pub terminal_reason: Option<&'static str>,
    pub error: Option<&'static str>,
}

/// The one-shot terminal guard of one response.
#[derive(Debug)]
pub struct TerminalTracker {
    finished: bool,
    status: Option<u16>,
    operation_id: Option<OperationId>,
}

impl TerminalTracker {
    /// Whether the terminal record has been emitted.
    pub closed spec fn is_finished(&self) -> bool {
        self.finished
    }

    /// The latest known response status.
    pub closed spec fn known_status(&self) -> Option<u16> {
        self.status
    }

    /// The operation identifier recorded so far.
    pub closed spec fn known_operation(&self) -> Option<OperationId> {
        self.operation_id
    }

    /// Starts tracking a request, with the operation identifier that was
    /// present on the request, if any.
    pub fn new(operation_id: Option<OperationId>) -> (tracker: Self)
        ensures
            !tracker.is_finished(),
            tracker.known_status() is None,
            tracker.known_operation() == operation_id,
    {
        TerminalTracker { finished: false, status: None, operation_id }
    }

    /// Whether the terminal record has been emitted.
    pub fn finished(&self) -> (finished: bool)
        ensures
            finished == self.is_finished(),
    {
        self.finished
    }

    /// The latest known response status.
    pub fn status(&self) -> (status: Option<u16>)
        ensures
            status == self.known_status(),
    {
        self.status
    }

    /// Records the response status, until the record is emitted.
    pub fn set_status(&mut self, status: u16)
        ensures
            final(self).is_finished() == old(self).is_finished(),
            final(self).known_operation() == old(self).known_operation(),
            final(self).known_status() == (if old(self).is_finished() {
                old(self).known_status()
            } else {
                Some(status)
            }),
    {
        if !self.finished {
            self.status = Some(status);
        }
    }

    /// Records the operation identifier the response carries, which takes
    /// precedence over one present on the request, until the record is
    /// emitted.
    pub fn set_operation_id(&mut self, operation_id: OperationId)
        ensures
            final(self).is_finished() == old(self).is_finished(),
            final(self).known_status() == old(self).known_status(),
            final(self).known_operation() == (if old(self).is_finished() {
                old(self).known_operation()
            } else {
                Some(operation_id)
            }),
    {
        if !self.finished {
            self.operation_id = Some(operation_id);
        }
    }

    /// Completes the guard: the first call yields the terminal record, every
    /// later call yields nothing.
    pub fn finish(&mut self, outcome: TerminalOutcome) -> (record: Option<TerminalRecord>)
        requires
            outcome == TerminalOutcome::Completed ==> old(self).is_finished() || old(
                self,
            ).known_status() is Some,
        ensures
            final(self).is_finished(),
            final(self).known_status() == old(self).known_status(),
            final(self).known_operation() == old(self).known_operation(),
            record is Some <==> !old(self).is_finished(),
            record matches Some(r) ==> {
                &&& r.outcome == outcome
                &&& r.status == old(self).known_status()
                &&& r.operation_id == old(self).known_operation()
                &&& r.level == access_level_of(outcome, old(self).known_status())
                &&& optional_text(r.terminal_reason) == terminal_reason_of(outcome)
                &&& optional_text(r.error) == error_summary_of(outcome)
            },
    {
        if self.finished {
            return None;
        }
        self.finished = true;
        let level = match outcome {
            TerminalOutcome::Completed => match self.status {
                Some(s) => AccessLevel::Mapped(s),
                None => {
                    assert(false);
                    AccessLevel::Fixed(EventLevel::Error)
                },
            },
            TerminalOutcome::ServiceError => AccessLevel::Fixed(EventLevel::Error),
            TerminalOutcome::BodyError => AccessLevel::Fixed(EventLevel::Error),
            TerminalOutcome::ResponseDropped => match self.status {
                Some(s) => AccessLevel::Mapped(s),
                None => AccessLevel::Fixed(EventLevel::Warn),
            },
        };
        let (terminal_reason, error) = outcome.record_fields();
        Some(
            TerminalRecord {
                outcome,
                status: self.status,
                operation_id: self.operation_id,
                level,
                terminal_reason,
                error,
            },
        )
    }
}

/// What one poll of the inner response body produced.
#[derive(Clone, Copy, Debug, PartialEq, Eq, Structural)]
pub enum BodyPoll {
    /// Not ready yet.
    Pending,
    /// A frame was produced.
    Frame,
    /// The body failed.
    Failed,
    /// The body reported its end.
    Finished,
}

/// The outcome a body event completes the guard with: EOF completes, an error
/// fails, and a frame after which the body reports its end completes before
/// the consumer polls again.
pub open spec fn body_outcome_of(poll: BodyPoll, end_stream: bool) -> Option<TerminalOutcome> {
    match poll {
        BodyPoll::Pending => None,
        BodyPoll::Frame => if end_stream {
            Some(TerminalOutcome::Completed)
        } else {
            None
        },
        BodyPoll::Failed => Some(TerminalOutcome::BodyError),
        BodyPoll::Finished => Some(TerminalOutcome::Completed),
    }
}

/// Decides whether a body poll completes the terminal guard.
pub fn body_poll_outcome(poll: BodyPoll, end_stream: bool) -> (outcome: Option<TerminalOutcome>)
    ensures
        outcome == body_outcome_of(poll, end_stream),
{
    match poll {
        BodyPoll::Pending => None,
        BodyPoll::Frame => if end_stream {
            Some(TerminalOutcome::Completed)
        } else {
            None
        },
        BodyPoll::Failed => Some(TerminalOutcome::BodyError),
        BodyPoll::Finished => Some(TerminalOutcome::Completed),
    }
}

/// A body that has already ended completes the guard before its EOF state is
/// exposed.
pub fn initial_body_outcome(end_stream: bool) -> (outcome: Option<TerminalOutcome>)
    ensures
        outcome == (if end_stream {
            Some(TerminalOutcome::Completed)
        } else {
            None
        }),
{
    if end_stream {
        Some(TerminalOutcome::Completed)
    } else {
        None
    }
}

} // verus!

verus! {

// ---------------------------------------------------------------------------
// correlation fields and the access record
// ---------------------------------------------------------------------------

/// The trace flags as exactly two lowercase hexadecimal characters.
pub open spec fn flags_text(flags: u8) -> Seq<char> {
    ascii_chars(seq![hex_digit_byte((flags / 16) as nat), hex_digit_byte((flags % 16) as nat)])
}

/// The emitted trace flags read back as the flags: two lowercase
/// hexadecimal digits, high nibble first, whose value is the flags byte.
pub proof fn law_flags_text_reads_back(flags: u8)
    ensures
        flags_text(flags).len() == 2,
        lower_hex_digit(flags_text(flags)[0] as u8),
        lower_hex_digit(flags_text(flags)[1] as u8),
        hex_pair_value(flags_text(flags)[0] as u8, flags_text(flags)[1] as u8) == flags,
{
    let hi = hex_digit_byte((flags / 16) as nat);
    let lo = hex_digit_byte((flags % 16) as nat);
    assert(flags_text(flags)[0] == hi as char);
    assert(flags_text(flags)[1] == lo as char);
    assert(hex_value(hi) == flags / 16);
    assert(hex_value(lo) == flags % 16);
}

/// The trace fields of a valid trace context: identifiers, flags and the
/// sampled bit, and the random-trace-ID bit where the level and version
/// give it meaning.
pub open spec fn trace_members(trace: TraceContextView) -> Seq<(Seq<char>, JsonView)> {
    seq![
        ("trace_id"@, JsonView::Str(decode_utf8(trace.trace_id))),
        ("parent_id"@, JsonView::Str(decode_utf8(trace.parent_id))),
        ("trace_flags"@, JsonView::Str(flags_text(trace.flags))),
        ("trace_sampled"@, JsonView::Bool(flag_sampled(trace.flags))),
    ] + match random_projection(trace) {
        Some(random) => seq![("trace_id_random"@, JsonView::Bool(random))],
        None => seq![],
    }
}

/// The correlation fields of a request: its request and correlation IDs,
/// then the trace fields when valid trace context exists.
pub open spec fn correlation_members(context: RequestContextView) -> Seq<(Seq<char>, JsonView)> {
    seq![
        ("request_id"@, JsonView::Str(decode_utf8(context.request_id))),
        ("correlation_id"@, JsonView::Str(decode_utf8(context.correlation_id))),
    ] + match context.trace_context {
        Some(trace) => trace_members(trace),
        None => seq![],
    }
}

fn hex_digit(n: u8) -> (digit: u8)
    requires
        n < 16,
    ensures
        digit == hex_digit_byte(n as nat),
        digit < 0x80,
{
    if n < 10 {
        0x30 + n
    } else {
        0x61 + n - 10
    }
}

/// The trace flags as two lowercase hexadecimal characters.
pub fn trace_flags_text(flags: u8) -> (text: String)
    ensures
        text@ == flags_text(flags),
{
    let mut digits: Vec<u8> = Vec::new();
    digits.push(hex_digit(flags / 16));
    digits.push(hex_digit(flags % 16));
    assert(digits@ =~= seq![
        hex_digit_byte((flags / 16) as nat),
        hex_digit_byte((flags % 16) as nat),
    ]);
    ascii_string(digits.as_slice())
}

/// The text of a `str`, as a JSON string.
fn text_value(text: &str) -> (value: JsonValue)
    ensures
        value.view_of() == JsonView::Str(decode_utf8(text.spec_bytes())),
{
    proof {
        vstd::utf8::encode_utf8_decode_utf8(text@);
    }
    JsonValue::Str(text.to_owned())
}

/// The correlation fields that the request span and the access record
/// carry.
pub fn correlation_fields(context: &RequestContext) -> (fields: Vec<(String, JsonValue)>)
    ensures
        member_views(fields@) == correlation_members(context@),
{
    let mut fields: Vec<(String, JsonValue)> = Vec::new();
    fields.push((String::from_str("request_id"), text_value(context.request_id().as_str())));
    fields.push((String::from_str("correlation_id"), text_value(context.correlation_id())));
    let ghost head = member_views(fields@);
    assert(head =~= seq![
        ("request_id"@, JsonView::Str(decode_utf8(context@.request_id))),
        ("correlation_id"@, JsonView::Str(decode_utf8(context@.correlation_id))),
    ]);
    match context.trace_context() {
        Some(trace) => {
            fields.push((String::from_str("trace_id"), text_value(trace.trace_id())));
            fields.push((String::from_str("parent_id"), text_value(trace.parent_id())));
            fields.push(
                (String::from_str("trace_flags"), JsonValue::Str(trace_flags_text(trace.flags()))),
            );
            fields.push((String::from_str("trace_sampled"), JsonValue::Bool(trace.sampled())));
            match trace.trace_id_random() {
                Some(random) => {
                    fields.push((String::from_str("trace_id_random"), JsonValue::Bool(random)));
                },
                None => {},
            }
            assert(member_views(fields@) =~= head + trace_members(trace@));
        },
        None => {
            assert(member_views(fields@) =~= head);
        },
    }
    fields
}

/// The flag members report the bits of the trace flags: `trace_sampled` is
/// bit zero, and `trace_id_random`, present exactly for Level 2 version `00`
/// contexts, is bit one, whatever bit zero holds.
pub proof fn law_flag_members_report_their_own_bits(context: RequestContextView, b: bool)
    ensures
        correlation_members(context).contains(("trace_id_random"@, JsonView::Bool(b))) ==> (
        context.trace_context matches Some(t) && t.level == TraceContextLevel::Level2 && t.version
            == 0 && b == ((t.flags / 2) % 2 == 1)),
        correlation_members(context).contains(("trace_sampled"@, JsonView::Bool(b))) ==> (
        context.trace_context matches Some(t) && b == (t.flags % 2 == 1)),
        context.trace_context matches Some(t) ==> (t.level == TraceContextLevel::Level2
            && t.version == 0 ==> correlation_members(context).contains(
            ("trace_id_random"@, JsonView::Bool((t.flags / 2) % 2 == 1)),
        )),
        context.trace_context matches Some(t) ==> correlation_members(context).contains(
            ("trace_sampled"@, JsonView::Bool(t.flags % 2 == 1)),
        ),
{
    reveal_strlit("request_id");
    reveal_strlit("correlation_id");
    reveal_strlit("trace_id");
    reveal_strlit("parent_id");
    reveal_strlit("trace_flags");
    reveal_strlit("trace_sampled");
    reveal_strlit("trace_id_random");
    let members = correlation_members(context);
    match context.trace_context {
        Some(t) => {
            assert(members[5] == ("trace_sampled"@, JsonView::Bool(t.flags % 2 == 1)));
            if t.level == TraceContextLevel::Level2 && t.version == 0 {
                assert(members[6] == (
                    "trace_id_random"@,
                    JsonView::Bool((t.flags / 2) % 2 == 1),
                ));
            }
        },
        None => {},
    }
    if members.contains(("trace_id_random"@, JsonView::Bool(b))) {
        let i = choose|i: int|
            0 <= i < members.len() && members[i] == ("trace_id_random"@, JsonView::Bool(b));
        assert(members[i].0.len() == 15);
    }
    if members.contains(("trace_sampled"@, JsonView::Bool(b))) {
        let i = choose|i: int|
            0 <= i < members.len() && members[i] == ("trace_sampled"@, JsonView::Bool(b));
        assert(members[i].0.len() == 13);
        assert(members[i].0 == "trace_sampled"@);
    }
}

/// Which optional request data a middleware configuration captures.
#[derive(Clone, Copy, Debug, PartialEq, Eq, Structural)]
pub struct CaptureOptions {
    /// Capture the query-free concrete path.
    pub raw_path: bool,
    /// Capture the trusted socket peer address.
    pub peer_ip: bool,
    /// Capture one unambiguous text `User-Agent` value.
    pub user_agent: bool,
}

/// Request data recorded on the terminal access record.
#[derive(Debug)]
pub struct RequestMetadata {
    pub method: String,
    pub path: Option<String>,
    pub path_template: Option<String>,
    pub peer_ip: Option<String>,
    pub user_agent: Option<String>,
}

/// The text of an optional header value.
pub open spec fn optional_decoded(bytes: Option<Seq<u8>>) -> Option<Seq<char>> {
    match bytes {
        Some(b) => Some(decode_utf8(b)),
        None => None,
    }
}

/// A hexadecimal digit of either case.
pub open spec fn is_hex_digit(b: u8) -> bool {
    (0x30 <= b <= 0x39) || (0x61 <= b <= 0x66) || (0x41 <= b <= 0x46)
}

/// Every `%` of a path is followed by two hexadecimal digits.
pub open spec fn escapes_well_formed(path: Seq<u8>) -> bool {
    forall|i: int|
        0 <= i < path.len() && #[trigger] path[i] == 0x25 ==> i + 2 < path.len() && is_hex_digit(
            path[i + 1],
        ) && is_hex_digit(path[i + 2])
}

/// The recorded `User-Agent`: one text value that is not empty.
pub open spec fn recorded_user_agent(values: Seq<Seq<u8>>) -> Option<Seq<char>> {
    match single_text_value(values) {
        Some(b) => if b.len() > 0 {
            Some(decode_utf8(b))
        } else {
            None
        },
        None => None,
    }
}

fn hex_digit_byte_exec(b: u8) -> (ok: bool)
    ensures
        ok == is_hex_digit(b),
{
    (0x30u8 <= b && b <= 0x39u8) || (0x61u8 <= b && b <= 0x66u8) || (0x41u8 <= b && b <= 0x46u8)
}

/// True when every `%` of the path starts a complete percent-escape.
pub fn has_well_formed_escapes(path: &str) -> (ok: bool)
    ensures
        ok == escapes_well_formed(path.spec_bytes()),
{
    let bytes = path.as_bytes();
    let n = bytes.len();
    let mut i: usize = 0;
    while i < n
        invariant
            n == bytes@.len(),
            bytes@ == path.spec_bytes(),
            0 <= i <= n,
            forall|k: int|
                0 <= k < i && #[trigger] bytes@[k] == 0x25 ==> k + 2 < n && is_hex_digit(
                    bytes@[k + 1],
                ) && is_hex_digit(bytes@[k + 2]),
        decreases n - i,
    {
        if bytes[i] == 0x25u8 {
            if n - i <= 2 || !hex_digit_byte_exec(bytes[i + 1]) || !hex_digit_byte_exec(
                bytes[i + 2],
            ) {
                assert(bytes@[i as int] == 0x25);
                return false;
            }
        }
        i = i + 1;
    }
    true
}

impl RequestMetadata {
    /// Records the method and the route template, and the concrete path, the
    /// peer address and the `User-Agent` only when their capture is enabled.
    /// A path with an incomplete or non-hexadecimal percent-escape is not
    /// recorded, nor is a repeated, non-text or empty `User-Agent`.
    pub fn capture(
        method: String,
        path: String,
        path_template: Option<String>,
        peer_ip: Option<String>,
        user_agents: &[&[u8]],
        options: CaptureOptions,
    ) -> (metadata: Self)
        ensures
            metadata.method == method,
            metadata.path == (if options.raw_path && escapes_well_formed(utf8_of(path@)) {
                Some(path)
            } else {
                None
            }),
            metadata.path_template == path_template,
            metadata.peer_ip == (if options.peer_ip {
                peer_ip
            } else {
                None
            }),
            optional_chars(metadata.user_agent) == (if options.user_agent {
                recorded_user_agent(header_views(user_agents@))
            } else {
                None
            }),
    {
        let user_agent = if options.user_agent {
            match exactly_one_header(user_agents) {
                Some(text) => {
                    proof {
                        vstd::utf8::encode_utf8_decode_utf8(text@);
                    }
                    assert(user_agents@[0]@ == header_views(user_agents@)[0]);
                    if user_agents[0].len() > 0 {
                        Some(text)
                    } else {
                        None
                    }
                },
                None => None,
            }
        } else {
            None
        };
        let path = if options.raw_path && has_well_formed_escapes(path.as_str()) {
            Some(path)
        } else {
            None
        };
        RequestMetadata {
            method,
            path,
            path_template,
            peer_ip: if options.peer_ip {
                peer_ip
            } else {
                None
            },
            user_agent,
        }
    }
}

/// A member present only with a value.
pub open spec fn optional_member(key: Seq<char>, value: Option<JsonView>) -> Seq<
    (Seq<char>, JsonView),
> {
    match value {
        Some(v) => seq![(key, v)],
        None => seq![],
    }
}

/// An optional text as an optional JSON string.
pub open spec fn optional_str(text: Option<Seq<char>>) -> Option<JsonView> {
    match text {
        Some(t) => Some(JsonView::Str(t)),
        None => None,
    }
}

/// `duration_ms`: whole milliseconds as an integer, otherwise the exact
/// decimal number of milliseconds with up to six fractional digits.
pub open spec fn duration_ms_of(nanos: u64) -> JsonView {
    if nanos % 1_000_000 == 0 {
        JsonView::UInt(nanos / 1_000_000)
    } else {
        JsonView::Number(
            ascii_chars(decimal_text((nanos / 1_000_000) as nat, (nanos % 1_000_000) as nat, 6)),
        )
    }
}

/// The members of a terminal access record, in order: the correlation
/// fields, the method, the optional request data, the status, the duration,
/// the terminal reason and error summary of abnormal outcomes, and the
/// enrichment object. Absent values are omitted rather than written as
/// `null`.
pub open spec fn access_members(
    context: RequestContextView,
    metadata: RequestMetadata,
    record: TerminalRecord,
    duration_nanos: u64,
    enrichment: Seq<(Seq<char>, JsonView)>,
) -> Seq<(Seq<char>, JsonView)> {
    correlation_members(context) + seq![("method"@, JsonView::Str(metadata.method@))]
        + optional_member("path"@, optional_str(optional_chars(metadata.path))) + optional_member(
        "path_template"@,
        optional_str(optional_chars(metadata.path_template)),
    ) + optional_member(
        "operation_id"@,
        match record.operation_id {
            Some(o) => Some(JsonView::Str(o@)),
            None => None,
        },
    ) + optional_member(
        "status"@,
        match record.status {
            Some(s) => Some(JsonView::UInt(s as u64)),
            None => None,
        },
    ) + seq![("duration_ms"@, duration_ms_of(duration_nanos))] + optional_member(
        "peer_ip"@,
        optional_str(optional_chars(metadata.peer_ip)),
    ) + optional_member("user_agent"@, optional_str(optional_chars(metadata.user_agent)))
        + optional_member("terminal_reason"@, optional_str(optional_text(record.terminal_reason)))
        + optional_member("error"@, optional_str(optional_text(record.error))) + seq![
        ("enrichment"@, JsonView::Object(enrichment)),
    ]
}

/// The JSON value of `duration_ms` for a duration in nanoseconds.
pub fn duration_ms(nanos: u64) -> (value: JsonValue)
    ensures
        value.view_of() == duration_ms_of(nanos),
{
    if nanos % 1_000_000 == 0 {
        JsonValue::UInt(nanos / 1_000_000)
    } else {
        let digits = decimal_text_bytes(nanos / 1_000_000, nanos % 1_000_000, 6);
        JsonValue::Number(ascii_string(digits.as_slice()))
    }
}

fn push_text(fields: &mut Vec<(String, JsonValue)>, key: &str, text: &Option<String>)
    ensures
        member_views(final(fields)@) == member_views(old(fields)@) + optional_member(
            key@,
            optional_str(optional_chars(*text)),
        ),
{
    let ghost before = member_views(fields@);
    match text {
        Some(t) => {
            fields.push((String::from_str(key), JsonValue::Str(t.clone())));
        },
        None => {},
    }
    assert(member_views(fields@) =~= before + optional_member(
        key@,
        optional_str(optional_chars(*text)),
    ));
}

fn push_static(fields: &mut Vec<(String, JsonValue)>, key: &str, text: Option<&'static str>)
    ensures
        member_views(final(fields)@) == member_views(old(fields)@) + optional_member(
            key@,
            optional_str(optional_text(text)),
        ),
{
    let ghost before = member_views(fields@);
    match text {
        Some(t) => {
            fields.push((String::from_str(key), JsonValue::Str(String::from_str(t))));
        },
        None => {},
    }
    assert(member_views(fields@) =~= before + optional_member(
        key@,
        optional_str(optional_text(text)),
    ));
}

/// Builds the members of the terminal access record of a request.
pub fn access_record(
    context: &RequestContext,
    metadata: &RequestMetadata,
    record: &TerminalRecord,
    duration_nanos: u64,
    enrichment: Vec<(String, JsonValue)>,
) -> (fields: Vec<(String, JsonValue)>)
    ensures
        member_views(fields@) == access_members(
            context@,
            *metadata,
            *record,
            duration_nanos,
            member_views(enrichment@),
        ),
{
    let mut fields = correlation_fields(context);
    let ghost s0 = member_views(fields@);
    fields.push((String::from_str("method"), JsonValue::Str(metadata.method.clone())));
    let ghost s1 = member_views(fields@);
    assert(s1 =~= s0 + seq![("method"@, JsonView::Str(metadata.method@))]);
    push_text(&mut fields, "path", &metadata.path);
    push_text(&mut fields, "path_template", &metadata.path_template);
    let ghost s2 = member_views(fields@);
    match record.operation_id {
        Some(o) => {
            fields.push((String::from_str("operation_id"), JsonValue::Str(o.to_string())));
        },
        None => {},
    }
    let ghost s3 = member_views(fields@);
    assert(s3 =~= s2 + optional_member(
        "operation_id"@,
        match record.operation_id {
            Some(o) => Some(JsonView::Str(o@)),
            None => None,
        },
    ));
    match record.status {
        Some(s) => {
            fields.push((String::from_str("status"), JsonValue::UInt(s as u64)));
        },
        None => {},
    }
    let ghost s4 = member_views(fields@);
    assert(s4 =~= s3 + optional_member(
        "status"@,
        match record.status {
            Some(s) => Some(JsonView::UInt(s as u64)),
            None => None,
        },
    ));
    fields.push((String::from_str("duration_ms"), duration_ms(duration_nanos)));
    let ghost s5 = member_views(fields@);
    assert(s5 =~= s4 + seq![("duration_ms"@, duration_ms_of(duration_nanos))]);
    push_text(&mut fields, "peer_ip", &metadata.peer_ip);
    push_text(&mut fields, "user_agent", &metadata.user_agent);
    push_static(&mut fields, "terminal_reason", record.terminal_reason);
    push_static(&mut fields, "error", record.error);
    let ghost s6 = member_views(fields@);
    let object = JsonValue::Object(enrichment);
    assert(object.view_of()->Object_0 =~= member_views(enrichment@));
    fields.push((String::from_str("enrichment"), object));
    assert(member_views(fields@) =~= s6 + seq![
        ("enrichment"@, JsonView::Object(member_views(enrichment@))),
    ]);
    fields
}


/// An access record never holds a `null` placeholder: absent optional
/// values are omitted.
pub proof fn law_access_record_has_no_null_values(
    context: RequestContextView,
    metadata: RequestMetadata,
    record: TerminalRecord,
    duration_nanos: u64,
    enrichment: Seq<(Seq<char>, JsonView)>,
    i: int,
)
    requires
        0 <= i < access_members(context, metadata, record, duration_nanos, enrichment).len(),
    ensures
        access_members(context, metadata, record, duration_nanos, enrichment)[i].1
            != JsonView::Null,
{
    let members = access_members(context, metadata, record, duration_nanos, enrichment);
    let correlation = correlation_members(context);
    assert forall|j: int| 0 <= j < correlation.len() implies (#[trigger] correlation[j]).1
        != JsonView::Null by {
        match context.trace_context {
            Some(trace) => {
                let head = seq![
                    ("request_id"@, JsonView::Str(decode_utf8(context.request_id))),
                    ("correlation_id"@, JsonView::Str(decode_utf8(context.correlation_id))),
                ];
                if j >= 2 {
                    assert(correlation[j] == trace_members(trace)[j - 2]);
                }
            },
            None => {},
        }
    }
    assert(forall|j: int|
        0 <= j < members.len() ==> #[trigger] members[j].1 != JsonView::Null);
}

/// The access record carries the request's correlation fields itself, the
/// same ones the request span carries, so it stays complete when the
/// request span is filtered out.
pub proof fn law_access_record_carries_correlation(
    context: RequestContextView,
    metadata: RequestMetadata,
    record: TerminalRecord,
    duration_nanos: u64,
    enrichment: Seq<(Seq<char>, JsonView)>,
)
    ensures
        access_members(context, metadata, record, duration_nanos, enrichment).take(
            correlation_members(context).len() as int,
        ) == correlation_members(context),
{
    let members = access_members(context, metadata, record, duration_nanos, enrichment);
    assert(members.take(correlation_members(context).len() as int) =~= correlation_members(
        context,
    ));
}

} // verus!
