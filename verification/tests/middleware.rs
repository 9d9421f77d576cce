use std::cell::Cell;

use axum_observability::{
    accepts_baseline, access_record, bearer_matches, parse_port, parse_u16, E2eCase,
    FieldConvention, PortError, body_poll_outcome, correlation_fields, default_level,
    duration_ms, exactly_one_header, has_well_formed_escapes, initial_body_outcome, parse_traceparent_with_level,
    select_request_id, select_trace_context, trace_flags_text, AccessLevel, BodyPoll,
    CaptureOptions, EventLevel, JsonValue, OperationId, RequestContext, RequestId,
    RequestIdSelection, RequestIdStep, RequestMetadata, TerminalOutcome, TerminalTracker,
    TraceContextLevel,
};

const TRACEPARENT: &str = "00-4bf92f3577b34da6a3ce929d0e0e4736-00f067aa0ba902b7-01";

fn text(value: &str) -> JsonValue {
    JsonValue::Str(value.to_owned())
}

fn member(key: &str, value: JsonValue) -> (String, JsonValue) {
    (key.to_owned(), value)
}

fn is_lower_hex_32(value: &str) -> bool {
    value.len() == 32
        && value
            .bytes()
            .all(|byte| byte.is_ascii_digit() || (b'a'..=b'f').contains(&byte))
}

#[test]
fn exactly_one_text_header_value_is_used() {
    assert_eq!(exactly_one_header(&[b"agent/1.0"]).as_deref(), Some("agent/1.0"));
    assert_eq!(exactly_one_header(&[b"a\tb"]).as_deref(), Some("a\tb"));
    assert_eq!(exactly_one_header(&[]), None);
    assert_eq!(exactly_one_header(&[b"a", b"b"]), None);
    assert_eq!(exactly_one_header(&[b"caf\xc3\xa9"]), None);
    assert_eq!(exactly_one_header(&[b"bad\x01"]), None);
}

#[test]
fn accepts_one_valid_caller_request_id() {
    let (id, calls) = select_request_id(&[b"request-42"], &accepts_baseline, &|| None);
    assert_eq!(id.as_str(), "request-42");
    assert_eq!(calls, 0);
}

#[test]
fn missing_invalid_duplicate_and_comma_joined_ids_are_replaced() {
    let generated = || Some(RequestId::parse("generated").expect("valid"));
    for values in [
        Vec::<&[u8]>::new(),
        vec![b"has space"],
        vec![b"a", b"b"],
        vec![b"a,b"],
        vec![b"bad\x01"],
    ] {
        let (id, calls) = select_request_id(&values, &accepts_baseline, &generated);
        assert_eq!(id.as_str(), "generated", "{values:?}");
        assert_eq!(calls, 1);
    }
}

#[test]
fn replaces_duplicate_ids_and_invokes_the_generator_once() {
    let calls = Cell::new(0_u32);
    let generator = || {
        calls.set(calls.get() + 1);
        Some(RequestId::parse("generated-once").expect("valid"))
    };
    let (id, reported) = select_request_id(&[b"one", b"two"], &accepts_baseline, &generator);
    assert_eq!(id.as_str(), "generated-once");
    assert_eq!(calls.get(), 1);
    assert_eq!(reported, 1);
}

#[test]
fn generator_failure_is_retried_then_falls_back_without_applying_custom_validator() {
    let calls = Cell::new(0_u32);
    let generator = || {
        calls.set(calls.get() + 1);
        None
    };
    let validated = Cell::new(0_u32);
    let validator = |_: &str| {
        validated.set(validated.get() + 1);
        false
    };
    let (id, reported) = select_request_id(&[], &validator, &generator);
    assert_eq!(calls.get(), 2);
    assert_eq!(reported, 2);
    assert_eq!(validated.get(), 0);
    assert!(is_lower_hex_32(id.as_str()), "{}", id.as_str());
}

#[test]
fn generated_ids_are_not_submitted_to_the_caller_policy() {
    let calls = Cell::new(0_u32);
    let generator = || {
        calls.set(calls.get() + 1);
        Some(RequestId::parse("validator-rejected").expect("valid"))
    };
    let (id, _) = select_request_id(&[b"caller"], &|_: &str| false, &generator);
    assert_eq!(id.as_str(), "validator-rejected");
    assert_eq!(calls.get(), 1);
}

#[test]
fn custom_validator_may_admit_native_safe_values_beyond_default_grammar() {
    let long = "a".repeat(129);
    for request_id in ["id:42", long.as_str()] {
        let (id, _) = select_request_id(&[request_id.as_bytes()], &|_: &str| true, &|| None);
        assert_eq!(id.as_str(), request_id);
    }
    let (rejected, _) = select_request_id(&[b"id:42"], &accepts_baseline, &|| None);
    assert!(is_lower_hex_32(rejected.as_str()));
}

#[test]
fn selection_steps_follow_the_documented_policy() {
    let selection = RequestIdSelection::begin(&[b"caller"]);
    match selection.step() {
        RequestIdStep::Validate(value) => assert_eq!(value, "caller"),
        other => panic!("unexpected step {other:?}"),
    }
    let selection = selection.validated(false);
    assert!(selection.is_generating());
    let selection = selection.generated(None);
    assert!(selection.is_generating());
    let selection = selection.generated(None);
    assert!(matches!(selection.step(), RequestIdStep::Fallback));
    let selection = selection.fallback();
    assert!(selection.is_selected());
    assert!(is_lower_hex_32(selection.selected().as_str()));

    let accepted = RequestIdSelection::begin(&[b"caller"]).validated(true);
    assert_eq!(accepted.selected().as_str(), "caller");
}

#[test]
fn valid_trace_context_is_selected_with_its_tracestate() {
    let trace = select_trace_context(
        &[TRACEPARENT.as_bytes()],
        &[b"a=1", b"b=2"],
        TraceContextLevel::Level1,
    )
    .expect("valid traceparent");
    assert_eq!(trace.trace_id(), "4bf92f3577b34da6a3ce929d0e0e4736");
    assert_eq!(trace.tracestate(), Some("a=1,b=2"));
}

#[test]
fn invalid_tracestate_never_invalidates_a_valid_traceparent() {
    let trace = select_trace_context(
        &[TRACEPARENT.as_bytes()],
        &[b"a=1", b"a=2"],
        TraceContextLevel::Level1,
    )
    .expect("valid traceparent");
    assert_eq!(trace.tracestate(), None);
    assert!(trace.sampled());
}

#[test]
fn duplicate_or_invalid_traceparent_is_untrusted() {
    assert!(select_trace_context(
        &[TRACEPARENT.as_bytes(), TRACEPARENT.as_bytes()],
        &[],
        TraceContextLevel::Level1,
    )
    .is_none());
    assert!(select_trace_context(&[], &[b"a=1"], TraceContextLevel::Level1).is_none());
    assert!(select_trace_context(&[b"00-zz"], &[], TraceContextLevel::Level1).is_none());
}

#[test]
fn default_level_maps_status_classes() {
    assert_eq!(default_level(500), EventLevel::Error);
    assert_eq!(default_level(599), EventLevel::Error);
    assert_eq!(default_level(404), EventLevel::Warn);
    assert_eq!(default_level(400), EventLevel::Warn);
    assert_eq!(default_level(200), EventLevel::Info);
    assert_eq!(default_level(302), EventLevel::Info);
    assert_eq!(default_level(600), EventLevel::Info);
}

#[test]
fn terminal_record_is_emitted_once_with_the_outcome_level() {
    let mut tracker = TerminalTracker::new(Some(OperationId::from_static("request-op")));
    tracker.set_status(200);
    tracker.set_operation_id(OperationId::from_static("response-op"));
    let record = tracker
        .finish(TerminalOutcome::Completed)
        .expect("first finish emits");
    assert_eq!(record.status, Some(200));
    assert_eq!(record.level, AccessLevel::Mapped(200));
    assert_eq!(record.operation_id.map(|id| id.as_str()), Some("response-op"));
    assert_eq!(record.terminal_reason, None);
    assert_eq!(record.error, None);
    assert!(tracker.finish(TerminalOutcome::ResponseDropped).is_none());
    tracker.set_status(500);
    assert!(tracker.finish(TerminalOutcome::BodyError).is_none());
}

#[test]
fn abnormal_outcomes_have_fixed_levels_and_summaries() {
    let mut dropped = TerminalTracker::new(None);
    let record = dropped
        .finish(TerminalOutcome::ResponseDropped)
        .expect("record");
    assert_eq!(record.level, AccessLevel::Fixed(EventLevel::Warn));
    assert_eq!(record.terminal_reason, Some("response_dropped"));
    assert_eq!(record.error, None);

    let mut dropped_with_status = TerminalTracker::new(None);
    dropped_with_status.set_status(200);
    let record = dropped_with_status
        .finish(TerminalOutcome::ResponseDropped)
        .expect("record");
    assert_eq!(record.level, AccessLevel::Mapped(200));

    let mut service = TerminalTracker::new(None);
    let record = service.finish(TerminalOutcome::ServiceError).expect("record");
    assert_eq!(record.level, AccessLevel::Fixed(EventLevel::Error));
    assert_eq!(record.terminal_reason, Some("service_error"));
    assert_eq!(record.error, Some("downstream service failed"));

    let mut body = TerminalTracker::new(None);
    body.set_status(200);
    let record = body.finish(TerminalOutcome::BodyError).expect("record");
    assert_eq!(record.level, AccessLevel::Fixed(EventLevel::Error));
    assert_eq!(record.terminal_reason, Some("body_error"));
    assert_eq!(record.error, Some("response body failed"));
}

#[test]
fn body_events_complete_the_guard_as_documented() {
    assert_eq!(body_poll_outcome(BodyPoll::Pending, false), None);
    assert_eq!(body_poll_outcome(BodyPoll::Frame, false), None);
    assert_eq!(
        body_poll_outcome(BodyPoll::Frame, true),
        Some(TerminalOutcome::Completed)
    );
    assert_eq!(
        body_poll_outcome(BodyPoll::Failed, false),
        Some(TerminalOutcome::BodyError)
    );
    assert_eq!(
        body_poll_outcome(BodyPoll::Finished, false),
        Some(TerminalOutcome::Completed)
    );
    assert_eq!(initial_body_outcome(true), Some(TerminalOutcome::Completed));
    assert_eq!(initial_body_outcome(false), None);
}

#[test]
fn trace_flags_render_as_two_lowercase_hex_digits() {
    assert_eq!(trace_flags_text(0x01), "01");
    assert_eq!(trace_flags_text(0x03), "03");
    assert_eq!(trace_flags_text(0x0a), "0a");
    assert_eq!(trace_flags_text(0xff), "ff");
    assert_eq!(trace_flags_text(0x00), "00");
}

#[test]
fn durations_are_exact_milliseconds() {
    assert_eq!(duration_ms(0), JsonValue::UInt(0));
    assert_eq!(duration_ms(1_500_000_000), JsonValue::UInt(1_500));
    assert_eq!(duration_ms(12_500_000), JsonValue::Number("12.5".to_owned()));
    assert_eq!(duration_ms(1), JsonValue::Number("0.000001".to_owned()));
    assert_eq!(
        duration_ms(3_000_010),
        JsonValue::Number("3.00001".to_owned())
    );
}

#[test]
fn correlation_fields_follow_the_trace_context() {
    let id = RequestId::parse("request-only").expect("valid");
    let plain = RequestContext::new(id, None);
    assert_eq!(
        correlation_fields(&plain),
        vec![
            member("request_id", text("request-only")),
            member("correlation_id", text("request-only")),
        ]
    );

    let trace = parse_traceparent_with_level(
        TRACEPARENT.replace("-01", "-03").as_bytes(),
        TraceContextLevel::Level2,
    )
    .expect("valid");
    let id = RequestId::parse("req").expect("valid");
    let traced = RequestContext::new(id, Some(trace));
    assert_eq!(
        correlation_fields(&traced),
        vec![
            member("request_id", text("req")),
            member("correlation_id", text("4bf92f3577b34da6a3ce929d0e0e4736")),
            member("trace_id", text("4bf92f3577b34da6a3ce929d0e0e4736")),
            member("parent_id", text("00f067aa0ba902b7")),
            member("trace_flags", text("03")),
            member("trace_sampled", JsonValue::Bool(true)),
            member("trace_id_random", JsonValue::Bool(true)),
        ]
    );
}

#[test]
fn metadata_capture_is_default_off_and_independently_opt_in() {
    let none = CaptureOptions {
        raw_path: false,
        peer_ip: false,
        user_agent: false,
    };
    let metadata = RequestMetadata::capture(
        "GET".to_owned(),
        "/items/42".to_owned(),
        Some("/items/{id}".to_owned()),
        Some("203.0.113.9".to_owned()),
        &[b"agent"],
        none,
    );
    assert_eq!(metadata.method, "GET");
    assert_eq!(metadata.path, None);
    assert_eq!(metadata.path_template.as_deref(), Some("/items/{id}"));
    assert_eq!(metadata.peer_ip, None);
    assert_eq!(metadata.user_agent, None);

    let all = CaptureOptions {
        raw_path: true,
        peer_ip: true,
        user_agent: true,
    };
    let metadata = RequestMetadata::capture(
        "POST".to_owned(),
        "/items/42".to_owned(),
        None,
        Some("203.0.113.9".to_owned()),
        &[b"agent\tv1"],
        all,
    );
    assert_eq!(metadata.path.as_deref(), Some("/items/42"));
    assert_eq!(metadata.peer_ip.as_deref(), Some("203.0.113.9"));
    assert_eq!(metadata.user_agent.as_deref(), Some("agent\tv1"));

    let ambiguous = RequestMetadata::capture(
        "GET".to_owned(),
        "/".to_owned(),
        None,
        None,
        &[b"a", b"b"],
        all,
    );
    assert_eq!(ambiguous.user_agent, None);
}

#[test]
fn access_records_omit_absent_values_and_keep_their_order() {
    let id = RequestId::parse("req").expect("valid");
    let context = RequestContext::new(id, None);
    let metadata = RequestMetadata::capture(
        "GET".to_owned(),
        "/health".to_owned(),
        Some("/health".to_owned()),
        None,
        &[],
        CaptureOptions {
            raw_path: false,
            peer_ip: false,
            user_agent: false,
        },
    );
    let mut tracker = TerminalTracker::new(Some(OperationId::from_static("health_check")));
    tracker.set_status(200);
    let record = tracker.finish(TerminalOutcome::Completed).expect("record");
    let fields = access_record(
        &context,
        &metadata,
        &record,
        12_500_000,
        vec![member("tenant", text("public"))],
    );
    assert_eq!(
        fields,
        vec![
            member("request_id", text("req")),
            member("correlation_id", text("req")),
            member("method", text("GET")),
            member("path_template", text("/health")),
            member("operation_id", text("health_check")),
            member("status", JsonValue::UInt(200)),
            member("duration_ms", JsonValue::Number("12.5".to_owned())),
            member(
                "enrichment",
                JsonValue::Object(vec![member("tenant", text("public"))])
            ),
        ]
    );

    let mut failed = TerminalTracker::new(None);
    let record = failed.finish(TerminalOutcome::ServiceError).expect("record");
    let fields = access_record(&context, &metadata, &record, 0, Vec::new());
    assert!(fields.contains(&member("terminal_reason", text("service_error"))));
    assert!(fields.contains(&member("error", text("downstream service failed"))));
    assert!(fields.contains(&member("duration_ms", JsonValue::UInt(0))));
    assert!(!fields.iter().any(|(key, _)| key == "status"));
}

#[test]
fn consumer_cases_select_their_configuration() {
    assert_eq!(E2eCase::parse("common_level1"), Some(E2eCase::CommonLevel1));
    assert_eq!(E2eCase::parse("gcp_level1"), Some(E2eCase::GcpLevel1));
    assert_eq!(E2eCase::parse("GCP_LEVEL1"), None);
    assert_eq!(E2eCase::parse(""), None);
    assert_eq!(
        E2eCase::CommonLevel2.trace_context_level(),
        TraceContextLevel::Level2
    );
    assert_eq!(
        E2eCase::AwsLevel1.trace_context_level(),
        TraceContextLevel::Level1
    );
    assert_eq!(E2eCase::AzureLevel1.field_convention(), FieldConvention::Azure);
    assert_eq!(E2eCase::CommonLevel1.field_convention(), FieldConvention::Generic);
    assert!(E2eCase::GcpLevel1.enriches_access());
    assert!(!E2eCase::AwsLevel1.enriches_access());
}

#[test]
fn ports_parse_as_str_parse_does_and_refuse_zero() {
    assert_eq!(parse_port("8080"), Ok(8080));
    assert_eq!(parse_port("+443"), Ok(443));
    assert_eq!(parse_port("00080"), Ok(80));
    assert_eq!(parse_port("65535"), Ok(65535));
    assert_eq!(parse_port("0"), Err(PortError::Zero));
    for invalid in ["", "+", "65536", "-1", "80a", " 80", "99999999999"] {
        assert_eq!(parse_port(invalid), Err(PortError::Invalid), "{invalid:?}");
        assert_eq!(parse_u16(invalid), invalid.parse::<u16>().ok(), "{invalid:?}");
    }
    for valid in ["0", "1", "+0", "65535", "012"] {
        assert_eq!(parse_u16(valid), valid.parse::<u16>().ok(), "{valid:?}");
    }
}

#[test]
fn bearer_tokens_must_match_exactly() {
    assert!(bearer_matches("Bearer audit-canary", "audit-canary"));
    assert!(!bearer_matches("bearer audit-canary", "audit-canary"));
    assert!(!bearer_matches("Bearer audit-canary ", "audit-canary"));
    assert!(!bearer_matches("Bearer", "audit-canary"));
    assert!(!bearer_matches("audit-canary", "audit-canary"));
}

#[test]
fn valid_encoded_paths_are_preserved_and_malformed_escapes_are_omitted() {
    let options = CaptureOptions {
        raw_path: true,
        peer_ip: false,
        user_agent: false,
    };
    let capture = |path: &str| {
        RequestMetadata::capture("GET".to_owned(), path.to_owned(), None, None, &[], options).path
    };
    assert_eq!(
        capture("/objects/a%2Fb/%E2%9C%93").as_deref(),
        Some("/objects/a%2Fb/%E2%9C%93")
    );
    for malformed in [
        "/objects/bad%2",
        "/objects/bad%GG",
        "/objects/bad%2G",
        "/objects/bad%G2",
        "/a%20%G2",
        "%",
    ] {
        assert_eq!(capture(malformed), None, "{malformed}");
        assert!(!has_well_formed_escapes(malformed));
    }
    assert!(has_well_formed_escapes("/plain/path"));
    assert!(has_well_formed_escapes("%aF%00"));
}

#[test]
fn ambiguous_or_non_text_user_agent_is_omitted_but_htab_is_preserved() {
    let options = CaptureOptions {
        raw_path: false,
        peer_ip: false,
        user_agent: true,
    };
    let capture = |values: &[&[u8]]| {
        RequestMetadata::capture("GET".to_owned(), "/".to_owned(), None, None, values, options)
            .user_agent
    };
    assert_eq!(capture(&[b"first-agent", b"second-agent"]), None);
    assert_eq!(capture(&[b"\xff"]), None);
    assert_eq!(capture(&[b""]), None);
    assert_eq!(capture(&[]), None);
    assert_eq!(
        capture(&[b"agent/1\tforged"]).as_deref(),
        Some("agent/1\tforged")
    );
}
