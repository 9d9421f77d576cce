use axum_observability::{
    format_event, format_timestamp, gcp_duration_text, gcp_latency_millis, internal_diagnostic,
    is_event_reserved, is_package_callsite,
    is_request_field, is_reserved, is_valid_trace_id, level_key, level_name, xray_trace_id,
    EventLevel, FieldConvention, FieldMap, InternalFailure, JsonValue,
};

const TRACE_ID: &str = "4bf92f3577b34da6a3ce929d0e0e4736";

fn text(value: &str) -> JsonValue {
    JsonValue::Str(value.to_owned())
}

fn member(key: &str, value: JsonValue) -> (String, JsonValue) {
    (key.to_owned(), value)
}

fn line(
    event: Vec<(String, JsonValue)>,
    access: Option<JsonValue>,
    span: Vec<(String, JsonValue)>,
    convention: FieldConvention,
) -> FieldMap {
    format_event(
        event,
        access,
        span,
        "2024-01-01T00:00:00Z".to_owned(),
        "app".to_owned(),
        EventLevel::Info,
        convention,
        None,
    )
}

fn span_with_trace() -> Vec<(String, JsonValue)> {
    vec![
        member("request_id", text("req-1")),
        member("correlation_id", text(TRACE_ID)),
        member("trace_id", text(TRACE_ID)),
        member("parent_id", text("00f067aa0ba902b7")),
        member("trace_flags", text("01")),
        member("trace_sampled", JsonValue::Bool(true)),
    ]
}

#[test]
fn diagnostics_are_suppressible_fixed_and_redacted() {
    assert_eq!(internal_diagnostic(false, InternalFailure::Timestamp), None);
    assert_eq!(
        internal_diagnostic(true, InternalFailure::Timestamp).as_deref(),
        Some("axum-observability: JSON event dropped; stage=timestamp\n")
    );
    assert_eq!(
        internal_diagnostic(true, InternalFailure::Serialization).as_deref(),
        Some("axum-observability: JSON event dropped; stage=serialization\n")
    );
    let write = internal_diagnostic(
        true,
        InternalFailure::Write(std::io::ErrorKind::PermissionDenied),
    )
    .expect("write diagnostic");
    assert_eq!(
        write,
        "axum-observability: JSON event dropped; stage=write; kind=PermissionDenied\n"
    );
    assert!(!write.contains("request"));
}

#[test]
fn write_diagnostics_name_other_error_kinds() {
    assert_eq!(
        internal_diagnostic(true, InternalFailure::Write(std::io::ErrorKind::BrokenPipe))
            .as_deref(),
        Some("axum-observability: JSON event dropped; stage=write; kind=BrokenPipe\n")
    );
    assert_eq!(
        internal_diagnostic(false, InternalFailure::Write(std::io::ErrorKind::BrokenPipe)),
        None
    );
}

#[test]
fn gcp_uses_canonical_cloud_logging_severity_names() {
    let levels = [
        EventLevel::Trace,
        EventLevel::Debug,
        EventLevel::Info,
        EventLevel::Warn,
        EventLevel::Error,
    ];
    let severities = levels
        .iter()
        .map(|level| level_name(*level, FieldConvention::Gcp))
        .collect::<Vec<_>>();
    assert_eq!(severities, ["DEBUG", "DEBUG", "INFO", "WARNING", "ERROR"]);
    let names = levels
        .iter()
        .map(|level| level_name(*level, FieldConvention::Generic))
        .collect::<Vec<_>>();
    assert_eq!(names, ["TRACE", "DEBUG", "INFO", "WARN", "ERROR"]);
    assert_eq!(level_key(FieldConvention::Gcp), "severity");
    assert_eq!(level_key(FieldConvention::Aws), "level");
}

#[test]
fn reserved_key_policies_follow_their_sources() {
    for key in [
        "request_id",
        "trace_id_random",
        "timestamp",
        "severity",
        "method",
        "terminal_reason",
        "httpRequest",
        "xray_trace_id",
        "operation_ParentId",
        "logging.googleapis.com/future",
        "obs.internal",
        "obs.record",
    ] {
        assert!(is_event_reserved(key), "{key} must be reserved from events");
    }
    for key in ["message", "error", "answer", "logging", "obs", "_obs_internal"] {
        assert!(!is_event_reserved(key), "{key} belongs to events");
    }
    for key in ["request_id", "status", "target", "message", "error", "obs.record"] {
        assert!(
            is_reserved(key, FieldConvention::Generic),
            "{key} must be reserved from enrichment"
        );
    }
    for key in [
        "tenant",
        "logging.googleapis.com/trace",
        "logging.googleapis.com/spanId",
        "httpRequest",
        "xray_trace_id",
        "operation_Id",
        "obs.internal",
        "remote_ip",
    ] {
        assert!(
            !is_reserved(key, FieldConvention::Generic),
            "{key} may be enriched"
        );
    }
    assert!(is_request_field("correlation_id"));
    assert!(!is_request_field("method"));
}

#[test]
fn trace_ids_must_be_32_lowercase_hex_digits_not_all_zero() {
    assert!(is_valid_trace_id(TRACE_ID));
    for invalid in [
        "short".to_owned(),
        "abc".to_owned(),
        "g".repeat(32),
        "0".repeat(32),
        TRACE_ID.to_uppercase(),
        format!("{TRACE_ID}0"),
    ] {
        assert!(!is_valid_trace_id(&invalid), "accepted {invalid}");
    }
}

#[test]
fn xray_form_splits_the_trace_id_after_eight_digits() {
    assert_eq!(
        xray_trace_id(TRACE_ID),
        "1-4bf92f35-77b34da6a3ce929d0e0e4736"
    );
}

#[test]
fn gcp_latency_of_whole_milliseconds_is_exact() {
    assert_eq!(gcp_latency_millis(0).as_deref(), Some("0s"));
    assert_eq!(gcp_latency_millis(12).as_deref(), Some("0.012s"));
    assert_eq!(gcp_latency_millis(1_500).as_deref(), Some("1.500s"));
    assert_eq!(gcp_latency_millis(2_000).as_deref(), Some("2s"));
    assert_eq!(
        gcp_latency_millis(315_576_000_000_000).as_deref(),
        Some("315576000000s")
    );
    assert_eq!(
        gcp_latency_millis(315_576_000_000_999).as_deref(),
        Some("315576000000.999s")
    );
    assert_eq!(gcp_latency_millis(315_576_000_001_000), None);
    assert_eq!(gcp_latency_millis(u64::MAX), None);
}

#[test]
fn gcp_duration_text_uses_canonical_fraction_widths() {
    assert_eq!(gcp_duration_text(0, 12_500_000), "0.012500s");
    assert_eq!(gcp_duration_text(3, 0), "3s");
    assert_eq!(gcp_duration_text(0, 1), "0.000000001s");
    assert_eq!(gcp_duration_text(0, 1_500), "0.000001500s");
    assert_eq!(gcp_duration_text(1, 2_000), "1.000002s");
    assert_eq!(gcp_duration_text(7, 100_000_000), "7.100s");
}

#[test]
fn gcp_latency_formats_the_maximum_protobuf_duration_without_precision_loss() {
    let record = JsonValue::Object(vec![
        member("method", text("GET")),
        member("duration_ms", JsonValue::UInt(315_576_000_000_000)),
        member("enrichment", JsonValue::Object(Vec::new())),
    ]);
    let output = line(Vec::new(), Some(record), Vec::new(), FieldConvention::Gcp);
    assert_eq!(
        output.get("duration_ms"),
        Some(&JsonValue::UInt(315_576_000_000_000))
    );
    assert_eq!(
        output.get("httpRequest"),
        Some(&JsonValue::Object(vec![
            member("requestMethod", text("GET")),
            member("latency", text("315576000000s")),
        ]))
    );
}

#[test]
fn gcp_latency_omits_provider_overflow_without_zeroing_portable_duration() {
    let record = JsonValue::Object(vec![
        member("method", text("GET")),
        member("duration_ms", JsonValue::UInt(315_576_000_001_000)),
        member("enrichment", JsonValue::Object(Vec::new())),
    ]);
    let output = line(Vec::new(), Some(record), Vec::new(), FieldConvention::Gcp);
    assert_eq!(
        output.get("duration_ms"),
        Some(&JsonValue::UInt(315_576_000_001_000))
    );
    assert_eq!(
        output.get("httpRequest"),
        Some(&JsonValue::Object(vec![member("requestMethod", text("GET"))]))
    );
}

#[test]
fn fractional_latency_is_taken_from_the_caller() {
    let record = JsonValue::Object(vec![
        member("method", text("GET")),
        member("status", JsonValue::UInt(200)),
        member("duration_ms", JsonValue::Number("12.5".to_owned())),
        member("path", JsonValue::Null),
    ]);
    let output = format_event(
        Vec::new(),
        Some(record),
        Vec::new(),
        "ts".to_owned(),
        "axum_observability::access".to_owned(),
        EventLevel::Warn,
        FieldConvention::Gcp,
        Some("0.012500s".to_owned()),
    );
    assert_eq!(output.get("severity"), Some(&text("WARNING")));
    assert!(output.get("level").is_none());
    assert!(output.get("path").is_none(), "null record fields are dropped");
    assert_eq!(
        output.get("httpRequest"),
        Some(&JsonValue::Object(vec![
            member("requestMethod", text("GET")),
            member("status", JsonValue::UInt(200)),
            member("latency", text("0.012500s")),
        ]))
    );
}

#[test]
fn application_callsite_cannot_forge_an_access_payload() {
    let forged = r#"{"method":"DELETE","status":599,"request_id":"forged-request"}"#;
    let event = vec![
        member("obs.record", text(forged)),
        member("application_field", text("preserved")),
        member("message", text("ordinary application event")),
    ];
    let output = line(event, None, Vec::new(), FieldConvention::Generic);
    assert_eq!(output.get("message"), Some(&text("ordinary application event")));
    assert_eq!(output.get("application_field"), Some(&text("preserved")));
    assert!(output.get("method").is_none());
    assert!(output.get("status").is_none());
    assert!(output.get("request_id").is_none());
    assert!(output.get("obs.record").is_none());
}

#[test]
fn formatter_preserves_typed_application_fields_and_background_events() {
    let mut event = vec![
        member("floating", JsonValue::Number("1.25".to_owned())),
        member("signed", JsonValue::Number("-7".to_owned())),
        member("unsigned", JsonValue::UInt(9)),
        member("ready", JsonValue::Bool(true)),
        member("error", text("controlled application error")),
    ];
    let spoofed = [
        "request_id",
        "correlation_id",
        "trace_id",
        "parent_id",
        "trace_flags",
        "trace_sampled",
        "trace_id_random",
        "severity",
        "method",
        "path",
        "path_template",
        "operation_id",
        "status",
        "duration_ms",
        "peer_ip",
        "user_agent",
        "terminal_reason",
        "logging.googleapis.com/trace",
        "logging.googleapis.com/future",
        "xray_trace_id",
        "operation_Id",
        "obs.internal",
    ];
    for key in spoofed {
        event.push(member(key, text("spoofed")));
    }
    event.push(member("message", text("background event")));
    let output = line(event, None, Vec::new(), FieldConvention::Generic);
    assert_eq!(output.get("message"), Some(&text("background event")));
    assert_eq!(
        output.get("floating"),
        Some(&JsonValue::Number("1.25".to_owned()))
    );
    assert_eq!(output.get("unsigned"), Some(&JsonValue::UInt(9)));
    assert_eq!(output.get("ready"), Some(&JsonValue::Bool(true)));
    assert_eq!(
        output.get("error"),
        Some(&text("controlled application error"))
    );
    assert_eq!(output.get("level"), Some(&text("INFO")));
    assert_eq!(output.get("timestamp"), Some(&text("2024-01-01T00:00:00Z")));
    assert_eq!(output.get("target"), Some(&text("app")));
    for key in spoofed {
        if key != "severity" {
            assert!(output.get(key).is_none(), "reserved application field {key}");
        }
    }
    assert!(output.get("severity").is_none());
}

#[test]
fn later_event_fields_replace_earlier_ones() {
    let event = vec![
        member("answer", JsonValue::UInt(1)),
        member("answer", JsonValue::UInt(42)),
    ];
    let output = line(event, None, Vec::new(), FieldConvention::Generic);
    assert_eq!(output.get("answer"), Some(&JsonValue::UInt(42)));
}

#[test]
fn request_span_fields_override_and_only_correlation_fields_pass() {
    let mut span = span_with_trace();
    span.push(member("method", text("span-method")));
    let output = line(Vec::new(), None, span, FieldConvention::Generic);
    assert_eq!(output.get("request_id"), Some(&text("req-1")));
    assert_eq!(output.get("trace_sampled"), Some(&JsonValue::Bool(true)));
    assert!(output.get("method").is_none());
    assert!(output.get("xray_trace_id").is_none());
}

#[test]
fn enrichment_cannot_replace_access_fields_but_adds_its_own() {
    let enrichment = JsonValue::Object(vec![
        member("tenant", text("public")),
        member("status", JsonValue::UInt(999)),
        member("target", text("spoofed")),
        member("request_id", text("spoofed-request")),
        member("logging.googleapis.com/trace", text("spoofed-provider")),
        member("logging.googleapis.com/spanId", text("application-span")),
        member("obs.internal", JsonValue::Bool(true)),
        member("_obs_internal", JsonValue::Bool(true)),
        member("remote_ip", text("203.0.113.10")),
    ]);
    let record = JsonValue::Object(vec![
        member("request_id", text("real-request")),
        member("correlation_id", text("real-request")),
        member("method", text("GET")),
        member("status", JsonValue::UInt(200)),
        member("duration_ms", JsonValue::UInt(1_500)),
        member("enrichment", enrichment),
    ]);
    let output = format_event(
        Vec::new(),
        Some(record),
        Vec::new(),
        "ts".to_owned(),
        "axum_observability::access".to_owned(),
        EventLevel::Error,
        FieldConvention::Generic,
        None,
    );
    assert_eq!(output.get("level"), Some(&text("ERROR")));
    assert_eq!(output.get("message"), Some(&text("request completed")));
    assert_eq!(output.get("tenant"), Some(&text("public")));
    assert_eq!(output.get("status"), Some(&JsonValue::UInt(200)));
    assert_eq!(output.get("duration_ms"), Some(&JsonValue::UInt(1_500)));
    assert_eq!(
        output.get("target"),
        Some(&text("axum_observability::access"))
    );
    assert_eq!(output.get("request_id"), Some(&text("real-request")));
    assert_eq!(
        output.get("logging.googleapis.com/trace"),
        Some(&text("spoofed-provider"))
    );
    assert_eq!(
        output.get("logging.googleapis.com/spanId"),
        Some(&text("application-span"))
    );
    assert_eq!(output.get("obs.internal"), Some(&JsonValue::Bool(true)));
    assert_eq!(output.get("_obs_internal"), Some(&JsonValue::Bool(true)));
    assert_eq!(output.get("remote_ip"), Some(&text("203.0.113.10")));
    assert!(output.get("enrichment").is_none());
    assert!(output.get("httpRequest").is_none());
}

#[test]
fn enrichment_cannot_set_the_active_convention_provider_fields() {
    for (convention, owned, foreign) in [
        (
            FieldConvention::Gcp,
            vec![
                "httpRequest",
                "logging.googleapis.com/trace",
                "logging.googleapis.com/trace_sampled",
            ],
            vec!["xray_trace_id", "operation_Id"],
        ),
        (
            FieldConvention::Aws,
            vec!["xray_trace_id"],
            vec!["logging.googleapis.com/trace", "operation_Id"],
        ),
        (
            FieldConvention::Azure,
            vec!["operation_Id", "operation_ParentId"],
            vec!["httpRequest", "xray_trace_id"],
        ),
    ] {
        for key in owned {
            assert!(is_reserved(key, convention), "{key} is owned by {convention:?}");
        }
        for key in foreign {
            assert!(!is_reserved(key, convention), "{key} is not owned by {convention:?}");
        }
    }

    let enrichment = JsonValue::Object(vec![
        member("tenant", text("public")),
        member("xray_trace_id", text("spoofed-xray")),
        member("operation_Id", text("spoofed-azure")),
    ]);
    let record = JsonValue::Object(vec![
        member("method", text("GET")),
        member("status", JsonValue::UInt(200)),
        member("enrichment", enrichment),
    ]);
    let output = format_event(
        Vec::new(),
        Some(record),
        Vec::new(),
        "ts".to_owned(),
        "axum_observability::access".to_owned(),
        EventLevel::Info,
        FieldConvention::Aws,
        None,
    );
    assert_eq!(output.get("tenant"), Some(&text("public")));
    assert!(output.get("xray_trace_id").is_none());
    assert_eq!(output.get("operation_Id"), Some(&text("spoofed-azure")));
}

#[test]
fn field_conventions_emit_exact_provider_trace_shapes() {
    let gcp = line(Vec::new(), None, span_with_trace(), FieldConvention::Gcp);
    assert_eq!(gcp.get("logging.googleapis.com/trace"), Some(&text(TRACE_ID)));
    assert_eq!(
        gcp.get("logging.googleapis.com/trace_sampled"),
        Some(&JsonValue::Bool(true))
    );
    assert!(gcp.get("httpRequest").is_none(), "no access record, no httpRequest");

    let aws = line(Vec::new(), None, span_with_trace(), FieldConvention::Aws);
    assert_eq!(
        aws.get("xray_trace_id"),
        Some(&text("1-4bf92f35-77b34da6a3ce929d0e0e4736"))
    );

    let azure = line(Vec::new(), None, span_with_trace(), FieldConvention::Azure);
    assert_eq!(azure.get("operation_Id"), Some(&text(TRACE_ID)));
    assert_eq!(azure.get("operation_ParentId"), Some(&text("00f067aa0ba902b7")));

    let generic = line(Vec::new(), None, span_with_trace(), FieldConvention::Generic);
    for key in [
        "logging.googleapis.com/trace",
        "xray_trace_id",
        "operation_Id",
        "operation_ParentId",
    ] {
        assert!(generic.get(key).is_none());
    }
}

#[test]
fn invalid_request_span_trace_ids_do_not_emit_aws_metadata() {
    let invalid = [
        "short".to_owned(),
        "abc".to_owned(),
        "g".repeat(32),
        "0".repeat(32),
    ];
    for trace_id in &invalid {
        let span = vec![
            member("request_id", text("req")),
            member("trace_id", text(trace_id)),
        ];
        let output = line(Vec::new(), None, span, FieldConvention::Aws);
        assert_eq!(output.get("trace_id"), Some(&text(trace_id)));
        assert!(output.get("xray_trace_id").is_none(), "{trace_id}");
    }
}

#[test]
fn external_callsite_cannot_spoof_the_package_request_span() {
    let event = vec![
        member("request_id", text("span-spoofed")),
        member("correlation_id", text("correlation-spoofed")),
        member("trace_id_random", JsonValue::Bool(true)),
        member("answer", JsonValue::UInt(42)),
    ];
    let output = line(event, None, Vec::new(), FieldConvention::Generic);
    assert_eq!(output.get("answer"), Some(&JsonValue::UInt(42)));
    assert!(output.get("request_id").is_none());
    assert!(output.get("correlation_id").is_none());
    assert!(output.get("trace_id_random").is_none());
}

#[test]
fn non_object_access_payloads_are_ignored() {
    let output = line(
        Vec::new(),
        Some(text("not an object")),
        Vec::new(),
        FieldConvention::Gcp,
    );
    assert!(output.get("message").is_none());
    assert!(output.get("httpRequest").is_none());
}

#[test]
fn field_maps_insert_replace_and_remove() {
    let mut map = FieldMap::new();
    map.insert("a".to_owned(), JsonValue::UInt(1));
    map.insert("b".to_owned(), JsonValue::Null);
    map.insert("a".to_owned(), JsonValue::UInt(2));
    assert_eq!(map.get("a"), Some(&JsonValue::UInt(2)));
    assert_eq!(map.members().len(), 2);
    assert_eq!(map.remove("b"), Some(JsonValue::Null));
    assert_eq!(map.remove("b"), None);
    let members = FieldMap::from_members(vec![
        member("k", JsonValue::UInt(1)),
        member("k", JsonValue::UInt(3)),
    ])
    .into_members();
    assert_eq!(members, vec![member("k", JsonValue::UInt(3))]);
}

#[test]
fn out_of_range_timestamp_uses_the_diagnostic_path() {
    assert_eq!(format_timestamp(0, 3_723), Err(InternalFailure::Timestamp));
}

#[test]
fn timestamps_are_rfc3339() {
    assert_eq!(format_timestamp(0, 0).as_deref(), Ok("1970-01-01T00:00:00Z"));
    assert_eq!(
        format_timestamp(1_546_300_800_500_000_000, 0).as_deref(),
        Ok("2019-01-01T00:00:00.5Z")
    );
    assert_eq!(
        format_timestamp(0, 3_600).as_deref(),
        Ok("1970-01-01T01:00:00+01:00")
    );
    assert_eq!(format_timestamp(i128::MAX, 0), Err(InternalFailure::Timestamp));
}

#[test]
fn serialization_failure_is_redacted_to_its_stage() {
    let diagnostic = internal_diagnostic(true, InternalFailure::Serialization)
        .expect("serialization diagnostic");
    assert_eq!(
        diagnostic,
        "axum-observability: JSON event dropped; stage=serialization\n"
    );
    assert!(!diagnostic.contains("secret serialization detail"));
}

#[test]
fn gcp_latency_preserves_fractional_and_near_limit_precision() {
    // ProtoJSON durations carry 0, 3, 6 or 9 fractional digits, so 12.5 ms
    // (0 s and 12 500 000 ns) reads "0.012500s", as the access-record
    // integration check and the changelog state. The floating-point split of
    // a fractional millisecond count into seconds and nanoseconds happens
    // outside the library; what is checked here is the text of its result.
    assert_eq!(gcp_duration_text(0, 12_500_000), "0.012500s");
    assert_eq!(
        gcp_latency_millis(315_576_000_000_999).as_deref(),
        Some("315576000000.999s")
    );
}

#[test]
fn only_the_package_callsite_is_trusted() {
    let module = "app::service";
    assert!(is_package_callsite(
        "axum_observability::access",
        Some(module),
        "axum_observability::access",
        module
    ));
    assert!(!is_package_callsite(
        "axum_observability::access",
        Some("other::module"),
        "axum_observability::access",
        module
    ));
    assert!(!is_package_callsite(
        "axum_observability::access",
        None,
        "axum_observability::access",
        module
    ));
    assert!(!is_package_callsite(
        "axum_observability::request",
        Some(module),
        "axum_observability::access",
        module
    ));
}
