use axum_observability::{
    parse_traceparent, MissingRequestContext, OperationId, RequestContext, RequestId,
};

#[test]
fn operation_id_preserves_nonempty_static_values() {
    let operation: OperationId = OperationId::from_static("create-item");
    assert_eq!(operation.as_str(), "create-item");
    assert_eq!(operation.as_ref(), "create-item");
    assert_eq!(operation.to_string(), "create-item");
}

#[test]
fn correlation_id_is_the_trace_id_when_trace_context_is_valid() {
    let request_id = RequestId::parse("request-42").expect("request ID");
    let trace = parse_traceparent("00-4bf92f3577b34da6a3ce929d0e0e4736-00f067aa0ba902b7-01")
        .expect("trace");
    let context = RequestContext::new(request_id.clone(), Some(trace));
    assert_eq!(context.request_id(), &request_id);
    assert_eq!(context.correlation_id(), "4bf92f3577b34da6a3ce929d0e0e4736");
    assert_eq!(
        context.trace_context().map(|trace| trace.parent_id()),
        Some("00f067aa0ba902b7")
    );
}

#[test]
fn correlation_id_falls_back_to_the_request_id() {
    let request_id = RequestId::parse("request-only").expect("request ID");
    let context = RequestContext::new(request_id, None);
    assert_eq!(context.correlation_id(), "request-only");
    assert_eq!(context.request_id().as_str(), "request-only");
    assert!(context.trace_context().is_none());
}

#[test]
fn missing_request_context_has_a_fixed_message() {
    assert_eq!(
        MissingRequestContext::new().to_string(),
        "request context unavailable"
    );
}
