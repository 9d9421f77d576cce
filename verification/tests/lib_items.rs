use axum_observability::{FieldConvention, GcpProfileVersion, TraceContextLevel};

#[test]
fn generic_is_the_default_field_convention() {
    assert_eq!(FieldConvention::default(), FieldConvention::Generic);
}

#[test]
fn level_one_is_the_default_trace_context_level() {
    assert_eq!(TraceContextLevel::default(), TraceContextLevel::Level1);
    assert_eq!(TraceContextLevel::Level1.as_u8(), 1);
    assert_eq!(TraceContextLevel::Level2.as_u8(), 2);
}

#[test]
fn gcp_profile_version_parsing_accepts_only_supported_exact_pins() {
    let supported = "0.1.0".parse::<GcpProfileVersion>().unwrap();
    assert_eq!(supported, GcpProfileVersion::V0_1_0);
    assert_eq!(supported.as_str(), "0.1.0");
    assert_eq!(supported.to_string(), "0.1.0");

    for unsupported in ["", "0.1", "0.2.0", "latest"] {
        let error = unsupported.parse::<GcpProfileVersion>().unwrap_err();
        assert_eq!(
            error.to_string(),
            "unsupported GCP profile version",
            "wrong error for unsupported pin {unsupported:?}"
        );
    }
}

#[test]
fn latest_gcp_profile_is_the_default_and_parses_back() {
    assert_eq!(GcpProfileVersion::default(), GcpProfileVersion::LATEST);
    assert_eq!(
        GcpProfileVersion::parse(GcpProfileVersion::LATEST.as_str()),
        Ok(GcpProfileVersion::LATEST)
    );
    assert!(GcpProfileVersion::parse("0.1.0 ").is_err());
}
