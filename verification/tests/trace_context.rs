use axum_observability::{
    parse_traceparent, parse_traceparent_with_level, parse_tracestate,
    parse_tracestate_with_level, TraceContextLevel,
};

const VALID: &str = "00-4bf92f3577b34da6a3ce929d0e0e4736-00f067aa0ba902b7-01";

#[test]
fn parses_valid_context_and_sampled_bit() {
    let parsed = parse_traceparent(VALID).expect("valid traceparent");
    assert_eq!(parsed.trace_id(), "4bf92f3577b34da6a3ce929d0e0e4736");
    assert_eq!(parsed.parent_id(), "00f067aa0ba902b7");
    assert_eq!(parsed.flags(), 1);
    assert!(parsed.sampled());
    assert_eq!(parsed.trace_context_level(), TraceContextLevel::Level1);
    assert_eq!(parsed.trace_id_random(), None);
    assert_eq!(parsed.traceparent(), Some(VALID));
    assert_eq!(parsed.traceparent_bytes(), VALID.as_bytes());
}

#[test]
fn level_two_projects_the_random_trace_id_flag() {
    let random = parse_traceparent_with_level(
        VALID.replace("-01", "-03").as_bytes(),
        TraceContextLevel::Level2,
    )
    .expect("flags 03");
    assert_eq!(random.trace_context_level(), TraceContextLevel::Level2);
    assert_eq!(random.trace_id_random(), Some(true));

    let not_random = parse_traceparent_with_level(VALID.as_bytes(), TraceContextLevel::Level2)
        .expect("flags 01");
    assert_eq!(not_random.trace_id_random(), Some(false));
}

#[test]
fn future_version_level_two_preserves_sampling_without_assigning_random() {
    for (flags, sampled) in [("02", false), ("03", true)] {
        let value =
            format!("01-4bf92f3577b34da6a3ce929d0e0e4736-00f067aa0ba902b7-{flags}-opaque");
        let trace = parse_traceparent_with_level(value.as_bytes(), TraceContextLevel::Level2)
            .expect("future version");
        assert_eq!(trace.sampled(), sampled);
        assert_eq!(trace.trace_id_random(), None);
        assert_eq!(trace.trace_context_level(), TraceContextLevel::Level2);
    }
}

#[test]
fn sampled_uses_only_the_low_bit() {
    let flags_02 = parse_traceparent(&VALID.replace("-01", "-02")).expect("flags 02");
    assert_eq!(flags_02.flags(), 2);
    assert!(!flags_02.sampled());
    let flags_af = parse_traceparent(&VALID.replace("-01", "-af")).expect("flags af");
    assert_eq!(flags_af.flags(), 0xaf);
    assert!(flags_af.sampled());
}

#[test]
fn rejects_bad_framing_case_zero_ids_and_v00_extensions() {
    for invalid in [
        "not-a-traceparent",
        "00-4bf92f3577b34da6a3ce929d0e0e4736-00f067aa0ba902b7-01-extra",
        "FF-4bf92f3577b34da6a3ce929d0e0e4736-00f067aa0ba902b7-01",
        "00-4BF92f3577b34da6a3ce929d0e0e4736-00f067aa0ba902b7-01",
        "00-00000000000000000000000000000000-00f067aa0ba902b7-01",
        "00-4bf92f3577b34da6a3ce929d0e0e4736-0000000000000000-01",
        "00-4bf92f3577b34da6a3ce929d0e0e4736_00f067aa0ba902b7-01",
        "00_4bf92f3577b34da6a3ce929d0e0e4736-00f067aa0ba902b7-01",
        "00-4bf92f3577b34da6a3ce929d0e0e4736-00f067aa0ba902b7_01",
        "0A-4bf92f3577b34da6a3ce929d0e0e4736-00f067aa0ba902b7-01",
        "00-4bf92f3577b34da6a3ce929d0e0e4736-00F067aa0ba902b7-01",
        "00-4bf92f3577b34da6a3ce929d0e0e4736-00f067aa0ba902b7-0A",
        "ff-4bf92f3577b34da6a3ce929d0e0e4736-00f067aa0ba902b7-01",
    ] {
        assert!(parse_traceparent(invalid).is_none(), "accepted {invalid}");
    }
}

#[test]
fn accepts_future_version_with_opaque_extensions() {
    let future = VALID.replacen("00-", "01-", 1);
    for value in [
        future.clone(),
        format!("{future}-"),
        format!("{future}-vendor"),
        format!("{future}-vendor space"),
        format!("{future}-~"),
    ] {
        assert!(parse_traceparent(&value).is_some(), "rejected {value:?}");
    }
}

#[test]
fn enforces_native_field_safety_without_an_invented_length_ceiling() {
    let future = VALID.replacen("00-", "01-", 1);
    for invalid in [
        format!("{future}-opaque\u{1f}"),
        format!("{future}-opaque\u{7f}"),
    ] {
        assert!(
            parse_traceparent(&invalid).is_none(),
            "accepted {invalid:?}"
        );
    }
    let long = format!("{future}-{}", "x".repeat(512));
    assert!(long.len() > 512);
    assert!(parse_traceparent(&long).is_some());
    assert!(parse_traceparent(&format!("{future}-opaque-ümlaut")).is_some());

    let mut obs_text = format!("{future}-opaque-").into_bytes();
    obs_text.push(0x80);
    let parsed = parse_traceparent_with_level(&obs_text, TraceContextLevel::Level1)
        .expect("HTTP obs-text suffix remains opaque");
    assert_eq!(parsed.traceparent_bytes(), obs_text);
    assert_eq!(parsed.traceparent(), None);
}

#[test]
fn rejects_invalid_future_delimiter() {
    let future = VALID.replacen("00-", "01-", 1);
    let invalid = format!("{future}vendor");
    assert!(
        parse_traceparent(&invalid).is_none(),
        "accepted {invalid:?}"
    );
}

#[test]
fn combines_valid_tracestate_in_wire_order() {
    assert_eq!(
        parse_tracestate(&["vendor=value", "tenant@system=opaque"]),
        Some("vendor=value,tenant@system=opaque".to_owned())
    );
    let trace = parse_traceparent(VALID)
        .expect("trace")
        .with_tracestate(parse_tracestate(&["vendor=value"]));
    assert_eq!(trace.tracestate(), Some("vendor=value"));
}

#[test]
fn accepts_and_preserves_empty_tracestate_list_members() {
    assert_eq!(
        parse_tracestate(&[" , vendor=value,,\t", "tenant@system=opaque,"]),
        Some(",vendor=value,,,tenant@system=opaque,".to_owned())
    );
    assert_eq!(parse_tracestate(&[" , \t,"]), Some(",,".to_owned()));
    assert_eq!(parse_tracestate(&[""]), Some(String::new()));

    let thirty_two_with_empty_members = format!(
        ",{},",
        (0..30)
            .map(|index| format!("k{index}=v"))
            .collect::<Vec<_>>()
            .join(",")
    );
    assert!(parse_tracestate(&[thirty_two_with_empty_members.as_str()]).is_some());
}

#[test]
fn rejects_duplicate_invalid_and_over_limit_tracestate() {
    assert!(parse_tracestate(&[]).is_none());
    assert!(parse_tracestate(&["a=1,a=2"]).is_none());
    assert!(parse_tracestate(&["a=1", "a=2"]).is_none());
    assert!(parse_tracestate(&["Upper=1"]).is_none());
    assert!(parse_tracestate(&["a=control\u{7f}"]).is_none());
    assert!(parse_tracestate(&["a=contains=value"]).is_none());
    let oversized = format!("a={}", "x".repeat(511));
    assert!(parse_tracestate(&[oversized.as_str()]).is_none());
}

#[test]
fn enforces_tracestate_total_and_member_boundaries() {
    let maximum = format!("{}={}", "a".repeat(256), "v".repeat(255));
    assert_eq!(maximum.len(), 512);
    assert!(parse_tracestate(&[maximum.as_str()]).is_some());
    let beyond_minimum = format!("{}={}", "a".repeat(256), "v".repeat(256));
    assert_eq!(beyond_minimum.len(), 513);
    assert!(parse_tracestate(&[beyond_minimum.as_str()]).is_some());

    let thirty_two = (0..32)
        .map(|index| format!("k{index}=v"))
        .collect::<Vec<_>>()
        .join(",");
    assert!(parse_tracestate(&[thirty_two.as_str()]).is_some());
    let thirty_three = format!("{thirty_two},last=v");
    assert!(parse_tracestate(&[thirty_three.as_str()]).is_none());
}

#[test]
fn enforces_simple_and_multi_tenant_key_grammar() {
    let simple_max = "a".repeat(256);
    let tenant_max = "1".repeat(241);
    let system_max = "s".repeat(14);
    for valid in [
        "a=1".to_owned(),
        "a0_-*/=1".to_owned(),
        format!("{simple_max}=1"),
        "1tenant@system=1".to_owned(),
        format!("{tenant_max}@{system_max}=1"),
    ] {
        assert!(
            parse_tracestate(&[valid.as_str()]).is_some(),
            "rejected {valid:?}"
        );
    }

    for invalid in [
        "1simple=1".to_owned(),
        "Upper=1".to_owned(),
        "a:bad=1".to_owned(),
        format!("{}=1", "a".repeat(257)),
        "@system=1".to_owned(),
        "Upper@system=1".to_owned(),
        "tenant@=1".to_owned(),
        "tenant@1system=1".to_owned(),
        "tenant@System=1".to_owned(),
        "tenant@sys:tem=1".to_owned(),
        format!("{}@system=1", "a".repeat(242)),
        format!("tenant@{}=1", "s".repeat(15)),
        "tenant@system@again=1".to_owned(),
    ] {
        assert!(
            parse_tracestate(&[invalid.as_str()]).is_none(),
            "accepted {invalid:?}"
        );
    }
}

#[test]
fn level_two_uses_its_flat_at_sign_key_grammar() {
    for valid in ["1simple=1", "tenant@system@edge=1"] {
        assert!(
            parse_tracestate_with_level(&[valid], TraceContextLevel::Level2).is_some(),
            "rejected {valid:?}"
        );
        assert!(
            parse_tracestate_with_level(&[valid], TraceContextLevel::Level1).is_none(),
            "Level 1 accepted {valid:?}"
        );
    }

    for invalid in ["Upper=1", "tenant:@system=1", "@system=1"] {
        assert!(
            parse_tracestate_with_level(&[invalid], TraceContextLevel::Level2).is_none(),
            "accepted {invalid:?}"
        );
    }
}

#[test]
fn enforces_tracestate_value_grammar() {
    let maximum = format!("a={}", "v".repeat(256));
    assert!(parse_tracestate(&[maximum.as_str()]).is_some());
    for invalid in [
        "a=".to_owned(),
        format!("a={}", "v".repeat(257)),
        "a=comma,value".to_owned(),
        "a=equals=value".to_owned(),
        "a=control\u{7f}".to_owned(),
    ] {
        assert!(
            parse_tracestate(&[invalid.as_str()]).is_none(),
            "accepted {invalid:?}"
        );
    }
}

fn encode_lower_hex(bytes: &[u8]) -> String {
    let mut encoded = String::with_capacity(bytes.len() * 2);
    for byte in bytes {
        encoded.push_str(&format!("{byte:02x}"));
    }
    encoded
}

/// A small deterministic generator for the generated-input cases below.
struct SplitMix(u64);

impl SplitMix {
    fn next(&mut self) -> u64 {
        self.0 = self.0.wrapping_add(0x9e37_79b9_7f4a_7c15);
        let mut z = self.0;
        z = (z ^ (z >> 30)).wrapping_mul(0xbf58_476d_1ce4_e5b9);
        z = (z ^ (z >> 27)).wrapping_mul(0x94d0_49bb_1331_11eb);
        z ^ (z >> 31)
    }
}

#[test]
fn round_trips_generated_valid_traceparents() {
    let mut rng = SplitMix(7);
    for _ in 0..256 {
        let mut trace_id = [0u8; 16];
        let mut parent_id = [0u8; 8];
        for byte in trace_id.iter_mut().chain(parent_id.iter_mut()) {
            *byte = rng.next() as u8;
        }
        trace_id[0] |= 1;
        parent_id[7] |= 1;
        let flags = rng.next() as u8;
        let trace_id = encode_lower_hex(&trace_id);
        let parent_id = encode_lower_hex(&parent_id);
        let value = format!("00-{trace_id}-{parent_id}-{flags:02x}");

        let parsed = parse_traceparent(&value).expect("generated traceparent is valid");
        assert_eq!(parsed.trace_id(), trace_id.as_str());
        assert_eq!(parsed.parent_id(), parent_id.as_str());
        assert_eq!(parsed.flags(), flags);
        assert_eq!(parsed.sampled(), flags & 1 == 1);
        assert_eq!(parsed.traceparent(), Some(value.as_str()));
    }
}

#[test]
fn preserves_generated_tracestate_across_header_splits() {
    const ALPHABET: &[u8] = b"ABCDEFGHIJKLMNOPQRSTUVWXYZabcdefghijklmnopqrstuvwxyz0123456789._~/-";
    let mut rng = SplitMix(11);
    for _ in 0..128 {
        let count = 1 + (rng.next() % 32) as usize;
        let members = (0..count)
            .map(|index| {
                let length = 1 + (rng.next() % 8) as usize;
                let value = (0..length)
                    .map(|_| ALPHABET[(rng.next() % ALPHABET.len() as u64) as usize] as char)
                    .collect::<String>();
                format!("k{index}={value}")
            })
            .collect::<Vec<_>>();
        let split_mask = rng.next() as u32;
        let combined = members.join(",");
        let mut fields = Vec::new();
        let mut field = String::new();
        for (index, member) in members.iter().enumerate() {
            if !field.is_empty() {
                field.push(',');
            }
            field.push_str(member);
            if index + 1 < members.len() && split_mask & (1 << index) != 0 {
                fields.push(std::mem::take(&mut field));
            }
        }
        fields.push(field);
        let borrowed = fields.iter().map(String::as_str).collect::<Vec<_>>();
        assert_eq!(parse_tracestate(&borrowed), Some(combined));
    }
}

#[test]
fn combined_tracestate_reparses_to_itself() {
    for values in [
        vec!["a=1", "b=2"],
        vec!["  a=1 ,, b=2\t", "tenant@system=x"],
        vec![","],
        vec![""],
    ] {
        let combined = parse_tracestate(&values).expect("valid tracestate");
        assert_eq!(
            parse_tracestate(&[combined.as_str()]).as_deref(),
            Some(combined.as_str()),
            "{values:?}"
        );
    }
}
