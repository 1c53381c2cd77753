use mise_otel::span::OtelSpan;
use mise_otel::text::system_time_to_nanos;
use mise_otel::types::{SpanStatus, StringKeyValue, SEVERITY_ERROR, SEVERITY_INFO, SPAN_KIND_INTERNAL};

fn sample_span() -> OtelSpan {
    OtelSpan {
        trace_id: "t".repeat(32),
        span_id: "s".repeat(16),
        parent_span_id: Some("p".to_string()),
        name: "build".to_string(),
        start_time: 1_700_000_000_123_456_789,
        end_time: -5,
        status: SpanStatus::Error,
        error_message: Some("boom".to_string()),
        attributes: vec![("a".to_string(), "1".to_string()), ("b".to_string(), "2".to_string())],
        links: vec![("lt".to_string(), "ls".to_string())],
    }
}

#[test]
fn span_status_codes() {
    assert_eq!(SpanStatus::Unset.code(), 0);
    assert_eq!(SpanStatus::Okay.code(), 1);
    assert_eq!(SpanStatus::Error.code(), 2);
}

#[test]
fn constants_match_otlp() {
    assert_eq!(SPAN_KIND_INTERNAL, 1);
    assert_eq!(SEVERITY_INFO, 9);
    assert_eq!(SEVERITY_ERROR, 17);
}

#[test]
fn string_key_value_new() {
    let kv = StringKeyValue::new("k", "v");
    assert_eq!(kv.key, "k");
    assert_eq!(kv.value.string_value, "v");
}

#[test]
fn nanos_text() {
    assert_eq!(system_time_to_nanos(0), "0");
    assert_eq!(system_time_to_nanos(-1), "0");
    assert_eq!(system_time_to_nanos(7), "7");
    assert_eq!(system_time_to_nanos(10), "10");
    assert_eq!(system_time_to_nanos(1_700_000_000_123_456_789), "1700000000123456789");
    assert_eq!(system_time_to_nanos(i128::MAX), i128::MAX.to_string());
}

#[test]
fn into_otlp_maps_every_field() {
    let o = sample_span().into_otlp();
    assert_eq!(o.trace_id, "t".repeat(32));
    assert_eq!(o.span_id, "s".repeat(16));
    assert_eq!(o.parent_span_id.as_deref(), Some("p"));
    assert_eq!(o.name, "build");
    assert_eq!(o.kind, 1);
    assert_eq!(o.start_time_unix_nano, "1700000000123456789");
    assert_eq!(o.end_time_unix_nano, "0");
    assert_eq!(o.attributes.len(), 2);
    assert_eq!(o.attributes[0].key, "a");
    assert_eq!(o.attributes[0].value.string_value, "1");
    assert_eq!(o.attributes[1].key, "b");
    assert_eq!(o.attributes[1].value.string_value, "2");
    assert_eq!(o.status.code, 2);
    assert_eq!(o.status.message.as_deref(), Some("boom"));
    assert_eq!(o.links.len(), 1);
    assert_eq!(o.links[0].trace_id, "lt");
    assert_eq!(o.links[0].span_id, "ls");
    assert!(o.links[0].attributes.is_empty());
}

#[test]
fn into_otlp_ok_span_without_message() {
    let mut s = sample_span();
    s.status = SpanStatus::Okay;
    s.error_message = None;
    s.parent_span_id = None;
    s.links = vec![];
    let o = s.into_otlp();
    assert_eq!(o.status.code, 1);
    assert_eq!(o.status.message, None);
    assert_eq!(o.parent_span_id, None);
    assert!(o.links.is_empty());
}

#[test]
fn duplicate_keeps_content() {
    let s = sample_span();
    let d = s.duplicate();
    assert_eq!(d.trace_id, s.trace_id);
    assert_eq!(d.parent_span_id, s.parent_span_id);
    assert_eq!(d.attributes, s.attributes);
    assert_eq!(d.links, s.links);
    assert_eq!(d.start_time, s.start_time);
    assert_eq!(d.status, s.status);
}
