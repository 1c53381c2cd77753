use mise_otel::export::{is_enabled, log_export, otel_endpoint, otel_headers, otel_resource, span_export, OtelSettings};
use mise_otel::log_collector::{to_log_record, LogAction, LogBatcher, LogEvent, LogLine, LOG_BATCH_SIZE};
use mise_otel::span::OtelSpan;
use mise_otel::types::SpanStatus;

fn settings(endpoint: Option<&str>) -> OtelSettings {
    OtelSettings {
        endpoint: endpoint.map(|e| e.to_string()),
        service_name: "svc".to_string(),
        headers: None,
    }
}

fn line(body: &str, is_stderr: bool) -> LogLine {
    LogLine {
        body: body.to_string(),
        is_stderr,
        timestamp: 1_000,
        task_name: "build".to_string(),
        trace_id: "t".to_string(),
        span_id: "s".to_string(),
    }
}

fn span(name: &str) -> OtelSpan {
    OtelSpan {
        trace_id: "t".to_string(),
        span_id: "s".to_string(),
        parent_span_id: None,
        name: name.to_string(),
        start_time: 1,
        end_time: 2,
        status: SpanStatus::Okay,
        error_message: None,
        attributes: vec![],
        links: vec![],
    }
}

#[test]
fn enabled_only_with_endpoint() {
    assert!(is_enabled(&settings(Some("http://localhost:4318"))));
    assert!(!is_enabled(&settings(None)));
}

#[test]
fn endpoint_trailing_slashes_removed() {
    assert_eq!(otel_endpoint(&settings(Some("http://localhost:4318//"))).as_deref(), Some("http://localhost:4318"));
    assert_eq!(otel_endpoint(&settings(Some("http://c/x"))).as_deref(), Some("http://c/x"));
    assert_eq!(otel_endpoint(&settings(Some("///"))).as_deref(), Some(""));
    assert_eq!(otel_endpoint(&settings(None)), None);
}

#[test]
fn resource_attributes() {
    let r = otel_resource(&settings(None));
    let kvs: Vec<(String, String)> = r.attributes.iter().map(|kv| (kv.key.clone(), kv.value.string_value.clone())).collect();
    assert_eq!(
        kvs,
        vec![
            ("service.name".to_string(), "svc".to_string()),
            ("telemetry.sdk.name".to_string(), "mise".to_string()),
            ("telemetry.sdk.language".to_string(), "rust".to_string()),
        ]
    );
}

#[test]
fn headers_keep_valid_pairs_normalized() {
    let mut s = settings(None);
    assert!(otel_headers(&s).is_empty());
    s.headers = Some(vec![
        ("Authorization".to_string(), "Bearer mytoken".to_string()),
        ("bad name".to_string(), "x".to_string()),
        ("X-Line".to_string(), "a\nb".to_string()),
        ("X-Tab".to_string(), "a\tb".to_string()),
        ("".to_string(), "v".to_string()),
        ("X-Utf8".to_string(), "caf\u{e9}".to_string()),
        ("X-Del".to_string(), "a\u{7f}".to_string()),
    ]);
    assert_eq!(
        otel_headers(&s),
        vec![
            ("authorization".to_string(), "Bearer mytoken".to_string()),
            ("x-tab".to_string(), "a\tb".to_string()),
            ("x-utf8".to_string(), "caf\u{e9}".to_string()),
        ]
    );
}

#[test]
fn span_export_builds_request() {
    let s = settings(Some("http://localhost:4318/"));
    assert!(span_export(vec![], &s, "1.0").is_none());
    assert!(span_export(vec![span("a")], &settings(None), "1.0").is_none());
    let e = span_export(vec![span("a"), span("b")], &s, "1.0").unwrap();
    assert_eq!(e.url, "http://localhost:4318/v1/traces");
    assert_eq!(e.payload.resource_spans.len(), 1);
    let rs = &e.payload.resource_spans[0];
    assert_eq!(rs.resource.attributes[0].value.string_value, "svc");
    assert_eq!(rs.scope_spans.len(), 1);
    assert_eq!(rs.scope_spans[0].scope.name, "mise.tasks");
    assert_eq!(rs.scope_spans[0].scope.version, "1.0");
    let names: Vec<&str> = rs.scope_spans[0].spans.iter().map(|s| s.name.as_str()).collect();
    assert_eq!(names, vec!["a", "b"]);
    assert_eq!(rs.scope_spans[0].spans[0].start_time_unix_nano, "1");
}

#[test]
fn log_export_builds_request() {
    let s = settings(Some("https://otel.example"));
    assert!(log_export(vec![], &s, "2").is_none());
    assert!(log_export(vec![to_log_record(line("x", false))], &settings(None), "2").is_none());
    let e = log_export(vec![to_log_record(line("x", false)), to_log_record(line("y", true))], &s, "2").unwrap();
    assert_eq!(e.url, "https://otel.example/v1/logs");
    let rl = &e.payload.resource_logs[0];
    assert_eq!(e.payload.resource_logs.len(), 1);
    assert_eq!(rl.scope_logs.len(), 1);
    assert_eq!(rl.scope_logs[0].scope.version, "2");
    assert_eq!(rl.scope_logs[0].log_records.len(), 2);
    assert_eq!(rl.scope_logs[0].log_records[1].body.string_value, "y");
}

#[test]
fn log_record_for_stdout_and_stderr() {
    let out = to_log_record(line("hello", false));
    assert_eq!(out.severity_number, 9);
    assert_eq!(out.severity_text, "INFO");
    assert_eq!(out.time_unix_nano, "1000");
    assert_eq!(out.observed_time_unix_nano, "1000");
    assert_eq!(out.body.string_value, "hello");
    assert_eq!(out.flags, 1);
    assert_eq!(out.trace_id, "t");
    assert_eq!(out.span_id, "s");
    assert_eq!(out.attributes[0].key, "mise.task.name");
    assert_eq!(out.attributes[0].value.string_value, "build");
    assert_eq!(out.attributes[1].key, "output.stream");
    assert_eq!(out.attributes[1].value.string_value, "stdout");

    let err = to_log_record(line("oops", true));
    assert_eq!(err.severity_number, 17);
    assert_eq!(err.severity_text, "ERROR");
    assert_eq!(err.attributes[1].value.string_value, "stderr");
}

fn flushed_bodies(a: &LogAction) -> Vec<String> {
    a.flush.as_ref().map(|v| v.iter().map(|r| r.body.string_value.clone()).collect()).unwrap_or_default()
}

#[test]
fn batcher_flushes_on_size() {
    assert_eq!(LOG_BATCH_SIZE, 100);
    let mut b = LogBatcher::new();
    let first: Vec<LogLine> = (0..99).map(|i| line(&i.to_string(), false)).collect();
    let a = b.on_event(LogEvent::Received(first));
    assert!(a.flush.is_none());
    assert!(!a.stop);
    let a = b.on_event(LogEvent::Received(vec![line("99", false), line("100", true)]));
    assert!(!a.stop);
    let bodies = flushed_bodies(&a);
    assert_eq!(bodies.len(), 101);
    assert_eq!(bodies[0], "0");
    assert_eq!(bodies[100], "100");
    let a = b.on_event(LogEvent::TimedOut);
    assert!(a.flush.is_none());
}

#[test]
fn batcher_flushes_on_timeout_and_close() {
    let mut b = LogBatcher::new();
    let a = b.on_event(LogEvent::Received(vec![line("a", false)]));
    assert!(a.flush.is_none());
    let a = b.on_event(LogEvent::TimedOut);
    assert_eq!(flushed_bodies(&a), vec!["a".to_string()]);
    assert!(!a.stop);
    let a = b.on_event(LogEvent::Received(vec![line("b", false), line("c", true)]));
    assert!(a.flush.is_none());
    let a = b.on_event(LogEvent::Closed);
    assert_eq!(flushed_bodies(&a), vec!["b".to_string(), "c".to_string()]);
    assert!(a.stop);
    let a = b.on_event(LogEvent::Closed);
    assert!(a.flush.is_none());
    assert!(a.stop);
}

#[test]
fn batcher_whole_run_sends_every_line_once_in_order() {
    let mut b = LogBatcher::new();
    let mut sent: Vec<String> = Vec::new();
    let mut expected: Vec<String> = Vec::new();
    let mut n = 0;
    for chunk in [1usize, 60, 45, 3, 0, 120, 7] {
        let event = if chunk == 0 {
            LogEvent::TimedOut
        } else {
            let lines: Vec<LogLine> = (0..chunk)
                .map(|_| {
                    n += 1;
                    expected.push(n.to_string());
                    line(&n.to_string(), n % 2 == 0)
                })
                .collect();
            LogEvent::Received(lines)
        };
        let a = b.on_event(event);
        if let Some(batch) = &a.flush {
            assert!(!batch.is_empty());
        }
        sent.extend(flushed_bodies(&a));
    }
    let a = b.on_event(LogEvent::Closed);
    assert!(a.stop);
    sent.extend(flushed_bodies(&a));
    assert_eq!(sent, expected);
}
