//! Export settings and the OTLP/HTTP requests built from them: which headers are sent,
//! the resource that describes the exporter, the endpoint URLs, and the payloads.

use vstd::prelude::*;

use crate::platform::{header_name_from_str, header_name_text, header_value_accepted, is_header_value_char};
use crate::span::{otlp_of, span_views, OtelSpan, SpanView};
use crate::text::{trim_end_slashes, trim_trailing_slashes};
use crate::types::{
    kv_views, otlp_span_views, record_views, InstrumentationScope, LogRecordView, OtlpLogExport,
    OtlpLogRecord, OtlpSpan, OtlpSpanView, OtlpTraceExport, ResourceLogs, ResourceSpan, ScopeLogs,
    ScopeSpan, SpanResource, StringKeyValue,
};

verus! {

/// The `otel` settings: the collector endpoint (export is off without one), the
/// `service.name` resource attribute, and extra request headers.
pub struct OtelSettings {
    pub endpoint: Option<String>,
    pub service_name: String,
    pub headers: Option<Vec<(String, String)>>,
}

/// Export is enabled exactly when an endpoint is configured.
pub fn is_enabled(settings: &OtelSettings) -> (r: bool)
    ensures
        r == settings.endpoint is Some,
{
    settings.endpoint.is_some()
}

/// The value of a header is acceptable in an HTTP request.
pub open spec fn header_value_ok(v: Seq<char>) -> bool {
    forall|i: int| 0 <= i < v.len() ==> is_header_value_char(#[trigger] v[i])
}

/// The configured headers that form a valid header name and value, in order, each name
/// normalized to lowercase; the others are dropped.
pub open spec fn accepted_headers(hs: Seq<(Seq<char>, Seq<char>)>) -> Seq<(Seq<char>, Seq<char>)>
    decreases hs.len(),
{
    if hs.len() == 0 {
        Seq::empty()
    } else {
        let before = accepted_headers(hs.drop_last());
        let (k, v) = hs.last();
        match header_name_text(k) {
            Some(name) => if header_value_ok(v) { before.push((name, v)) } else { before },
            None => before,
        }
    }
}

/// The extra headers to send with export requests: the configured ones that are valid,
/// in order, with normalized names. Inserted in this order into a header map, a later
/// header replaces an earlier one with the same name.
pub fn otel_headers(settings: &OtelSettings) -> (r: Vec<(String, String)>)
    ensures
        r.deep_view() == match settings.headers.deep_view() {
            Some(hs) => accepted_headers(hs),
            None => Seq::empty(),
        },
{
    let mut out: Vec<(String, String)> = Vec::new();
    match &settings.headers {
        None => {
            assert(out.deep_view() =~= Seq::<(Seq<char>, Seq<char>)>::empty());
        },
        Some(hs) => {
            let mut i: usize = 0;
            assert(hs.deep_view().take(0) =~= Seq::<(Seq<char>, Seq<char>)>::empty());
            assert(out.deep_view() =~= Seq::<(Seq<char>, Seq<char>)>::empty());
            while i < hs.len()
                invariant
                    i <= hs.len(),
                    out.deep_view() == accepted_headers(hs.deep_view().take(i as int)),
                decreases hs.len() - i,
            {
                let key = hs[i].0.as_str();
                let value = hs[i].1.as_str();
                let name = header_name_from_str(key);
                let ghost before = out.deep_view();
                assert(hs.deep_view().take(i + 1).drop_last() =~= hs.deep_view().take(i as int));
                assert(hs.deep_view().take(i + 1).last() == (key@, value@));
                match name {
                    Some(n) => {
                        if header_value_accepted(value) {
                            out.push((n, value.to_owned()));
                            assert(out.deep_view() =~= before.push((n@, value@)));
                        }
                    },
                    None => {},
                }
                i = i + 1;
            }
            assert(hs.deep_view().take(i as int) =~= hs.deep_view());
        },
    }
    out
}

/// The resource attributes of every export: the service name and the SDK identity.
pub open spec fn resource_attributes(service_name: Seq<char>) -> Seq<(Seq<char>, Seq<char>)> {
    seq![
        ("service.name"@, service_name),
        ("telemetry.sdk.name"@, "mise"@),
        ("telemetry.sdk.language"@, "rust"@),
    ]
}

/// The OTLP resource, carrying `service.name`.
pub fn otel_resource(settings: &OtelSettings) -> (r: SpanResource)
    ensures
        kv_views(r.attributes@) == resource_attributes(settings.service_name@),
{
    let mut attributes: Vec<StringKeyValue> = Vec::new();
    attributes.push(StringKeyValue::new("service.name", settings.service_name.as_str()));
    attributes.push(StringKeyValue::new("telemetry.sdk.name", "mise"));
    attributes.push(StringKeyValue::new("telemetry.sdk.language", "rust"));
    let r = SpanResource { attributes };
    assert(kv_views(r.attributes@) =~= resource_attributes(settings.service_name@));
    r
}

/// The configured endpoint without trailing slashes.
pub open spec fn endpoint_base(settings: OtelSettings) -> Option<Seq<char>> {
    match settings.endpoint.deep_view() {
        Some(e) => Some(trim_trailing_slashes(e)),
        None => None,
    }
}

/// The OTLP endpoint base URL, without trailing slashes.
pub fn otel_endpoint(settings: &OtelSettings) -> (r: Option<String>)
    ensures
        r.deep_view() == endpoint_base(*settings),
{
    match &settings.endpoint {
        Some(e) => Some(trim_end_slashes(e.as_str())),
        None => None,
    }
}

fn export_url(base: String, path: &str) -> (r: String)
    ensures
        r@ == base@ + path@,
{
    let mut url = base;
    url.append(path);
    url
}

fn tasks_scope(version: &str) -> (r: InstrumentationScope)
    ensures
        r.name@ == "mise.tasks"@,
        r.version@ == version@,
{
    InstrumentationScope { name: "mise.tasks".to_owned(), version: version.to_owned() }
}

/// A trace export: where to POST it and what to send.
pub struct SpanExport {
    pub url: String,
    pub payload: OtlpTraceExport,
}

/// A log export: where to POST it and what to send.
pub struct LogExport {
    pub url: String,
    pub payload: OtlpLogExport,
}

/// A trace payload holds one resource (with the exporter's attributes) and one scope
/// (`mise.tasks` at `version`) with exactly the given spans.
pub open spec fn trace_payload(p: OtlpTraceExport, service_name: Seq<char>, version: Seq<char>, spans: Seq<OtlpSpanView>) -> bool {
    &&& p.resource_spans@.len() == 1
    &&& kv_views(p.resource_spans@[0].resource.attributes@) == resource_attributes(service_name)
    &&& p.resource_spans@[0].scope_spans@.len() == 1
    &&& p.resource_spans@[0].scope_spans@[0].scope.name@ == "mise.tasks"@
    &&& p.resource_spans@[0].scope_spans@[0].scope.version@ == version
    &&& otlp_span_views(p.resource_spans@[0].scope_spans@[0].spans@) == spans
}

/// A log payload holds one resource and one scope (`mise.tasks` at `version`) with
/// exactly the given records.
pub open spec fn log_payload(p: OtlpLogExport, service_name: Seq<char>, version: Seq<char>, logs: Seq<LogRecordView>) -> bool {
    &&& p.resource_logs@.len() == 1
    &&& kv_views(p.resource_logs@[0].resource.attributes@) == resource_attributes(service_name)
    &&& p.resource_logs@[0].scope_logs@.len() == 1
    &&& p.resource_logs@[0].scope_logs@[0].scope.name@ == "mise.tasks"@
    &&& p.resource_logs@[0].scope_logs@[0].scope.version@ == version
    &&& record_views(p.resource_logs@[0].scope_logs@[0].log_records@) == logs
}

/// The request that exports `spans` to `<endpoint>/v1/traces`; nothing when there are
/// no spans or no endpoint.
pub fn span_export(spans: Vec<OtelSpan>, settings: &OtelSettings, version: &str) -> (r: Option<SpanExport>)
    ensures
        r is None <==> (spans@.len() == 0 || settings.endpoint is None),
        r matches Some(e) ==> {
            &&& e.url@ == endpoint_base(*settings).unwrap() + "/v1/traces"@
            &&& trace_payload(e.payload, settings.service_name@, version@, span_views(spans@).map_values(|s: SpanView| otlp_of(s)))
        },
{
    if spans.len() == 0 {
        return None;
    }
    let endpoint = match otel_endpoint(settings) {
        Some(e) => e,
        None => return None,
    };
    let url = export_url(endpoint, "/v1/traces");
    let ghost want = span_views(spans@).map_values(|s: SpanView| otlp_of(s));
    let ghost all = spans@;
    let mut spans = spans;
    let mut otlp_spans: Vec<OtlpSpan> = Vec::new();
    let n = spans.len();
    while spans.len() > 0
        invariant
            n == all.len(),
            otlp_spans@.len() <= n,
            spans@ == all.skip(otlp_spans@.len() as int),
            want == span_views(all).map_values(|s: SpanView| otlp_of(s)),
            otlp_span_views(otlp_spans@) == want.take(otlp_spans@.len() as int),
        decreases spans.len(),
    {
        let k = otlp_spans.len();
        let s = spans.remove(0);
        assert(s == all[k as int]);
        let o = s.into_otlp();
        otlp_spans.push(o);
        assert(otlp_span_views(otlp_spans@) =~= want.take(k + 1));
        assert(spans@ =~= all.skip(k + 1));
    }
    assert(want.take(otlp_spans@.len() as int) =~= want);
    let mut scope_spans: Vec<ScopeSpan> = Vec::new();
    scope_spans.push(ScopeSpan { scope: tasks_scope(version), spans: otlp_spans });
    let mut resource_spans: Vec<ResourceSpan> = Vec::new();
    resource_spans.push(ResourceSpan { resource: otel_resource(settings), scope_spans });
    Some(SpanExport { url, payload: OtlpTraceExport { resource_spans } })
}

/// The request that exports `logs` to `<endpoint>/v1/logs`; nothing when there are no
/// records or no endpoint.
pub fn log_export(logs: Vec<OtlpLogRecord>, settings: &OtelSettings, version: &str) -> (r: Option<LogExport>)
    ensures
        r is None <==> (logs@.len() == 0 || settings.endpoint is None),
        r matches Some(e) ==> {
            &&& e.url@ == endpoint_base(*settings).unwrap() + "/v1/logs"@
            &&& log_payload(e.payload, settings.service_name@, version@, record_views(logs@))
        },
{
    if logs.len() == 0 {
        return None;
    }
    let endpoint = match otel_endpoint(settings) {
        Some(e) => e,
        None => return None,
    };
    let url = export_url(endpoint, "/v1/logs");
    let mut scope_logs: Vec<ScopeLogs> = Vec::new();
    scope_logs.push(ScopeLogs { scope: tasks_scope(version), log_records: logs });
    let mut resource_logs: Vec<ResourceLogs> = Vec::new();
    resource_logs.push(ResourceLogs { resource: otel_resource(settings), scope_logs });
    Some(LogExport { url, payload: OtlpLogExport { resource_logs } })
}

} // verus!
