//! The OTLP/HTTP JSON data model for traces and logs, as plain data.

use vstd::prelude::*;

verus! {

// ---------------------------------------------------------------------------
// Trace types
// ---------------------------------------------------------------------------

/// OTLP JSON trace export payload.
#[derive(Debug)]
pub struct OtlpTraceExport {
    pub resource_spans: Vec<ResourceSpan>,
}

#[derive(Debug)]
pub struct ResourceSpan {
    pub resource: SpanResource,
    pub scope_spans: Vec<ScopeSpan>,
}

#[derive(Debug)]
pub struct SpanResource {
    pub attributes: Vec<StringKeyValue>,
}

#[derive(Debug)]
pub struct ScopeSpan {
    pub scope: InstrumentationScope,
    pub spans: Vec<OtlpSpan>,
}

/// An individual span in the OTLP JSON format.
#[derive(Debug)]
pub struct OtlpSpan {
    pub trace_id: String,
    pub span_id: String,
    pub parent_span_id: Option<String>,
    pub name: String,
    pub kind: u32,
    /// Start time in nanoseconds since epoch
    pub start_time_unix_nano: String,
    /// End time in nanoseconds since epoch
    pub end_time_unix_nano: String,
    pub attributes: Vec<StringKeyValue>,
    pub status: OtlpStatus,
    pub links: Vec<SpanLink>,
}

#[derive(Debug)]
pub struct OtlpStatus {
    pub code: u32,
    pub message: Option<String>,
}

/// A link to another span (used for dependency relationships).
#[derive(Debug)]
pub struct SpanLink {
    pub trace_id: String,
    pub span_id: String,
    pub attributes: Vec<StringKeyValue>,
}

// ---------------------------------------------------------------------------
// Log types
// ---------------------------------------------------------------------------

/// OTLP JSON log export payload.
#[derive(Debug)]
pub struct OtlpLogExport {
    pub resource_logs: Vec<ResourceLogs>,
}

#[derive(Debug)]
pub struct ResourceLogs {
    pub resource: SpanResource,
    pub scope_logs: Vec<ScopeLogs>,
}

#[derive(Debug)]
pub struct ScopeLogs {
    pub scope: InstrumentationScope,
    pub log_records: Vec<OtlpLogRecord>,
}

/// An individual log record in the OTLP JSON format.
#[derive(Debug)]
pub struct OtlpLogRecord {
    pub time_unix_nano: String,
    pub observed_time_unix_nano: String,
    pub severity_number: u32,
    pub severity_text: String,
    pub body: LogBody,
    pub attributes: Vec<StringKeyValue>,
    /// W3C TraceFlags: bit 0x01 is "sampled". It must be set for backends such as SigNoz
    /// to correlate the log with its trace.
    pub flags: u32,
    pub trace_id: String,
    pub span_id: String,
}

#[derive(Debug)]
pub struct LogBody {
    pub string_value: String,
}

// ---------------------------------------------------------------------------
// Shared types
// ---------------------------------------------------------------------------

#[derive(Debug)]
pub struct InstrumentationScope {
    pub name: String,
    pub version: String,
}

/// String-typed key-value attribute.
#[derive(Debug)]
pub struct StringKeyValue {
    pub key: String,
    pub value: AttributeValue,
}

#[derive(Debug)]
pub struct AttributeValue {
    pub string_value: String,
}

impl View for StringKeyValue {
    type V = (Seq<char>, Seq<char>);

    open spec fn view(&self) -> (Seq<char>, Seq<char>) {
        (self.key@, self.value.string_value@)
    }
}

/// The (key, value) texts of a list of attributes.
pub open spec fn kv_views(v: Seq<StringKeyValue>) -> Seq<(Seq<char>, Seq<char>)> {
    v.map_values(|kv: StringKeyValue| kv@)
}

/// The abstract content of an OTLP span.
pub struct OtlpSpanView {
    pub trace_id: Seq<char>,
    pub span_id: Seq<char>,
    pub parent_span_id: Option<Seq<char>>,
    pub name: Seq<char>,
    pub kind: u32,
    pub start_time_unix_nano: Seq<char>,
    pub end_time_unix_nano: Seq<char>,
    pub attributes: Seq<(Seq<char>, Seq<char>)>,
    pub status_code: u32,
    pub status_message: Option<Seq<char>>,
    /// (trace id, span id, attributes) of each link
    pub links: Seq<(Seq<char>, Seq<char>, Seq<(Seq<char>, Seq<char>)>)>,
}

impl View for SpanLink {
    type V = (Seq<char>, Seq<char>, Seq<(Seq<char>, Seq<char>)>);

    open spec fn view(&self) -> (Seq<char>, Seq<char>, Seq<(Seq<char>, Seq<char>)>) {
        (self.trace_id@, self.span_id@, kv_views(self.attributes@))
    }
}

impl View for OtlpSpan {
    type V = OtlpSpanView;

    open spec fn view(&self) -> OtlpSpanView {
        OtlpSpanView {
            trace_id: self.trace_id@,
            span_id: self.span_id@,
            parent_span_id: self.parent_span_id.deep_view(),
            name: self.name@,
            kind: self.kind,
            start_time_unix_nano: self.start_time_unix_nano@,
            end_time_unix_nano: self.end_time_unix_nano@,
            attributes: kv_views(self.attributes@),
            status_code: self.status.code,
            status_message: self.status.message.deep_view(),
            links: self.links@.map_values(|l: SpanLink| l@),
        }
    }
}

/// The abstract content of an OTLP log record.
pub struct LogRecordView {
    pub time_unix_nano: Seq<char>,
    pub observed_time_unix_nano: Seq<char>,
    pub severity_number: u32,
    pub severity_text: Seq<char>,
    pub body: Seq<char>,
    pub attributes: Seq<(Seq<char>, Seq<char>)>,
    pub flags: u32,
    pub trace_id: Seq<char>,
    pub span_id: Seq<char>,
}

impl View for OtlpLogRecord {
    type V = LogRecordView;

    open spec fn view(&self) -> LogRecordView {
        LogRecordView {
            time_unix_nano: self.time_unix_nano@,
            observed_time_unix_nano: self.observed_time_unix_nano@,
            severity_number: self.severity_number,
            severity_text: self.severity_text@,
            body: self.body.string_value@,
            attributes: kv_views(self.attributes@),
            flags: self.flags,
            trace_id: self.trace_id@,
            span_id: self.span_id@,
        }
    }
}

/// The abstract contents of a list of log records.
pub open spec fn record_views(v: Seq<OtlpLogRecord>) -> Seq<LogRecordView> {
    v.map_values(|r: OtlpLogRecord| r@)
}

/// The abstract contents of a list of OTLP spans.
pub open spec fn otlp_span_views(v: Seq<OtlpSpan>) -> Seq<OtlpSpanView> {
    v.map_values(|s: OtlpSpan| s@)
}

impl StringKeyValue {
    pub fn new(key: &str, value: &str) -> (r: Self)
        ensures
            r@ == (key@, value@),
    {
        StringKeyValue { key: key.to_owned(), value: AttributeValue { string_value: value.to_owned() } }
    }
}

/// Span status codes.
#[derive(Debug, Clone, Copy, PartialEq, Eq, Structural)]
pub enum SpanStatus {
    Unset,
    Okay,
    Error,
}

impl SpanStatus {
    /// The OTLP status code: Unset is 0, Okay (OTLP "ok") is 1, Error is 2.
    pub open spec fn spec_code(self) -> u32 {
        match self {
            SpanStatus::Unset => 0,
            SpanStatus::Okay => 1,
            SpanStatus::Error => 2,
        }
    }

    pub fn code(&self) -> (r: u32)
        ensures
            r == self.spec_code(),
    {
        match self {
            SpanStatus::Unset => 0,
            SpanStatus::Okay => 1,
            SpanStatus::Error => 2,
        }
    }
}

/// OTLP span kind values.
pub const SPAN_KIND_INTERNAL: u32 = 1;

/// OTLP log severity numbers.
pub const SEVERITY_INFO: u32 = 9;

pub const SEVERITY_ERROR: u32 = 17;

} // verus!
