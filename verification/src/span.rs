//! A collected span (a task run or a grouping) and its OTLP rendering.

use vstd::prelude::*;

use crate::text::{nanos_text, system_time_to_nanos};
use crate::types::{
    kv_views, OtlpSpan, OtlpSpanView, OtlpStatus, SpanLink, SpanStatus, StringKeyValue, SPAN_KIND_INTERNAL,
};

verus! {

/// A collected span representing a task execution or grouping. Times are nanoseconds
/// relative to the Unix epoch.
#[derive(Debug)]
pub struct OtelSpan {
    pub trace_id: String,
    pub span_id: String,
    pub parent_span_id: Option<String>,
    pub name: String,
    pub start_time: i128,
    pub end_time: i128,
    pub status: SpanStatus,
    pub error_message: Option<String>,
    pub attributes: Vec<(String, String)>,
    /// (trace_id, span_id) pairs
    pub links: Vec<(String, String)>,
}

/// The abstract content of a span.
pub struct SpanView {
    pub trace_id: Seq<char>,
    pub span_id: Seq<char>,
    pub parent_span_id: Option<Seq<char>>,
    pub name: Seq<char>,
    pub start_time: i128,
    pub end_time: i128,
    pub status: SpanStatus,
    pub error_message: Option<Seq<char>>,
    pub attributes: Seq<(Seq<char>, Seq<char>)>,
    pub links: Seq<(Seq<char>, Seq<char>)>,
}

impl View for OtelSpan {
    type V = SpanView;

    open spec fn view(&self) -> SpanView {
        SpanView {
            trace_id: self.trace_id@,
            span_id: self.span_id@,
            parent_span_id: self.parent_span_id.deep_view(),
            name: self.name@,
            start_time: self.start_time,
            end_time: self.end_time,
            status: self.status,
            error_message: self.error_message.deep_view(),
            attributes: self.attributes.deep_view(),
            links: self.links.deep_view(),
        }
    }
}

/// The abstract contents of a list of spans.
pub open spec fn span_views(spans: Seq<OtelSpan>) -> Seq<SpanView> {
    spans.map_values(|s: OtelSpan| s@)
}

/// The OTLP rendering of a span: kind INTERNAL, times as decimal nanoseconds since the
/// epoch, the status code with the error message, and each link without attributes.
pub open spec fn otlp_of(s: SpanView) -> OtlpSpanView {
    OtlpSpanView {
        trace_id: s.trace_id,
        span_id: s.span_id,
        parent_span_id: s.parent_span_id,
        name: s.name,
        kind: SPAN_KIND_INTERNAL,
        start_time_unix_nano: nanos_text(s.start_time),
        end_time_unix_nano: nanos_text(s.end_time),
        attributes: s.attributes,
        status_code: s.status.spec_code(),
        status_message: s.error_message,
        links: s.links.map_values(|l: (Seq<char>, Seq<char>)| (l.0, l.1, Seq::<(Seq<char>, Seq<char>)>::empty())),
    }
}

pub(crate) fn copy_text(s: &Option<String>) -> (r: Option<String>)
    ensures
        r.deep_view() == s.deep_view(),
{
    match s {
        Some(t) => Some(t.clone()),
        None => None,
    }
}

pub(crate) fn copy_pairs(v: &Vec<(String, String)>) -> (r: Vec<(String, String)>)
    ensures
        r.deep_view() == v.deep_view(),
{
    let mut r: Vec<(String, String)> = Vec::new();
    let mut i: usize = 0;
    while i < v.len()
        invariant
            i <= v.len(),
            r@.len() == i,
            r.deep_view() == v.deep_view().take(i as int),
        decreases v.len() - i,
    {
        let p = &v[i];
        r.push((p.0.clone(), p.1.clone()));
        i = i + 1;
        assert(r.deep_view() =~= v.deep_view().take(i as int));
    }
    assert(v.deep_view().take(i as int) =~= v.deep_view());
    r
}

impl OtelSpan {
    /// A copy of this span with the same content.
    pub fn duplicate(&self) -> (r: OtelSpan)
        ensures
            r@ == self@,
    {
        OtelSpan {
            trace_id: self.trace_id.clone(),
            span_id: self.span_id.clone(),
            parent_span_id: copy_text(&self.parent_span_id),
            name: self.name.clone(),
            start_time: self.start_time,
            end_time: self.end_time,
            status: self.status,
            error_message: copy_text(&self.error_message),
            attributes: copy_pairs(&self.attributes),
            links: copy_pairs(&self.links),
        }
    }

    /// Renders the span in the OTLP JSON model: kind INTERNAL, times as decimal
    /// nanoseconds since the epoch, attributes as string key-values, the status code
    /// with the error message, and each link without attributes.
    pub fn into_otlp(self) -> (r: OtlpSpan)
        ensures
            r@ == otlp_of(self@),
    {
        let mut attributes: Vec<StringKeyValue> = Vec::new();
        let mut i: usize = 0;
        while i < self.attributes.len()
            invariant
                i <= self.attributes.len(),
                attributes@.len() == i,
                kv_views(attributes@) == self.attributes.deep_view().take(i as int),
            decreases self.attributes.len() - i,
        {
            let p = &self.attributes[i];
            attributes.push(StringKeyValue::new(p.0.as_str(), p.1.as_str()));
            i = i + 1;
            assert(kv_views(attributes@) =~= self.attributes.deep_view().take(i as int));
        }
        assert(self.attributes.deep_view().take(i as int) =~= self.attributes.deep_view());

        let ghost want = self@.links.map_values(
            |l: (Seq<char>, Seq<char>)| (l.0, l.1, Seq::<(Seq<char>, Seq<char>)>::empty()),
        );
        let mut links: Vec<SpanLink> = Vec::new();
        let mut j: usize = 0;
        while j < self.links.len()
            invariant
                j <= self.links.len(),
                want == self.links.deep_view().map_values(
                    |l: (Seq<char>, Seq<char>)| (l.0, l.1, Seq::<(Seq<char>, Seq<char>)>::empty()),
                ),
                links@.len() == j,
                links@.map_values(|l: SpanLink| l@) == want.take(j as int),
            decreases self.links.len() - j,
        {
            let p = &self.links[j];
            let empty: Vec<StringKeyValue> = Vec::new();
            links.push(SpanLink { trace_id: p.0.clone(), span_id: p.1.clone(), attributes: empty });
            j = j + 1;
            assert(kv_views(empty@) =~= Seq::<(Seq<char>, Seq<char>)>::empty());
            assert(links@.map_values(|l: SpanLink| l@) =~= want.take(j as int));
        }
        assert(want.take(j as int) =~= want);

        let start = system_time_to_nanos(self.start_time);
        let end = system_time_to_nanos(self.end_time);
        let code = self.status.code();
        let r = OtlpSpan {
            trace_id: self.trace_id,
            span_id: self.span_id,
            parent_span_id: self.parent_span_id,
            name: self.name,
            kind: SPAN_KIND_INTERNAL,
            start_time_unix_nano: start,
            end_time_unix_nano: end,
            attributes,
            status: OtlpStatus { code, message: self.error_message },
            links,
        };
        assert(r@.links =~= want);
        r
    }
}

} // verus!
