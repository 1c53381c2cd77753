//! Properties of traces and log batching that hold across calls.

use vstd::prelude::*;

use crate::log_collector::{flushed, log_record_of, log_records_of, log_step, LogAction, LogEvent, LogLine};
use crate::export::{accepted_headers, endpoint_base, header_value_ok, resource_attributes, OtelSettings};
use crate::platform::{header_name_text, path_components_equal, path_file_name_of};
use crate::span::{otlp_of, SpanView};
use crate::text::{decimal, nanos_text, trim_trailing_slashes, hex_of, is_hex_id, is_lower_hex_char, lemma_hex_of_shape};
use crate::trace_context::{
    end_step, first_group_for_root, first_group_for_span, fold_group, has_group_for_root, initial_trace,
    is_monorepo_task, same_path, GroupView, finished_root_span, finished_spans, fold_all, fold_children, fresh, group_span, is_first_with_its_id, parent_step,
    task_span, wf_view, Aggregate, StartedSpan, TraceView,
};
use crate::types::{LogRecordView, SpanStatus};

verus! {

/// `a` after the spans of `spans` that satisfy `keep` are folded in, in order.
pub open spec fn fold_where(a: Aggregate, spans: Seq<SpanView>, keep: spec_fn(SpanView) -> bool) -> Aggregate
    decreases spans.len(),
{
    if spans.len() == 0 {
        a
    } else {
        let l = spans.last();
        let before = fold_where(a, spans.drop_last(), keep);
        if keep(l) {
            crate::trace_context::folded(before, l.start_time, l.end_time, l.status)
        } else {
            before
        }
    }
}

/// What folding a set of spans into a fresh aggregate gives: no times when none was
/// kept; otherwise the earliest start and the latest end among the kept spans; and an
/// error exactly when a kept span failed.
proof fn lemma_fold_where(t: i128, spans: Seq<SpanView>, keep: spec_fn(SpanView) -> bool)
    ensures
        ({
            let f = fold_where(fresh(t), spans, keep);
            &&& f.init_time == t
            &&& (f.min_start is None <==> !exists|i: int| 0 <= i < spans.len() && keep(#[trigger] spans[i]))
            &&& (f.max_end is None <==> f.min_start is None)
            &&& (f.min_start matches Some(m) ==> {
                &&& forall|i: int| 0 <= i < spans.len() && keep(#[trigger] spans[i]) ==> m <= spans[i].start_time
                &&& exists|i: int| 0 <= i < spans.len() && keep(#[trigger] spans[i]) && m == spans[i].start_time
            })
            &&& (f.max_end matches Some(m) ==> {
                &&& forall|i: int| 0 <= i < spans.len() && keep(#[trigger] spans[i]) ==> spans[i].end_time <= m
                &&& exists|i: int| 0 <= i < spans.len() && keep(#[trigger] spans[i]) && m == spans[i].end_time
            })
            &&& (f.has_error <==> exists|i: int|
                0 <= i < spans.len() && keep(#[trigger] spans[i]) && spans[i].status == SpanStatus::Error)
        }),
    decreases spans.len(),
{
    if spans.len() > 0 {
        let p = spans.drop_last();
        lemma_fold_where(t, p, keep);
        let n = spans.len() - 1;
        assert forall|i: int| 0 <= i < n implies #[trigger] spans[i] == p[i] by {}
        let f0 = fold_where(fresh(t), p, keep);
        let f = fold_where(fresh(t), spans, keep);
        if keep(spans[n]) {
            if f0.min_start is Some {
                let m0 = f0.min_start.unwrap();
                let i0 = choose|i: int| 0 <= i < p.len() && keep(#[trigger] p[i]) && m0 == p[i].start_time;
                assert(spans[i0] == p[i0]);
                let e0 = f0.max_end.unwrap();
                let j0 = choose|i: int| 0 <= i < p.len() && keep(#[trigger] p[i]) && e0 == p[i].end_time;
                assert(spans[j0] == p[j0]);
                assert forall|i: int| 0 <= i < spans.len() && keep(#[trigger] spans[i]) implies f.min_start.unwrap() <= spans[i].start_time by {
                    if i < n {
                        assert(spans[i] == p[i]);
                    }
                }
                assert forall|i: int| 0 <= i < spans.len() && keep(#[trigger] spans[i]) implies spans[i].end_time <= f.max_end.unwrap() by {
                    if i < n {
                        assert(spans[i] == p[i]);
                    }
                }
            } else {
                assert forall|i: int| 0 <= i < spans.len() && keep(#[trigger] spans[i]) implies i == n by {
                    if i < n {
                        assert(spans[i] == p[i]);
                        assert(keep(p[i]));
                    }
                }
            }
            if f0.has_error {
                let k = choose|i: int| 0 <= i < p.len() && keep(#[trigger] p[i]) && p[i].status == SpanStatus::Error;
                assert(spans[k] == p[k]);
            }
            if f.has_error && !f0.has_error {
                assert(spans[n].status == SpanStatus::Error);
            }
            if !f.has_error {
                assert forall|i: int| 0 <= i < spans.len() && keep(#[trigger] spans[i]) implies spans[i].status != SpanStatus::Error by {
                    if i < n {
                        assert(spans[i] == p[i]);
                        assert(keep(p[i]));
                    }
                }
            }
        } else {
            assert(f == f0);
            assert forall|i: int| 0 <= i < spans.len() && keep(#[trigger] spans[i]) implies i < n && spans[i] == p[i] && keep(p[i]) by {}
            if f0.min_start is Some {
                let m0 = f0.min_start.unwrap();
                let i0 = choose|i: int| 0 <= i < p.len() && keep(#[trigger] p[i]) && m0 == p[i].start_time;
                assert(spans[i0] == p[i0]);
                let e0 = f0.max_end.unwrap();
                let j0 = choose|i: int| 0 <= i < p.len() && keep(#[trigger] p[i]) && e0 == p[i].end_time;
                assert(spans[j0] == p[j0]);
            }
            if f0.has_error {
                let k = choose|i: int| 0 <= i < p.len() && keep(#[trigger] p[i]) && p[i].status == SpanStatus::Error;
                assert(spans[k] == p[k]);
            }
        }
    }
}

proof fn lemma_fold_all_is_fold_where(a: Aggregate, spans: Seq<SpanView>)
    ensures
        fold_all(a, spans) == fold_where(a, spans, |s: SpanView| true),
    decreases spans.len(),
{
    if spans.len() > 0 {
        lemma_fold_all_is_fold_where(a, spans.drop_last());
    }
}

proof fn lemma_fold_children_is_fold_where(a: Aggregate, spans: Seq<SpanView>, id: Seq<char>)
    ensures
        fold_children(a, spans, id) == fold_where(a, spans, |s: SpanView| s.parent_span_id == Some(id)),
    decreases spans.len(),
{
    if spans.len() > 0 {
        lemma_fold_children_is_fold_where(a, spans.drop_last(), id);
    }
}

/// Asking twice for the parent of a task with the same config root and project root
/// gives the same span id, and the second call changes nothing: each monorepo config
/// root gets exactly one group span.
pub proof fn law_parent_span_is_stable(
    s0: TraceView,
    s1: TraceView,
    s2: TraceView,
    config_root: Option<Seq<char>>,
    project_root: Option<Seq<char>>,
    r1: Option<Seq<char>>,
    r2: Option<Seq<char>>,
)
    requires
        parent_step(s0, config_root, project_root, r1, s1),
        parent_step(s1, config_root, project_root, r2, s2),
    ensures
        r2 == r1,
        s2 == s1,
{
    if crate::trace_context::is_monorepo_task(config_root, project_root) {
        let c = config_root.unwrap();
        if crate::trace_context::has_group_for_root(s0.groups, c) {
            let i = choose|i: int| crate::trace_context::first_group_for_root(s0.groups, c, i) && r1 == Some(s0.groups[i].span_id);
            let j = choose|j: int| crate::trace_context::first_group_for_root(s1.groups, c, j) && r2 == Some(s1.groups[j].span_id);
            assert(i == j) by {
                if i < j {
                    assert(!crate::trace_context::same_path(s1.groups[i].config_root, c));
                } else if j < i {
                    assert(!crate::trace_context::same_path(s0.groups[j].config_root, c));
                }
            }
        } else {
            let n = s0.groups.len() as int;
            assert(s1.groups[n].config_root == c);
            assert(crate::trace_context::has_group_for_root(s1.groups, c));
            let j = choose|j: int| crate::trace_context::first_group_for_root(s1.groups, c, j) && r2 == Some(s1.groups[j].span_id);
            assert(j == n) by {
                if j < n {
                    assert(s1.groups[j] == s0.groups[j]);
                    assert(!crate::trace_context::same_path(s0.groups[j].config_root, c));
                }
            }
        }
    }
}

/// When a run finishes, its root span starts at the earliest start and ends at the
/// latest end of the task spans that ended (or, when none did, runs from the trace's
/// creation to the finish time), and it is an error exactly when a task failed or the
/// run reported failures.
pub proof fn law_root_span_covers_tasks(v: TraceView, has_failures: bool, now: i128)
    requires
        wf_view(v),
    ensures
        ({
            let r = finished_root_span(v, has_failures, now);
            &&& r.parent_span_id == v.root.parent_span_id
            &&& r.span_id == v.root.span_id
            &&& (v.spans.len() == 0 ==> r.start_time == v.root.agg.init_time && r.end_time == now)
            &&& (v.spans.len() > 0 ==> {
                &&& forall|i: int| 0 <= i < v.spans.len() ==> r.start_time <= #[trigger] v.spans[i].start_time
                &&& forall|i: int| 0 <= i < v.spans.len() ==> #[trigger] v.spans[i].end_time <= r.end_time
                &&& exists|i: int| 0 <= i < v.spans.len() && r.start_time == #[trigger] v.spans[i].start_time
                &&& exists|i: int| 0 <= i < v.spans.len() && r.end_time == #[trigger] v.spans[i].end_time
            })
            &&& (r.status == SpanStatus::Error <==> (has_failures || exists|i: int|
                0 <= i < v.spans.len() && #[trigger] v.spans[i].status == SpanStatus::Error))
            &&& (r.status != SpanStatus::Error ==> r.status == SpanStatus::Okay)
        }),
{
    let t = v.root.agg.init_time;
    let keep = |s: SpanView| true;
    lemma_fold_all_is_fold_where(fresh(t), v.spans);
    lemma_fold_where(t, v.spans, keep);
    let f = fold_where(fresh(t), v.spans, keep);
    if v.spans.len() > 0 {
        assert(keep(v.spans[0]));
        let m = f.min_start.unwrap();
        let e = f.max_end.unwrap();
        let i = choose|i: int| 0 <= i < v.spans.len() && keep(#[trigger] v.spans[i]) && m == v.spans[i].start_time;
        assert(m == v.spans[i].start_time);
        let j = choose|i: int| 0 <= i < v.spans.len() && keep(#[trigger] v.spans[i]) && e == v.spans[i].end_time;
        assert(e == v.spans[j].end_time);
        assert forall|i: int| 0 <= i < v.spans.len() implies m <= #[trigger] v.spans[i].start_time by {
            assert(keep(v.spans[i]));
        }
        assert forall|i: int| 0 <= i < v.spans.len() implies #[trigger] v.spans[i].end_time <= e by {
            assert(keep(v.spans[i]));
        }
    }
    if exists|i: int| 0 <= i < v.spans.len() && #[trigger] v.spans[i].status == SpanStatus::Error {
        let k = choose|i: int| 0 <= i < v.spans.len() && #[trigger] v.spans[i].status == SpanStatus::Error;
        assert(keep(v.spans[k]));
    }
}

/// A task span whose parent is the group's span.
pub open spec fn is_child(g: crate::trace_context::GroupView, s: SpanView) -> bool {
    s.parent_span_id == Some(g.span_id)
}

/// When a run finishes, each group span hangs under the root span, starts at the
/// earliest start and ends at the latest end of the task spans under it (or, when none
/// ended, runs from the group's creation to the finish time), and it is an error exactly
/// when one of those tasks failed.
pub proof fn law_group_span_covers_children(v: TraceView, i: int, now: i128)
    requires
        wf_view(v),
        0 <= i < v.groups.len(),
        is_first_with_its_id(v.groups, i),
    ensures
        ({
            let g = v.groups[i];
            let kids = v.spans.skip(g.created as int);
            let r = group_span(v, g, now);
            &&& r.parent_span_id == Some(v.root.span_id)
            &&& r.span_id == g.span_id
            &&& (!exists|k: int| 0 <= k < kids.len() && is_child(g, #[trigger] kids[k]))
                ==> r.start_time == g.agg.init_time && r.end_time == now
            &&& forall|k: int| 0 <= k < kids.len() && is_child(g, #[trigger] kids[k])
                ==> r.start_time <= kids[k].start_time && kids[k].end_time <= r.end_time
            &&& (exists|k: int| 0 <= k < kids.len() && is_child(g, #[trigger] kids[k])) ==> {
                &&& exists|k: int| 0 <= k < kids.len() && is_child(g, #[trigger] kids[k]) && r.start_time == kids[k].start_time
                &&& exists|k: int| 0 <= k < kids.len() && is_child(g, #[trigger] kids[k]) && r.end_time == kids[k].end_time
            }
            &&& (r.status == SpanStatus::Error <==> exists|k: int|
                0 <= k < kids.len() && is_child(g, #[trigger] kids[k]) && kids[k].status == SpanStatus::Error)
        }),
{
    let g = v.groups[i];
    let kids = v.spans.skip(g.created as int);
    let t = g.agg.init_time;
    let keep = |s: SpanView| s.parent_span_id == Some(g.span_id);
    assert(crate::trace_context::group_consistent(v, i));
    lemma_fold_children_is_fold_where(fresh(t), kids, g.span_id);
    lemma_fold_where(t, kids, keep);
    assert forall|k: int| 0 <= k < kids.len() implies (is_child(g, #[trigger] kids[k]) <==> keep(kids[k])) by {}
    let f = fold_where(fresh(t), kids, keep);
    if exists|k: int| 0 <= k < kids.len() && is_child(g, #[trigger] kids[k]) {
        let k0 = choose|k: int| 0 <= k < kids.len() && is_child(g, #[trigger] kids[k]);
        assert(keep(kids[k0]));
        let m = f.min_start.unwrap();
        let e = f.max_end.unwrap();
        let a = choose|k: int| 0 <= k < kids.len() && keep(#[trigger] kids[k]) && m == kids[k].start_time;
        assert(is_child(g, kids[a]));
        let b = choose|k: int| 0 <= k < kids.len() && keep(#[trigger] kids[k]) && e == kids[k].end_time;
        assert(is_child(g, kids[b]));
    } else {
        assert forall|k: int| 0 <= k < kids.len() implies !keep(#[trigger] kids[k]) by {
            assert(!is_child(g, kids[k]));
        }
    }
    if f.has_error {
        let k = choose|k: int| 0 <= k < kids.len() && keep(#[trigger] kids[k]) && kids[k].status == SpanStatus::Error;
        assert(is_child(g, kids[k]));
    }
}

/// A finished run lists every span exactly once: the task spans in the order they
/// ended, then one span per monorepo group, each under the root span, then the root
/// span itself, all in the trace of the run.
pub proof fn law_finished_run_lists_each_span_once(v: TraceView, has_failures: bool, now: i128)
    ensures
        ({
            let f = finished_spans(v, has_failures, now);
            let n = v.spans.len();
            let m = v.groups.len();
            &&& f.len() == n + m + 1
            &&& f.subrange(0, n as int) == v.spans
            &&& forall|k: int| 0 <= k < m ==> #[trigger] f[n + k] == group_span(v, v.groups[k], now)
                && f[n + k].span_id == v.groups[k].span_id
                && f[n + k].parent_span_id == Some(v.root.span_id)
                && f[n + k].trace_id == v.trace_id
            &&& f[(n + m) as int] == finished_root_span(v, has_failures, now)
            &&& f[(n + m) as int].span_id == v.root.span_id
            &&& f[(n + m) as int].trace_id == v.trace_id
        }),
{
    let f = finished_spans(v, has_failures, now);
    let n = v.spans.len();
    assert(f.subrange(0, n as int) =~= v.spans);
}

/// Trace and span ids are lowercase hexadecimal: `n` bytes give `2 * n` characters, each
/// a digit or a letter from `a` to `f`.
pub proof fn law_ids_are_lowercase_hex(s: Seq<char>, n: nat)
    requires
        is_hex_id(s, n),
    ensures
        s.len() == 2 * n,
        forall|i: int| 0 <= i < s.len() ==> is_lower_hex_char(#[trigger] s[i]),
{
    let bytes = choose|bytes: Seq<u8>| bytes.len() == n && s == #[trigger] hex_of(bytes);
    lemma_hex_of_shape(bytes);
}

/// The records an event brings in (none for a timeout or a close).
pub open spec fn records_in(event: LogEvent) -> Seq<LogRecordView> {
    match event {
        LogEvent::Received(lines) => log_records_of(lines@),
        _ => Seq::empty(),
    }
}

/// Log batching neither loses, duplicates nor reorders records: what a step sends,
/// followed by what stays pending, is what was pending followed by what arrived; and
/// once the channel closes nothing stays pending.
pub proof fn law_log_batching_conserves_records(
    pending: Seq<LogRecordView>,
    event: LogEvent,
    after: Seq<LogRecordView>,
    a: LogAction,
)
    requires
        log_step(pending, event, after, a),
    ensures
        flushed(a) + after == pending + records_in(event),
        event is Closed ==> after.len() == 0 && a.stop,
{
    match event {
        LogEvent::Received(lines) => {
            let all = pending + log_records_of(lines@);
            if all.len() >= crate::log_collector::LOG_BATCH_SIZE {
                assert(flushed(a) + after =~= all);
            } else {
                assert(flushed(a) + after =~= all);
            }
        },
        _ => {
            assert(flushed(a) + after =~= pending + records_in(event));
        },
    }
}

// ---------------------------------------------------------------------------
// Whole runs
// ---------------------------------------------------------------------------

/// One call on a trace that changes it, with what the call returned.
pub enum TraceCall {
    /// `parent_span_for_task(config_root, project_root)` returned `result`.
    ParentLookup { config_root: Option<Seq<char>>, project_root: Option<Seq<char>>, result: Option<Seq<char>> },
    /// `end_task_span` recorded `span`.
    TaskEnd { span: SpanView },
}

/// `after` is the trace once `call` was made on `before`.
pub open spec fn call_step(before: TraceView, call: TraceCall, after: TraceView) -> bool {
    match call {
        TraceCall::ParentLookup { config_root, project_root, result } => parent_step(before, config_root, project_root, result, after),
        TraceCall::TaskEnd { span } => after == end_step(before, span),
    }
}

/// `states[k + 1]` is the trace after `calls[k]` was made on `states[k]`, for every `k`.
pub open spec fn is_run(states: Seq<TraceView>, calls: Seq<TraceCall>) -> bool {
    &&& states.len() == calls.len() + 1
    &&& forall|k: int| #![trigger calls[k]] 0 <= k < calls.len() ==> call_step(states[k], calls[k], states[k + 1])
}

/// The spans that the task-end calls of `calls` recorded, in call order.
pub open spec fn ended_spans(calls: Seq<TraceCall>) -> Seq<SpanView>
    decreases calls.len(),
{
    if calls.len() == 0 {
        Seq::empty()
    } else {
        let before = ended_spans(calls.drop_last());
        match calls.last() {
            TraceCall::TaskEnd { span } => before.push(span),
            _ => before,
        }
    }
}

/// `b` keeps everything of `a` that later calls never change: the trace id, the root
/// span's identity, each group's config root and span id, and the ended task spans.
pub open spec fn trace_grows(a: TraceView, b: TraceView) -> bool {
    &&& b.trace_id == a.trace_id
    &&& b.root.span_id == a.root.span_id
    &&& b.root.name == a.root.name
    &&& b.root.parent_span_id == a.root.parent_span_id
    &&& b.root.agg.init_time == a.root.agg.init_time
    &&& a.groups.len() <= b.groups.len()
    &&& forall|i: int| 0 <= i < a.groups.len() ==> (#[trigger] b.groups[i]).config_root == a.groups[i].config_root
        && b.groups[i].span_id == a.groups[i].span_id
    &&& a.spans.len() <= b.spans.len()
    &&& forall|i: int| 0 <= i < a.spans.len() ==> #[trigger] b.spans[i] == a.spans[i]
}

/// A lookup call's answer holds in `v`: a monorepo task's result is the span id of the
/// first group whose config root is its path, any other task's is the root span id.
pub open spec fn answered(v: TraceView, call: TraceCall) -> bool {
    match call {
        TraceCall::ParentLookup { config_root, project_root, result } => if is_monorepo_task(config_root, project_root) {
            exists|i: int| first_group_for_root(v.groups, config_root.unwrap(), i) && result == Some(#[trigger] v.groups[i].span_id)
        } else {
            result == Some(v.root.span_id)
        },
        TraceCall::TaskEnd { .. } => true,
    }
}

/// Group `g` was created by `call`: a monorepo lookup for exactly its config root that
/// returned its span id, a fresh random hex id.
pub open spec fn created_by(call: TraceCall, g: GroupView) -> bool {
    match call {
        TraceCall::ParentLookup { config_root, project_root, result } => {
            &&& is_monorepo_task(config_root, project_root)
            &&& config_root == Some(g.config_root)
            &&& result == Some(g.span_id)
            &&& is_hex_id(g.span_id, 8)
        },
        TraceCall::TaskEnd { .. } => false,
    }
}

proof fn lemma_step_grows(a: TraceView, call: TraceCall, b: TraceView)
    requires
        call_step(a, call, b),
    ensures
        trace_grows(a, b),
{
    match call {
        TraceCall::ParentLookup { .. } => {},
        TraceCall::TaskEnd { span } => {
            match span.parent_span_id {
                Some(p) => {
                    let i = choose|i: int| first_group_for_span(a.groups, p, i);
                    if first_group_for_span(a.groups, p, i) {
                        assert forall|j: int| 0 <= j < a.groups.len() implies (#[trigger] b.groups[j]).config_root == a.groups[j].config_root
                            && b.groups[j].span_id == a.groups[j].span_id by {
                            if j == i {
                            }
                        }
                    }
                },
                None => {},
            }
        },
    }
}

proof fn lemma_grows_trans(a: TraceView, b: TraceView, c: TraceView)
    requires
        trace_grows(a, b),
        trace_grows(b, c),
    ensures
        trace_grows(a, c),
{
    assert forall|i: int| 0 <= i < a.groups.len() implies (#[trigger] c.groups[i]).config_root == a.groups[i].config_root
        && c.groups[i].span_id == a.groups[i].span_id by {
        assert(b.groups[i].config_root == a.groups[i].config_root);
    }
    assert forall|i: int| 0 <= i < a.spans.len() implies #[trigger] c.spans[i] == a.spans[i] by {
        assert(b.spans[i] == a.spans[i]);
    }
}

proof fn lemma_answered_persists(a: TraceView, b: TraceView, call: TraceCall)
    requires
        trace_grows(a, b),
        answered(a, call),
    ensures
        answered(b, call),
{
    match call {
        TraceCall::ParentLookup { config_root, project_root, result } => {
            if is_monorepo_task(config_root, project_root) {
                let c = config_root.unwrap();
                let i = choose|i: int| first_group_for_root(a.groups, c, i) && result == Some(#[trigger] a.groups[i].span_id);
                assert(b.groups[i].config_root == a.groups[i].config_root);
                assert forall|j: int| 0 <= j < i implies !same_path(#[trigger] b.groups[j].config_root, c) by {
                    assert(b.groups[j].config_root == a.groups[j].config_root);
                }
                assert(first_group_for_root(b.groups, c, i));
            }
        },
        TraceCall::TaskEnd { .. } => {},
    }
}

/// A lookup call's answer holds right after it.
proof fn lemma_lookup_answered(a: TraceView, call: TraceCall, b: TraceView)
    requires
        call_step(a, call, b),
    ensures
        answered(b, call),
{
    match call {
        TraceCall::ParentLookup { config_root, project_root, result } => {
            if is_monorepo_task(config_root, project_root) {
                let c = config_root.unwrap();
                if has_group_for_root(a.groups, c) {
                    let i = choose|i: int| first_group_for_root(a.groups, c, i) && result == Some(a.groups[i].span_id);
                    assert(result == Some(b.groups[i].span_id));
                } else {
                    let n = a.groups.len() as int;
                    assert(b.groups[n].config_root == c);
                    assert forall|j: int| 0 <= j < n implies !same_path(#[trigger] b.groups[j].config_root, c) by {
                        assert(b.groups[j] == a.groups[j]);
                    }
                    assert(first_group_for_root(b.groups, c, n));
                    let (id, t) = choose|id: Seq<char>, t: i128| #![trigger is_hex_id(id, 8), fresh(t)]
                        result == Some(id) && is_hex_id(id, 8) && b == TraceView {
                            groups: a.groups.push(GroupView { config_root: c, span_id: id, agg: fresh(t), created: a.spans.len() }),
                            ..a
                        };
                    assert(result == Some(b.groups[n].span_id));
                }
            }
        },
        TraceCall::TaskEnd { .. } => {},
    }
}

/// What holds after the first `k` calls of a run.
proof fn lemma_run_prefix(states: Seq<TraceView>, calls: Seq<TraceCall>, k: int)
    requires
        is_run(states, calls),
        0 <= k <= calls.len(),
    ensures
        trace_grows(states[0], states[k]),
        states[k].spans == states[0].spans + ended_spans(calls.take(k)),
        forall|i: int| states[0].groups.len() <= i < states[k].groups.len()
            ==> exists|j: int| 0 <= j < k && created_by(calls[j], #[trigger] states[k].groups[i]),
        forall|j: int| 0 <= j < k ==> answered(states[k], #[trigger] calls[j]),
    decreases k,
{
    if k == 0 {
        assert(calls.take(0) =~= Seq::<TraceCall>::empty());
        assert(states[0].spans + Seq::<SpanView>::empty() =~= states[0].spans);
        assert forall|i: int| 0 <= i < states[0].groups.len() implies (#[trigger] states[0].groups[i]).config_root == states[0].groups[i].config_root
            && states[0].groups[i].span_id == states[0].groups[i].span_id by {}
    } else {
        lemma_run_prefix(states, calls, k - 1);
        let a = states[k - 1];
        let b = states[k];
        let call = calls[k - 1];
        assert(call_step(a, call, b));
        lemma_step_grows(a, call, b);
        lemma_grows_trans(states[0], a, b);
        assert(calls.take(k).drop_last() =~= calls.take(k - 1));
        assert(calls.take(k).last() == call);
        match call {
            TraceCall::TaskEnd { span } => {
                assert(b.spans == a.spans.push(span));
                assert(states[0].spans + ended_spans(calls.take(k)) =~= (states[0].spans + ended_spans(calls.take(k - 1))).push(span));
            },
            TraceCall::ParentLookup { .. } => {
                assert(b.spans == a.spans);
            },
        }
        assert forall|i: int| states[0].groups.len() <= i < b.groups.len()
            implies exists|j: int| 0 <= j < k && created_by(calls[j], #[trigger] b.groups[i]) by {
            if i < a.groups.len() {
                let j = choose|j: int| 0 <= j < k - 1 && created_by(calls[j], #[trigger] a.groups[i]);
                assert(b.groups[i].config_root == a.groups[i].config_root);
                assert(created_by(calls[j], b.groups[i]));
            } else {
                match call {
                    TraceCall::ParentLookup { config_root, project_root, result } => {
                        assert(is_monorepo_task(config_root, project_root));
                        assert(!has_group_for_root(a.groups, config_root.unwrap()));
                        assert(created_by(calls[k - 1], b.groups[i]));
                    },
                    TraceCall::TaskEnd { span } => {
                        assert(b.groups.len() == a.groups.len()) by {
                            match span.parent_span_id {
                                Some(p) => {
                                    let x = choose|x: int| first_group_for_span(a.groups, p, x);
                                    if first_group_for_span(a.groups, p, x) {
                                    }
                                },
                                None => {},
                            }
                        }
                    },
                }
            }
        }
        assert forall|j: int| 0 <= j < k implies answered(b, #[trigger] calls[j]) by {
            if j < k - 1 {
                lemma_answered_persists(a, b, calls[j]);
            } else {
                lemma_lookup_answered(a, call, b);
            }
        }
    }
}

/// The run's trace id and root span are fixed when the trace is made: after any calls,
/// every state has the trace id it was made with, and the root span a finish records
/// has the id, name and parent it was made with, the `run` span type, no error message
/// and no links. For a trace made with `from_parent`, `trace_id` and `parent` are the
/// ones given; for one made with `new`, `parent` is none.
pub proof fn law_root_span_is_fixed_at_creation(
    states: Seq<TraceView>,
    calls: Seq<TraceCall>,
    name: Seq<char>,
    trace_id: Seq<char>,
    parent: Option<Seq<char>>,
    root_span_id: Seq<char>,
    init_time: i128,
    has_failures: bool,
    now: i128,
)
    requires
        is_run(states, calls),
        states[0] == initial_trace(name, trace_id, parent, root_span_id, init_time),
    ensures
        forall|k: int| 0 <= k < states.len() ==> (#[trigger] states[k]).trace_id == trace_id,
        ({
            let r = finished_root_span(states.last(), has_failures, now);
            &&& r.span_id == root_span_id
            &&& r.name == name
            &&& r.trace_id == trace_id
            &&& r.parent_span_id == parent
            &&& r.error_message is None
            &&& r.attributes == seq![("mise.span_type"@, "run"@)]
            &&& r.links.len() == 0
        }),
{
    assert forall|k: int| 0 <= k < states.len() implies (#[trigger] states[k]).trace_id == trace_id by {
        lemma_run_prefix(states, calls, k);
    }
    lemma_run_prefix(states, calls, calls.len() as int);
}

/// Finishing a run made by `new` or `from_parent` lists exactly the spans its task-end
/// calls recorded, in call order, then one span per group, then the root span. Each
/// group was created by a monorepo lookup for exactly its config root, which returned
/// the group's span id; every monorepo lookup of the run is answered by a group of the
/// finished run whose config root is that path; and no two groups share a config root.
pub proof fn law_finish_reflects_call_history(
    states: Seq<TraceView>,
    calls: Seq<TraceCall>,
    has_failures: bool,
    now: i128,
)
    requires
        is_run(states, calls),
        states[0].spans.len() == 0,
        states[0].groups.len() == 0,
        wf_view(states.last()),
    ensures
        ({
            let v = states.last();
            let f = finished_spans(v, has_failures, now);
            let n = ended_spans(calls).len();
            &&& f.len() == n + v.groups.len() + 1
            &&& f.subrange(0, n as int) == ended_spans(calls)
            &&& forall|i: int| 0 <= i < v.groups.len() ==> #[trigger] f[n + i] == group_span(v, v.groups[i], now)
            &&& f[f.len() - 1] == finished_root_span(v, has_failures, now)
            &&& f[f.len() - 1].span_id == states[0].root.span_id
            &&& forall|i: int| 0 <= i < v.groups.len() ==> exists|j: int| 0 <= j < calls.len() && created_by(calls[j], #[trigger] v.groups[i])
            &&& forall|j: int| 0 <= j < calls.len() ==> answered(v, #[trigger] calls[j])
            &&& forall|a: int, b: int| 0 <= a < b < v.groups.len() ==> !same_path(#[trigger] v.groups[a].config_root, #[trigger] v.groups[b].config_root)
        }),
{
    let m = calls.len() as int;
    lemma_run_prefix(states, calls, m);
    assert(calls.take(m) =~= calls);
    let v = states.last();
    assert(v == states[m]);
    assert(Seq::<SpanView>::empty() + ended_spans(calls) =~= ended_spans(calls));
    let f = finished_spans(v, has_failures, now);
    let n = ended_spans(calls).len();
    assert(f.subrange(0, n as int) =~= ended_spans(calls));
}

/// Once a lookup has been made, the same lookup later in the run, after any calls in
/// between, returns the same span id and changes nothing.
pub proof fn law_parent_lookup_repeats(states: Seq<TraceView>, calls: Seq<TraceCall>, j: int, k: int)
    requires
        is_run(states, calls),
        0 <= j < k < calls.len(),
        calls[j] is ParentLookup,
        calls[k] is ParentLookup,
        calls[k]->config_root == calls[j]->config_root,
        calls[k]->project_root == calls[j]->project_root,
    ensures
        calls[k]->result == calls[j]->result,
        states[k + 1] == states[k],
{
    lemma_run_prefix(states, calls, k);
    assert(answered(states[k], calls[j]));
    let a = states[k];
    let b = states[k + 1];
    assert(call_step(a, calls[k], b));
    let c = calls[j]->config_root;
    let p = calls[j]->project_root;
    if is_monorepo_task(c, p) {
        let root = c.unwrap();
        let i = choose|i: int| first_group_for_root(a.groups, root, i) && calls[j]->result == Some(#[trigger] a.groups[i].span_id);
        assert(has_group_for_root(a.groups, root));
        let i2 = choose|i2: int| first_group_for_root(a.groups, root, i2) && calls[k]->result == Some(#[trigger] a.groups[i2].span_id);
        assert(i == i2) by {
            if i < i2 {
                assert(!same_path(a.groups[i].config_root, root));
            } else if i2 < i {
                assert(!same_path(a.groups[i2].config_root, root));
            }
        }
    }
}

/// The spans of a finished run form a tree of depth at most two in one trace, when the
/// trace was made with a hex root span id and every task span that ended was started on
/// it (its trace id and a fresh hex id) under a parent that a lookup of the run returned:
/// every span has the trace id and a 16-digit hex span id, every group span hangs under
/// the root span, and every task span hangs under the root span or under a group span of
/// the run.
pub proof fn law_finished_run_is_two_level_tree(
    states: Seq<TraceView>,
    calls: Seq<TraceCall>,
    name: Seq<char>,
    trace_id: Seq<char>,
    parent: Option<Seq<char>>,
    root_span_id: Seq<char>,
    init_time: i128,
    has_failures: bool,
    now: i128,
)
    requires
        is_run(states, calls),
        states[0] == initial_trace(name, trace_id, parent, root_span_id, init_time),
        is_hex_id(root_span_id, 8),
        forall|k: int| #![trigger calls[k]] 0 <= k < calls.len() && calls[k] is TaskEnd ==> {
            &&& calls[k]->span.trace_id == trace_id
            &&& is_hex_id(calls[k]->span.span_id, 8)
            &&& exists|j: int| 0 <= j < calls.len() && calls[j] is ParentLookup
                && calls[j]->result == (#[trigger] calls[k]->span).parent_span_id
        },
    ensures
        ({
            let v = states.last();
            let f = finished_spans(v, has_failures, now);
            let n = v.spans.len();
            &&& forall|x: int| 0 <= x < f.len() ==> (#[trigger] f[x]).trace_id == trace_id && is_hex_id(f[x].span_id, 8)
            &&& forall|x: int| n <= x < f.len() - 1 ==> (#[trigger] f[x]).parent_span_id == Some(root_span_id)
            &&& forall|x: int| 0 <= x < n ==> (#[trigger] f[x]).parent_span_id == Some(root_span_id)
                || exists|i: int| 0 <= i < v.groups.len() && f[x].parent_span_id == Some(#[trigger] v.groups[i].span_id)
        }),
{
    let m = calls.len() as int;
    lemma_run_prefix(states, calls, m);
    assert(calls.take(m) =~= calls);
    let v = states.last();
    assert(v == states[m]);
    let f = finished_spans(v, has_failures, now);
    let n = v.spans.len();
    let e = ended_spans(calls);
    assert(v.spans =~= e);
    // Every ended span is one of the task-end calls.
    assert forall|x: int| 0 <= x < e.len() implies exists|k: int| 0 <= k < calls.len() && calls[k] is TaskEnd
        && #[trigger] e[x] == calls[k]->span by {
        lemma_ended_spans_come_from_calls(calls, x);
    }
    assert forall|x: int| 0 <= x < f.len() implies (#[trigger] f[x]).trace_id == trace_id && is_hex_id(f[x].span_id, 8) by {
        if x < n {
            assert(f[x] == e[x]);
            let k = choose|k: int| 0 <= k < calls.len() && calls[k] is TaskEnd && #[trigger] e[x] == calls[k]->span;
            assert(calls[k] is TaskEnd);
        } else if x < f.len() - 1 {
            let i = x - n;
            assert(f[x] == group_span(v, v.groups[i], now));
            let j = choose|j: int| 0 <= j < m && created_by(calls[j], #[trigger] v.groups[i]);
            assert(created_by(calls[j], v.groups[i]));
        } else {
            assert(f[x] == finished_root_span(v, has_failures, now));
        }
    }
    assert forall|x: int| 0 <= x < n implies (#[trigger] f[x]).parent_span_id == Some(root_span_id)
        || exists|i: int| 0 <= i < v.groups.len() && f[x].parent_span_id == Some(#[trigger] v.groups[i].span_id) by {
        assert(f[x] == e[x]);
        let k = choose|k: int| 0 <= k < calls.len() && calls[k] is TaskEnd && #[trigger] e[x] == calls[k]->span;
        assert(calls[k] is TaskEnd);
        let j = choose|j: int| 0 <= j < calls.len() && calls[j] is ParentLookup
            && calls[j]->result == (#[trigger] calls[k]->span).parent_span_id;
        assert(answered(v, calls[j]));
        if is_monorepo_task(calls[j]->config_root, calls[j]->project_root) {
            let i = choose|i: int| first_group_for_root(v.groups, calls[j]->config_root.unwrap(), i)
                && calls[j]->result == Some(#[trigger] v.groups[i].span_id);
            assert(f[x].parent_span_id == Some(v.groups[i].span_id));
        }
    }
}

proof fn lemma_ended_spans_come_from_calls(calls: Seq<TraceCall>, x: int)
    requires
        0 <= x < ended_spans(calls).len(),
    ensures
        exists|k: int| 0 <= k < calls.len() && calls[k] is TaskEnd && #[trigger] ended_spans(calls)[x] == calls[k]->span,
    decreases calls.len(),
{
    let p = calls.drop_last();
    let before = ended_spans(p);
    let k0 = calls.len() - 1;
    if x < before.len() {
        lemma_ended_spans_come_from_calls(p, x);
        let k = choose|k: int| 0 <= k < p.len() && p[k] is TaskEnd && #[trigger] ended_spans(p)[x] == p[k]->span;
        assert(calls[k] == p[k]);
        match calls.last() {
            TraceCall::TaskEnd { span } => { assert(ended_spans(calls)[x] == before[x]); },
            _ => {},
        }
    } else {
        match calls.last() {
            TraceCall::TaskEnd { span } => {
                assert(ended_spans(calls)[x] == span);
                assert(calls[k0] is TaskEnd);
            },
            _ => {},
        }
    }
}

// ---------------------------------------------------------------------------
// Log batching over a whole run
// ---------------------------------------------------------------------------

/// `pendings[k + 1]` and `actions[k]` are what the batcher holds and does after
/// `events[k]`, starting from `pendings[k]`, for every `k`.
pub open spec fn is_log_run(pendings: Seq<Seq<LogRecordView>>, events: Seq<LogEvent>, actions: Seq<LogAction>) -> bool {
    &&& pendings.len() == events.len() + 1
    &&& actions.len() == events.len()
    &&& forall|k: int| #![trigger events[k]] 0 <= k < events.len() ==> log_step(pendings[k], events[k], pendings[k + 1], actions[k])
}

/// Everything the actions sent, batch after batch.
pub open spec fn all_flushed(actions: Seq<LogAction>) -> Seq<LogRecordView>
    decreases actions.len(),
{
    if actions.len() == 0 {
        Seq::empty()
    } else {
        all_flushed(actions.drop_last()) + flushed(actions.last())
    }
}

/// Everything the events brought in, in arrival order.
pub open spec fn all_received(events: Seq<LogEvent>) -> Seq<LogRecordView>
    decreases events.len(),
{
    if events.len() == 0 {
        Seq::empty()
    } else {
        all_received(events.drop_last()) + records_in(events.last())
    }
}

/// Over a whole run of the log export loop, nothing is lost, duplicated or reordered:
/// the batches sent, one after the other, followed by what is still pending, are what
/// was pending at the start followed by every record that arrived. No batch sent is
/// empty, and once the channel has closed nothing is pending, so the batches sent are
/// exactly the records of all lines, in order.
pub proof fn law_log_run_conserves_records(
    pendings: Seq<Seq<LogRecordView>>,
    events: Seq<LogEvent>,
    actions: Seq<LogAction>,
)
    requires
        is_log_run(pendings, events, actions),
    ensures
        all_flushed(actions) + pendings.last() == pendings[0] + all_received(events),
        forall|k: int| 0 <= k < actions.len() && (#[trigger] actions[k]).flush is Some ==> flushed(actions[k]).len() > 0,
        events.len() > 0 && events.last() is Closed ==> {
            &&& pendings.last().len() == 0
            &&& all_flushed(actions) == pendings[0] + all_received(events)
        },
    decreases events.len(),
{
    let n = events.len() as int;
    assert forall|k: int| 0 <= k < actions.len() && (#[trigger] actions[k]).flush is Some implies flushed(actions[k]).len() > 0 by {
        assert(log_step(pendings[k], events[k], pendings[k + 1], actions[k]));
    }
    if n == 0 {
        assert(all_flushed(actions) + pendings.last() =~= pendings[0] + all_received(events));
    } else {
        let ps = pendings.drop_last();
        let es = events.drop_last();
        let acts = actions.drop_last();
        assert forall|k: int| #![trigger es[k]] 0 <= k < es.len() implies log_step(ps[k], es[k], ps[k + 1], acts[k]) by {
            assert(events[k] == es[k]);
        }
        law_log_run_conserves_records(ps, es, acts);
        assert(log_step(pendings[n - 1], events[n - 1], pendings[n], actions[n - 1]));
        law_log_batching_conserves_records(pendings[n - 1], events[n - 1], pendings[n], actions[n - 1]);
        assert(ps.last() == pendings[n - 1]);
        assert(ps[0] == pendings[0]);
        let fa = all_flushed(acts);
        let ra = all_received(es);
        let fl = flushed(actions[n - 1]);
        let rin = records_in(events[n - 1]);
        assert(actions.drop_last() == acts);
        assert(events.drop_last() == es);
        assert(all_flushed(actions) == fa + fl);
        assert(all_received(events) == ra + rin);
        assert(fa + pendings[n - 1] == pendings[0] + ra);
        assert(fl + pendings[n] == pendings[n - 1] + rin);
        assert(all_flushed(actions) + pendings.last() =~= fa + (fl + pendings[n]));
        assert(fa + (pendings[n - 1] + rin) =~= (fa + pendings[n - 1]) + rin);
        assert((pendings[0] + ra) + rin =~= pendings[0] + all_received(events));
        assert(all_flushed(actions) + pendings.last() =~= pendings[0] + all_received(events));
        if events.last() is Closed {
            assert(pendings.last().len() == 0);
            assert(all_flushed(actions) + pendings.last() =~= all_flushed(actions));
        }
    }
}

// ---------------------------------------------------------------------------
// What single operations produce, field by field
// ---------------------------------------------------------------------------

/// Every group span of a finished run is named after the final component of its
/// config root (or the whole root when it has none), carries the span type
/// `monorepo_group` and the group's full config root text as `mise.config_root`, hangs
/// under the root span in the run's trace, has no error message and no links, and runs
/// from the earliest task start to the latest task end folded into the group (its
/// creation time and the finish time when there are none), failing exactly when a
/// folded task failed.
pub proof fn law_group_spans_of_finished_run(v: TraceView, has_failures: bool, now: i128)
    ensures
        forall|i: int| #![trigger v.groups[i]] 0 <= i < v.groups.len() ==> {
            let s = finished_spans(v, has_failures, now)[v.spans.len() + i];
            let g = v.groups[i];
            &&& s.attributes == seq![("mise.span_type"@, "monorepo_group"@), ("mise.config_root"@, g.config_root)]
            &&& s.name == match path_file_name_of(g.config_root) {
                Some(n) => n,
                None => g.config_root,
            }
            &&& s.span_id == g.span_id
            &&& s.trace_id == v.trace_id
            &&& s.parent_span_id == Some(v.root.span_id)
            &&& s.error_message is None
            &&& s.links.len() == 0
            &&& s.start_time == match g.agg.min_start {
                Some(t) => t,
                None => g.agg.init_time,
            }
            &&& s.end_time == match g.agg.max_end {
                Some(t) => t,
                None => now,
            }
            &&& (s.status == SpanStatus::Error) == g.agg.has_error
            &&& (s.status != SpanStatus::Error ==> s.status == SpanStatus::Okay)
        },
{
}

/// The span recorded when a task ends is exactly what was passed in: the started
/// span's trace id, span id, parent and start time, the given name, end time, status,
/// error message, and all the given attributes in their order; it has no links.
pub proof fn law_task_span_keeps_its_inputs(
    started: StartedSpan,
    task_name: Seq<char>,
    end_time: i128,
    status: SpanStatus,
    error_message: Option<Seq<char>>,
    attributes: Seq<(Seq<char>, Seq<char>)>,
)
    ensures
        ({
            let s = task_span(started, task_name, end_time, status, error_message, attributes);
            &&& s.attributes == attributes
            &&& s.attributes.len() == attributes.len()
            &&& s.name == task_name
            &&& s.trace_id == started.trace_id@
            &&& s.span_id == started.span_id@
            &&& s.parent_span_id == started.parent_span_id.deep_view()
            &&& s.start_time == started.start_time
            &&& s.end_time == end_time
            &&& s.status == status
            &&& s.error_message == error_message
            &&& s.links.len() == 0
        }),
{
}

/// Ending a task appends exactly that span to the ended spans and leaves the trace id
/// and the root span's identity alone.
pub proof fn law_end_step_appends_the_span(v: TraceView, s: SpanView)
    ensures
        end_step(v, s).spans == v.spans.push(s),
        end_step(v, s).trace_id == v.trace_id,
        end_step(v, s).root.span_id == v.root.span_id,
        end_step(v, s).root.parent_span_id == v.root.parent_span_id,
        end_step(v, s).root.name == v.root.name,
{
}

/// Every log record is flagged as sampled (trace flags 1), whatever its stream, so that
/// backends link it to its span. A stdout line becomes an INFO record (severity 9) and
/// a stderr line an ERROR record (severity 17); the record keeps the line's text, task
/// span and trace, carries the task name and the stream, and its observed time equals
/// its time.
pub proof fn law_log_record_fields(line: LogLine)
    ensures
        ({
            let r = log_record_of(line);
            &&& r.flags == 1
            &&& r.severity_number == if line.is_stderr { 17u32 } else { 9u32 }
            &&& r.severity_text == if line.is_stderr { "ERROR"@ } else { "INFO"@ }
            &&& r.body == line.body@
            &&& r.trace_id == line.trace_id@
            &&& r.span_id == line.span_id@
            &&& r.observed_time_unix_nano == r.time_unix_nano
            &&& r.attributes == seq![
                ("mise.task.name"@, line.task_name@),
                ("output.stream"@, if line.is_stderr { "stderr"@ } else { "stdout"@ }),
            ]
        }),
{
}

/// The batching rules, event by event. When lines arrive, the batch is sent exactly when
/// the pending records and the new ones number at least 100; it is then sent whole and
/// nothing stays pending, and otherwise nothing is sent and every record stays pending,
/// the new ones after the old. When the interval passes, what is pending is sent, if
/// anything. When the channel closes, what is pending is sent, if anything, and the
/// loop stops; it stops on no other event.
pub proof fn law_log_batching_rules(pending: Seq<LogRecordView>, event: LogEvent, after: Seq<LogRecordView>, a: LogAction)
    requires
        log_step(pending, event, after, a),
    ensures
        a.stop <==> event is Closed,
        event is Received ==> {
            let n = event->Received_0@.len();
            &&& (a.flush is Some) <==> pending.len() + n >= 100
            &&& a.flush is Some ==> after.len() == 0 && flushed(a).len() == pending.len() + n
            &&& a.flush is None ==> after.len() == pending.len() + n
                && after.subrange(0, pending.len() as int) == pending
        },
        !(event is Received) ==> {
            &&& (a.flush is Some) <==> pending.len() > 0
            &&& a.flush is Some ==> flushed(a) == pending
            &&& after.len() == 0
        },
{
    match event {
        LogEvent::Received(lines) => {
            let all = pending + log_records_of(lines@);
            assert(all.len() == pending.len() + lines@.len());
            if a.flush is None {
                assert(after.subrange(0, pending.len() as int) =~= pending);
            }
        },
        _ => {},
    }
}

/// The value of a run of decimal digits.
pub open spec fn digits_value(s: Seq<char>) -> int
    decreases s.len(),
{
    if s.len() == 0 {
        0
    } else {
        digits_value(s.drop_last()) * 10 + ((s.last() as u32) - 48)
    }
}

pub open spec fn is_digit(c: char) -> bool {
    '0' <= c && c <= '9'
}

proof fn lemma_digit_reads_back(d: nat)
    requires
        d < 10,
    ensures
        (crate::text::decimal_digit(d) as u32) - 48 == d,
        is_digit(crate::text::decimal_digit(d)),
        d != 0 ==> crate::text::decimal_digit(d) != '0',
{
    let x: u8 = (48 + d) as u8;
    assert(x == 48 + d);
    assert((x as char) as u32 == x as u32);
}

proof fn lemma_decimal_reads_back(n: nat)
    ensures
        digits_value(decimal(n)) == n,
        decimal(n).len() > 0,
        forall|i: int| 0 <= i < decimal(n).len() ==> is_digit(#[trigger] decimal(n)[i]),
        decimal(n).len() > 1 ==> decimal(n)[0] != '0',
    decreases n,
{
    if n < 10 {
        lemma_digit_reads_back(n);
        let d = decimal(n);
        assert(d.drop_last().len() == 0);
        assert(digits_value(d.drop_last()) == 0);
    } else {
        lemma_decimal_reads_back(n / 10);
        lemma_digit_reads_back(n % 10);
        let p = decimal(n / 10);
        let d = decimal(n);
        assert(d.drop_last() =~= p);
        assert(d.last() == crate::text::decimal_digit(n % 10));
        assert(digits_value(d) == digits_value(p) * 10 + ((d.last() as u32) - 48));
        assert(digits_value(d) == (n / 10) * 10 + n % 10);
        assert forall|i: int| 0 <= i < d.len() implies is_digit(#[trigger] d[i]) by {
            if i < p.len() {
                assert(d[i] == p[i]);
            }
        }
        assert(d[0] == p[0]);
        if n / 10 < 10 {
            lemma_digit_reads_back(n / 10);
        } else {
            lemma_decimal_reads_back((n / 10) / 10);
            assert(p.len() > 1);
        }
    }
}

/// A timestamp's text is the decimal numeral, without leading zeros, of its
/// nanoseconds since the Unix epoch, where an instant before the epoch reads as 0.
pub proof fn law_timestamp_text_reads_back(t: i128)
    ensures
        digits_value(nanos_text(t)) == if t < 0 { 0 } else { t as int },
        nanos_text(t).len() > 0,
        forall|i: int| 0 <= i < nanos_text(t).len() ==> is_digit(#[trigger] nanos_text(t)[i]),
        nanos_text(t).len() > 1 ==> nanos_text(t)[0] != '0',
{
    if t < 0 {
        lemma_decimal_reads_back(0);
    } else {
        lemma_decimal_reads_back(t as nat);
    }
}

/// The OTLP rendering of a span keeps its ids, parent, name, attributes and error
/// message, marks it INTERNAL (kind 1), renders its times as timestamp texts, maps its
/// status Unset, Okay, Error to codes 0, 1, 2, and keeps each link's ids with no
/// attributes.
pub proof fn law_otlp_rendering(s: SpanView)
    ensures
        ({
            let o = otlp_of(s);
            &&& o.trace_id == s.trace_id
            &&& o.span_id == s.span_id
            &&& o.parent_span_id == s.parent_span_id
            &&& o.name == s.name
            &&& o.kind == 1
            &&& o.start_time_unix_nano == nanos_text(s.start_time)
            &&& o.end_time_unix_nano == nanos_text(s.end_time)
            &&& o.attributes == s.attributes
            &&& o.status_code == match s.status {
                SpanStatus::Unset => 0u32,
                SpanStatus::Okay => 1u32,
                SpanStatus::Error => 2u32,
            }
            &&& o.status_message == s.error_message
            &&& o.links.len() == s.links.len()
            &&& forall|i: int| 0 <= i < s.links.len() ==> (#[trigger] o.links[i]).0 == s.links[i].0
                && o.links[i].1 == s.links[i].1 && o.links[i].2.len() == 0
        }),
{
}

/// Trimming an endpoint removes exactly its trailing slashes: the result is a prefix of
/// the text that does not end in `/`, and everything cut off is `/`.
pub proof fn law_trim_removes_exactly_trailing_slashes(e: Seq<char>)
    ensures
        ({
            let t = trim_trailing_slashes(e);
            &&& t.len() <= e.len()
            &&& t == e.subrange(0, t.len() as int)
            &&& (t.len() > 0 ==> t.last() != '/')
            &&& forall|i: int| t.len() <= i < e.len() ==> #[trigger] e[i] == '/'
        }),
    decreases e.len(),
{
    if e.len() > 0 && e.last() == '/' {
        let p = e.drop_last();
        law_trim_removes_exactly_trailing_slashes(p);
        let t = trim_trailing_slashes(p);
        assert(t == p.subrange(0, t.len() as int));
        assert(p.subrange(0, t.len() as int) =~= e.subrange(0, t.len() as int));
        assert forall|i: int| t.len() <= i < e.len() implies #[trigger] e[i] == '/' by {
            if i < p.len() {
                assert(e[i] == p[i]);
            }
        }
    } else {
        assert(e.subrange(0, e.len() as int) =~= e);
    }
}

/// Which tasks belong under a group: a task with a config root belongs under one
/// unless the project root is the same path; a task without a config root never does,
/// and neither does one whose config root is the project root's very text.
pub proof fn law_monorepo_rule(c: Seq<char>, p: Seq<char>, pr: Option<Seq<char>>)
    ensures
        is_monorepo_task(Some(c), None),
        !is_monorepo_task(None, pr),
        !is_monorepo_task(Some(c), Some(c)),
        is_monorepo_task(Some(c), Some(p)) <==> !(c == p || path_components_equal(c, p)),
{
}

/// A lookup for a task that does not belong under a group returns the root span id and
/// changes nothing; one that does returns the span id of a group of the resulting trace
/// whose config root is that path.
pub proof fn law_lookup_results(
    old: TraceView,
    config_root: Option<Seq<char>>,
    project_root: Option<Seq<char>>,
    r: Option<Seq<char>>,
    new: TraceView,
)
    requires
        parent_step(old, config_root, project_root, r, new),
    ensures
        !is_monorepo_task(config_root, project_root) ==> r == Some(old.root.span_id) && new == old,
        is_monorepo_task(config_root, project_root) ==> exists|i: int|
            0 <= i < new.groups.len() && same_path(#[trigger] new.groups[i].config_root, config_root.unwrap())
                && r == Some(new.groups[i].span_id),
        new.root == old.root,
        new.spans == old.spans,
{
    if is_monorepo_task(config_root, project_root) {
        lemma_lookup_answered(old, TraceCall::ParentLookup { config_root, project_root, result: r }, new);
    }
}

/// The headers sent are exactly the valid configured ones: every header sent comes from
/// a configured pair whose name is a valid header name (sent normalized) and whose value
/// is a valid header value (sent unchanged), and every such configured pair is sent.
pub proof fn law_headers_sent_are_the_valid_ones(hs: Seq<(Seq<char>, Seq<char>)>)
    ensures
        ({
            let out = accepted_headers(hs);
            &&& out.len() <= hs.len()
            &&& forall|j: int| 0 <= j < out.len() ==> exists|i: int| #![trigger hs[i]] 0 <= i < hs.len()
                && header_name_text(hs[i].0) == Some((#[trigger] out[j]).0) && out[j].1 == hs[i].1
                && header_value_ok(hs[i].1)
            &&& forall|i: int| #![trigger hs[i]] 0 <= i < hs.len() && header_name_text(hs[i].0) is Some
                && header_value_ok(hs[i].1) ==> exists|j: int| 0 <= j < out.len()
                && #[trigger] out[j] == (header_name_text(hs[i].0).unwrap(), hs[i].1)
        }),
    decreases hs.len(),
{
    if hs.len() > 0 {
        let p = hs.drop_last();
        law_headers_sent_are_the_valid_ones(p);
        let before = accepted_headers(p);
        let out = accepted_headers(hs);
        let last = hs.last();
        let k = hs.len() - 1;
        assert forall|i: int| 0 <= i < p.len() implies #[trigger] hs[i] == p[i] by {}
        assert forall|j: int| 0 <= j < out.len() implies exists|i: int| #![trigger hs[i]] 0 <= i < hs.len()
            && header_name_text(hs[i].0) == Some((#[trigger] out[j]).0) && out[j].1 == hs[i].1
            && header_value_ok(hs[i].1) by {
            if j < before.len() {
                assert(out[j] == before[j]);
                let i = choose|i: int| #![trigger p[i]] 0 <= i < p.len()
                    && header_name_text(p[i].0) == Some(before[j].0) && before[j].1 == p[i].1
                    && header_value_ok(p[i].1);
                assert(hs[i] == p[i]);
            } else {
                assert(hs[k] == last);
            }
        }
        assert forall|i: int| #![trigger hs[i]] 0 <= i < hs.len() && header_name_text(hs[i].0) is Some
            && header_value_ok(hs[i].1) implies exists|j: int| 0 <= j < out.len()
            && #[trigger] out[j] == (header_name_text(hs[i].0).unwrap(), hs[i].1) by {
            if i < k {
                assert(hs[i] == p[i]);
                let j = choose|j: int| 0 <= j < before.len()
                    && #[trigger] before[j] == (header_name_text(p[i].0).unwrap(), p[i].1);
                assert(out[j] == before[j]);
            } else {
                assert(out[before.len() as int] == (header_name_text(last.0).unwrap(), last.1));
            }
        }
    }
}

/// Exports go to `<endpoint>/v1/traces` and `<endpoint>/v1/logs`, with the endpoint's
/// trailing slashes removed, and describe the exporter by its service name and the
/// `mise`/`rust` SDK identity.
pub proof fn law_export_targets(settings: OtelSettings)
    ensures
        settings.endpoint is Some ==> endpoint_base(settings) == Some(trim_trailing_slashes(settings.endpoint.unwrap()@)),
        settings.endpoint is None ==> endpoint_base(settings) is None,
        resource_attributes(settings.service_name@) == seq![
            ("service.name"@, settings.service_name@),
            ("telemetry.sdk.name"@, "mise"@),
            ("telemetry.sdk.language"@, "rust"@),
        ],
{
}

} // verus!
