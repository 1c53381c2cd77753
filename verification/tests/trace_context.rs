use mise_otel::span::OtelSpan;
use mise_otel::trace_context::{group_span_name, StartedSpan, TraceContext};
use mise_otel::types::SpanStatus;

fn now() -> i128 {
    std::time::SystemTime::now()
        .duration_since(std::time::UNIX_EPOCH)
        .unwrap()
        .as_nanos() as i128
}

fn span_by_name<'a>(spans: &'a [OtelSpan], name: &str) -> &'a OtelSpan {
    spans
        .iter()
        .find(|span| span.name == name)
        .unwrap_or_else(|| panic!("missing span {name}"))
}

fn is_lower_hex(s: &str, len: usize) -> bool {
    s.len() == len && s.chars().all(|c| c.is_ascii_digit() || ('a'..='f').contains(&c))
}

#[test]
fn finish_builds_root_and_monorepo_hierarchy() {
    let mut trace = TraceContext::new("mise run");
    let project_root = "/workspace".to_string();
    let monorepo_root = "/workspace/packages/frontend".to_string();

    let direct_parent = trace.parent_span_for_task(Some(&project_root), Some(&project_root));
    let direct_task = trace.start_task_span("lint", direct_parent, vec![]);
    trace.end_task_span(direct_task, "lint", now(), SpanStatus::Okay, None, vec![]);

    let monorepo_parent = trace.parent_span_for_task(Some(&monorepo_root), Some(&project_root));
    let monorepo_task = trace.start_task_span("build", monorepo_parent, vec![]);
    trace.end_task_span(monorepo_task, "build", now(), SpanStatus::Okay, None, vec![]);

    let spans = trace.finish(false);
    let root = span_by_name(&spans, "mise run");
    let group = span_by_name(&spans, "frontend");
    let lint = span_by_name(&spans, "lint");
    let build = span_by_name(&spans, "build");

    assert_eq!(root.parent_span_id, None);
    assert_eq!(root.status, SpanStatus::Okay);
    assert_eq!(group.parent_span_id.as_deref(), Some(root.span_id.as_str()));
    assert_eq!(group.status, SpanStatus::Okay);
    assert_eq!(lint.parent_span_id.as_deref(), Some(root.span_id.as_str()));
    assert_eq!(build.parent_span_id.as_deref(), Some(group.span_id.as_str()));
}

#[test]
fn finish_marks_failed_group_and_root_error() {
    let mut trace = TraceContext::new("mise run");
    let project_root = "/workspace".to_string();
    let monorepo_root = "/workspace/packages/frontend".to_string();

    let parent_span = trace.parent_span_for_task(Some(&monorepo_root), Some(&project_root));
    let task = trace.start_task_span("build", parent_span, vec![]);
    trace.end_task_span(task, "build", now(), SpanStatus::Error, Some("boom".to_string()), vec![]);

    let spans = trace.finish(true);
    let root = span_by_name(&spans, "mise run");
    let group = span_by_name(&spans, "frontend");
    let build = span_by_name(&spans, "build");

    assert_eq!(build.status, SpanStatus::Error);
    assert_eq!(group.status, SpanStatus::Error);
    assert_eq!(root.status, SpanStatus::Error);
}

#[test]
fn finish_keeps_parent_span_for_nested_run() {
    let trace = TraceContext::from_parent(
        "mise run nested",
        "0123456789abcdef0123456789abcdef".to_string(),
        "0123456789abcdef".to_string(),
    );

    let spans = trace.finish(false);
    let root = span_by_name(&spans, "mise run nested");

    assert_eq!(root.trace_id, "0123456789abcdef0123456789abcdef");
    assert_eq!(root.parent_span_id.as_deref(), Some("0123456789abcdef"));
}

#[test]
fn new_trace_has_hex_ids() {
    let trace = TraceContext::new("run");
    let started = trace.start_task_span("t", None, vec![]);
    assert!(is_lower_hex(&started.trace_id, 32));
    assert!(is_lower_hex(&started.span_id, 16));
    let other = trace.start_task_span("u", None, vec![]);
    assert_eq!(other.trace_id, started.trace_id);
    let spans = trace.finish(false);
    assert_eq!(spans.len(), 1);
    assert!(is_lower_hex(&spans[0].span_id, 16));
    assert_eq!(spans[0].trace_id, started.trace_id);
    assert_eq!(spans[0].attributes, vec![("mise.span_type".to_string(), "run".to_string())]);
}

#[test]
fn parent_span_without_config_root_is_root() {
    let mut trace = TraceContext::new("run");
    let project_root = "/p".to_string();
    let a = trace.parent_span_for_task(None, Some(&project_root));
    let b = trace.parent_span_for_task(None, None);
    assert!(a.is_some());
    assert_eq!(a, b);
    let spans = trace.finish(false);
    assert_eq!(spans.len(), 1);
    assert_eq!(Some(spans[0].span_id.clone()), a);
}

#[test]
fn parent_span_without_project_root_is_group() {
    let mut trace = TraceContext::new("run");
    let cr = "/w/pkg".to_string();
    let root = trace.parent_span_for_task(None, None);
    let g = trace.parent_span_for_task(Some(&cr), None);
    assert_ne!(g, root);
    let spans = trace.finish(false);
    assert_eq!(spans.len(), 2);
    assert_eq!(spans[0].name, "pkg");
    assert_eq!(Some(spans[0].span_id.clone()), g);
}

#[test]
fn same_config_root_reuses_group() {
    let mut trace = TraceContext::new("run");
    let pr = "/w".to_string();
    let cr = "/w/a".to_string();
    let other = "/w/b".to_string();
    let g1 = trace.parent_span_for_task(Some(&cr), Some(&pr));
    let g2 = trace.parent_span_for_task(Some(&cr), Some(&pr));
    let g3 = trace.parent_span_for_task(Some(&other), Some(&pr));
    assert_eq!(g1, g2);
    assert_ne!(g1, g3);
    let spans = trace.finish(false);
    // two groups and the root
    assert_eq!(spans.len(), 3);
    assert_eq!(spans[0].name, "a");
    assert_eq!(spans[1].name, "b");
    assert_eq!(spans[2].name, "run");
}

#[test]
fn config_root_equal_as_path_is_not_monorepo() {
    let mut trace = TraceContext::new("run");
    let root = trace.parent_span_for_task(None, None);
    let pr = "/workspace".to_string();
    let cr = "/workspace/".to_string();
    let p = trace.parent_span_for_task(Some(&cr), Some(&pr));
    assert_eq!(p, root);
    let cr2 = "/workspace/./".to_string();
    let p2 = trace.parent_span_for_task(Some(&cr2), Some(&pr));
    assert_eq!(p2, root);
    assert_eq!(trace.finish(false).len(), 1);
}

#[test]
fn group_named_after_path_or_whole_root() {
    let mut trace = TraceContext::new("run");
    let pr = "/w".to_string();
    let cr = "/".to_string();
    let g = trace.parent_span_for_task(Some(&cr), Some(&pr));
    let spans = trace.finish_at(false, 42);
    assert_eq!(spans.len(), 2);
    assert_eq!(spans[0].name, "/");
    assert_eq!(Some(spans[0].span_id.clone()), g);
    assert_eq!(
        spans[0].attributes,
        vec![
            ("mise.span_type".to_string(), "monorepo_group".to_string()),
            ("mise.config_root".to_string(), "/".to_string()),
        ]
    );
    assert_eq!(spans[0].end_time, 42);
    assert_eq!(spans[1].end_time, 42);
}

#[test]
fn group_span_name_prefers_file_name() {
    assert_eq!(group_span_name("/a/b", Some("b".to_string())), "b");
    assert_eq!(group_span_name("/", None), "/");
}

fn started(trace: &TraceContext, parent: Option<String>, start: i128) -> StartedSpan {
    let s = trace.start_task_span("x", parent, vec![]);
    StartedSpan { start_time: start, ..s }
}

#[test]
fn root_and_group_cover_their_tasks() {
    let mut trace = TraceContext::new("run");
    let pr = "/w".to_string();
    let cr = "/w/a".to_string();
    let root_id = trace.parent_span_for_task(None, None);
    let group_id = trace.parent_span_for_task(Some(&cr), Some(&pr));

    let t1 = started(&trace, root_id.clone(), 100);
    let e1 = trace.end_task_span(t1, "one", 500, SpanStatus::Okay, None, vec![("k".to_string(), "v".to_string())]);
    assert_eq!(e1.name, "one");
    assert_eq!(e1.start_time, 100);
    assert_eq!(e1.end_time, 500);
    assert_eq!(e1.parent_span_id, root_id);
    assert!(e1.links.is_empty());
    assert_eq!(e1.attributes, vec![("k".to_string(), "v".to_string())]);

    let t2 = started(&trace, group_id.clone(), 200);
    trace.end_task_span(t2, "two", 300, SpanStatus::Error, Some("bad".to_string()), vec![]);
    let t3 = started(&trace, group_id.clone(), 250);
    trace.end_task_span(t3, "three", 900, SpanStatus::Okay, None, vec![]);

    let spans = trace.finish_at(false, 10_000);
    assert_eq!(spans.len(), 5);
    let names: Vec<&str> = spans.iter().map(|s| s.name.as_str()).collect();
    assert_eq!(names, vec!["one", "two", "three", "a", "run"]);

    let group = &spans[3];
    assert_eq!(group.start_time, 200);
    assert_eq!(group.end_time, 900);
    assert_eq!(group.status, SpanStatus::Error);
    assert_eq!(group.parent_span_id, root_id);

    let root = &spans[4];
    assert_eq!(root.start_time, 100);
    assert_eq!(root.end_time, 900);
    assert_eq!(root.status, SpanStatus::Error);
    assert_eq!(root.error_message, None);
    assert_eq!(spans[1].error_message.as_deref(), Some("bad"));
}

#[test]
fn idle_group_and_root_use_fallback_times() {
    let mut trace = TraceContext::new("run");
    let before = now();
    let cr = "/w/a".to_string();
    trace.parent_span_for_task(Some(&cr), None);
    let spans = trace.finish_at(false, 77);
    assert_eq!(spans.len(), 2);
    assert_eq!(spans[0].end_time, 77);
    assert!(spans[0].start_time >= before);
    assert_eq!(spans[0].status, SpanStatus::Okay);
    assert_eq!(spans[1].end_time, 77);
    assert!(spans[1].start_time <= before);
    assert_eq!(spans[1].status, SpanStatus::Okay);
}

#[test]
fn reported_failures_mark_root_error_only() {
    let mut trace = TraceContext::new("run");
    let cr = "/w/a".to_string();
    let g = trace.parent_span_for_task(Some(&cr), None);
    let t = started(&trace, g, 5);
    trace.end_task_span(t, "ok", 6, SpanStatus::Okay, None, vec![]);
    let spans = trace.finish_at(true, 9);
    assert_eq!(spans[1].status, SpanStatus::Okay);
    assert_eq!(spans[2].status, SpanStatus::Error);
}

#[test]
fn unset_status_does_not_mark_error() {
    let mut trace = TraceContext::new("run");
    let t = started(&trace, None, 1);
    trace.end_task_span(t, "t", 2, SpanStatus::Unset, None, vec![]);
    let spans = trace.finish_at(false, 3);
    assert_eq!(spans[1].status, SpanStatus::Okay);
    assert_eq!(spans[1].start_time, 1);
    assert_eq!(spans[1].end_time, 2);
}

#[test]
fn task_under_unknown_parent_only_counts_for_root() {
    let mut trace = TraceContext::new("run");
    let cr = "/w/a".to_string();
    trace.parent_span_for_task(Some(&cr), None);
    let t = started(&trace, Some("ffffffffffffffff".to_string()), 10);
    trace.end_task_span(t, "t", 20, SpanStatus::Error, None, vec![]);
    let spans = trace.finish_at(false, 99);
    // the group saw nothing
    assert_eq!(spans[1].end_time, 99);
    assert_eq!(spans[1].status, SpanStatus::Okay);
    // the root saw the task
    assert_eq!(spans[2].start_time, 10);
    assert_eq!(spans[2].end_time, 20);
    assert_eq!(spans[2].status, SpanStatus::Error);
}

#[test]
fn repeated_lookup_after_other_calls_is_unchanged() {
    let mut trace = TraceContext::new("run");
    let pr = "/w".to_string();
    let a = "/w/a".to_string();
    let b = "/w/b".to_string();
    let first = trace.parent_span_for_task(Some(&a), Some(&pr));
    let t = trace.start_task_span("x", first.clone(), vec![]);
    trace.end_task_span(t, "x", now(), SpanStatus::Okay, None, vec![]);
    trace.parent_span_for_task(Some(&b), Some(&pr));
    let again = trace.parent_span_for_task(Some(&a), Some(&pr));
    assert_eq!(again, first);
    // two groups, one task, the root
    assert_eq!(trace.finish(false).len(), 4);
}

#[test]
fn finished_run_is_two_level_tree_in_one_trace() {
    let mut trace = TraceContext::from_parent("nested", "ab".repeat(16), "cd".repeat(8));
    let pr = "/w".to_string();
    let a = "/w/a".to_string();
    for (cr, name) in [(Some(&a), "in-group"), (None, "direct"), (Some(&pr), "project")] {
        let parent = trace.parent_span_for_task(cr, Some(&pr));
        let t = trace.start_task_span(name, parent, vec![]);
        trace.end_task_span(t, name, now(), SpanStatus::Okay, None, vec![]);
    }
    let spans = trace.finish(false);
    assert_eq!(spans.len(), 5);
    let root = &spans[4];
    assert_eq!(root.name, "nested");
    assert_eq!(root.parent_span_id.as_deref(), Some("cd".repeat(8).as_str()));
    let group = &spans[3];
    assert_eq!(group.parent_span_id.as_deref(), Some(root.span_id.as_str()));
    for s in &spans {
        assert_eq!(s.trace_id, "ab".repeat(16));
        assert!(is_lower_hex(&s.span_id, 16));
    }
    assert_eq!(spans[0].parent_span_id.as_deref(), Some(group.span_id.as_str()));
    assert_eq!(spans[1].parent_span_id.as_deref(), Some(root.span_id.as_str()));
    assert_eq!(spans[2].parent_span_id.as_deref(), Some(root.span_id.as_str()));
}
