//! The state of one traced run: the root span, the monorepo group spans, and the
//! task spans that have ended.
//!
//! Tasks whose config root is a monorepo root other than the project root hang under a
//! group span for that config root; all other tasks hang directly under the run's root
//! span. Each span is recorded exactly once, when it ends: task spans in
//! `end_task_span`, the group spans and the root span in `finish`, with their start and
//! end taken from the earliest start and the latest end of the tasks under them, and
//! their status from whether any of those tasks failed.

use vstd::prelude::*;

use crate::platform::{now_nanos, path_components_equal, path_eq, path_file_name, path_file_name_of, random_byte};
use crate::span::{span_views, OtelSpan, SpanView};
use crate::text::{hex_of, is_hex_id, push_hex_byte};
use crate::types::SpanStatus;

verus! {

// ---------------------------------------------------------------------------
// Identifiers
// ---------------------------------------------------------------------------

/// `len` random bytes written as lowercase hex.
fn random_hex(len: usize) -> (r: String)
    ensures
        is_hex_id(r@, len as nat),
{
    let mut buf = String::new();
    let ghost mut bytes: Seq<u8> = Seq::empty();
    let mut i: usize = 0;
    while i < len
        invariant
            i <= len,
            bytes.len() == i,
            buf@ == hex_of(bytes),
        decreases len - i,
    {
        let byte = random_byte();
        push_hex_byte(&mut buf, byte);
        proof {
            let next = bytes.push(byte);
            assert(next.drop_last() =~= bytes);
            bytes = next;
        }
        i = i + 1;
    }
    assert(buf@ == hex_of(bytes));
    buf
}

/// A fresh trace id: 16 random bytes, 32 hex digits.
fn new_trace_id() -> (r: String)
    ensures
        is_hex_id(r@, 16),
{
    random_hex(16)
}

/// A fresh span id: 8 random bytes, 16 hex digits.
fn new_span_id() -> (r: String)
    ensures
        is_hex_id(r@, 8),
{
    random_hex(8)
}

// ---------------------------------------------------------------------------
// Aggregates
// ---------------------------------------------------------------------------

/// What a root or group span accumulates from the tasks under it.
#[derive(Clone, Copy)]
pub struct Aggregate {
    /// When the span was created; its start if no task under it ever ended.
    pub init_time: i128,
    /// The earliest start among the tasks folded in so far.
    pub min_start: Option<i128>,
    /// The latest end among the tasks folded in so far.
    pub max_end: Option<i128>,
    /// Whether any task folded in so far failed.
    pub has_error: bool,
}

/// The aggregate of a span created at `init_time` under which no task has ended.
pub open spec fn fresh(init_time: i128) -> Aggregate {
    Aggregate { init_time, min_start: None, max_end: None, has_error: false }
}

pub open spec fn earliest(existing: Option<i128>, t: i128) -> i128 {
    match existing {
        Some(e) => if e <= t { e } else { t },
        None => t,
    }
}

pub open spec fn latest(existing: Option<i128>, t: i128) -> i128 {
    match existing {
        Some(e) => if e >= t { e } else { t },
        None => t,
    }
}

/// `a` after one more task, running from `start` to `end` with `status`, is folded in.
pub open spec fn folded(a: Aggregate, start: i128, end: i128, status: SpanStatus) -> Aggregate {
    Aggregate {
        init_time: a.init_time,
        min_start: Some(earliest(a.min_start, start)),
        max_end: Some(latest(a.max_end, end)),
        has_error: a.has_error || status == SpanStatus::Error,
    }
}

/// `a` after every span of `spans` is folded in, in order.
pub open spec fn fold_all(a: Aggregate, spans: Seq<SpanView>) -> Aggregate
    decreases spans.len(),
{
    if spans.len() == 0 {
        a
    } else {
        let l = spans.last();
        folded(fold_all(a, spans.drop_last()), l.start_time, l.end_time, l.status)
    }
}

/// `a` after the spans of `spans` whose parent is `parent` are folded in, in order.
pub open spec fn fold_children(a: Aggregate, spans: Seq<SpanView>, parent: Seq<char>) -> Aggregate
    decreases spans.len(),
{
    if spans.len() == 0 {
        a
    } else {
        let l = spans.last();
        let before = fold_children(a, spans.drop_last(), parent);
        if l.parent_span_id == Some(parent) {
            folded(before, l.start_time, l.end_time, l.status)
        } else {
            before
        }
    }
}

impl Aggregate {
    fn fold(&mut self, start: i128, end: i128, status: SpanStatus)
        ensures
            *final(self) == folded(*old(self), start, end, status),
    {
        let min = match self.min_start {
            Some(existing) => if existing <= start { existing } else { start },
            None => start,
        };
        let max = match self.max_end {
            Some(existing) => if existing >= end { existing } else { end },
            None => end,
        };
        self.min_start = Some(min);
        self.max_end = Some(max);
        self.has_error = self.has_error || status == SpanStatus::Error;
    }
}

// ---------------------------------------------------------------------------
// The model of a trace
// ---------------------------------------------------------------------------

/// The run's root span as it stands before `finish`.
pub struct RootView {
    pub parent_span_id: Option<Seq<char>>,
    pub span_id: Seq<char>,
    pub name: Seq<char>,
    pub agg: Aggregate,
}

/// A monorepo group span as it stands before `finish`; `created` is the number of task
/// spans that had ended when the group was created.
pub struct GroupView {
    pub config_root: Seq<char>,
    pub span_id: Seq<char>,
    pub agg: Aggregate,
    pub created: nat,
}

/// The abstract state of a trace: its id, the root span, the groups in creation order,
/// and the task spans in the order they ended.
pub struct TraceView {
    pub trace_id: Seq<char>,
    pub root: RootView,
    pub groups: Seq<GroupView>,
    pub spans: Seq<SpanView>,
}

/// Two config roots name the same directory: the same text, or paths that
/// `std::path::Path` compares equal.
pub open spec fn same_path(a: Seq<char>, b: Seq<char>) -> bool {
    a == b || path_components_equal(a, b)
}

/// `i` is the first group whose config root is the same path as `root`.
pub open spec fn first_group_for_root(groups: Seq<GroupView>, root: Seq<char>, i: int) -> bool {
    &&& 0 <= i < groups.len()
    &&& same_path(groups[i].config_root, root)
    &&& forall|j: int| 0 <= j < i ==> !same_path(#[trigger] groups[j].config_root, root)
}

pub open spec fn has_group_for_root(groups: Seq<GroupView>, root: Seq<char>) -> bool {
    exists|i: int| 0 <= i < groups.len() && same_path(#[trigger] groups[i].config_root, root)
}

/// `i` is the first group whose span id is `id`.
pub open spec fn first_group_for_span(groups: Seq<GroupView>, id: Seq<char>, i: int) -> bool {
    &&& 0 <= i < groups.len()
    &&& groups[i].span_id == id
    &&& forall|j: int| 0 <= j < i ==> #[trigger] groups[j].span_id != id
}

/// No earlier group has the same span id as group `i`.
pub open spec fn is_first_with_its_id(groups: Seq<GroupView>, i: int) -> bool {
    forall|j: int| 0 <= j < i ==> #[trigger] groups[j].span_id != groups[i].span_id
}

/// Group `i` holds exactly what the task spans that ended under it since its creation
/// add up to (a later group that happens to share an earlier group's id gets nothing).
pub open spec fn group_consistent(v: TraceView, i: int) -> bool {
    let g = v.groups[i];
    &&& g.created <= v.spans.len()
    &&& g.agg == if is_first_with_its_id(v.groups, i) {
        fold_children(fresh(g.agg.init_time), v.spans.skip(g.created as int), g.span_id)
    } else {
        fresh(g.agg.init_time)
    }
}

/// The invariant of a trace: the root holds what all ended task spans add up to, each
/// group holds what the task spans under it add up to, and no two groups share a config
/// root.
pub open spec fn wf_view(v: TraceView) -> bool {
    &&& v.root.agg == fold_all(fresh(v.root.agg.init_time), v.spans)
    &&& forall|i: int| 0 <= i < v.groups.len() ==> group_consistent(v, i)
    &&& forall|i: int, j: int|
        0 <= i < j < v.groups.len() ==> !same_path(#[trigger] v.groups[i].config_root, #[trigger] v.groups[j].config_root)
}

/// A task whose config root is set and is not the project root belongs under a group.
pub open spec fn is_monorepo_task(config_root: Option<Seq<char>>, project_root: Option<Seq<char>>) -> bool {
    match config_root {
        Some(c) => match project_root {
            Some(p) => !same_path(c, p),
            None => true,
        },
        None => false,
    }
}

/// What `parent_span_for_task` does: for a monorepo task, the span id of the group of
/// its config root, created (with a fresh random id) if there is none yet; for any
/// other task, the root span id. Nothing else changes.
pub open spec fn parent_step(
    old: TraceView,
    config_root: Option<Seq<char>>,
    project_root: Option<Seq<char>>,
    r: Option<Seq<char>>,
    new: TraceView,
) -> bool {
    if is_monorepo_task(config_root, project_root) {
        let c = config_root.unwrap();
        if has_group_for_root(old.groups, c) {
            &&& new == old
            &&& exists|i: int| first_group_for_root(old.groups, c, i) && r == Some(old.groups[i].span_id)
        } else {
            exists|id: Seq<char>, t: i128|
                #![trigger is_hex_id(id, 8), fresh(t)]
                r == Some(id) && is_hex_id(id, 8) && new == TraceView {
                    groups: old.groups.push(GroupView { config_root: c, span_id: id, agg: fresh(t), created: old.spans.len() }),
                    ..old
                }
        }
    } else {
        r == Some(old.root.span_id) && new == old
    }
}

/// The groups after a task running from `start` to `end` with `status` ends under the
/// span `parent`: the first group with that span id folds the task in, the others are
/// unchanged (and nothing changes if no group has that id).
pub open spec fn fold_group(groups: Seq<GroupView>, parent: Seq<char>, start: i128, end: i128, status: SpanStatus) -> Seq<GroupView> {
    let i = choose|i: int| first_group_for_span(groups, parent, i);
    if first_group_for_span(groups, parent, i) {
        groups.update(i, GroupView { agg: folded(groups[i].agg, start, end, status), ..groups[i] })
    } else {
        groups
    }
}

/// The groups after task span `s` ends.
pub open spec fn groups_after_end(groups: Seq<GroupView>, s: SpanView) -> Seq<GroupView> {
    match s.parent_span_id {
        Some(p) => fold_group(groups, p, s.start_time, s.end_time, s.status),
        None => groups,
    }
}

/// What `end_task_span` does to the trace when task span `s` ends.
pub open spec fn end_step(v: TraceView, s: SpanView) -> TraceView {
    TraceView {
        trace_id: v.trace_id,
        root: RootView { agg: folded(v.root.agg, s.start_time, s.end_time, s.status), ..v.root },
        groups: groups_after_end(v.groups, s),
        spans: v.spans.push(s),
    }
}

/// Info returned when a task span is started, needed for the end phase and log correlation.
pub struct StartedSpan {
    pub trace_id: String,
    pub span_id: String,
    /// None means the task is a top-level span (no parent).
    pub parent_span_id: Option<String>,
    /// Nanoseconds relative to the Unix epoch.
    pub start_time: i128,
}

/// The task span recorded when `started` ends.
pub open spec fn task_span(
    started: StartedSpan,
    task_name: Seq<char>,
    end_time: i128,
    status: SpanStatus,
    error_message: Option<Seq<char>>,
    attributes: Seq<(Seq<char>, Seq<char>)>,
) -> SpanView {
    SpanView {
        trace_id: started.trace_id@,
        span_id: started.span_id@,
        parent_span_id: started.parent_span_id.deep_view(),
        name: task_name,
        start_time: started.start_time,
        end_time,
        status,
        error_message,
        attributes,
        links: Seq::empty(),
    }
}

// ---------------------------------------------------------------------------
// Finishing
// ---------------------------------------------------------------------------

pub open spec fn start_of(a: Aggregate) -> i128 {
    match a.min_start {
        Some(t) => t,
        None => a.init_time,
    }
}

pub open spec fn end_of(a: Aggregate, now: i128) -> i128 {
    match a.max_end {
        Some(t) => t,
        None => now,
    }
}

pub open spec fn status_of(has_error: bool) -> SpanStatus {
    if has_error {
        SpanStatus::Error
    } else {
        SpanStatus::Okay
    }
}

/// The name of a group span: the final component of its config root, or the whole
/// config root when it has none.
pub open spec fn group_name(config_root: Seq<char>) -> Seq<char> {
    match path_file_name_of(config_root) {
        Some(n) => n,
        None => config_root,
    }
}

/// The span recorded for group `g` when the trace finishes at `now`.
pub open spec fn group_span(v: TraceView, g: GroupView, now: i128) -> SpanView {
    SpanView {
        trace_id: v.trace_id,
        span_id: g.span_id,
        parent_span_id: Some(v.root.span_id),
        name: group_name(g.config_root),
        start_time: start_of(g.agg),
        end_time: end_of(g.agg, now),
        status: status_of(g.agg.has_error),
        error_message: None,
        attributes: seq![("mise.span_type"@, "monorepo_group"@), ("mise.config_root"@, g.config_root)],
        links: Seq::empty(),
    }
}

/// The root span recorded when the trace finishes at `now`.
pub open spec fn finished_root_span(v: TraceView, has_failures: bool, now: i128) -> SpanView {
    SpanView {
        trace_id: v.trace_id,
        span_id: v.root.span_id,
        parent_span_id: v.root.parent_span_id,
        name: v.root.name,
        start_time: start_of(v.root.agg),
        end_time: end_of(v.root.agg, now),
        status: status_of(v.root.agg.has_error || has_failures),
        error_message: None,
        attributes: seq![("mise.span_type"@, "run"@)],
        links: Seq::empty(),
    }
}

/// Every span of the run once it finishes at `now`: the task spans in the order they
/// ended, then one span per group in creation order, then the root span.
pub open spec fn finished_spans(v: TraceView, has_failures: bool, now: i128) -> Seq<SpanView> {
    v.spans + Seq::new(v.groups.len(), |i: int| group_span(v, v.groups[i], now)) + seq![finished_root_span(v, has_failures, now)]
}

/// The name of a group span, given the final component of its config root as
/// `Path::file_name` gives it.
pub fn group_span_name(config_root: &str, file_name: Option<String>) -> (r: String)
    ensures
        r@ == match file_name.deep_view() {
            Some(n) => n,
            None => config_root@,
        },
{
    match file_name {
        Some(n) => n,
        None => config_root.to_owned(),
    }
}

// ---------------------------------------------------------------------------
// The trace context
// ---------------------------------------------------------------------------

struct RootSpan {
    parent_span_id: Option<String>,
    span_id: String,
    name: String,
    agg: Aggregate,
}

struct MonorepoParent {
    config_root: String,
    span_id: String,
    agg: Aggregate,
    created: Ghost<nat>,
}

/// The fields of a trace; `TraceContext` keeps them well formed.
struct TraceState {
    trace_id: String,
    root_span: RootSpan,
    /// Monorepo parent spans, one per config root, in creation order.
    monorepo_parents: Vec<MonorepoParent>,
    /// Completed task spans, in the order they ended.
    spans: Vec<OtelSpan>,
}

spec fn group_view(g: MonorepoParent) -> GroupView {
    GroupView { config_root: g.config_root@, span_id: g.span_id@, agg: g.agg, created: g.created@ }
}

impl View for TraceState {
    type V = TraceView;

    closed spec fn view(&self) -> TraceView {
        TraceView {
            trace_id: self.trace_id@,
            root: RootView {
                parent_span_id: self.root_span.parent_span_id.deep_view(),
                span_id: self.root_span.span_id@,
                name: self.root_span.name@,
                agg: self.root_span.agg,
            },
            groups: self.monorepo_parents@.map_values(|g: MonorepoParent| group_view(g)),
            spans: span_views(self.spans@),
        }
    }
}

/// The state of a trace just created.
pub open spec fn initial_trace(
    name: Seq<char>,
    trace_id: Seq<char>,
    parent_span_id: Option<Seq<char>>,
    root_span_id: Seq<char>,
    init_time: i128,
) -> TraceView {
    TraceView {
        trace_id,
        root: RootView { parent_span_id, span_id: root_span_id, name, agg: fresh(init_time) },
        groups: Seq::empty(),
        spans: Seq::empty(),
    }
}

fn paths_equal(a: &String, b: &String) -> (r: bool)
    ensures
        r == same_path(a@, b@),
{
    path_eq(a.as_str(), b.as_str())
}

impl TraceState {
    /// An empty state that holds the place of the real one while a step runs on it.
    fn placeholder() -> (r: Self)
        ensures
            wf_view(r@),
    {
        let r = TraceState {
            trace_id: String::new(),
            root_span: RootSpan {
                parent_span_id: None,
                span_id: String::new(),
                name: String::new(),
                agg: Aggregate { init_time: 0, min_start: None, max_end: None, has_error: false },
            },
            monorepo_parents: Vec::new(),
            spans: Vec::new(),
        };
        assert(r@.groups =~= Seq::<GroupView>::empty());
        assert(r@.spans =~= Seq::<SpanView>::empty());
        r
    }

    fn new_with_parent(root_span_name: &str, trace_id: String, parent_span_id: Option<String>) -> (r: Self)
        ensures
            wf_view(r@),
            is_hex_id(r@.root.span_id, 8),
            r@ == initial_trace(root_span_name@, trace_id@, parent_span_id.deep_view(), r@.root.span_id, r@.root.agg.init_time),
    {
        let root_span_id = new_span_id();
        let root_init_time = now_nanos();
        let r = TraceState {
            trace_id,
            root_span: RootSpan {
                parent_span_id,
                span_id: root_span_id,
                name: root_span_name.to_owned(),
                agg: Aggregate { init_time: root_init_time, min_start: None, max_end: None, has_error: false },
            },
            monorepo_parents: Vec::new(),
            spans: Vec::new(),
        };
        assert(r@.groups =~= Seq::<GroupView>::empty());
        assert(r@.spans =~= Seq::<SpanView>::empty());
        r
    }
}

/// The invariant is kept when a task span ends.
proof fn lemma_end_step_keeps_wf(v: TraceView, s: SpanView)
    requires
        wf_view(v),
    ensures
        wf_view(end_step(v, s)),
{
    let w = end_step(v, s);
    assert(w.spans.drop_last() =~= v.spans);
    let ng = w.groups;
    assert(ng.len() == v.groups.len());
    assert forall|i: int| 0 <= i < ng.len() implies ng[i].span_id == v.groups[i].span_id
        && ng[i].config_root == v.groups[i].config_root && ng[i].created == v.groups[i].created
        && ng[i].agg.init_time == v.groups[i].agg.init_time by {
    }
    assert forall|i: int| 0 <= i < ng.len() implies group_consistent(w, i) by {
        let g = v.groups[i];
        let c = g.created as int;
        assert(group_consistent(v, i));
        assert(w.spans.skip(c).drop_last() =~= v.spans.skip(c));
        assert(w.spans.skip(c).last() == s);
        assert(is_first_with_its_id(ng, i) == is_first_with_its_id(v.groups, i)) by {
            if is_first_with_its_id(v.groups, i) {
                assert forall|j: int| 0 <= j < i implies #[trigger] ng[j].span_id != ng[i].span_id by {
                    assert(v.groups[j].span_id != v.groups[i].span_id);
                }
            }
            if is_first_with_its_id(ng, i) {
                assert forall|j: int| 0 <= j < i implies #[trigger] v.groups[j].span_id != v.groups[i].span_id by {
                    assert(ng[j].span_id != ng[i].span_id);
                }
            }
        }
        assert(group_consistent(v, i));
        match s.parent_span_id {
            Some(p) => {
                let k = choose|k: int| first_group_for_span(v.groups, p, k);
                if first_group_for_span(v.groups, p, k) {
                    if i == k {
                        assert(is_first_with_its_id(v.groups, i));
                    } else {
                        assert(ng[i] == g);
                        if is_first_with_its_id(v.groups, i) && g.span_id == p {
                            if i < k {
                                assert(v.groups[i].span_id != p);
                            } else {
                                assert(v.groups[k].span_id != v.groups[i].span_id);
                            }
                        }
                    }
                } else {
                    assert(ng == v.groups);
                    if is_first_with_its_id(v.groups, i) && g.span_id == p {
                        assert(first_group_for_span(v.groups, p, i));
                    }
                }
            },
            None => {},
        }
    }
    assert forall|i: int, j: int|
        0 <= i < j < ng.len() implies !same_path(#[trigger] ng[i].config_root, #[trigger] ng[j].config_root) by {
        assert(!same_path(v.groups[i].config_root, v.groups[j].config_root));
    }
}

impl TraceState {
    /// Get or create the monorepo group span for `config_root`. Only allocates state;
    /// the group's span is recorded by `finish` with its aggregated times.
    fn get_or_create_monorepo_parent(&mut self, config_root: &String) -> (r: String)
        requires
            wf_view(old(self)@),
        ensures
            wf_view(final(self)@),
            parent_step(old(self)@, Some(config_root@), None, Some(r@), final(self)@),
    {
        let ghost v = self@;
        let mut i: usize = 0;
        while i < self.monorepo_parents.len()
            invariant
                self@ == v,
                v == old(self)@,
                wf_view(v),
                i <= v.groups.len(),
                v.groups.len() == self.monorepo_parents@.len(),
                forall|j: int| 0 <= j < i ==> !same_path(#[trigger] v.groups[j].config_root, config_root@),
            decreases self.monorepo_parents.len() - i,
        {
            assert(v.groups[i as int] == group_view(self.monorepo_parents@[i as int]));
            if paths_equal(&self.monorepo_parents[i].config_root, config_root) {
                assert(first_group_for_root(v.groups, config_root@, i as int));
                assert(has_group_for_root(v.groups, config_root@));
                return self.monorepo_parents[i].span_id.clone();
            }
            i = i + 1;
        }
        assert(!has_group_for_root(v.groups, config_root@));
        let span_id = new_span_id();
        let init_time = now_nanos();
        let ghost created = self.spans@.len();
        self.monorepo_parents.push(MonorepoParent {
            config_root: config_root.clone(),
            span_id: span_id.clone(),
            agg: Aggregate { init_time, min_start: None, max_end: None, has_error: false },
            created: Ghost(created),
        });
        proof {
            let ng = GroupView { config_root: config_root@, span_id: span_id@, agg: fresh(init_time), created: v.spans.len() };
            assert(self@.groups =~= v.groups.push(ng));
            let w = self@;
            assert(w == TraceView { groups: v.groups.push(ng), ..v });
            assert(is_hex_id(span_id@, 8) && fresh(init_time) == fresh(init_time));
            assert(v.spans.skip(v.spans.len() as int) =~= Seq::<SpanView>::empty());
            assert forall|k: int| 0 <= k < w.groups.len() implies group_consistent(w, k) by {
                if k < v.groups.len() {
                    assert(group_consistent(v, k));
                    assert(is_first_with_its_id(w.groups, k) == is_first_with_its_id(v.groups, k)) by {
                        if is_first_with_its_id(v.groups, k) {
                            assert forall|j: int| 0 <= j < k implies #[trigger] w.groups[j].span_id != w.groups[k].span_id by {
                                assert(v.groups[j].span_id != v.groups[k].span_id);
                            }
                        }
                        if is_first_with_its_id(w.groups, k) {
                            assert forall|j: int| 0 <= j < k implies #[trigger] v.groups[j].span_id != v.groups[k].span_id by {
                                assert(w.groups[j].span_id != w.groups[k].span_id);
                            }
                        }
                    }
                }
            }
            assert forall|a: int, b: int|
                0 <= a < b < w.groups.len() implies !same_path(#[trigger] w.groups[a].config_root, #[trigger] w.groups[b].config_root) by {
                if b < v.groups.len() {
                    assert(!same_path(v.groups[a].config_root, v.groups[b].config_root));
                } else {
                    assert(!same_path(v.groups[a].config_root, config_root@));
                }
            }
        }
        span_id
    }

    /// Folds a completed task into the root span's aggregate.
    fn fold_into_root(&mut self, task_start: i128, task_end: i128, status: SpanStatus)
        ensures
            final(self)@ == (TraceView {
                root: RootView { agg: folded(old(self)@.root.agg, task_start, task_end, status), ..old(self)@.root },
                ..old(self)@
            }),
    {
        self.root_span.agg.fold(task_start, task_end, status);
    }

    /// Folds a completed task into the first group whose span id is `parent_span_id`.
    fn fold_into_group(&mut self, parent_span_id: &String, task_start: i128, task_end: i128, status: SpanStatus)
        ensures
            final(self)@ == (TraceView {
                groups: fold_group(old(self)@.groups, parent_span_id@, task_start, task_end, status),
                ..old(self)@
            }),
    {
        let ghost v = self@;
        let mut i: usize = 0;
        while i < self.monorepo_parents.len()
            invariant
                self@ == v,
                v == old(self)@,
                i <= v.groups.len(),
                v.groups.len() == self.monorepo_parents@.len(),
                forall|j: int| 0 <= j < i ==> #[trigger] v.groups[j].span_id != parent_span_id@,
            decreases self.monorepo_parents.len() - i,
        {
            assert(v.groups[i as int] == group_view(self.monorepo_parents@[i as int]));
            if self.monorepo_parents[i].span_id == *parent_span_id {
                assert(first_group_for_span(v.groups, parent_span_id@, i as int));
                let mut g = self.monorepo_parents.remove(i);
                g.agg.fold(task_start, task_end, status);
                self.monorepo_parents.insert(i, g);
                proof {
                    let k = choose|k: int| first_group_for_span(v.groups, parent_span_id@, k);
                    assert(k == i as int) by {
                        if k < i {
                            assert(v.groups[k].span_id != parent_span_id@);
                        } else if k > i {
                            assert(v.groups[i as int].span_id != parent_span_id@);
                        }
                    }
                    assert(self@.groups =~= fold_group(v.groups, parent_span_id@, task_start, task_end, status));
                    assert(self@ == TraceView {
                        groups: fold_group(v.groups, parent_span_id@, task_start, task_end, status),
                        ..v
                    });
                }
                return;
            }
            i = i + 1;
        }
        proof {
            let k = choose|k: int| first_group_for_span(v.groups, parent_span_id@, k);
            if first_group_for_span(v.groups, parent_span_id@, k) {
                assert(v.groups[k].span_id != parent_span_id@);
            }
        }
    }

    /// The parent span of a task. A task whose config root is set and differs from the
    /// project root hangs under the monorepo group of its config root (created on first
    /// use); every other task hangs directly under the run's root span.
    fn parent_span_for_task(&mut self, config_root: Option<&String>, project_root: Option<&String>) -> (r: Option<String>)
        requires
            wf_view(old(self)@),
        ensures
            wf_view(final(self)@),
            parent_step(old(self)@, config_root.deep_view(), project_root.deep_view(), r.deep_view(), final(self)@),
    {
        let root_span_id = self.root_span.span_id.clone();
        if let Some(cr) = config_root {
            let is_monorepo = match project_root {
                None => true,
                Some(pr) => !paths_equal(cr, pr),
            };
            if is_monorepo {
                return Some(self.get_or_create_monorepo_parent(cr));
            }
        }
        Some(root_span_id)
    }

    /// Starts a task span: allocates its id and reads its start time. Nothing is recorded
    /// until `end_task_span`, so that each span is recorded exactly once.
    fn start_task_span(
        &self,
        _task_name: &str,
        parent_span_id: Option<String>,
        _attributes: Vec<(String, String)>,
    ) -> (r: StartedSpan)
        ensures
            r.trace_id@ == self@.trace_id,
            is_hex_id(r.span_id@, 8),
            r.parent_span_id == parent_span_id,
    {
        let trace_id = self.trace_id.clone();
        let span_id = new_span_id();
        let start_time = now_nanos();
        StartedSpan { trace_id, span_id, parent_span_id, start_time }
    }

    /// Ends a task span: records it with its end time and status, folds it into its
    /// group (if its parent is a group) and into the root, and gives back the span to
    /// emit.
    fn end_task_span(
        &mut self,
        started: StartedSpan,
        task_name: &str,
        end_time: i128,
        status: SpanStatus,
        error_message: Option<String>,
        attributes: Vec<(String, String)>,
    ) -> (r: OtelSpan)
        requires
            wf_view(old(self)@),
        ensures
            r@ == task_span(started, task_name@, end_time, status, error_message.deep_view(), attributes.deep_view()),
            final(self)@ == end_step(old(self)@, r@),
            wf_view(final(self)@),
    {
        let task_start = started.start_time;
        let span = OtelSpan {
            trace_id: started.trace_id,
            span_id: started.span_id,
            parent_span_id: started.parent_span_id,
            name: task_name.to_owned(),
            start_time: task_start,
            end_time,
            status,
            error_message,
            attributes,
            links: Vec::new(),
        };
        assert(span.links.deep_view() =~= Seq::<(Seq<char>, Seq<char>)>::empty());
        if let Some(p) = &span.parent_span_id {
            self.fold_into_group(p, task_start, end_time, status);
        }
        self.fold_into_root(task_start, end_time, status);
        let emitted = span.duplicate();
        let ghost before = self@;
        self.spans.push(span);
        proof {
            assert(span_views(self.spans@) =~= before.spans.push(emitted@));
            lemma_end_step_keeps_wf(old(self)@, emitted@);
        }
        emitted
    }
}

impl TraceState {
    /// The number of task spans that have ended so far.
    fn span_count(&self) -> (r: usize)
        ensures
            r == self@.spans.len(),
    {
        self.spans.len()
    }

    /// Finishes the trace at time `now`: records one span per monorepo group and then
    /// the root span, each with its aggregated start, end and status, and gives back
    /// every span of the run.
    fn finish_at(self, has_failures: bool, now: i128) -> (r: Vec<OtelSpan>)
        ensures
            span_views(r@) == finished_spans(self@, has_failures, now),
    {
        let ghost v = self@;
        let TraceState { trace_id, root_span, monorepo_parents, spans } = self;
        let mut spans = spans;
        let ghost groups_done = Seq::new(v.groups.len(), |k: int| group_span(v, v.groups[k], now));
        let mut i: usize = 0;
        while i < monorepo_parents.len()
            invariant
                i <= monorepo_parents@.len(),
                v.groups.len() == monorepo_parents@.len(),
                forall|k: int| 0 <= k < v.groups.len() ==> v.groups[k] == group_view(#[trigger] monorepo_parents@[k]),
                v.trace_id == trace_id@,
                v.root.span_id == root_span.span_id@,
                groups_done == Seq::new(v.groups.len(), |k: int| group_span(v, v.groups[k], now)),
                span_views(spans@) == v.spans + groups_done.take(i as int),
            decreases monorepo_parents.len() - i,
        {
            let g = &monorepo_parents[i];
            assert(v.groups[i as int] == group_view(monorepo_parents@[i as int]));
            let file_name = path_file_name(g.config_root.as_str());
            let name = group_span_name(g.config_root.as_str(), file_name);
            let start = match g.agg.min_start {
                Some(t) => t,
                None => g.agg.init_time,
            };
            let end = match g.agg.max_end {
                Some(t) => t,
                None => now,
            };
            let status = if g.agg.has_error { SpanStatus::Error } else { SpanStatus::Okay };
            let mut attributes: Vec<(String, String)> = Vec::new();
            attributes.push(("mise.span_type".to_owned(), "monorepo_group".to_owned()));
            attributes.push(("mise.config_root".to_owned(), g.config_root.clone()));
            let group = OtelSpan {
                trace_id: trace_id.clone(),
                span_id: g.span_id.clone(),
                parent_span_id: Some(root_span.span_id.clone()),
                name,
                start_time: start,
                end_time: end,
                status,
                error_message: None,
                attributes,
                links: Vec::new(),
            };
            assert(group@.attributes =~= group_span(v, v.groups[i as int], now).attributes);
            assert(group@.links =~= group_span(v, v.groups[i as int], now).links);
            assert(group@ == group_span(v, v.groups[i as int], now));
            let ghost before = span_views(spans@);
            spans.push(group);
            i = i + 1;
            assert(span_views(spans@) =~= before.push(group@));
            assert(groups_done.take(i as int) =~= groups_done.take(i - 1).push(group@));
        }
        assert(groups_done.take(i as int) =~= groups_done);
        let has_error = root_span.agg.has_error || has_failures;
        let start = match root_span.agg.min_start {
            Some(t) => t,
            None => root_span.agg.init_time,
        };
        let end = match root_span.agg.max_end {
            Some(t) => t,
            None => now,
        };
        let mut attributes: Vec<(String, String)> = Vec::new();
        attributes.push(("mise.span_type".to_owned(), "run".to_owned()));
        let root = OtelSpan {
            trace_id,
            span_id: root_span.span_id,
            parent_span_id: root_span.parent_span_id,
            name: root_span.name,
            start_time: start,
            end_time: end,
            status: if has_error { SpanStatus::Error } else { SpanStatus::Okay },
            error_message: None,
            attributes,
            links: Vec::new(),
        };
        assert(root@.attributes =~= finished_root_span(v, has_failures, now).attributes);
        assert(root@.links =~= finished_root_span(v, has_failures, now).links);
        assert(root@ == finished_root_span(v, has_failures, now));
        let ghost before = span_views(spans@);
        spans.push(root);
        assert(span_views(spans@) =~= before.push(root@));
        assert(finished_spans(v, has_failures, now) =~= before + seq![root@]);
        spans
    }

}

/// Collects the spans of one run. See the module documentation for the nesting and
/// emission model. Its state always satisfies `wf_view`.
pub struct TraceContext {
    state: TraceState,
}

impl View for TraceContext {
    type V = TraceView;

    closed spec fn view(&self) -> TraceView {
        self.state@
    }
}

impl TraceContext {
    #[verifier::type_invariant]
    spec fn well_formed(self) -> bool {
        wf_view(self.state@)
    }

    /// A new trace with a fresh random trace id and a root span named `root_span_name`.
    pub fn new(root_span_name: &str) -> (r: Self)
        ensures
            wf_view(r@),
            is_hex_id(r@.trace_id, 16),
            is_hex_id(r@.root.span_id, 8),
            r@ == initial_trace(root_span_name@, r@.trace_id, None, r@.root.span_id, r@.root.agg.init_time),
    {
        TraceContext { state: TraceState::new_with_parent(root_span_name, new_trace_id(), None) }
    }

    /// A trace nested in another run: it keeps the given trace id, and its root span is
    /// a child of `parent_span_id`.
    pub fn from_parent(root_span_name: &str, trace_id: String, parent_span_id: String) -> (r: Self)
        ensures
            wf_view(r@),
            is_hex_id(r@.root.span_id, 8),
            r@ == initial_trace(root_span_name@, trace_id@, Some(parent_span_id@), r@.root.span_id, r@.root.agg.init_time),
    {
        TraceContext { state: TraceState::new_with_parent(root_span_name, trace_id, Some(parent_span_id)) }
    }

    /// The parent span of a task. A task whose config root is set and differs from the
    /// project root hangs under the monorepo group of its config root (created on first
    /// use); every other task hangs directly under the run's root span.
    pub fn parent_span_for_task(&mut self, config_root: Option<&String>, project_root: Option<&String>) -> (r: Option<String>)
        ensures
            wf_view(final(self)@),
            parent_step(old(self)@, config_root.deep_view(), project_root.deep_view(), r.deep_view(), final(self)@),
    {
        proof {
            use_type_invariant(&*self);
        }
        let mut st = TraceState::placeholder();
        std::mem::swap(&mut st, &mut self.state);
        let r = st.parent_span_for_task(config_root, project_root);
        self.state = st;
        r
    }

    /// Starts a task span: allocates its id and reads its start time. Nothing is recorded
    /// until `end_task_span`, so that each span is recorded exactly once.
    pub fn start_task_span(
        &self,
        task_name: &str,
        parent_span_id: Option<String>,
        attributes: Vec<(String, String)>,
    ) -> (r: StartedSpan)
        ensures
            r.trace_id@ == self@.trace_id,
            is_hex_id(r.span_id@, 8),
            r.parent_span_id == parent_span_id,
    {
        self.state.start_task_span(task_name, parent_span_id, attributes)
    }

    /// Ends a task span: records it with its end time and status, folds it into its
    /// group (if its parent is a group) and into the root, and gives back the span to
    /// emit.
    pub fn end_task_span(
        &mut self,
        started: StartedSpan,
        task_name: &str,
        end_time: i128,
        status: SpanStatus,
        error_message: Option<String>,
        attributes: Vec<(String, String)>,
    ) -> (r: OtelSpan)
        ensures
            r@ == task_span(started, task_name@, end_time, status, error_message.deep_view(), attributes.deep_view()),
            r@.attributes == attributes.deep_view(),
            r@.name == task_name@,
            r@.start_time == started.start_time,
            r@.end_time == end_time,
            r@.status == status,
            r@.error_message == error_message.deep_view(),
            r@.links.len() == 0,
            final(self)@ == end_step(old(self)@, r@),
            final(self)@.spans == old(self)@.spans.push(r@),
            wf_view(final(self)@),
    {
        proof {
            use_type_invariant(&*self);
        }
        let mut st = TraceState::placeholder();
        std::mem::swap(&mut st, &mut self.state);
        let r = st.end_task_span(started, task_name, end_time, status, error_message, attributes);
        self.state = st;
        r
    }

    /// The number of task spans that have ended so far.
    pub fn span_count(&self) -> (r: usize)
        ensures
            r == self@.spans.len(),
    {
        self.state.span_count()
    }

    /// Finishes the trace at time `now`: records one span per monorepo group and then
    /// the root span, each with its aggregated start, end and status, and gives back
    /// every span of the run.
    pub fn finish_at(self, has_failures: bool, now: i128) -> (r: Vec<OtelSpan>)
        ensures
            span_views(r@) == finished_spans(self@, has_failures, now),
            forall|i: int| #![trigger self@.groups[i]] 0 <= i < self@.groups.len() ==>
                (#[trigger] span_views(r@)[self@.spans.len() + i]).attributes
                    == seq![("mise.span_type"@, "monorepo_group"@), ("mise.config_root"@, self@.groups[i].config_root)],
    {
        self.state.finish_at(has_failures, now)
    }

    /// Finishes the trace now: records the group spans and the root span with their
    /// aggregated times and status, and gives back every span of the run.
    pub fn finish(self, has_failures: bool) -> (r: Vec<OtelSpan>)
        ensures
            exists|now: i128| span_views(r@) == #[trigger] finished_spans(self@, has_failures, now),
            forall|i: int| #![trigger self@.groups[i]] 0 <= i < self@.groups.len() ==>
                (#[trigger] span_views(r@)[self@.spans.len() + i]).attributes
                    == seq![("mise.span_type"@, "monorepo_group"@), ("mise.config_root"@, self@.groups[i].config_root)],
    {
        let now = now_nanos();
        let r = self.finish_at(has_failures, now);
        assert(span_views(r@) == finished_spans(self@, has_failures, now));
        r
    }
}

} // verus!
