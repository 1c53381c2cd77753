//! Turning captured task output into OTLP log records, and the batching rules of the
//! export loop.
//!
//! The export loop waits for output lines or for a flush interval to pass. Lines are
//! appended to the pending batch, which is sent once it holds at least
//! `LOG_BATCH_SIZE` records; when the interval passes, whatever is pending is sent;
//! when the channel closes, the rest is sent and the loop stops.

use vstd::prelude::*;

use crate::text::{nanos_text, system_time_to_nanos};
use crate::types::{
    kv_views, record_views, LogBody, LogRecordView, OtlpLogRecord, StringKeyValue, SEVERITY_ERROR,
    SEVERITY_INFO,
};

verus! {

/// A log line captured from task output. `timestamp` is in nanoseconds relative to the
/// Unix epoch.
pub struct LogLine {
    pub body: String,
    pub is_stderr: bool,
    pub timestamp: i128,
    pub task_name: String,
    pub trace_id: String,
    pub span_id: String,
}

/// The record exported for one line: stdout at severity INFO, stderr at severity ERROR,
/// stamped with the line's time, tagged with the task name and stream, and flagged as
/// sampled (trace flags 1) so that backends link it to its span.
pub open spec fn log_record_of(line: LogLine) -> LogRecordView {
    LogRecordView {
        time_unix_nano: nanos_text(line.timestamp),
        observed_time_unix_nano: nanos_text(line.timestamp),
        severity_number: if line.is_stderr { SEVERITY_ERROR } else { SEVERITY_INFO },
        severity_text: if line.is_stderr { "ERROR"@ } else { "INFO"@ },
        body: line.body@,
        attributes: seq![
            ("mise.task.name"@, line.task_name@),
            ("output.stream"@, if line.is_stderr { "stderr"@ } else { "stdout"@ }),
        ],
        flags: 1,
        trace_id: line.trace_id@,
        span_id: line.span_id@,
    }
}

/// The records for a run of lines, in order.
pub open spec fn log_records_of(lines: Seq<LogLine>) -> Seq<LogRecordView> {
    lines.map_values(|l: LogLine| log_record_of(l))
}

pub fn to_log_record(line: LogLine) -> (r: OtlpLogRecord)
    ensures
        r@ == log_record_of(line),
        r.flags == 1,
        r.severity_number == if line.is_stderr { 17u32 } else { 9u32 },
        r.body.string_value@ == line.body@,
        r.trace_id@ == line.trace_id@,
        r.span_id@ == line.span_id@,
{
    let (severity_number, severity_text) = if line.is_stderr {
        (SEVERITY_ERROR, "ERROR")
    } else {
        (SEVERITY_INFO, "INFO")
    };
    let nanos = system_time_to_nanos(line.timestamp);
    let observed = nanos.clone();
    let mut attributes: Vec<StringKeyValue> = Vec::new();
    attributes.push(StringKeyValue::new("mise.task.name", line.task_name.as_str()));
    attributes.push(StringKeyValue::new("output.stream", if line.is_stderr { "stderr" } else { "stdout" }));
    let ghost want = log_record_of(line);
    let r = OtlpLogRecord {
        time_unix_nano: nanos,
        observed_time_unix_nano: observed,
        severity_number,
        severity_text: severity_text.to_owned(),
        body: LogBody { string_value: line.body },
        attributes,
        flags: 1,
        trace_id: line.trace_id,
        span_id: line.span_id,
    };
    assert(r@.attributes =~= want.attributes);
    r
}

/// A pending batch is sent once it holds at least this many records.
pub const LOG_BATCH_SIZE: usize = 100;

/// What the export loop observed.
pub enum LogEvent {
    /// One line arrived, with every further line that was immediately available.
    Received(Vec<LogLine>),
    /// The flush interval passed with nothing received.
    TimedOut,
    /// The channel closed: no more lines will come.
    Closed,
}

/// What the export loop must do next.
pub struct LogAction {
    /// Records to export now, if any.
    pub flush: Option<Vec<OtlpLogRecord>>,
    /// Whether the loop ends.
    pub stop: bool,
}

/// The records received but not yet exported.
pub struct LogBatcher {
    batch: Vec<OtlpLogRecord>,
}

impl View for LogBatcher {
    type V = Seq<LogRecordView>;

    closed spec fn view(&self) -> Seq<LogRecordView> {
        record_views(self.batch@)
    }
}

/// The records a flush action sends (none when it sends nothing).
pub open spec fn flushed(a: LogAction) -> Seq<LogRecordView> {
    match a.flush {
        Some(v) => record_views(v@),
        None => Seq::empty(),
    }
}

/// One step of the export loop: the batch after `event`, and what the loop does.
pub open spec fn log_step(pending: Seq<LogRecordView>, event: LogEvent, after: Seq<LogRecordView>, a: LogAction) -> bool {
    match event {
        LogEvent::Received(lines) => {
            let all = pending + log_records_of(lines@);
            &&& !a.stop
            &&& if all.len() >= LOG_BATCH_SIZE {
                a.flush is Some && flushed(a) == all && after.len() == 0
            } else {
                a.flush is None && after == all
            }
        },
        LogEvent::TimedOut => {
            &&& !a.stop
            &&& after.len() == 0
            &&& if pending.len() > 0 { a.flush is Some && flushed(a) == pending } else { a.flush is None }
        },
        LogEvent::Closed => {
            &&& a.stop
            &&& after.len() == 0
            &&& if pending.len() > 0 { a.flush is Some && flushed(a) == pending } else { a.flush is None }
        },
    }
}

impl LogBatcher {
    pub fn new() -> (r: Self)
        ensures
            r@.len() == 0,
    {
        LogBatcher { batch: Vec::new() }
    }

    fn take_batch(&mut self) -> (r: Vec<OtlpLogRecord>)
        ensures
            record_views(r@) == old(self)@,
            final(self)@.len() == 0,
    {
        let mut taken: Vec<OtlpLogRecord> = Vec::new();
        std::mem::swap(&mut taken, &mut self.batch);
        assert(record_views(self.batch@) =~= Seq::<LogRecordView>::empty());
        taken
    }

    /// Applies one event of the export loop and says what to export and whether to stop.
    pub fn on_event(&mut self, event: LogEvent) -> (r: LogAction)
        ensures
            log_step(old(self)@, event, final(self)@, r),
            r.stop <==> event is Closed,
            event is Received ==> ((r.flush is Some) <==> old(self)@.len() + event->Received_0@.len() >= 100),
            !(event is Received) ==> ((r.flush is Some) <==> old(self)@.len() > 0),
    {
        match event {
            LogEvent::Received(lines) => {
                let ghost start = self@;
                let ghost want = log_records_of(lines@);
                let mut lines = lines;
                let ghost all_lines = lines@;
                let n = lines.len();
                assert(all_lines.len() == n);
                let mut k: usize = 0;
                while lines.len() > 0
                    invariant
                        k <= all_lines.len(),
                        all_lines.len() <= usize::MAX,
                        lines@ == all_lines.skip(k as int),
                        want == log_records_of(all_lines),
                        self@ == start + want.take(k as int),
                    decreases lines.len(),
                {
                    let line = lines.remove(0);
                    assert(line == all_lines[k as int]);
                    let rec = to_log_record(line);
                    let ghost before = self@;
                    self.batch.push(rec);
                    k = k + 1;
                    assert(self@ =~= before.push(rec@));
                    assert(want.take(k as int) =~= want.take(k - 1).push(want[k - 1]));
                    assert(lines@ =~= all_lines.skip(k as int));
                }
                assert(k == all_lines.len());
                assert(want.take(k as int) =~= want);
                if self.batch.len() >= LOG_BATCH_SIZE {
                    let out = self.take_batch();
                    LogAction { flush: Some(out), stop: false }
                } else {
                    LogAction { flush: None, stop: false }
                }
            },
            LogEvent::TimedOut => {
                if self.batch.len() > 0 {
                    let out = self.take_batch();
                    LogAction { flush: Some(out), stop: false }
                } else {
                    LogAction { flush: None, stop: false }
                }
            },
            LogEvent::Closed => {
                if self.batch.len() > 0 {
                    let out = self.take_batch();
                    LogAction { flush: Some(out), stop: true }
                } else {
                    LogAction { flush: None, stop: true }
                }
            },
        }
    }
}

} // verus!
