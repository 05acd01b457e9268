//! The request log: the most recent answered requests, newest first.
use vstd::prelude::*;
use crate::model::RequestLog;

verus! {

/// How many requests the log keeps.
pub const LOG_CAPACITY: usize = 100;

/// The log after `entry` is added in front of `entries`: the oldest falls
/// out once more than `LOG_CAPACITY` are held.
pub open spec fn after_push(entries: Seq<RequestLog>, entry: RequestLog) -> Seq<RequestLog> {
    let all = seq![entry] + entries;
    if all.len() > LOG_CAPACITY {
        all.take(LOG_CAPACITY as int)
    } else {
        all
    }
}

/// The log after each of `logs` is added in turn, starting from `start`.
pub open spec fn pushed_all(start: Seq<RequestLog>, logs: Seq<RequestLog>) -> Seq<RequestLog>
    decreases logs.len(),
{
    if logs.len() == 0 {
        start
    } else {
        after_push(pushed_all(start, logs.drop_last()), logs.last())
    }
}

/// Relies on `uuid::Uuid::new_v4` and its `Display`, the hyphenated form of
/// 36 characters.
#[verifier::external_body]
fn fresh_log_id() -> (r: String)
    ensures
        r@.len() == 36,
{
    uuid::Uuid::new_v4().to_string()
}

/// The recent requests, newest first, at most `LOG_CAPACITY` of them.
pub struct RequestLogBuffer {
    entries: Vec<RequestLog>,
}

impl View for RequestLogBuffer {
    type V = Seq<RequestLog>;

    closed spec fn view(&self) -> Seq<RequestLog> {
        self.entries@
    }
}

impl RequestLogBuffer {
    /// The log holds at most `LOG_CAPACITY` entries.
    pub open spec fn well_formed(&self) -> bool {
        self@.len() <= LOG_CAPACITY
    }

    /// An empty log.
    pub fn new() -> (r: RequestLogBuffer)
        ensures
            r.well_formed(),
            r@.len() == 0,
    {
        RequestLogBuffer { entries: Vec::new() }
    }

    /// The entries, newest first.
    pub fn entries(&self) -> (r: &Vec<RequestLog>)
        ensures
            r@ == self@,
    {
        &self.entries
    }

    /// Adds `entry` in front, dropping the oldest once the log is over capacity.
    pub fn push(&mut self, entry: RequestLog)
        requires
            old(self).well_formed(),
        ensures
            final(self).well_formed(),
            final(self)@ == after_push(old(self)@, entry),
    {
        let ghost prev = self@;
        self.entries.insert(0, entry);
        assert(self@ == seq![entry] + prev);
        if self.entries.len() > LOG_CAPACITY {
            self.entries.pop();
            assert(self@ =~= (seq![entry] + prev).take(LOG_CAPACITY as int));
        }
    }

    /// Records an answered request under a fresh identifier, in front.
    pub fn record(
        &mut self,
        method: String,
        path: String,
        status_code: u16,
        duration_ms: u64,
        timestamp: u64,
        request_body: Option<String>,
        response_body: Option<String>,
    ) -> (id: String)
        requires
            old(self).well_formed(),
        ensures
            final(self).well_formed(),
            id@.len() == 36,
            final(self)@ == after_push(
                old(self)@,
                RequestLog {
                    id,
                    method,
                    path,
                    status_code,
                    duration_ms,
                    timestamp,
                    request_body,
                    response_body,
                },
            ),
    {
        let id = fresh_log_id();
        let entry = RequestLog {
            id: id.clone(),
            method,
            path,
            status_code,
            duration_ms,
            timestamp,
            request_body,
            response_body,
        };
        self.push(entry);
        id
    }
}

/// Pushing requests one by one into an empty log keeps the most recent
/// `LOG_CAPACITY` of them, newest first: the log never grows past that, the
/// last one pushed is in front, and once more were pushed the first is gone.
pub proof fn lemma_log_keeps_newest(logs: Seq<RequestLog>)
    ensures
        pushed_all(Seq::empty(), logs).len() == if logs.len() < LOG_CAPACITY {
            logs.len() as int
        } else {
            LOG_CAPACITY as int
        },
        forall|k: int|
            0 <= k < pushed_all(Seq::empty(), logs).len() ==> #[trigger] pushed_all(
                Seq::empty(),
                logs,
            )[k] == logs[logs.len() - 1 - k],
        logs.len() > 0 ==> pushed_all(Seq::empty(), logs)[0] == logs.last(),
        logs.len() > LOG_CAPACITY && (forall|j: int| 0 < j < logs.len() ==> #[trigger] logs[j] != logs[0])
            ==> !pushed_all(Seq::empty(), logs).contains(logs[0]),
    decreases logs.len(),
{
    let r = pushed_all(Seq::empty(), logs);
    if logs.len() > 0 {
        lemma_log_keeps_newest(logs.drop_last());
        let prev = pushed_all(Seq::empty(), logs.drop_last());
        assert forall|k: int| 0 <= k < r.len() implies #[trigger] r[k] == logs[logs.len() - 1 - k] by {
            if k > 0 {
                assert(r[k] == prev[k - 1]);
            }
        };
        if logs.len() > LOG_CAPACITY && (forall|j: int| 0 < j < logs.len() ==> #[trigger] logs[j] != logs[0]) {
            if r.contains(logs[0]) {
                let k = choose|k: int| 0 <= k < r.len() && r[k] == logs[0];
                assert(r[k] == logs[logs.len() - 1 - k]);
            }
        }
    }
}

} // verus!
