use vstd::prelude::*;

verus! {

/// One accepted randomness request, immutable once written.
pub struct RequestLogEntry {
    pub caller: String,
    pub round: u64,
    pub job_id: String,
    pub origin: String,
}

/// The relay's audit state: an append-only log of accepted requests and a
/// monotonic counter of jobs fully processed, used for reconciliation.
pub struct Stats {
    pub processed: u64,
    pub log: Vec<RequestLogEntry>,
}

impl Stats {
    pub fn new() -> (s: Stats)
        ensures
            s.processed == 0,
            s.log@ == Seq::<RequestLogEntry>::empty(),
    {
        Stats { processed: 0, log: Vec::new() }
    }

    /// How many jobs reached the completed state, ever.
    pub fn processed_jobs(&self) -> (n: u64)
        ensures
            n == self.processed,
    {
        self.processed
    }

    /// Counts one more completed job; the counter never decreases and never
    /// skips.
    pub fn increment_processed(&mut self)
        requires
            old(self).processed < u64::MAX,
        ensures
            final(self).processed == old(self).processed + 1,
            final(self).log@ == old(self).log@,
    {
        self.processed = self.processed + 1;
    }

    /// Appends one accepted request to the log.
    pub fn log_request(&mut self, entry: RequestLogEntry)
        ensures
            final(self).log@ == old(self).log@.push(entry),
            final(self).processed == old(self).processed,
    {
        self.log.push(entry);
    }

    /// The request log, oldest first.
    pub fn requests_asc(&self) -> (r: &Vec<RequestLogEntry>)
        ensures
            r@ == self.log@,
    {
        &self.log
    }

    /// The request log, newest first.
    pub fn requests_desc(&self) -> (r: Vec<RequestLogEntry>)
        ensures
            r@.len() == self.log@.len(),
            forall|i: int|
                0 <= i < r@.len() ==> #[trigger] r@[i] == self.log@[self.log@.len() - 1 - i],
    {
        let mut r: Vec<RequestLogEntry> = Vec::new();
        let mut remaining = self.log.len();
        while remaining > 0
            invariant
                0 <= remaining <= self.log@.len(),
                r@.len() == self.log@.len() - remaining,
                forall|i: int|
                    0 <= i < r@.len() ==> #[trigger] r@[i] == self.log@[self.log@.len() - 1 - i],
            decreases remaining,
        {
            remaining = remaining - 1;
            r.push(clone_log_entry(&self.log[remaining]));
        }
        r
    }
}

/// An exact copy of a log entry.
pub fn clone_log_entry(e: &RequestLogEntry) -> (r: RequestLogEntry)
    ensures
        r == *e,
{
    RequestLogEntry {
        caller: e.caller.clone(),
        round: e.round,
        job_id: e.job_id.clone(),
        origin: e.origin.clone(),
    }
}

} // verus!
