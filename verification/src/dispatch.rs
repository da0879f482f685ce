use vstd::prelude::*;

use crate::errors::ContractError;
use crate::jobs::Job;

verus! {

/// A delivery attempt handed to the external channel: the verified beacon
/// value of the job's round, addressed by the job's origin and keyed by its
/// job id.
#[derive(Debug)]
pub struct DeliveryMsg {
    pub round: u64,
    pub randomness: Vec<u8>,
    pub job_id: String,
    pub origin: String,
}

/// The asynchronous outcome the channel collaborator reports for one
/// delivery; a failure carries the channel's error, wrapped by the embedder.
pub enum DispatchOutcome {
    Success,
    Failure(ContractError),
}

/// What an acknowledgment did to the dispatcher's state.
#[derive(Clone, Copy, Debug, PartialEq, Eq, Structural)]
pub enum AckResult {
    /// The job completed and left the relay for good.
    Completed,
    /// The job moved to the terminal failed list, visible to operators.
    MarkedFailed,
    /// No in-flight job carries this id; a duplicate acknowledgment of an
    /// at-least-once channel collapses to a harmless no-op.
    Unknown,
}

/// A job whose delivery the channel reported as failed, kept rather than
/// silently dropped.
pub struct FailedJob {
    pub job: Job,
    pub error: ContractError,
}

/// Some in-flight job carries the id spelled `id`.
pub open spec fn has_in_flight(q: Seq<Job>, id: Seq<char>) -> bool {
    exists|i: int| 0 <= i < q.len() && (#[trigger] q[i]).job_id@ == id
}

/// Index `i` is the first in-flight position whose job carries `id`.
pub open spec fn first_in_flight(q: Seq<Job>, id: Seq<char>, i: int) -> bool {
    &&& 0 <= i < q.len()
    &&& q[i].job_id@ == id
    &&& forall|k: int| 0 <= k < i ==> (#[trigger] q[k]).job_id@ != id
}

/// Tracks deliveries between emission and the channel's acknowledgment.
///
/// Jobs of one round are tracked independently: an outcome for one delivery
/// never blocks or rolls back its siblings.
pub struct Dispatcher {
    pub in_flight: Vec<Job>,
    pub failed: Vec<FailedJob>,
}

impl Dispatcher {
    pub fn new() -> (d: Dispatcher)
        ensures
            d.in_flight@ == Seq::<Job>::empty(),
            d.failed@ == Seq::<FailedJob>::empty(),
    {
        Dispatcher { in_flight: Vec::new(), failed: Vec::new() }
    }

    /// Marks one job as in flight.
    pub fn track(&mut self, job: Job)
        ensures
            final(self).in_flight@ == old(self).in_flight@.push(job),
            final(self).failed@ == old(self).failed@,
    {
        self.in_flight.push(job);
    }

    /// Consumes the channel's acknowledgment for the first in-flight job with
    /// this id. Success removes the job for good; failure moves it to the
    /// terminal failed list, never silently dropping it; an id with no
    /// in-flight job is a harmless no-op.
    pub fn ack(&mut self, job_id: &String, outcome: DispatchOutcome) -> (r: AckResult)
        ensures
            r == AckResult::Unknown <==> !has_in_flight(old(self).in_flight@, job_id@),
            r == AckResult::Unknown ==> *final(self) == *old(self),
            has_in_flight(old(self).in_flight@, job_id@) ==> exists|i: int|
                {
                    &&& #[trigger] first_in_flight(old(self).in_flight@, job_id@, i)
                    &&& final(self).in_flight@ == old(self).in_flight@.remove(i)
                    &&& match outcome {
                        DispatchOutcome::Success => final(self).failed@ == old(self).failed@ && r
                            == AckResult::Completed,
                        DispatchOutcome::Failure(e) => final(self).failed@ == old(
                            self,
                        ).failed@.push(FailedJob { job: old(self).in_flight@[i], error: e }) && r
                            == AckResult::MarkedFailed,
                    }
                },
    {
        let mut i: usize = 0;
        while i < self.in_flight.len()
            invariant
                0 <= i <= self.in_flight@.len(),
                *self == *old(self),
                forall|k: int| 0 <= k < i ==> (#[trigger] self.in_flight@[k]).job_id@ != job_id@,
            decreases self.in_flight@.len() - i,
        {
            if self.in_flight[i].job_id == *job_id {
                let ghost idx: int = i as int;
                proof {
                    assert(first_in_flight(self.in_flight@, job_id@, idx));
                }
                let job = self.in_flight.remove(i);
                match outcome {
                    DispatchOutcome::Success => {
                        return AckResult::Completed;
                    },
                    DispatchOutcome::Failure(e) => {
                        self.failed.push(FailedJob { job, error: e });
                        return AckResult::MarkedFailed;
                    },
                }
            }
            i += 1;
        }
        AckResult::Unknown
    }

    /// The terminal failed records, for operational visibility and replay.
    pub fn failed_jobs(&self) -> (r: &Vec<FailedJob>)
        ensures
            r@ == self.failed@,
    {
        &self.failed
    }

    /// The jobs currently awaiting an acknowledgment.
    pub fn in_flight_jobs(&self) -> (r: &Vec<Job>)
        ensures
            r@ == self.in_flight@,
    {
        &self.in_flight
    }
}

} // verus!
