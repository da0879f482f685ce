use vstd::prelude::*;

use crate::errors::ContractError;

verus! {

/// A single randomness request, waiting on `round`.
pub struct Job {
    /// Caller-chosen identity of the request, unique per origin and round and
    /// bounded in length; also the idempotency key of its delivery.
    pub job_id: String,
    /// The beacon round whose randomness the request waits for.
    pub round: u64,
    /// Opaque description of who the result is delivered to.
    pub origin: String,
}

/// A pending job together with its insertion-order suffix: the durable queue
/// is keyed by `(job.round, seq)`.
pub struct QueuedJob {
    pub seq: u64,
    pub job: Job,
}

/// Strict order of queue keys: by round, then by insertion order.
pub open spec fn entry_lt(a: QueuedJob, b: QueuedJob) -> bool {
    a.job.round < b.job.round || (a.job.round == b.job.round && a.seq < b.seq)
}

/// The jobs queued under round `r`, in queue order.
pub open spec fn jobs_for(q: Seq<QueuedJob>, r: u64) -> Seq<Job>
    decreases q.len(),
{
    if q.len() == 0 {
        Seq::empty()
    } else {
        let rest = jobs_for(q.drop_first(), r);
        if q[0].job.round == r {
            seq![q[0].job] + rest
        } else {
            rest
        }
    }
}

/// The queue with every entry of round `r` removed, order kept.
pub open spec fn entries_without(q: Seq<QueuedJob>, r: u64) -> Seq<QueuedJob>
    decreases q.len(),
{
    if q.len() == 0 {
        Seq::empty()
    } else {
        let rest = entries_without(q.drop_first(), r);
        if q[0].job.round == r {
            rest
        } else {
            seq![q[0]] + rest
        }
    }
}

/// Some entry of round `r` carries the job id spelled `id`.
pub open spec fn has_job(q: Seq<QueuedJob>, r: u64, id: Seq<char>) -> bool {
    exists|i: int| 0 <= i < q.len() && (#[trigger] q[i]).job.round == r && q[i].job.job_id@ == id
}

/// The pagination cursor admits exactly the entries whose key lies strictly
/// after it; no cursor admits every entry.
pub open spec fn cursor_admits(c: Option<(u64, u64)>, e: QueuedJob) -> bool {
    match c {
        None => true,
        Some(p) => p.0 < e.job.round || (p.0 == e.job.round && p.1 < e.seq),
    }
}

/// The entries strictly after cursor `c`, in queue order.
pub open spec fn entries_after(q: Seq<QueuedJob>, c: Option<(u64, u64)>) -> Seq<QueuedJob>
    decreases q.len(),
{
    if q.len() == 0 {
        Seq::empty()
    } else {
        let rest = entries_after(q.drop_first(), c);
        if cursor_admits(c, q[0]) {
            seq![q[0]] + rest
        } else {
            rest
        }
    }
}

/// `s` cut off after `l` elements, or all of it if it is shorter.
pub open spec fn take_up_to(s: Seq<QueuedJob>, l: int) -> Seq<QueuedJob> {
    if s.len() <= l {
        s
    } else {
        s.take(l)
    }
}

/// The durable, round-indexed FIFO queue of unprocessed jobs.
///
/// Entries are kept sorted by `(round, seq)` with a fresh `seq` per insertion,
/// so jobs of one round keep their arrival order; `unprocessed` is the
/// incrementally maintained size of the durable set.
pub struct JobQueue {
    pub entries: Vec<QueuedJob>,
    pub next_seq: u64,
    pub unprocessed: usize,
    /// Configured maximum length of a job id; longer ids are rejected.
    pub max_job_id_len: usize,
}

impl JobQueue {
    pub open spec fn wf(self) -> bool {
        &&& forall|i: int, j: int|
            0 <= i < j < self.entries@.len() ==> entry_lt(
                #[trigger] self.entries@[i],
                #[trigger] self.entries@[j],
            )
        &&& forall|i: int|
            0 <= i < self.entries@.len() ==> (#[trigger] self.entries@[i]).seq < self.next_seq
        &&& forall|i: int, j: int|
            0 <= i < j < self.entries@.len() ==> !((#[trigger] self.entries@[i]).job.round == (
            #[trigger] self.entries@[j]).job.round && self.entries@[i].job.job_id@
                == self.entries@[j].job.job_id@)
        &&& self.unprocessed == self.entries@.len()
    }

    pub fn new(max_job_id_len: usize) -> (q: JobQueue)
        ensures
            q.wf(),
            q.entries@ == Seq::<QueuedJob>::empty(),
            q.next_seq == 0,
            q.max_job_id_len == max_job_id_len,
    {
        JobQueue { entries: Vec::new(), next_seq: 0, unprocessed: 0, max_job_id_len }
    }

    /// The exact size of the durable unprocessed set, kept incrementally.
    pub fn count_unprocessed(&self) -> (n: usize)
        requires
            self.wf(),
        ensures
            n == self.entries@.len(),
    {
        self.unprocessed
    }

    fn find_job(&self, round: u64, job_id: &String) -> (r: bool)
        ensures
            r == has_job(self.entries@, round, job_id@),
    {
        let mut i: usize = 0;
        while i < self.entries.len()
            invariant
                0 <= i <= self.entries@.len(),
                forall|k: int|
                    0 <= k < i ==> !((#[trigger] self.entries@[k]).job.round == round
                        && self.entries@[k].job.job_id@ == job_id@),
            decreases self.entries@.len() - i,
        {
            if self.entries[i].job.round == round && self.entries[i].job.job_id == *job_id {
                assert(self.entries@[i as int].job.round == round);
                return true;
            }
            i += 1;
        }
        false
    }

    /// Appends `job` under its round, behind every job of that round already
    /// queued; a job id over the configured maximum is rejected before any
    /// state changes, and a job already queued under the same round and id is
    /// deduplicated, never stored twice.
    ///
    /// Returns `Ok(true)` when the job was stored, `Ok(false)` when an equal
    /// job was already pending.
    pub fn enqueue(&mut self, job: Job) -> (r: Result<bool, ContractError>)
        requires
            old(self).wf(),
            old(self).next_seq < u64::MAX,
        ensures
            final(self).wf(),
            final(self).max_job_id_len == old(self).max_job_id_len,
            r == Err::<bool, ContractError>(ContractError::JobIdTooLong) <==> job.job_id@.len()
                > old(self).max_job_id_len,
            r is Err ==> *final(self) == *old(self),
            r == Ok::<bool, ContractError>(false) <==> (job.job_id@.len()
                <= old(self).max_job_id_len && has_job(old(self).entries@, job.round, job.job_id@)),
            r == Ok::<bool, ContractError>(false) ==> *final(self) == *old(self),
            r == Ok::<bool, ContractError>(true) <==> (job.job_id@.len()
                <= old(self).max_job_id_len && !has_job(
                old(self).entries@,
                job.round,
                job.job_id@,
            )),
            r == Ok::<bool, ContractError>(true) ==> jobs_for(final(self).entries@, job.round)
                == jobs_for(old(self).entries@, job.round).push(job) && (forall|r2: u64|
                r2 != job.round ==> jobs_for(final(self).entries@, r2) == jobs_for(
                    old(self).entries@,
                    r2,
                )) && final(self).entries@.len() == old(self).entries@.len() + 1
                && final(self).next_seq == old(self).next_seq + 1 && has_job(
                final(self).entries@,
                job.round,
                job.job_id@,
            ),
    {
        let id_len = job.job_id.as_str().unicode_len();
        if id_len > self.max_job_id_len {
            return Err(ContractError::JobIdTooLong);
        }
        if self.find_job(job.round, &job.job_id) {
            return Ok(false);
        }
        let mut pos: usize = 0;
        while pos < self.entries.len() && self.entries[pos].job.round <= job.round
            invariant
                0 <= pos <= self.entries@.len(),
                self.entries@ == old(self).entries@,
                forall|k: int| 0 <= k < pos ==> (#[trigger] self.entries@[k]).job.round
                    <= job.round,
            decreases self.entries@.len() - pos,
        {
            pos += 1;
        }
        let ghost pre = self.entries@;
        let ghost posg = pos as int;
        let entry = QueuedJob { seq: self.next_seq, job };
        self.entries.insert(pos, entry);
        self.next_seq = self.next_seq + 1;
        let n = self.entries.len();
        assert(n == pre.len() + 1);
        self.unprocessed = self.unprocessed + 1;
        proof {
            let cur = self.entries@;
            assert(cur == pre.insert(posg, entry));
            assert forall|i: int, j: int| 0 <= i < j < cur.len() implies entry_lt(
                #[trigger] cur[i],
                #[trigger] cur[j],
            ) by {
                if i < posg && j < posg {
                    assert(cur[i] == pre[i] && cur[j] == pre[j]);
                } else if i < posg && j == posg {
                    assert(cur[i] == pre[i]);
                    assert(pre[i].job.round <= entry.job.round);
                    assert(pre[i].seq < entry.seq);
                } else if i < posg && j > posg {
                    assert(cur[i] == pre[i] && cur[j] == pre[j - 1]);
                } else if i == posg {
                    assert(cur[j] == pre[j - 1]);
                    assert(pre[j - 1].job.round > entry.job.round);
                } else {
                    assert(cur[i] == pre[i - 1] && cur[j] == pre[j - 1]);
                }
            }
            assert forall|i: int| 0 <= i < cur.len() implies (#[trigger] cur[i]).seq
                < self.next_seq by {
                if i < posg {
                    assert(cur[i] == pre[i]);
                } else if i > posg {
                    assert(cur[i] == pre[i - 1]);
                }
            }
            assert forall|i: int, j: int| 0 <= i < j < cur.len() implies !((
            #[trigger] cur[i]).job.round == (#[trigger] cur[j]).job.round && cur[i].job.job_id@
                == cur[j].job.job_id@) by {
                if i == posg {
                    assert(cur[j] == pre[j - 1]);
                    assert(pre[j - 1].job.round > entry.job.round);
                } else if j == posg {
                    assert(cur[i] == pre[i]);
                    assert(!has_job(pre, entry.job.round, entry.job.job_id@));
                    if cur[i].job.round == entry.job.round && cur[i].job.job_id@
                        == entry.job.job_id@ {
                        assert(pre[i].job.round == entry.job.round && pre[i].job.job_id@
                            == entry.job.job_id@);
                        assert(false);
                    }
                } else if i < posg && j < posg {
                    assert(cur[i] == pre[i] && cur[j] == pre[j]);
                } else if i < posg {
                    assert(cur[i] == pre[i] && cur[j] == pre[j - 1]);
                } else {
                    assert(cur[i] == pre[i - 1] && cur[j] == pre[j - 1]);
                }
            }
            lemma_jobs_for_insert(pre, posg, entry);
            assert forall|r2: u64| r2 != job.round implies jobs_for(cur, r2) == jobs_for(
                pre,
                r2,
            ) by {
                lemma_jobs_for_insert_frame(pre, posg, entry, r2);
            }
            assert(cur[posg] == entry);
        }
        Ok(true)
    }

    /// Removes and returns, in their original arrival order, every job queued
    /// under `round`; an empty result for a round with no pending jobs is not
    /// an error. Jobs of other rounds are untouched.
    pub fn dequeue(&mut self, round: u64) -> (jobs: Vec<Job>)
        requires
            old(self).wf(),
        ensures
            final(self).wf(),
            final(self).max_job_id_len == old(self).max_job_id_len,
            final(self).next_seq == old(self).next_seq,
            jobs@ == jobs_for(old(self).entries@, round),
            final(self).entries@ == entries_without(old(self).entries@, round),
            jobs_for(final(self).entries@, round) == Seq::<Job>::empty(),
            forall|r2: u64|
                r2 != round ==> jobs_for(final(self).entries@, r2) == jobs_for(
                    old(self).entries@,
                    r2,
                ),
    {
        let ghost whole = self.entries@;
        let mut taken: Vec<Job> = Vec::new();
        let mut kept: Vec<QueuedJob> = Vec::new();
        while self.entries.len() > 0
            invariant
                jobs_for(whole, round) == taken@ + jobs_for(self.entries@, round),
                entries_without(whole, round) == kept@ + entries_without(self.entries@, round),
                forall|i: int, j: int|
                    0 <= i < j < kept@.len() ==> entry_lt(#[trigger] kept@[i], #[trigger] kept@[j]),
                forall|i: int, j: int|
                    0 <= i < kept@.len() && 0 <= j < self.entries@.len() ==> entry_lt(
                        #[trigger] kept@[i],
                        #[trigger] self.entries@[j],
                    ),
                forall|i: int, j: int|
                    0 <= i < j < self.entries@.len() ==> entry_lt(
                        #[trigger] self.entries@[i],
                        #[trigger] self.entries@[j],
                    ),
                forall|i: int|
                    0 <= i < kept@.len() ==> (#[trigger] kept@[i]).seq < old(self).next_seq,
                forall|i: int|
                    0 <= i < self.entries@.len() ==> (#[trigger] self.entries@[i]).seq < old(
                        self,
                    ).next_seq,
                forall|i: int, j: int|
                    0 <= i < j < kept@.len() ==> !((#[trigger] kept@[i]).job.round == (
                    #[trigger] kept@[j]).job.round && kept@[i].job.job_id@
                        == kept@[j].job.job_id@),
                forall|i: int, j: int|
                    0 <= i < kept@.len() && 0 <= j < self.entries@.len() ==> !((
                    #[trigger] kept@[i]).job.round == (#[trigger] self.entries@[j]).job.round
                        && kept@[i].job.job_id@ == self.entries@[j].job.job_id@),
                forall|i: int, j: int|
                    0 <= i < j < self.entries@.len() ==> !((
                    #[trigger] self.entries@[i]).job.round == (
                    #[trigger] self.entries@[j]).job.round && self.entries@[i].job.job_id@
                        == self.entries@[j].job.job_id@),
                self.next_seq == old(self).next_seq,
                self.max_job_id_len == old(self).max_job_id_len,
            decreases self.entries@.len(),
        {
            let ghost pre = self.entries@;
            let e = self.entries.remove(0);
            proof {
                assert(self.entries@ =~= pre.drop_first());
            }
            if e.job.round == round {
                taken.push(e.job);
                proof {
                    assert(jobs_for(pre, round) =~= seq![pre[0].job] + jobs_for(
                        pre.drop_first(),
                        round,
                    ));
                    assert(taken@ + jobs_for(self.entries@, round) =~= jobs_for(whole, round));
                    assert(entries_without(pre, round) == entries_without(pre.drop_first(), round));
                }
            } else {
                kept.push(e);
                proof {
                    assert(entries_without(pre, round) =~= seq![pre[0]] + entries_without(
                        pre.drop_first(),
                        round,
                    ));
                    assert(kept@ + entries_without(self.entries@, round) =~= entries_without(
                        whole,
                        round,
                    ));
                    assert(jobs_for(pre, round) == jobs_for(pre.drop_first(), round));
                }
            }
        }
        proof {
            assert(taken@ + jobs_for(self.entries@, round) =~= taken@);
            assert(kept@ + entries_without(self.entries@, round) =~= kept@);
        }
        let n = kept.len();
        self.entries = kept;
        self.unprocessed = n;
        proof {
            assert forall|r2: u64| r2 != round implies jobs_for(self.entries@, r2) == jobs_for(
                whole,
                r2,
            ) by {
                lemma_jobs_for_remove_round(whole, round, r2);
            }
            lemma_entries_without_has_none(whole, round);
            lemma_jobs_for_absent(self.entries@, round);
        }
        taken
    }

    /// A bounded, restartable page of the unprocessed set: the entries whose
    /// key `(round, seq)` lies strictly after `start_after`, ascending, cut
    /// off at `limit` when one is given. The listing reflects exactly the
    /// durable set: nothing already dequeued appears in it.
    pub fn list_unprocessed(&self, start_after: Option<(u64, u64)>, limit: Option<usize>) -> (out:
        Vec<QueuedJob>)
        requires
            self.wf(),
        ensures
            match limit {
                None => out@ == entries_after(self.entries@, start_after),
                Some(l) => out@ == take_up_to(entries_after(self.entries@, start_after), l as int),
            },
    {
        let ghost whole = self.entries@;
        let mut out: Vec<QueuedJob> = Vec::new();
        let mut i: usize = 0;
        let mut room = match limit {
            None => true,
            Some(l) => l > 0,
        };
        proof {
            assert(whole.skip(0) =~= whole);
            assert(out@ + entries_after(whole, start_after) =~= entries_after(whole, start_after));
        }
        while i < self.entries.len() && room
            invariant
                0 <= i <= self.entries@.len(),
                self.entries@ == whole,
                entries_after(whole, start_after) == out@ + entries_after(
                    whole.skip(i as int),
                    start_after,
                ),
                room == match limit {
                    None => true,
                    Some(l) => out@.len() < l,
                },
                match limit {
                    None => true,
                    Some(l) => out@.len() <= l,
                },
            decreases self.entries@.len() - i,
        {
            let ghost suffix = whole.skip(i as int);
            proof {
                assert(suffix[0] == whole[i as int]);
                assert(suffix.drop_first() =~= whole.skip(i as int + 1));
            }
            let e = &self.entries[i];
            let admitted: bool = match start_after {
                None => true,
                Some(p) => p.0 < e.job.round || (p.0 == e.job.round && p.1 < e.seq),
            };
            if admitted {
                out.push(clone_entry(e));
                proof {
                    assert(entries_after(suffix, start_after) =~= seq![suffix[0]] + entries_after(
                        suffix.drop_first(),
                        start_after,
                    ));
                    assert(entries_after(whole, start_after) =~= out@ + entries_after(
                        whole.skip(i as int + 1),
                        start_after,
                    ));
                }
                match limit {
                    None => {},
                    Some(l) => {
                        if out.len() >= l {
                            room = false;
                        }
                    },
                }
            } else {
                proof {
                    assert(entries_after(suffix, start_after) == entries_after(
                        suffix.drop_first(),
                        start_after,
                    ));
                }
            }
            i += 1;
        }
        proof {
            if i == whole.len() {
                assert(whole.skip(i as int) =~= Seq::<QueuedJob>::empty());
                assert(out@ + entries_after(whole.skip(i as int), start_after) =~= out@);
                if limit is Some {
                    assert(entries_after(whole, start_after).len() <= limit.unwrap());
                }
            } else {
                let l = limit.unwrap() as int;
                assert(out@.len() == l);
                assert(entries_after(whole, start_after) == out@ + entries_after(
                    whole.skip(i as int),
                    start_after,
                ));
                assert(entries_after(whole, start_after).take(l) =~= out@);
            }
        }
        out
    }
}

/// An exact copy of a pending job.
pub fn clone_job(j: &Job) -> (r: Job)
    ensures
        r == *j,
{
    Job { job_id: j.job_id.clone(), round: j.round, origin: j.origin.clone() }
}

/// An exact copy of a queue entry.
pub fn clone_entry(e: &QueuedJob) -> (r: QueuedJob)
    ensures
        r == *e,
{
    QueuedJob { seq: e.seq, job: clone_job(&e.job) }
}

/// A queue that holds no entry of round `r` yields the empty job list for it.
proof fn lemma_jobs_for_absent(q: Seq<QueuedJob>, r: u64)
    requires
        forall|k: int| 0 <= k < q.len() ==> (#[trigger] q[k]).job.round != r,
    ensures
        jobs_for(q, r) == Seq::<Job>::empty(),
    decreases q.len(),
{
    if q.len() > 0 {
        assert(forall|k: int|
            0 <= k < q.drop_first().len() ==> (#[trigger] q.drop_first()[k]).job.round != r);
        lemma_jobs_for_absent(q.drop_first(), r);
    }
}

/// Removing a round's entries leaves no entry of that round behind.
proof fn lemma_entries_without_has_none(q: Seq<QueuedJob>, r: u64)
    ensures
        forall|k: int|
            0 <= k < entries_without(q, r).len() ==> (#[trigger] entries_without(
                q,
                r,
            )[k]).job.round != r,
    decreases q.len(),
{
    if q.len() > 0 {
        lemma_entries_without_has_none(q.drop_first(), r);
        if q[0].job.round != r {
            let w = seq![q[0]] + entries_without(q.drop_first(), r);
            assert(entries_without(q, r) == w);
            assert forall|k: int| 0 <= k < w.len() implies (#[trigger] w[k]).job.round != r by {
                if k > 0 {
                    assert(w[k] == entries_without(q.drop_first(), r)[k - 1]);
                }
            }
        }
    }
}

/// Inserting an entry behind every stored entry of its round appends its job
/// to that round's stream.
proof fn lemma_jobs_for_insert(q: Seq<QueuedJob>, i: int, e: QueuedJob)
    requires
        0 <= i <= q.len(),
        forall|k: int| i <= k < q.len() ==> (#[trigger] q[k]).job.round != e.job.round,
    ensures
        jobs_for(q.insert(i, e), e.job.round) == jobs_for(q, e.job.round).push(e.job),
    decreases q.len(),
{
    let r = e.job.round;
    let ins = q.insert(i, e);
    if i == 0 {
        assert(ins =~= seq![e] + q);
        assert(ins[0] == e);
        assert(ins.drop_first() =~= q);
        lemma_jobs_for_absent(q, r);
        assert(jobs_for(ins, r) =~= seq![e.job] + jobs_for(q, r));
        assert(seq![e.job] + jobs_for(q, r) =~= jobs_for(q, r).push(e.job));
    } else {
        let q2 = q.drop_first();
        assert(ins[0] == q[0]);
        assert(ins.drop_first() =~= q2.insert(i - 1, e));
        assert(forall|k: int| i - 1 <= k < q2.len() ==> (#[trigger] q2[k]).job.round != r);
        lemma_jobs_for_insert(q2, i - 1, e);
        if q[0].job.round == r {
            assert(jobs_for(ins, r) =~= seq![q[0].job] + jobs_for(q2, r).push(e.job));
            assert(jobs_for(q, r) =~= seq![q[0].job] + jobs_for(q2, r));
            assert(seq![q[0].job] + jobs_for(q2, r).push(e.job) =~= (seq![q[0].job] + jobs_for(
                q2,
                r,
            )).push(e.job));
        } else {
            assert(jobs_for(ins, r) == jobs_for(q2, r).push(e.job));
            assert(jobs_for(q, r) == jobs_for(q2, r));
        }
    }
}

/// Inserting an entry of one round leaves every other round's stream as it
/// was.
proof fn lemma_jobs_for_insert_frame(q: Seq<QueuedJob>, i: int, e: QueuedJob, r2: u64)
    requires
        0 <= i <= q.len(),
        e.job.round != r2,
    ensures
        jobs_for(q.insert(i, e), r2) == jobs_for(q, r2),
    decreases q.len(),
{
    let ins = q.insert(i, e);
    if i == 0 {
        assert(ins =~= seq![e] + q);
        assert(ins[0] == e);
        assert(ins.drop_first() =~= q);
    } else {
        let q2 = q.drop_first();
        assert(ins[0] == q[0]);
        assert(ins.drop_first() =~= q2.insert(i - 1, e));
        lemma_jobs_for_insert_frame(q2, i - 1, e, r2);
        if q[0].job.round == r2 {
            assert(jobs_for(ins, r2) =~= seq![q[0].job] + jobs_for(q2, r2));
            assert(jobs_for(q, r2) =~= seq![q[0].job] + jobs_for(q2, r2));
        }
    }
}

/// Removing every entry of one round leaves every other round's stream as it
/// was: rounds are released independently of each other.
pub proof fn lemma_jobs_for_remove_round(q: Seq<QueuedJob>, r: u64, r2: u64)
    requires
        r2 != r,
    ensures
        jobs_for(entries_without(q, r), r2) == jobs_for(q, r2),
    decreases q.len(),
{
    if q.len() > 0 {
        let q2 = q.drop_first();
        lemma_jobs_for_remove_round(q2, r, r2);
        if q[0].job.round == r {
            assert(entries_without(q, r) == entries_without(q2, r));
            assert(jobs_for(q, r2) == jobs_for(q2, r2));
        } else {
            let w = seq![q[0]] + entries_without(q2, r);
            assert(entries_without(q, r) == w);
            assert(w[0] == q[0]);
            assert(w.drop_first() =~= entries_without(q2, r));
            if q[0].job.round == r2 {
                assert(jobs_for(w, r2) =~= seq![q[0].job] + jobs_for(entries_without(q2, r), r2));
                assert(jobs_for(q, r2) =~= seq![q[0].job] + jobs_for(q2, r2));
            } else {
                assert(jobs_for(w, r2) == jobs_for(entries_without(q2, r), r2));
                assert(jobs_for(q, r2) == jobs_for(q2, r2));
            }
        }
    }
}

/// A cursor that lies strictly before every entry filters nothing out.
proof fn lemma_entries_after_all(q: Seq<QueuedJob>, c: Option<(u64, u64)>)
    requires
        forall|k: int| 0 <= k < q.len() ==> cursor_admits(c, #[trigger] q[k]),
    ensures
        entries_after(q, c) == q,
    decreases q.len(),
{
    if q.len() > 0 {
        assert(forall|k: int|
            0 <= k < q.drop_first().len() ==> cursor_admits(c, #[trigger] q.drop_first()[k]));
        lemma_entries_after_all(q.drop_first(), c);
        assert(entries_after(q, c) =~= seq![q[0]] + q.drop_first());
        assert(seq![q[0]] + q.drop_first() =~= q);
    }
}

/// Pagination is restartable: on a sorted queue, listing again from the key
/// of the entry at position `m` yields exactly the entries behind it, so a
/// reader that resumes from the last entry of one page sees the remainder,
/// nothing twice and nothing skipped.
pub proof fn lemma_cursor_resumes(q: Seq<QueuedJob>, m: int)
    requires
        0 <= m < q.len(),
        forall|i: int, j: int| 0 <= i < j < q.len() ==> entry_lt(#[trigger] q[i], #[trigger] q[j]),
    ensures
        entries_after(q, Some((q[m].job.round, q[m].seq))) == q.skip(m + 1),
    decreases m,
{
    let c = Some((q[m].job.round, q[m].seq));
    if m == 0 {
        assert(!cursor_admits(c, q[0]));
        assert(forall|k: int|
            0 <= k < q.drop_first().len() ==> cursor_admits(c, #[trigger] q.drop_first()[k]));
        lemma_entries_after_all(q.drop_first(), c);
        assert(entries_after(q, c) == q.drop_first());
        assert(q.drop_first() =~= q.skip(1));
    } else {
        assert(entry_lt(q[0], q[m]));
        assert(!cursor_admits(c, q[0]));
        assert(entries_after(q, c) == entries_after(q.drop_first(), c));
        assert(q.drop_first()[m - 1] == q[m]);
        assert(forall|i: int, j: int|
            0 <= i < j < q.drop_first().len() ==> entry_lt(
                #[trigger] q.drop_first()[i],
                #[trigger] q.drop_first()[j],
            ));
        lemma_cursor_resumes(q.drop_first(), m - 1);
        assert(q.drop_first().skip(m) =~= q.skip(m + 1));
    }
}

/// With no cursor, the listing is the whole queue.
pub proof fn lemma_entries_after_none(q: Seq<QueuedJob>)
    ensures
        entries_after(q, None) == q,
    decreases q.len(),
{
    if q.len() > 0 {
        lemma_entries_after_none(q.drop_first());
        assert(entries_after(q, None) =~= seq![q[0]] + q.drop_first());
        assert(seq![q[0]] + q.drop_first() =~= q);
    }
}

/// The incrementally maintained unprocessed counter always equals the length
/// of the full, unpaginated listing of unprocessed jobs.
pub proof fn lemma_count_matches_listing(q: JobQueue)
    requires
        q.wf(),
    ensures
        q.unprocessed == entries_after(q.entries@, None).len(),
{
    lemma_entries_after_none(q.entries@);
}

} // verus!
