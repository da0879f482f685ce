use vstd::prelude::*;

use crate::dispatch::AckResult;
use crate::dispatch::DeliveryMsg;
use crate::dispatch::DispatchOutcome;
use crate::dispatch::Dispatcher;
use crate::dispatch::first_in_flight;
use crate::dispatch::has_in_flight;
use crate::errors::ContractError;
use crate::gate::AccessGate;
use crate::gate::GateAction;
use crate::gate::execute_update_operators;
use crate::gate::execute_update_payment_whitelist;
use crate::addrs::list_has;
use crate::jobs::Job;
use crate::jobs::JobQueue;
use crate::jobs::QueuedJob;
use crate::jobs::clone_job;
use crate::jobs::entries_after;
use crate::jobs::entries_without;
use crate::jobs::has_job;
use crate::jobs::jobs_for;
use crate::jobs::lemma_count_matches_listing;
use crate::jobs::lemma_jobs_for_remove_round;
use crate::jobs::take_up_to;
use crate::rounds::RoundStore;
use crate::rounds::Submission;
use crate::rounds::VerifiedRound;
use crate::rounds::copy_bytes;
use crate::rounds::has_bot;
use crate::rounds::has_submission;
use crate::rounds::round_verified;
use crate::stats::RequestLogEntry;
use crate::stats::Stats;

verus! {

/// Expected byte length of the beacon public key: a compressed BLS12-381 G1
/// point.
pub const PUBKEY_LEN: usize = 48;

/// Result of a round submission that was not rejected.
#[derive(Debug)]
pub enum SubmitOutcome {
    /// The round was freshly verified; carries the delivery attempts for
    /// every job that was waiting on it, in arrival order.
    Verified(Vec<DeliveryMsg>),
    /// A different bot verified the round earlier: idempotent success, no
    /// duplicate job release.
    AlreadyVerified,
}

/// Result of an accepted randomness request.
#[derive(Debug)]
pub enum RequestOutcome {
    /// Stored to wait for its round.
    Queued,
    /// An equal job was already pending under the same round; nothing was
    /// stored twice.
    Deduplicated,
    /// The target round was already verified, so the job went straight to
    /// dispatch.
    Dispatched(DeliveryMsg),
}

/// The relay core: access gate, round verifier, job queue, dispatcher and
/// audit log, mutated only through the operations below, each of which fully
/// applies or fully fails.
pub struct Relay {
    pub gate: AccessGate,
    pub rounds: RoundStore,
    pub queue: JobQueue,
    pub dispatcher: Dispatcher,
    pub stats: Stats,
    /// The beacon public key; its well-formedness is checked before any
    /// verification outcome is trusted.
    pub pubkey: Vec<u8>,
    /// The registered delivery channel, set at most once.
    pub channel: Option<String>,
    /// The configured peer contract, set at most once.
    pub peer_contract: Option<String>,
}

impl Relay {
    pub open spec fn wf(self) -> bool {
        &&& self.gate.wf()
        &&& self.rounds.wf()
        &&& self.queue.wf()
        &&& forall|i: int|
            0 <= i < self.rounds.submissions@.len() ==> round_verified(
                self.rounds.rounds@,
                (#[trigger] self.rounds.submissions@[i]).round,
            )
    }

    pub fn new(manager: Option<String>, pubkey: Vec<u8>, min_round: u64, max_job_id_len: usize) -> (
        r: Relay)
        ensures
            r.wf(),
            r.gate.manager == manager,
            forall|a: Seq<char>| !r.gate.allowlist.has(a),
            forall|a: Seq<char>| !r.gate.operators.has(a),
            r.pubkey == pubkey,
            r.rounds.min_round == min_round,
            r.rounds.rounds@ == Seq::<VerifiedRound>::empty(),
            r.rounds.submissions@ == Seq::<Submission>::empty(),
            r.rounds.bots@.len() == 0,
            r.rounds.available == 0,
            r.queue.max_job_id_len == max_job_id_len,
            r.queue.entries@ == Seq::<QueuedJob>::empty(),
            r.queue.next_seq == 0,
            r.dispatcher.in_flight@.len() == 0,
            r.dispatcher.failed@.len() == 0,
            r.stats.processed == 0,
            r.stats.log@.len() == 0,
            r.channel is None,
            r.peer_contract is None,
    {
        Relay {
            gate: AccessGate::new(manager),
            rounds: RoundStore::new(min_round),
            queue: JobQueue::new(max_job_id_len),
            dispatcher: Dispatcher::new(),
            stats: Stats::new(),
            pubkey,
            channel: None,
            peer_contract: None,
        }
    }

    /// Why a round submission is rejected, or `None` when it is accepted.
    ///
    /// The checks apply in order: submitter authorization, the round floor,
    /// per-bot duplicate protection on an already verified round, public-key
    /// well-formedness, and the outcome of the black-box signature check.
    pub open spec fn submit_rejection(
        self,
        bot: Seq<char>,
        round: u64,
        signature_valid: bool,
    ) -> Option<ContractError> {
        if !has_bot(self.rounds.bots@, bot) {
            Some(ContractError::UnauthorizedAddVerifiedRound)
        } else if round < self.rounds.min_round {
            Some(ContractError::RoundTooLow { round, min_round: self.rounds.min_round })
        } else if round_verified(self.rounds.rounds@, round) {
            if has_submission(self.rounds.submissions@, bot, round) {
                Some(ContractError::SubmissionExists)
            } else {
                None
            }
        } else if self.pubkey@.len() != PUBKEY_LEN {
            Some(ContractError::InvalidPubkey)
        } else if !signature_valid {
            Some(ContractError::InvalidSignature)
        } else {
            None
        }
    }

    /// Accepts one beacon round from a bot.
    ///
    /// `signature_valid` is the outcome of the external black-box check of
    /// `signature` for `round` against the configured public key and the
    /// preceding round's signature; the embedder performs that check and the
    /// relay decides from its result. A rejected submission changes nothing.
    /// A fresh verification persists the round, releases every job queued
    /// under it in arrival order, and puts those jobs in flight; a repeated
    /// verification by another bot is an idempotent success that releases
    /// nothing.
    #[verifier::loop_isolation(false)]
    pub fn submit_round(
        &mut self,
        bot: &String,
        round: u64,
        signature: Vec<u8>,
        signature_valid: bool,
    ) -> (r: Result<SubmitOutcome, ContractError>)
        requires
            old(self).wf(),
        ensures
            final(self).wf(),
            r is Err <==> old(self).submit_rejection(bot@, round, signature_valid) is Some,
            old(self).submit_rejection(bot@, round, signature_valid) matches Some(e) ==> r
                == Err::<SubmitOutcome, ContractError>(e) && *final(self) == *old(self),
            (old(self).submit_rejection(bot@, round, signature_valid) is None && round_verified(
                old(self).rounds.rounds@,
                round,
            )) ==> {
                &&& r == Ok::<SubmitOutcome, ContractError>(SubmitOutcome::AlreadyVerified)
                &&& final(self).rounds.submissions@ == old(self).rounds.submissions@.push(
                    Submission { bot: *bot, round },
                )
                &&& final(self).rounds.rounds@ == old(self).rounds.rounds@
                &&& final(self).rounds.bots@ == old(self).rounds.bots@
                &&& final(self).rounds.min_round == old(self).rounds.min_round
                &&& final(self).rounds.available == old(self).rounds.available
                &&& final(self).queue == old(self).queue
                &&& final(self).dispatcher == old(self).dispatcher
                &&& final(self).stats == old(self).stats
                &&& final(self).gate == old(self).gate
                &&& final(self).pubkey == old(self).pubkey
                &&& final(self).channel == old(self).channel
                &&& final(self).peer_contract == old(self).peer_contract
            },
            (old(self).submit_rejection(bot@, round, signature_valid) is None && !round_verified(
                old(self).rounds.rounds@,
                round,
            )) ==> {
                &&& r matches Ok(SubmitOutcome::Verified(msgs)) && msgs_match(
                    msgs@,
                    jobs_for(old(self).queue.entries@, round),
                    round,
                    signature@,
                )
                &&& final(self).rounds.rounds@ == old(self).rounds.rounds@.push(
                    VerifiedRound { round, signature },
                )
                &&& round_verified(final(self).rounds.rounds@, round)
                &&& final(self).rounds.submissions@ == old(self).rounds.submissions@.push(
                    Submission { bot: *bot, round },
                )
                &&& final(self).rounds.bots@ == old(self).rounds.bots@
                &&& final(self).rounds.min_round == old(self).rounds.min_round
                &&& final(self).rounds.available >= old(self).rounds.available
                &&& final(self).queue.entries@ == entries_without(old(self).queue.entries@, round)
                &&& jobs_for(final(self).queue.entries@, round) == Seq::<Job>::empty()
                &&& forall|r2: u64|
                    r2 != round ==> jobs_for(final(self).queue.entries@, r2) == jobs_for(
                        old(self).queue.entries@,
                        r2,
                    )
                &&& final(self).queue.next_seq == old(self).queue.next_seq
                &&& final(self).queue.max_job_id_len == old(self).queue.max_job_id_len
                &&& final(self).dispatcher.in_flight@ == old(self).dispatcher.in_flight@
                    + jobs_for(old(self).queue.entries@, round)
                &&& final(self).dispatcher.failed@ == old(self).dispatcher.failed@
                &&& final(self).stats == old(self).stats
                &&& final(self).gate == old(self).gate
                &&& final(self).pubkey == old(self).pubkey
                &&& final(self).channel == old(self).channel
                &&& final(self).peer_contract == old(self).peer_contract
            },
    {
        if !self.rounds.bot_registered(bot) {
            return Err(ContractError::UnauthorizedAddVerifiedRound);
        }
        if round < self.rounds.min_round {
            return Err(ContractError::RoundTooLow { round, min_round: self.rounds.min_round });
        }
        if self.rounds.is_verified(round) {
            if self.rounds.submission_exists(bot, round) {
                return Err(ContractError::SubmissionExists);
            }
            self.rounds.note_submission(bot, round);
            return Ok(SubmitOutcome::AlreadyVerified);
        }
        if self.pubkey.len() != PUBKEY_LEN {
            return Err(ContractError::InvalidPubkey);
        }
        if !signature_valid {
            return Err(ContractError::InvalidSignature);
        }
        let ghost pre_entries = self.queue.entries@;
        let ghost pre_in_flight = self.dispatcher.in_flight@;
        let jobs = self.queue.dequeue(round);
        let mut msgs: Vec<DeliveryMsg> = Vec::new();
        let mut i: usize = 0;
        while i < jobs.len()
            invariant
                0 <= i <= jobs@.len(),
                msgs@.len() == i,
                forall|k: int|
                    0 <= k < i ==> {
                        &&& (#[trigger] msgs@[k]).round == round
                        &&& msgs@[k].randomness@ == signature@
                        &&& msgs@[k].job_id == jobs@[k].job_id
                        &&& msgs@[k].origin == jobs@[k].origin
                    },
            decreases jobs@.len() - i,
        {
            let j = &jobs[i];
            msgs.push(
                DeliveryMsg {
                    round,
                    randomness: copy_bytes(&signature),
                    job_id: j.job_id.clone(),
                    origin: j.origin.clone(),
                },
            );
            i += 1;
        }
        let ghost q_mid = self.queue;
        let mut k: usize = 0;
        while k < jobs.len()
            invariant
                0 <= k <= jobs@.len(),
                self.dispatcher.in_flight@ == pre_in_flight + jobs@.take(k as int),
                self.dispatcher.failed@ == old(self).dispatcher.failed@,
                self.queue == q_mid,
                self.rounds == old(self).rounds,
                self.stats == old(self).stats,
                self.gate == old(self).gate,
                self.pubkey == old(self).pubkey,
                self.channel == old(self).channel,
                self.peer_contract == old(self).peer_contract,
            decreases jobs@.len() - k,
        {
            self.dispatcher.track(clone_job(&jobs[k]));
            proof {
                assert(self.dispatcher.in_flight@ =~= pre_in_flight + jobs@.take(k as int + 1));
            }
            k += 1;
        }
        proof {
            assert(jobs@.take(jobs@.len() as int) =~= jobs@);
            if has_submission(self.rounds.submissions@, bot@, round) {
                let w = choose|w: int|
                    0 <= w < self.rounds.submissions@.len() && (
                    #[trigger] self.rounds.submissions@[w]).bot@ == bot@
                        && self.rounds.submissions@[w].round == round;
                assert(round_verified(self.rounds.rounds@, self.rounds.submissions@[w].round));
            }
        }
        self.rounds.note_submission(bot, round);
        let ghost pre_rounds = self.rounds.rounds@;
        self.rounds.add_round(round, signature);
        proof {
            assert forall|i2: int| 0 <= i2 < self.rounds.submissions@.len() implies round_verified(
                self.rounds.rounds@,
                (#[trigger] self.rounds.submissions@[i2]).round,
            ) by {
                let s = self.rounds.submissions@[i2];
                if i2 < self.rounds.submissions@.len() - 1 {
                    assert(round_verified(pre_rounds, s.round));
                    let w = choose|w: int|
                        0 <= w < pre_rounds.len() && (#[trigger] pre_rounds[w]).round == s.round;
                    assert(self.rounds.rounds@[w].round == s.round);
                } else {
                    assert(self.rounds.rounds@[pre_rounds.len() as int].round == round);
                }
            }
            assert(self.rounds.rounds@[pre_rounds.len() as int].round == round);
        }
        Ok(SubmitOutcome::Verified(msgs))
    }

    /// Why a randomness request is rejected, or `None` when it is accepted:
    /// the caller must pass the access gate, and the job id must not exceed
    /// the configured maximum.
    pub open spec fn request_rejection(self, caller: Seq<char>, job_id: Seq<char>) -> Option<
        ContractError,
    > {
        if !self.gate.allowlist.has(caller) {
            Some(ContractError::Unauthorized)
        } else if job_id.len() > self.queue.max_job_id_len {
            Some(ContractError::JobIdTooLong)
        } else {
            None
        }
    }

    /// Accepts one randomness request from an allow-listed caller.
    ///
    /// A rejected request persists nothing. An accepted one is appended to
    /// the request log and either queued behind every job already waiting on
    /// the same round, deduplicated against an equal pending job, or — when
    /// the round is already verified — dispatched immediately with the stored
    /// beacon value.
    pub fn request_randomness(
        &mut self,
        caller: &String,
        round: u64,
        job_id: String,
        origin: String,
    ) -> (r: Result<RequestOutcome, ContractError>)
        requires
            old(self).wf(),
            old(self).queue.next_seq < u64::MAX,
        ensures
            final(self).wf(),
            r is Err <==> old(self).request_rejection(caller@, job_id@) is Some,
            old(self).request_rejection(caller@, job_id@) matches Some(e) ==> r == Err::<
                RequestOutcome,
                ContractError,
            >(e) && *final(self) == *old(self),
            r is Ok ==> final(self).stats.log@ == old(self).stats.log@.push(
                RequestLogEntry { caller: *caller, round, job_id, origin },
            ) && final(self).stats.processed == old(self).stats.processed && final(self).rounds
                == old(self).rounds && final(self).gate == old(self).gate && final(self).pubkey
                == old(self).pubkey && final(self).channel == old(self).channel && final(self).peer_contract == old(self).peer_contract,
            (old(self).request_rejection(caller@, job_id@) is None && round_verified(
                old(self).rounds.rounds@,
                round,
            )) ==> {
                &&& r matches Ok(RequestOutcome::Dispatched(m)) && m.round == round && m.job_id@
                    == job_id@ && m.origin@ == origin@ && (exists|i: int|
                    0 <= i < old(self).rounds.rounds@.len() && (
                    #[trigger] old(self).rounds.rounds@[i]).round == round && m.randomness@ == old(self).rounds.rounds@[i].signature@)
                &&& final(self).dispatcher.in_flight@ == old(self).dispatcher.in_flight@.push(
                    Job { job_id, round, origin },
                )
                &&& final(self).dispatcher.failed@ == old(self).dispatcher.failed@
                &&& final(self).queue == old(self).queue
            },
            (old(self).request_rejection(caller@, job_id@) is None && !round_verified(
                old(self).rounds.rounds@,
                round,
            ) && has_job(old(self).queue.entries@, round, job_id@)) ==> {
                &&& r == Ok::<RequestOutcome, ContractError>(RequestOutcome::Deduplicated)
                &&& final(self).queue == old(self).queue
                &&& final(self).dispatcher == old(self).dispatcher
            },
            (old(self).request_rejection(caller@, job_id@) is None && !round_verified(
                old(self).rounds.rounds@,
                round,
            ) && !has_job(old(self).queue.entries@, round, job_id@)) ==> {
                &&& r == Ok::<RequestOutcome, ContractError>(RequestOutcome::Queued)
                &&& jobs_for(final(self).queue.entries@, round) == jobs_for(
                    old(self).queue.entries@,
                    round,
                ).push(Job { job_id, round, origin })
                &&& forall|r2: u64|
                    r2 != round ==> jobs_for(final(self).queue.entries@, r2) == jobs_for(
                        old(self).queue.entries@,
                        r2,
                    )
                &&& final(self).queue.entries@.len() == old(self).queue.entries@.len() + 1
                &&& final(self).queue.next_seq == old(self).queue.next_seq + 1
                &&& final(self).queue.max_job_id_len == old(self).queue.max_job_id_len
                &&& final(self).dispatcher == old(self).dispatcher
            },
    {
        if !self.gate.is_allowed(caller) {
            return Err(ContractError::Unauthorized);
        }
        let id_len = job_id.as_str().unicode_len();
        if id_len > self.queue.max_job_id_len {
            return Err(ContractError::JobIdTooLong);
        }
        match self.rounds.get_signature(round) {
            Some(randomness) => {
                let entry = RequestLogEntry {
                    caller: caller.clone(),
                    round,
                    job_id: job_id.clone(),
                    origin: origin.clone(),
                };
                let msg = DeliveryMsg {
                    round,
                    randomness,
                    job_id: job_id.clone(),
                    origin: origin.clone(),
                };
                self.dispatcher.track(Job { job_id, round, origin });
                self.stats.log_request(entry);
                Ok(RequestOutcome::Dispatched(msg))
            },
            None => {
                let entry = RequestLogEntry {
                    caller: caller.clone(),
                    round,
                    job_id: job_id.clone(),
                    origin: origin.clone(),
                };
                match self.queue.enqueue(Job { job_id, round, origin }) {
                    Ok(true) => {
                        self.stats.log_request(entry);
                        Ok(RequestOutcome::Queued)
                    },
                    Ok(false) => {
                        self.stats.log_request(entry);
                        Ok(RequestOutcome::Deduplicated)
                    },
                    Err(e) => Err(e),
                }
            },
        }
    }

    /// Consumes the channel's asynchronous acknowledgment for one delivery,
    /// in any order and after any delay relative to other dispatches.
    ///
    /// Success completes the job and counts it exactly once; failure moves
    /// the job to the terminal failed list without touching the processed
    /// counter, so it is never silently lost; an unknown id is a harmless
    /// no-op.
    pub fn on_dispatch_result(&mut self, job_id: &String, outcome: DispatchOutcome) -> (r:
        AckResult)
        requires
            old(self).wf(),
            old(self).stats.processed < u64::MAX,
        ensures
            final(self).wf(),
            r == AckResult::Unknown <==> !has_in_flight(old(self).dispatcher.in_flight@, job_id@),
            r == AckResult::Unknown ==> *final(self) == *old(self),
            r != AckResult::Unknown ==> exists|i: int|
                {
                    &&& #[trigger] first_in_flight(old(self).dispatcher.in_flight@, job_id@, i)
                    &&& final(self).dispatcher.in_flight@ == old(self).dispatcher.in_flight@.remove(i)
                    &&& match outcome {
                        DispatchOutcome::Success => final(self).dispatcher.failed@ == old(self).dispatcher.failed@ && r == AckResult::Completed && final(self).stats.processed == old(self).stats.processed + 1
                        ,
                        DispatchOutcome::Failure(e) => final(self).dispatcher.failed@ == old(self).dispatcher.failed@.push(
                            crate::dispatch::FailedJob {
                                job: old(self).dispatcher.in_flight@[i],
                                error: e,
                            },
                        ) && r == AckResult::MarkedFailed && final(self).stats.processed == old(self).stats.processed
                        ,
                    }
                },
            final(self).queue == old(self).queue,
            final(self).rounds == old(self).rounds,
            final(self).gate == old(self).gate,
            final(self).stats.log@ == old(self).stats.log@,
            final(self).pubkey == old(self).pubkey,
            final(self).channel == old(self).channel,
            final(self).peer_contract == old(self).peer_contract,
    {
        let r = self.dispatcher.ack(job_id, outcome);
        if r == AckResult::Completed {
            self.stats.increment_processed();
        }
        r
    }

    /// Registers the delivery channel, exactly once; registering over an
    /// existing channel is rejected without change.
    pub fn register_channel(&mut self, channel_id: String) -> (r: Result<(), ContractError>)
        requires
            old(self).wf(),
        ensures
            final(self).wf(),
            r is Err <==> old(self).channel is Some,
            r is Err ==> r == Err::<(), ContractError>(ContractError::ChannelAlreadyRegistered)
                && *final(self) == *old(self),
            r is Ok ==> final(self).channel == Some(channel_id) && final(self).gate == old(self).gate && final(self).rounds == old(self).rounds && final(self).queue == old(self).queue && final(self).dispatcher == old(self).dispatcher && final(self).stats == old(self).stats && final(self).pubkey == old(self).pubkey && final(self).peer_contract == old(self).peer_contract,
    {
        if self.channel.is_some() {
            return Err(ContractError::ChannelAlreadyRegistered);
        }
        self.channel = Some(channel_id);
        Ok(())
    }

    /// Configures the peer contract, exactly once, by the manager alone.
    pub fn set_peer_contract(&mut self, caller: &String, contract: String) -> (r: Result<
        (),
        ContractError,
    >)
        requires
            old(self).wf(),
        ensures
            final(self).wf(),
            r == Err::<(), ContractError>(ContractError::Unauthorized) <==> !old(self).gate.manager_is(caller@),
            r == Err::<(), ContractError>(ContractError::ContractAlreadySet) <==> (old(self).gate.manager_is(caller@) && old(self).peer_contract is Some),
            r is Err ==> *final(self) == *old(self),
            r is Ok <==> (old(self).gate.manager_is(caller@) && old(self).peer_contract is None),
            r is Ok ==> final(self).peer_contract == Some(contract) && final(self).gate == old(self).gate && final(self).rounds == old(self).rounds && final(self).queue == old(self).queue && final(self).dispatcher == old(self).dispatcher && final(self).stats == old(self).stats && final(self).pubkey == old(self).pubkey && final(self).channel == old(self).channel,
    {
        let authorized = match &self.gate.manager {
            Some(m) => *caller == *m,
            None => false,
        };
        if !authorized {
            return Err(ContractError::Unauthorized);
        }
        if self.peer_contract.is_some() {
            return Err(ContractError::ContractAlreadySet);
        }
        self.peer_contract = Some(contract);
        Ok(())
    }

    /// Registers the caller as a round-submitting bot, or renews its moniker.
    pub fn register_bot(&mut self, caller: &String, moniker: String) -> (r: Result<
        (),
        ContractError,
    >)
        requires
            old(self).wf(),
        ensures
            final(self).wf(),
            final(self).rounds.min_round == old(self).rounds.min_round,
            final(self).rounds.available == old(self).rounds.available,
            final(self).pubkey == old(self).pubkey,
            final(self).channel == old(self).channel,
            final(self).peer_contract == old(self).peer_contract,
            r == Err::<(), ContractError>(ContractError::MonikerEmpty) <==> moniker@.len() == 0,
            r == Err::<(), ContractError>(ContractError::MonikerTooLong) <==> moniker@.len()
                > crate::rounds::MAX_MONIKER_LEN,
            r is Err ==> *final(self) == *old(self),
            r is Ok <==> 0 < moniker@.len() <= crate::rounds::MAX_MONIKER_LEN,
            r is Ok ==> has_bot(final(self).rounds.bots@, caller@) && (forall|a: Seq<char>|
                has_bot(final(self).rounds.bots@, a) <==> (has_bot(old(self).rounds.bots@, a) || a
                    == caller@)) && final(self).rounds.rounds@ == old(self).rounds.rounds@ && final(self).rounds.submissions@ == old(self).rounds.submissions@ && final(self).queue == old(self).queue && final(self).dispatcher == old(self).dispatcher && final(self).stats == old(self).stats && final(self).gate == old(self).gate,
    {
        let r = self.rounds.register_bot(caller, moniker);
        if r.is_ok() {
            proof {
                assert(crate::rounds::bot_has_moniker(self.rounds.bots@, caller@, moniker@));
            }
        }
        r
    }

    /// Edits the payment allow-list through the access gate.
    pub fn update_allowlist(
        &mut self,
        caller: &String,
        add_addresses: Vec<String>,
        remove_addresses: Vec<String>,
    ) -> (r: Result<GateAction, ContractError>)
        requires
            old(self).wf(),
        ensures
            final(self).wf(),
            final(self).gate.manager == old(self).gate.manager,
            final(self).gate.operators == old(self).gate.operators,
            final(self).rounds == old(self).rounds,
            final(self).queue == old(self).queue,
            final(self).dispatcher == old(self).dispatcher,
            final(self).stats == old(self).stats,
            r is Err <==> !old(self).gate.may_edit_allowlist(caller@),
            r is Err ==> r == Err::<GateAction, ContractError>(ContractError::Unauthorized)
                && *final(self) == *old(self),
            r is Ok ==> r == Ok::<GateAction, ContractError>(GateAction::UpdatePaymentWhitelist)
                && forall|x: Seq<char>| #![auto]
                final(self).gate.allowlist.has(x) <==> ((old(self).gate.allowlist.has(x)
                    || list_has(add_addresses@, x)) && !list_has(remove_addresses@, x)),
    {
        execute_update_payment_whitelist(&mut self.gate, caller, add_addresses, remove_addresses)
    }

    /// Edits the operator set through the access gate.
    pub fn update_operators(
        &mut self,
        caller: &String,
        add_addresses: Vec<String>,
        remove_addresses: Vec<String>,
    ) -> (r: Result<GateAction, ContractError>)
        requires
            old(self).wf(),
        ensures
            final(self).wf(),
            final(self).gate.manager == old(self).gate.manager,
            final(self).gate.allowlist == old(self).gate.allowlist,
            final(self).rounds == old(self).rounds,
            final(self).queue == old(self).queue,
            final(self).dispatcher == old(self).dispatcher,
            final(self).stats == old(self).stats,
            r is Err <==> !old(self).gate.may_edit_operators(caller@),
            r is Err ==> r == Err::<GateAction, ContractError>(ContractError::Unauthorized)
                && *final(self) == *old(self),
            r is Ok ==> r == Ok::<GateAction, ContractError>(GateAction::UpdateOperators) && forall|
                x: Seq<char>,
            | #![auto]
                final(self).gate.operators.has(x) <==> ((old(self).gate.operators.has(x)
                    || list_has(add_addresses@, x)) && !list_has(remove_addresses@, x)),
    {
        execute_update_operators(&mut self.gate, caller, add_addresses, remove_addresses)
    }

    /// The exact number of unprocessed jobs in the durable queue.
    pub fn count_unprocessed(&self) -> (n: usize)
        requires
            self.wf(),
        ensures
            n == self.queue.entries@.len(),
    {
        self.queue.count_unprocessed()
    }

    /// A bounded page of the unprocessed jobs, ascending by round and
    /// insertion order, restartable from the `(round, seq)` cursor.
    pub fn list_unprocessed_jobs(
        &self,
        start_after: Option<(u64, u64)>,
        limit: Option<usize>,
    ) -> (out: Vec<Job>)
        requires
            self.wf(),
        ensures
            match limit {
                None => out@ == entries_after(self.queue.entries@, start_after).map_values(
                    |e: QueuedJob| e.job,
                ),
                Some(l) => out@ == take_up_to(
                    entries_after(self.queue.entries@, start_after),
                    l as int,
                ).map_values(|e: QueuedJob| e.job),
            },
    {
        let entries = self.queue.list_unprocessed(start_after, limit);
        let mut out: Vec<Job> = Vec::new();
        let mut i: usize = 0;
        while i < entries.len()
            invariant
                0 <= i <= entries@.len(),
                out@.len() == i,
                forall|k: int| 0 <= k < i ==> #[trigger] out@[k] == entries@[k].job,
            decreases entries@.len() - i,
        {
            out.push(clone_job(&entries[i].job));
            i += 1;
        }
        proof {
            assert(out@ =~= entries@.map_values(|e: QueuedJob| e.job));
        }
        out
    }
}

/// Spells out what each released delivery carries: the submitted round, the
/// verified beacon value, and the job's own id and origin, in the jobs'
/// queue order.
pub open spec fn msgs_match(
    msgs: Seq<DeliveryMsg>,
    jobs: Seq<Job>,
    round: u64,
    randomness: Seq<u8>,
) -> bool {
    &&& msgs.len() == jobs.len()
    &&& forall|i: int|
        0 <= i < msgs.len() ==> {
            &&& (#[trigger] msgs[i]).round == round
            &&& msgs[i].randomness@ == randomness
            &&& msgs[i].job_id == jobs[i].job_id
            &&& msgs[i].origin == jobs[i].origin
        }
}

/// Rounds are independent: verifying one round neither verifies an earlier,
/// still-missing round nor disturbs that round's queued jobs, so the earlier
/// round's own later verification still succeeds and releases exactly the
/// jobs that were waiting on it.
pub proof fn lemma_out_of_order_verification(
    rs: Seq<VerifiedRound>,
    q: Seq<QueuedJob>,
    vr2: VerifiedRound,
    r1: u64,
)
    requires
        r1 != vr2.round,
        !round_verified(rs, r1),
    ensures
        !round_verified(rs.push(vr2), r1),
        jobs_for(entries_without(q, vr2.round), r1) == jobs_for(q, r1),
{
    lemma_jobs_for_remove_round(q, vr2.round, r1);
    if round_verified(rs.push(vr2), r1) {
        let w = choose|w: int|
            0 <= w < rs.push(vr2).len() && (#[trigger] rs.push(vr2)[w]).round == r1;
        if w < rs.len() {
            assert(rs[w].round == r1);
        }
    }
}

/// Duplicate-submission policy on a verified round: the bot whose submission
/// for the round was already accepted is rejected with `SubmissionExists`,
/// while a registered bot without one is accepted idempotently — and an
/// accepted resubmission of a verified round never releases a job, since the
/// round's entries left the queue when it was verified.
pub proof fn lemma_duplicate_submission_policy(
    s: Relay,
    bot1: Seq<char>,
    bot2: Seq<char>,
    round: u64,
    signature_valid: bool,
)
    requires
        s.wf(),
        round_verified(s.rounds.rounds@, round),
        round >= s.rounds.min_round,
        has_bot(s.rounds.bots@, bot1),
        has_bot(s.rounds.bots@, bot2),
        has_submission(s.rounds.submissions@, bot1, round),
        !has_submission(s.rounds.submissions@, bot2, round),
    ensures
        s.submit_rejection(bot1, round, signature_valid) == Some(ContractError::SubmissionExists),
        s.submit_rejection(bot2, round, signature_valid) is None,
{
}

/// The unprocessed counter always equals the length of the full, unpaginated
/// listing of unprocessed jobs.
pub proof fn lemma_count_matches_full_listing(r: Relay)
    requires
        r.wf(),
    ensures
        r.queue.unprocessed == entries_after(r.queue.entries@, None).map_values(
            |e: QueuedJob| e.job,
        ).len(),
{
    lemma_count_matches_listing(r.queue);
}

} // verus!
