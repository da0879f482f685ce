use nois_relay::dispatch::AckResult;
use nois_relay::dispatch::DispatchOutcome;
use nois_relay::errors::ContractError;
use nois_relay::relay::Relay;
use nois_relay::relay::RequestOutcome;
use nois_relay::relay::SubmitOutcome;

fn s(x: &str) -> String {
    String::from(x)
}

fn pubkey48() -> Vec<u8> {
    vec![7u8; 48]
}

/// A relay with min_round 100, job ids up to 64 chars, bot "bot1" registered
/// and caller "alice" on the allow-list.
fn ready_relay() -> Relay {
    let mut r = Relay::new(Some(s("manager")), pubkey48(), 100, 64);
    r.register_bot(&s("bot1"), s("mon")).unwrap();
    r.update_allowlist(&s("manager"), vec![s("alice")], vec![]).unwrap();
    r
}

fn request(r: &mut Relay, round: u64, id: &str) -> Result<RequestOutcome, ContractError> {
    r.request_randomness(&s("alice"), round, s(id), s("origin-of-alice"))
}

#[test]
fn request_from_unlisted_caller_is_unauthorized() {
    let mut r = ready_relay();
    let res = r.request_randomness(&s("mallory"), 142, s("j1"), s("o"));
    assert_eq!(res.unwrap_err(), ContractError::Unauthorized);
    assert_eq!(r.count_unprocessed(), 0);
}

#[test]
fn oversized_job_id_is_rejected_without_state() {
    let mut r = ready_relay();
    let long_id: String = "x".repeat(65);
    let res = r.request_randomness(&s("alice"), 142, long_id, s("o"));
    assert_eq!(res.unwrap_err(), ContractError::JobIdTooLong);
    assert_eq!(r.count_unprocessed(), 0);
    assert!(r.list_unprocessed_jobs(None, None).is_empty());
    assert!(r.stats.requests_asc().is_empty());

    // exactly the maximum is still accepted
    let max_id: String = "x".repeat(64);
    let res = r.request_randomness(&s("alice"), 142, max_id, s("o"));
    assert!(matches!(res, Ok(RequestOutcome::Queued)));
    assert_eq!(r.count_unprocessed(), 1);
}

#[test]
fn round_below_floor_is_rejected() {
    let mut r = ready_relay();
    request(&mut r, 142, "j1").unwrap();
    let res = r.submit_round(&s("bot1"), 50, vec![1, 2, 3], true);
    assert_eq!(
        res.unwrap_err(),
        ContractError::RoundTooLow { round: 50, min_round: 100 }
    );
    // nothing was released
    assert_eq!(r.count_unprocessed(), 1);
    assert!(r.dispatcher.in_flight_jobs().is_empty());
}

#[test]
fn unregistered_bot_cannot_submit() {
    let mut r = ready_relay();
    let res = r.submit_round(&s("impostor"), 142, vec![1], true);
    assert_eq!(res.unwrap_err(), ContractError::UnauthorizedAddVerifiedRound);
}

#[test]
fn invalid_signature_is_rejected_then_valid_succeeds() {
    let mut r = ready_relay();
    let res = r.submit_round(&s("bot1"), 142, vec![9], false);
    assert_eq!(res.unwrap_err(), ContractError::InvalidSignature);
    let res = r.submit_round(&s("bot1"), 142, vec![9], true);
    assert!(matches!(res, Ok(SubmitOutcome::Verified(_))));
}

#[test]
fn malformed_pubkey_is_rejected_before_verification() {
    let mut r = Relay::new(Some(s("manager")), vec![1, 2, 3], 100, 64);
    r.register_bot(&s("bot1"), s("mon")).unwrap();
    let res = r.submit_round(&s("bot1"), 142, vec![9], true);
    assert_eq!(res.unwrap_err(), ContractError::InvalidPubkey);
}

#[test]
fn verified_round_releases_jobs_in_arrival_order() {
    let mut r = ready_relay();
    assert!(matches!(request(&mut r, 42 + 100, "first"), Ok(RequestOutcome::Queued)));
    assert!(matches!(request(&mut r, 142, "second"), Ok(RequestOutcome::Queued)));
    assert!(matches!(request(&mut r, 999, "elsewhere"), Ok(RequestOutcome::Queued)));
    assert_eq!(r.count_unprocessed(), 3);

    let signature = vec![0xde, 0xad, 0xbe, 0xef];
    let res = r.submit_round(&s("bot1"), 142, signature.clone(), true);
    match res.unwrap() {
        SubmitOutcome::Verified(msgs) => {
            assert_eq!(msgs.len(), 2);
            assert_eq!(msgs[0].job_id, s("first"));
            assert_eq!(msgs[1].job_id, s("second"));
            for m in &msgs {
                assert_eq!(m.round, 142);
                assert_eq!(m.randomness, signature);
                assert_eq!(m.origin, s("origin-of-alice"));
            }
        }
        SubmitOutcome::AlreadyVerified => panic!("round was fresh"),
    }
    // only round 142's jobs left the queue
    assert_eq!(r.count_unprocessed(), 1);
    let rest = r.list_unprocessed_jobs(None, None);
    assert_eq!(rest.len(), 1);
    assert_eq!(rest[0].job_id, s("elsewhere"));
    assert_eq!(r.dispatcher.in_flight_jobs().len(), 2);
}

#[test]
fn dequeue_of_round_without_jobs_is_empty() {
    let mut r = ready_relay();
    let res = r.submit_round(&s("bot1"), 143, vec![5], true);
    match res.unwrap() {
        SubmitOutcome::Verified(msgs) => assert!(msgs.is_empty()),
        SubmitOutcome::AlreadyVerified => panic!("round was fresh"),
    }
}

#[test]
fn duplicate_submissions_are_told_apart() {
    let mut r = ready_relay();
    r.register_bot(&s("bot2"), s("other")).unwrap();
    request(&mut r, 142, "j1").unwrap();
    let first = r.submit_round(&s("bot1"), 142, vec![1], true);
    assert!(matches!(first, Ok(SubmitOutcome::Verified(_))));

    // same bot again: abuse, rejected
    let again = r.submit_round(&s("bot1"), 142, vec![1], true);
    assert_eq!(again.unwrap_err(), ContractError::SubmissionExists);

    // different bot on a verified round: idempotent success, nothing released
    let in_flight_before = r.dispatcher.in_flight_jobs().len();
    let other = r.submit_round(&s("bot2"), 142, vec![1], true);
    assert!(matches!(other, Ok(SubmitOutcome::AlreadyVerified)));
    assert_eq!(r.dispatcher.in_flight_jobs().len(), in_flight_before);
    assert_eq!(r.count_unprocessed(), 0);

    // and that very bot now gets the duplicate rejection too
    let other_again = r.submit_round(&s("bot2"), 142, vec![1], true);
    assert_eq!(other_again.unwrap_err(), ContractError::SubmissionExists);
}

#[test]
fn later_round_first_does_not_disturb_earlier_round() {
    let mut r = ready_relay();
    request(&mut r, 150, "early-job").unwrap();
    request(&mut r, 160, "late-job").unwrap();

    let res = r.submit_round(&s("bot1"), 160, vec![60], true);
    match res.unwrap() {
        SubmitOutcome::Verified(msgs) => {
            assert_eq!(msgs.len(), 1);
            assert_eq!(msgs[0].job_id, s("late-job"));
        }
        SubmitOutcome::AlreadyVerified => panic!("round was fresh"),
    }
    assert_eq!(r.count_unprocessed(), 1);

    // the earlier round still verifies and releases exactly its own job
    let res = r.submit_round(&s("bot1"), 150, vec![50], true);
    match res.unwrap() {
        SubmitOutcome::Verified(msgs) => {
            assert_eq!(msgs.len(), 1);
            assert_eq!(msgs[0].job_id, s("early-job"));
            assert_eq!(msgs[0].randomness, vec![50]);
        }
        SubmitOutcome::AlreadyVerified => panic!("round was fresh"),
    }
    assert_eq!(r.count_unprocessed(), 0);
}

#[test]
fn count_always_matches_full_listing() {
    let mut r = ready_relay();
    assert_eq!(
        r.count_unprocessed(),
        r.list_unprocessed_jobs(None, None).len()
    );
    request(&mut r, 142, "a").unwrap();
    request(&mut r, 142, "b").unwrap();
    request(&mut r, 200, "c").unwrap();
    assert_eq!(
        r.count_unprocessed(),
        r.list_unprocessed_jobs(None, None).len()
    );
    r.submit_round(&s("bot1"), 142, vec![1], true).unwrap();
    assert_eq!(
        r.count_unprocessed(),
        r.list_unprocessed_jobs(None, None).len()
    );
}

#[test]
fn listing_paginates_and_restarts_from_cursor() {
    let mut r = ready_relay();
    request(&mut r, 300, "j300").unwrap();
    request(&mut r, 100, "j100").unwrap();
    request(&mut r, 200, "j200a").unwrap();
    request(&mut r, 200, "j200b").unwrap();

    // ascending by round, then insertion order
    let all = r.list_unprocessed_jobs(None, None);
    let ids: Vec<&str> = all.iter().map(|j| j.job_id.as_str()).collect();
    assert_eq!(ids, vec!["j100", "j200a", "j200b", "j300"]);

    let page1 = r.queue.list_unprocessed(None, Some(2));
    assert_eq!(page1.len(), 2);
    assert_eq!(page1[0].job.job_id, s("j100"));
    assert_eq!(page1[1].job.job_id, s("j200a"));

    let cursor = Some((page1[1].job.round, page1[1].seq));
    let page2 = r.queue.list_unprocessed(cursor, Some(10));
    assert_eq!(page2.len(), 2);
    assert_eq!(page2[0].job.job_id, s("j200b"));
    assert_eq!(page2[1].job.job_id, s("j300"));
}

#[test]
fn equal_pending_job_is_deduplicated() {
    let mut r = ready_relay();
    assert!(matches!(request(&mut r, 142, "same"), Ok(RequestOutcome::Queued)));
    assert!(matches!(request(&mut r, 142, "same"), Ok(RequestOutcome::Deduplicated)));
    assert_eq!(r.count_unprocessed(), 1);
    // the same id under another round is a different job
    assert!(matches!(request(&mut r, 143, "same"), Ok(RequestOutcome::Queued)));
    assert_eq!(r.count_unprocessed(), 2);
}

#[test]
fn request_for_verified_round_dispatches_immediately() {
    let mut r = ready_relay();
    let signature = vec![4, 4, 4];
    r.submit_round(&s("bot1"), 142, signature.clone(), true).unwrap();
    let res = request(&mut r, 142, "late-request");
    match res.unwrap() {
        RequestOutcome::Dispatched(msg) => {
            assert_eq!(msg.round, 142);
            assert_eq!(msg.randomness, signature);
            assert_eq!(msg.job_id, s("late-request"));
        }
        _ => panic!("expected immediate dispatch"),
    }
    assert_eq!(r.count_unprocessed(), 0);
    assert_eq!(r.dispatcher.in_flight_jobs().len(), 1);
}

#[test]
fn successful_dispatch_is_counted_exactly_once() {
    let mut r = ready_relay();
    request(&mut r, 142, "j1").unwrap();
    r.submit_round(&s("bot1"), 142, vec![1], true).unwrap();
    assert_eq!(r.stats.processed_jobs(), 0);

    let ack = r.on_dispatch_result(&s("j1"), DispatchOutcome::Success);
    assert_eq!(ack, AckResult::Completed);
    assert_eq!(r.stats.processed_jobs(), 1);
    assert!(r.dispatcher.in_flight_jobs().is_empty());

    // a duplicate acknowledgment of the at-least-once channel is a no-op
    let ack = r.on_dispatch_result(&s("j1"), DispatchOutcome::Success);
    assert_eq!(ack, AckResult::Unknown);
    assert_eq!(r.stats.processed_jobs(), 1);
}

#[test]
fn failed_dispatch_keeps_the_job_visible() {
    let mut r = ready_relay();
    request(&mut r, 142, "j1").unwrap();
    request(&mut r, 142, "j2").unwrap();
    r.submit_round(&s("bot1"), 142, vec![1], true).unwrap();

    let ack = r.on_dispatch_result(
        &s("j1"),
        DispatchOutcome::Failure(ContractError::ChannelError(s("timed out"))),
    );
    assert_eq!(ack, AckResult::MarkedFailed);
    // the job re-surfaces on the failed list, with its error, uncounted
    assert_eq!(r.stats.processed_jobs(), 0);
    let failed = r.dispatcher.failed_jobs();
    assert_eq!(failed.len(), 1);
    assert_eq!(failed[0].job.job_id, s("j1"));
    assert_eq!(failed[0].error, ContractError::ChannelError(s("timed out")));

    // the sibling delivery of the same round is unaffected
    let ack = r.on_dispatch_result(&s("j2"), DispatchOutcome::Success);
    assert_eq!(ack, AckResult::Completed);
    assert_eq!(r.stats.processed_jobs(), 1);
}

#[test]
fn request_log_is_append_only_and_iterable_both_ways() {
    let mut r = ready_relay();
    request(&mut r, 142, "one").unwrap();
    request(&mut r, 143, "two").unwrap();
    let long_id: String = "x".repeat(65);
    let _ = r.request_randomness(&s("alice"), 144, long_id, s("o"));

    let asc = r.stats.requests_asc();
    assert_eq!(asc.len(), 2);
    assert_eq!(asc[0].job_id, s("one"));
    assert_eq!(asc[1].job_id, s("two"));
    assert_eq!(asc[0].caller, s("alice"));
    assert_eq!(asc[0].round, 142);

    let desc = r.stats.requests_desc();
    assert_eq!(desc.len(), 2);
    assert_eq!(desc[0].job_id, s("two"));
    assert_eq!(desc[1].job_id, s("one"));
}

#[test]
fn full_verified_scenario_for_round_142() {
    // round 142's signature verifies against the configured key with the
    // preceding round's signature; the external check reports true and the
    // relay accepts and releases everything queued under 142, in order.
    let mut r = ready_relay();
    request(&mut r, 142, "q1").unwrap();
    request(&mut r, 142, "q2").unwrap();
    request(&mut r, 142, "q3").unwrap();
    let beacon = vec![0xaa; 96];
    let res = r.submit_round(&s("bot1"), 142, beacon.clone(), true);
    match res.unwrap() {
        SubmitOutcome::Verified(msgs) => {
            let ids: Vec<&str> = msgs.iter().map(|m| m.job_id.as_str()).collect();
            assert_eq!(ids, vec!["q1", "q2", "q3"]);
            assert!(msgs.iter().all(|m| m.randomness == beacon && m.round == 142));
        }
        SubmitOutcome::AlreadyVerified => panic!("round was fresh"),
    }
    assert_eq!(r.count_unprocessed(), 0);
}
