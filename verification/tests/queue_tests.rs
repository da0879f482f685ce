use nois_relay::errors::ContractError;
use nois_relay::jobs::Job;
use nois_relay::jobs::JobQueue;

fn s(x: &str) -> String {
    String::from(x)
}

fn job(id: &str, round: u64) -> Job {
    Job { job_id: s(id), round, origin: s("org") }
}

#[test]
fn enqueue_dequeue_keeps_arrival_order_per_round() {
    let mut q = JobQueue::new(64);
    assert_eq!(q.enqueue(job("a", 5)), Ok(true));
    assert_eq!(q.enqueue(job("b", 7)), Ok(true));
    assert_eq!(q.enqueue(job("c", 5)), Ok(true));
    assert_eq!(q.enqueue(job("d", 5)), Ok(true));
    assert_eq!(q.count_unprocessed(), 4);

    let five = q.dequeue(5);
    let ids: Vec<&str> = five.iter().map(|j| j.job_id.as_str()).collect();
    assert_eq!(ids, vec!["a", "c", "d"]);
    assert_eq!(q.count_unprocessed(), 1);

    // a round with nothing pending yields the empty sequence, not an error
    assert!(q.dequeue(5).is_empty());
    assert!(q.dequeue(999).is_empty());

    let seven = q.dequeue(7);
    assert_eq!(seven.len(), 1);
    assert_eq!(seven[0].job_id, s("b"));
    assert_eq!(q.count_unprocessed(), 0);
}

#[test]
fn enqueue_rejects_oversized_id_and_deduplicates() {
    let mut q = JobQueue::new(3);
    assert_eq!(
        q.enqueue(job("long", 5)),
        Err(ContractError::JobIdTooLong)
    );
    assert_eq!(q.count_unprocessed(), 0);
    assert_eq!(q.enqueue(job("ok", 5)), Ok(true));
    assert_eq!(q.enqueue(job("ok", 5)), Ok(false));
    assert_eq!(q.count_unprocessed(), 1);
}

#[test]
fn listing_limits_and_empty_pages() {
    let mut q = JobQueue::new(64);
    assert!(q.list_unprocessed(None, None).is_empty());
    q.enqueue(job("a", 1)).unwrap();
    q.enqueue(job("b", 2)).unwrap();
    q.enqueue(job("c", 3)).unwrap();

    assert!(q.list_unprocessed(None, Some(0)).is_empty());
    assert_eq!(q.list_unprocessed(None, Some(10)).len(), 3);
    let page = q.list_unprocessed(None, Some(2));
    assert_eq!(page.len(), 2);
    assert_eq!(page[0].job.job_id, s("a"));
    assert_eq!(page[1].job.job_id, s("b"));

    // a cursor past everything yields the empty page
    let last = &q.list_unprocessed(None, None)[2];
    let rest = q.list_unprocessed(Some((last.job.round, last.seq)), None);
    assert!(rest.is_empty());
}
