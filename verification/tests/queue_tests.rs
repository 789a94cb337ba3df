use serde_json::Value;
use workqueue::{ProcessFlow, Queue, QueueError, Resolution, Status};

fn json(s: &str) -> Value {
    serde_json::from_str(s).unwrap()
}

#[test]
fn enqueue_ids_strictly_increase() {
    let mut q = Queue::new();
    let a = q.enqueue(json("{\"a\":1}"));
    let b = q.enqueue(json("{\"a\":2}"));
    let c = q.enqueue(json("null"));
    assert_eq!(a, 1);
    assert_eq!(b, 2);
    assert_eq!(c, 3);
    assert!(a < b && b < c);
    assert_eq!(q.len(), 3);
}

#[test]
fn process_serves_in_ascending_id_order() {
    let mut q = Queue::new();
    q.enqueue(json("{\"first\":true}"));
    q.enqueue(json("{\"first\":false}"));
    let mut seen: Vec<Value> = Vec::new();
    let r1 = q.process(|v| {
        seen.push(v);
        Ok(ProcessFlow::Success)
    });
    assert!(r1.is_ok());
    let r2 = q.process(|v| {
        seen.push(v);
        Ok(ProcessFlow::Success)
    });
    assert!(r2.is_ok());
    assert_eq!(seen.len(), 2);
    assert_eq!(seen[0], json("{\"first\":true}"));
    assert_eq!(seen[1], json("{\"first\":false}"));
    assert_eq!(q.status_of(1), Some(Status::Done));
    assert_eq!(q.status_of(2), Some(Status::Done));
}

#[test]
fn empty_queue_fails_immediately() {
    let mut q = Queue::new();
    let r = q.process(|_v| Ok(ProcessFlow::Success));
    assert_eq!(r, Err(QueueError::EmptyQueue));
    assert_eq!(q.len(), 0);
}

#[test]
fn queue_with_only_settled_or_claimed_rows_is_empty() {
    let mut q = Queue::new();
    q.enqueue(json("1"));
    q.enqueue(json("2"));
    q.enqueue(json("3"));
    let r1 = q.process(|_v| Ok(ProcessFlow::Success));
    assert!(r1.is_ok());
    let r2 = q.process(|_v| Ok(ProcessFlow::Fail(String::from("no"))));
    assert!(r2.is_ok());
    let claimed = q.claim().unwrap();
    assert_eq!(claimed.0, 3);
    assert_eq!(q.status_of(1), Some(Status::Done));
    assert_eq!(q.status_of(2), Some(Status::Failed));
    assert_eq!(q.status_of(3), Some(Status::InProgress));
    let r3 = q.process(|_v| Ok(ProcessFlow::Success));
    assert_eq!(r3, Err(QueueError::EmptyQueue));
}

#[test]
fn concurrent_claims_take_distinct_rows() {
    let mut q = Queue::new();
    q.enqueue(json("{\"w\":1}"));
    q.enqueue(json("{\"w\":2}"));
    let first = q.claim().unwrap();
    let second = q.claim().unwrap();
    assert_ne!(first.0, second.0);
    assert_eq!(first.0, 1);
    assert_eq!(second.0, 2);
    assert_eq!(first.1, json("{\"w\":1}"));
    assert_eq!(second.1, json("{\"w\":2}"));
    let third = q.claim();
    assert_eq!(third, Err(QueueError::EmptyQueue));
    q.settle(first.0, ProcessFlow::Success);
    q.settle(second.0, ProcessFlow::Success);
    assert_eq!(q.status_of(1), Some(Status::Done));
    assert_eq!(q.status_of(2), Some(Status::Done));
}

#[test]
fn fail_records_error_and_row_is_not_reclaimed() {
    let mut q = Queue::new();
    q.enqueue(json("{\"job\":1}"));
    q.enqueue(json("{\"job\":2}"));
    let r = q.process(|_v| Ok(ProcessFlow::Fail(String::from("boom"))));
    assert_eq!(r, Ok(()));
    assert_eq!(q.status_of(1), Some(Status::Failed));
    assert_eq!(q.error_of(1), Some(&String::from("boom")));
    let next = q.claim().unwrap();
    assert_eq!(next.0, 2);
    assert_eq!(q.status_of(1), Some(Status::Failed));
}

#[test]
fn requeue_leaves_row_ready_and_reclaimable() {
    let mut q = Queue::new();
    q.enqueue(json("{\"job\":1}"));
    let r = q.process(|_v| Ok(ProcessFlow::Requeue));
    assert_eq!(r, Ok(()));
    assert_eq!(q.status_of(1), Some(Status::Ready));
    assert_eq!(q.error_of(1), None);
    let again = q.claim().unwrap();
    assert_eq!(again.0, 1);
}

#[test]
fn handler_error_propagates_and_leaves_row_ready() {
    let mut q = Queue::new();
    q.enqueue(json("{\"job\":1}"));
    let r = q.process(|_v| Err(()));
    assert_eq!(r, Err(QueueError::Handler));
    assert_eq!(q.status_of(1), Some(Status::Ready));
    let again = q.claim().unwrap();
    assert_eq!(again.0, 1);
}

#[test]
fn concrete_scenario_two_items_then_empty() {
    let mut q = Queue::new();
    let id1 = q.enqueue(json("{\"a\":1}"));
    assert_eq!(id1, 1);
    let id2 = q.enqueue(json("{\"a\":2}"));
    assert_eq!(id2, 2);
    let mut seen: Vec<Value> = Vec::new();
    let r1 = q.process(|v| {
        seen.push(v);
        Ok(ProcessFlow::Success)
    });
    assert_eq!(r1, Ok(()));
    assert_eq!(seen[0], json("{\"a\":1}"));
    assert_eq!(q.status_of(1), Some(Status::Done));
    let r2 = q.process(|v| {
        seen.push(v);
        Ok(ProcessFlow::Success)
    });
    assert_eq!(r2, Ok(()));
    assert_eq!(seen[1], json("{\"a\":2}"));
    assert_eq!(q.status_of(2), Some(Status::Done));
    let r3 = q.process(|_v| Ok(ProcessFlow::Success));
    assert_eq!(r3, Err(QueueError::EmptyQueue));
}

#[test]
fn payload_is_stored_unchanged() {
    let mut q = Queue::new();
    let v = json("{\"nested\":{\"k\":[1,2,3]},\"s\":\"text\"}");
    let id = q.enqueue(v.clone());
    assert_eq!(q.payload_of(id), Some(v));
    assert_eq!(q.payload_of(99), None);
    assert_eq!(q.status_of(99), None);
}

#[test]
fn settle_with_requeue_rolls_the_claim_back() {
    let mut q = Queue::new();
    q.enqueue(json("{\"job\":1}"));
    let claimed = q.claim().unwrap();
    assert_eq!(q.status_of(1), Some(Status::InProgress));
    q.settle(claimed.0, ProcessFlow::Requeue);
    assert_eq!(q.status_of(1), Some(Status::Ready));
    assert_eq!(q.error_of(1), None);
    let again = q.claim().unwrap();
    assert_eq!(again.0, 1);
    assert_eq!(again.1, json("{\"job\":1}"));
}

#[test]
fn settle_with_fail_keeps_message_of_each_row() {
    let mut q = Queue::new();
    q.enqueue(json("1"));
    q.enqueue(json("2"));
    let first = q.claim().unwrap();
    let second = q.claim().unwrap();
    q.settle(second.0, ProcessFlow::Fail(String::from("later")));
    q.settle(first.0, ProcessFlow::Fail(String::from("sooner")));
    assert_eq!(q.error_of(1), Some(&String::from("sooner")));
    assert_eq!(q.error_of(2), Some(&String::from("later")));
    assert_eq!(q.status_of(1), Some(Status::Failed));
    assert_eq!(q.status_of(2), Some(Status::Failed));
}

#[test]
fn status_codes_round_trip() {
    let all = [Status::Ready, Status::InProgress, Status::Done, Status::Failed];
    for s in all {
        let c = workqueue::status_to_code(s);
        assert_eq!(workqueue::status_from_code(c), Some(s));
    }
    assert_eq!(workqueue::status_to_code(Status::Ready), 0);
    assert_eq!(workqueue::status_to_code(Status::InProgress), 1);
    assert_eq!(workqueue::status_to_code(Status::Done), 2);
    assert_eq!(workqueue::status_to_code(Status::Failed), 3);
    assert_eq!(workqueue::status_from_code(4), None);
    assert_eq!(workqueue::status_from_code(255), None);
}

#[test]
fn error_messages_describe_each_variant() {
    assert_eq!(QueueError::EmptyQueue.message(), "no ready item in the queue");
    assert_eq!(
        QueueError::Handler.message(),
        "the handler failed to process the item"
    );
    assert_eq!(
        QueueError::Serialization(String::from("bad payload")).message(),
        "bad payload"
    );
    assert_eq!(
        QueueError::Store(String::from("connection lost")).message(),
        "connection lost"
    );
}

#[test]
fn resolution_follows_the_outcome_table() {
    assert_eq!(
        workqueue::resolution_of(Ok(ProcessFlow::Success)),
        Resolution::Settle(Status::Done, None)
    );
    assert_eq!(
        workqueue::resolution_of(Ok(ProcessFlow::Fail(String::from("boom")))),
        Resolution::Settle(Status::Failed, Some(String::from("boom")))
    );
    assert_eq!(workqueue::resolution_of(Ok(ProcessFlow::Requeue)), Resolution::Abandon);
    assert_eq!(workqueue::resolution_of(Err(())), Resolution::Abandon);
}
