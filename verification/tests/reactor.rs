use std::sync::mpsc::{channel, Receiver, Sender, TryRecvError};

use jsonrpc_core::{
    Delivery, Id, PendingRequest, PendingTable, RequestIds, Response, RpcError, Value,
};

type Reply = Result<Value, RpcError>;

fn waiter(id: i64, moment: u128, timeout: Option<u128>) -> (PendingRequest<Sender<Reply>>, Receiver<Reply>) {
    let (sender, receiver) = channel();
    (PendingRequest { id: Id::Number(id), sender, moment, timeout }, receiver)
}

fn deliver(deliveries: Vec<Delivery<Sender<Reply>>>) {
    for delivery in deliveries {
        delivery.sender.send(delivery.reply).ok();
    }
}

fn timeout_failure() -> Reply {
    Err(RpcError { code: -1, message: "response timeout".to_string(), data: Value::Null })
}

#[test]
fn table_starts_empty() {
    let table: PendingTable<u8> = PendingTable::new(4);
    assert_eq!(table.len(), 0);
    assert!(table.is_empty());
    assert_eq!(table.capacity(), 4);
    assert!(!table.over_capacity());
    assert!(!table.contains(&Id::Number(0)));
}

#[test]
fn insert_enters_under_the_key() {
    let mut table: PendingTable<u8> = PendingTable::new(4);
    let displaced =
        table.insert(PendingRequest { id: Id::Number(1), sender: 10, moment: 0, timeout: None });
    assert!(displaced.is_none());
    table.insert(PendingRequest {
        id: Id::String("1".to_string()),
        sender: 11,
        moment: 0,
        timeout: None,
    });
    assert_eq!(table.len(), 2);
    assert!(table.contains(&Id::Number(1)));
    assert!(table.contains(&Id::String("1".to_string())));
    assert!(!table.contains(&Id::Number(2)));
    assert_eq!(table.capacity(), 4);
}

#[test]
fn insert_under_a_taken_key_displaces() {
    let mut table: PendingTable<u8> = PendingTable::new(4);
    table.insert(PendingRequest { id: Id::Number(1), sender: 10, moment: 3, timeout: Some(9) });
    table.insert(PendingRequest { id: Id::Number(2), sender: 20, moment: 0, timeout: None });
    let displaced = table
        .insert(PendingRequest { id: Id::Number(1), sender: 11, moment: 5, timeout: None })
        .unwrap();
    assert_eq!(displaced.id, Id::Number(1));
    assert_eq!(displaced.sender, 10);
    assert_eq!(displaced.moment, 3);
    assert_eq!(displaced.timeout, Some(9));
    assert_eq!(table.len(), 2);
    let now = table.remove(&Id::Number(1)).unwrap();
    assert_eq!(now.sender, 11);
    assert_eq!(table.remove(&Id::Number(2)).unwrap().sender, 20);
}

#[test]
fn remove_takes_only_its_key() {
    let mut table: PendingTable<u8> = PendingTable::new(4);
    for id in 0..5 {
        table.insert(PendingRequest { id: Id::Number(id), sender: id as u8, moment: 0, timeout: None });
    }
    let removed = table.remove(&Id::Number(2)).unwrap();
    assert_eq!(removed.sender, 2);
    assert_eq!(table.len(), 4);
    assert!(!table.contains(&Id::Number(2)));
    for id in [0, 1, 3, 4] {
        assert!(table.contains(&Id::Number(id)));
    }
    assert!(table.remove(&Id::Number(2)).is_none());
    assert_eq!(table.len(), 4);
}

#[test]
fn response_resolves_only_its_waiter() {
    let mut table = PendingTable::new(8);
    let (first, first_reply) = waiter(1, 0, None);
    let (second, second_reply) = waiter(2, 0, None);
    table.insert(first);
    table.insert(second);

    let response = Response { id: Id::Number(2), result: Ok(Value::from("done")) };
    let delivery = table.fulfill(response).unwrap();
    assert_eq!(delivery.id, Id::Number(2));
    deliver(vec![delivery]);

    assert_eq!(second_reply.try_recv(), Ok(Ok(Value::from("done"))));
    assert_eq!(first_reply.try_recv(), Err(TryRecvError::Empty));
    assert!(table.contains(&Id::Number(1)));
    assert!(!table.contains(&Id::Number(2)));
    assert_eq!(table.len(), 1);
}

#[test]
fn response_carries_a_failure_through() {
    let mut table = PendingTable::new(8);
    let (pending, reply) = waiter(7, 0, Some(5));
    table.insert(pending);
    let failure = RpcError { code: -32000, message: "remote".to_string(), data: Value::from(1) };
    deliver(table.fulfill(Response { id: Id::Number(7), result: Err(failure.clone()) }).into_iter().collect());
    assert_eq!(reply.try_recv(), Ok(Err(failure)));
    assert!(table.is_empty());
}

#[test]
fn response_without_waiter_is_dropped() {
    let mut table = PendingTable::new(8);
    let (pending, reply) = waiter(1, 0, None);
    table.insert(pending);
    assert!(table.fulfill(Response { id: Id::Number(9), result: Ok(Value::Null) }).is_none());
    assert!(table
        .fulfill(Response { id: Id::String("1".to_string()), result: Ok(Value::Null) })
        .is_none());
    assert_eq!(table.len(), 1);
    assert_eq!(reply.try_recv(), Err(TryRecvError::Empty));
}

#[test]
fn second_response_for_a_key_finds_no_waiter() {
    let mut table = PendingTable::new(8);
    let (pending, reply) = waiter(1, 0, None);
    table.insert(pending);
    deliver(table.fulfill(Response { id: Id::Number(1), result: Ok(Value::from(1)) }).into_iter().collect());
    assert!(table.fulfill(Response { id: Id::Number(1), result: Ok(Value::from(2)) }).is_none());
    assert_eq!(reply.try_recv(), Ok(Ok(Value::from(1))));
    assert_eq!(reply.try_recv(), Err(TryRecvError::Disconnected));
}

#[test]
fn expiry_is_strictly_after_the_bound() {
    let pending = PendingRequest { id: Id::Number(1), sender: 0u8, moment: 100, timeout: Some(10) };
    assert!(!pending.is_expired(100));
    assert!(!pending.is_expired(110));
    assert!(pending.is_expired(111));
    assert!(pending.is_expired(u128::MAX));
}

#[test]
fn expiry_counts_no_time_before_registration() {
    let pending = PendingRequest { id: Id::Number(1), sender: 0u8, moment: 100, timeout: Some(0) };
    assert!(!pending.is_expired(0));
    assert!(!pending.is_expired(100));
    assert!(pending.is_expired(101));
}

#[test]
fn request_without_bound_never_expires() {
    let pending = PendingRequest { id: Id::Number(1), sender: 0u8, moment: 0, timeout: None };
    assert!(!pending.is_expired(u128::MAX));
}

#[test]
fn sweep_answers_the_expired_with_the_timeout_failure() {
    let mut table = PendingTable::new(1);
    let (first, first_reply) = waiter(1, 0, Some(10));
    let (second, second_reply) = waiter(2, 0, Some(20));
    let (third, third_reply) = waiter(3, 1_000, Some(10));

    let (displaced, expired) = table.register(first, 0);
    assert!(displaced.is_none());
    assert!(expired.is_empty());
    // Two requests in a table meant for one: a sweep is made, nothing has expired yet.
    let (_, expired) = table.register(second, 5);
    assert!(expired.is_empty());
    assert_eq!(table.len(), 2);

    let (_, expired) = table.register(third, 1_000);
    assert_eq!(expired.len(), 2);
    deliver(expired);

    assert_eq!(first_reply.try_recv(), Ok(timeout_failure()));
    assert_eq!(second_reply.try_recv(), Ok(timeout_failure()));
    assert_eq!(third_reply.try_recv(), Err(TryRecvError::Empty));
    assert!(!table.contains(&Id::Number(1)));
    assert!(!table.contains(&Id::Number(2)));
    assert!(table.contains(&Id::Number(3)));
    assert_eq!(table.len(), 1);
}

#[test]
fn register_does_not_sweep_within_capacity() {
    let mut table = PendingTable::new(2);
    let (first, first_reply) = waiter(1, 0, Some(1));
    let (second, second_reply) = waiter(2, 0, Some(1));
    table.register(first, 0);
    let (_, expired) = table.register(second, 1_000_000);
    assert!(expired.is_empty());
    assert_eq!(table.len(), 2);
    assert_eq!(first_reply.try_recv(), Err(TryRecvError::Empty));
    assert_eq!(second_reply.try_recv(), Err(TryRecvError::Empty));
}

#[test]
fn register_sweeps_the_new_request_too() {
    let mut table = PendingTable::new(0);
    let (pending, reply) = waiter(1, 0, Some(10));
    let (_, expired) = table.register(pending, 11);
    assert_eq!(expired.len(), 1);
    deliver(expired);
    assert_eq!(reply.try_recv(), Ok(timeout_failure()));
    assert!(table.is_empty());
}

#[test]
fn register_hands_back_the_displaced_request() {
    let mut table = PendingTable::new(8);
    let (first, first_reply) = waiter(1, 0, None);
    let (again, again_reply) = waiter(1, 5, None);
    table.register(first, 0);
    let (displaced, expired) = table.register(again, 5);
    assert!(expired.is_empty());
    drop(displaced.unwrap());
    assert_eq!(first_reply.try_recv(), Err(TryRecvError::Disconnected));
    assert_eq!(table.len(), 1);
    deliver(table.fulfill(Response { id: Id::Number(1), result: Ok(Value::Null) }).into_iter().collect());
    assert_eq!(again_reply.try_recv(), Ok(Ok(Value::Null)));
}

#[test]
fn sweep_leaves_requests_without_bound() {
    let mut table = PendingTable::new(0);
    let (unbounded, unbounded_reply) = waiter(1, 0, None);
    let (bounded, bounded_reply) = waiter(2, 0, Some(1));
    table.insert(unbounded);
    table.insert(bounded);
    let expired = table.sweep(u128::MAX);
    assert_eq!(expired.len(), 1);
    assert_eq!(expired[0].id, Id::Number(2));
    deliver(expired);
    assert_eq!(bounded_reply.try_recv(), Ok(timeout_failure()));
    assert_eq!(unbounded_reply.try_recv(), Err(TryRecvError::Empty));
    assert!(table.contains(&Id::Number(1)));
    assert_eq!(table.len(), 1);
    assert_eq!(table.capacity(), 0);
}

#[test]
fn sweep_of_an_empty_table_does_nothing() {
    let mut table: PendingTable<u8> = PendingTable::new(0);
    assert!(table.sweep(10).is_empty());
    assert!(table.is_empty());
}

#[test]
fn over_capacity_is_strict() {
    let mut table: PendingTable<u8> = PendingTable::new(1);
    table.insert(PendingRequest { id: Id::Number(1), sender: 0, moment: 0, timeout: None });
    assert!(!table.over_capacity());
    table.insert(PendingRequest { id: Id::Number(2), sender: 0, moment: 0, timeout: None });
    assert!(table.over_capacity());
}

#[test]
fn request_ids_count_from_zero() {
    let mut ids = RequestIds::new();
    assert_eq!(ids.take(), Id::Number(0));
    assert_eq!(ids.take(), Id::Number(1));
    assert_eq!(ids.take(), Id::Number(2));
}

#[test]
fn request_ids_wrap_around() {
    let mut ids = RequestIds::starting_at(i64::MAX);
    assert_eq!(ids.take(), Id::Number(i64::MAX));
    assert_eq!(ids.take(), Id::Number(i64::MIN));
    assert_eq!(ids.take(), Id::Number(i64::MIN + 1));
}
