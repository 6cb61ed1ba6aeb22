use scuttled::events::{DeliveryMode, Event, EventKind, SubscriptionId, SubscriptionType, Subscriptions};
use scuttled::queue::{InMemoryQueue, QueueTask};
use scuttled::types::TaskType;

#[test]
fn event_kinds() {
    let e = Event::MailboxCreated { username: "alice".to_string(), mailbox: "INBOX".to_string() };
    assert_eq!(e.kind(), EventKind::MailboxCreated);
    let e = Event::MessageDeleted {
        username: "a".to_string(),
        mailbox: "b".to_string(),
        unique_id: "c".to_string(),
    };
    assert_eq!(e.kind(), EventKind::MessageDeleted);
}

#[test]
fn test_event_filtering() {
    let mut subs = Subscriptions::new();
    let id = subs.subscribe(vec![EventKind::MailboxCreated], SubscriptionType::Async);
    assert!(subs.deliveries(EventKind::MessageCreated, false).is_empty());
    let d = subs.deliveries(EventKind::MailboxCreated, false);
    assert_eq!(d, vec![(id, DeliveryMode::Async)]);
}

#[test]
fn test_multiple_subscribers() {
    let mut subs = Subscriptions::new();
    subs.subscribe_as(SubscriptionId(1), vec![EventKind::MessageCreated], SubscriptionType::Async);
    subs.subscribe_as(SubscriptionId(2), vec![EventKind::MessageCreated], SubscriptionType::Async);
    let d = subs.deliveries(EventKind::MessageCreated, false);
    assert_eq!(d, vec![(SubscriptionId(1), DeliveryMode::Async), (SubscriptionId(2), DeliveryMode::Async)]);
}

#[test]
fn test_mixed_sync_and_async_subscribers() {
    let mut subs = Subscriptions::new();
    subs.subscribe_as(SubscriptionId(1), vec![EventKind::MailboxCreated], SubscriptionType::Sync);
    subs.subscribe_as(SubscriptionId(2), vec![EventKind::MailboxCreated], SubscriptionType::Async);
    let sync = subs.deliveries(EventKind::MailboxCreated, true);
    assert_eq!(sync, vec![(SubscriptionId(1), DeliveryMode::Sync), (SubscriptionId(2), DeliveryMode::Async)]);
    let plain = subs.deliveries(EventKind::MailboxCreated, false);
    assert_eq!(plain, vec![(SubscriptionId(1), DeliveryMode::Async), (SubscriptionId(2), DeliveryMode::Async)]);
    subs.unsubscribe(SubscriptionId(1));
    assert_eq!(subs.deliveries(EventKind::MailboxCreated, true), vec![(SubscriptionId(2), DeliveryMode::Async)]);
}

fn task(kind: TaskType) -> QueueTask {
    QueueTask::new(kind, serde_json::Value::Null)
}

#[test]
fn inmemory_queue_test_enqueue_and_dequeue() {
    let mut queue = InMemoryQueue::new();
    let t = task(TaskType::UidCompaction);
    let id = t.id;
    queue.enqueue(t);
    let dequeued = queue.dequeue();
    assert!(dequeued.is_some());
    assert_eq!(dequeued.unwrap().id, id);
}

#[test]
fn inmemory_queue_test_fifo_order() {
    let mut queue = InMemoryQueue::new();
    let a = task(TaskType::UidCompaction);
    let b = task(TaskType::IndexUpdate);
    let c = task(TaskType::Expunge);
    let ids = vec![a.id, b.id, c.id];
    queue.enqueue(a);
    queue.enqueue(b);
    queue.enqueue(c);
    assert_eq!(queue.peek().unwrap().id, ids[0]);
    assert_eq!(queue.len(), 3);
    let mut out = Vec::new();
    while let Some(t) = queue.dequeue() {
        out.push(t.id);
    }
    assert_eq!(out, ids);
    assert!(queue.is_empty());
}

#[test]
fn inmemory_queue_test_remove() {
    let mut queue = InMemoryQueue::new();
    let a = task(TaskType::UidCompaction);
    let b = task(TaskType::Custom("x".to_string()));
    let (ida, idb) = (a.id, b.id);
    queue.enqueue(a);
    queue.enqueue(b);
    assert!(queue.remove(ida));
    assert!(!queue.remove(ida));
    assert_eq!(queue.len(), 1);
    assert_eq!(queue.peek().unwrap().id, idb);
    queue.clear();
    assert!(queue.is_empty());
    assert!(queue.dequeue().is_none());
}
