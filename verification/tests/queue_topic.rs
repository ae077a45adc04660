use hoprelay::queue::{MemQueue, MemQueueWorker, Queue, QueueMessage, QueueWorker};
use hoprelay::topic::{MemTopic, MemTopicWorker, Subscription, Topic, TopicSubscription, TopicWorker};

#[test]
fn queue_tdd() {
    let mut queue_worker = MemQueueWorker::new();
    let queue_address = "test";
    let _queue = queue_worker.get_queue(queue_address).unwrap();
    queue_worker.enqueue_to(queue_address, QueueMessage::new("A".as_bytes().to_vec()));
}

#[test]
fn topic_topic_tdd() {
    let queue_worker = MemQueueWorker::new();
    let mut topic_worker = MemTopicWorker::new(queue_worker);
    let sub = topic_worker.subscribe("test").unwrap();
    println!("{}", sub)
}

#[test]
fn queue_is_fifo() {
    let mut q = MemQueue::new("orders".to_string());
    assert_eq!(q.address(), "orders".to_string());
    q.enqueue(QueueMessage::new(vec![1]));
    q.enqueue(QueueMessage::new(vec![2]));
    q.enqueue(QueueMessage::new(vec![3]));
    assert_eq!(q.dequeue().unwrap().body, vec![1]);
    assert_eq!(q.dequeue().unwrap().body, vec![2]);
    assert_eq!(q.dequeue().unwrap().body, vec![3]);
    assert!(q.dequeue().is_none());
}

#[test]
fn worker_reuses_queue_per_address() {
    let mut w = MemQueueWorker::new();
    let a = w.get_queue("alpha").unwrap();
    let b = w.get_queue("alpha").unwrap();
    assert_eq!(a, b);
    let c = w.get_queue("beta").unwrap();
    assert_ne!(a, c);
}

#[test]
fn worker_enqueue_dequeue_by_address() {
    let mut w = MemQueueWorker::new();
    w.get_queue("box").unwrap();
    assert!(w.enqueue_to("box", QueueMessage::new(b"hello".to_vec())));
    assert!(!w.enqueue_to("missing", QueueMessage::new(b"lost".to_vec())));
    assert_eq!(w.dequeue_from("box").unwrap().body, b"hello".to_vec());
    assert!(w.dequeue_from("box").is_none());
}

#[test]
fn worker_remove_queue_drops_messages() {
    let mut w = MemQueueWorker::new();
    w.get_queue("tmp").unwrap();
    w.enqueue_to("tmp", QueueMessage::new(vec![9]));
    w.remove_queue("tmp");
    assert!(w.dequeue_from("tmp").is_none());
}

#[test]
fn topic_address_round_trip() {
    let t = MemTopic::new("news".to_string());
    assert_eq!(t.topic_address(), "news".to_string());
}

#[test]
fn subscription_accessors() {
    let s = TopicSubscription {
        topic: "news".to_string(),
        queue: "0_news".to_string(),
        subscriber_address: "0_news".to_string(),
    };
    assert_eq!(s.topic(), "news".to_string());
    assert_eq!(s.queue(), "0_news".to_string());
    assert_eq!(s.subscriber_address(), "0_news".to_string());
}

#[test]
fn subscriber_addresses_count_up() {
    let mut tw = MemTopicWorker::new(MemQueueWorker::new());
    assert_eq!(tw.subscribe("test").unwrap(), "0_test".to_string());
    assert_eq!(tw.subscribe("test").unwrap(), "1_test".to_string());
    assert_eq!(tw.subscribe("other").unwrap(), "2_other".to_string());
}

#[test]
fn publish_reaches_matching_subscribers_only() {
    let mut tw = MemTopicWorker::new(MemQueueWorker::new());
    let sub_a = tw.subscribe("alpha").unwrap();
    let sub_b = tw.subscribe("beta").unwrap();
    tw.publish("alpha", QueueMessage::new(b"ping".to_vec()));
    let got_a = tw.poll(sub_a.as_str());
    assert_eq!(got_a.len(), 1);
    assert_eq!(got_a[0].body, b"ping".to_vec());
    assert!(tw.poll(sub_b.as_str()).is_empty());
    // drained: a second poll finds nothing
    assert!(tw.poll(sub_a.as_str()).is_empty());
}

#[test]
fn publish_after_unsubscribe_is_not_delivered() {
    let mut tw = MemTopicWorker::new(MemQueueWorker::new());
    let sub = tw.subscribe("alpha").unwrap();
    tw.unsubscribe(sub.as_str());
    tw.publish("alpha", QueueMessage::new(b"late".to_vec()));
    assert!(tw.poll(sub.as_str()).is_empty());
}
