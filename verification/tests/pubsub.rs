use hoprelay::pubsub::{
    LocalTopicManager, MemTopic, Subscription, Topic, TopicCreator, TopicManager, TopicMessage,
};

#[test]
fn lib_topic_tdd() {
    let mut topic_manager = LocalTopicManager::new();

    topic_manager.create_topic("topic1".to_string());
    topic_manager.create_topic("topic2".to_string());

    let subscription1 = topic_manager.subscribe("topic1".to_string()).unwrap();
    let subscription2 = topic_manager.subscribe("topic2".to_string()).unwrap();

    let handler1 =
        |message: &TopicMessage| println!("Handler 1: Message contains {} bytes", message.body.len());
    let handler2 = |message: &TopicMessage| println!("Handler 2: Bytes {:?} ", message.body);

    let body = [1, 2, 3];

    let message = TopicMessage { body: &(body) };

    for id in topic_manager.publish("topic1".to_string(), message) {
        if id == subscription1.id() {
            handler1(&message);
        }
    }
    for id in topic_manager.publish("topic2".to_string(), message) {
        if id == subscription2.id() {
            handler2(&message);
        }
    }

    topic_manager.unsubscribe(subscription1);
    topic_manager.unsubscribe(subscription2);
}

#[test]
fn topic_name_round_trip() {
    let t = MemTopic::new("weather".to_string());
    assert_eq!(t.name(), "weather".to_string());
}

#[test]
fn get_topic_tracks_created_topics() {
    let mut m = LocalTopicManager::new();
    assert!(m.get_topic("a".to_string()).is_none());
    m.create_topic("a".to_string());
    let t = m.get_topic("a".to_string()).unwrap();
    assert_eq!(t.topic_name, "a".to_string());
    assert!(m.get_topic("b".to_string()).is_none());
}

#[test]
fn subscribe_requires_existing_topic() {
    let mut m = LocalTopicManager::new();
    assert!(m.subscribe("ghost".to_string()).is_none());
    m.create_topic("real".to_string());
    let s = m.subscribe("real".to_string()).unwrap();
    assert_eq!(s.topic(), "real".to_string());
    assert_eq!(s.id(), 0);
}

#[test]
fn publish_returns_matching_ids_in_order() {
    let mut m = LocalTopicManager::new();
    m.create_topic("a".to_string());
    m.create_topic("b".to_string());
    let s0 = m.subscribe("a".to_string()).unwrap();
    let s1 = m.subscribe("b".to_string()).unwrap();
    let s2 = m.subscribe("a".to_string()).unwrap();
    let body = [42u8];
    let ids = m.publish("a".to_string(), TopicMessage { body: &body });
    assert_eq!(ids, vec![s0.id(), s2.id()]);
    let ids_b = m.publish("b".to_string(), TopicMessage { body: &body });
    assert_eq!(ids_b, vec![s1.id()]);
    let ids_c = m.publish("c".to_string(), TopicMessage { body: &body });
    assert!(ids_c.is_empty());
}

#[test]
fn unsubscribe_drops_only_that_id() {
    let mut m = LocalTopicManager::new();
    m.create_topic("a".to_string());
    let s0 = m.subscribe("a".to_string()).unwrap();
    let s1 = m.subscribe("a".to_string()).unwrap();
    let keep = s1.id();
    m.unsubscribe(s0);
    let body = [0u8];
    let ids = m.publish("a".to_string(), TopicMessage { body: &body });
    assert_eq!(ids, vec![keep]);
}
