use chat_sync::bus::EventBus;

#[test]
fn subscriber_sees_every_publish_in_order_exactly_once() {
    let mut bus = EventBus::new();
    let mut sub = bus.subscribe();
    bus.publish(b"one".to_vec());
    bus.publish(b"two".to_vec());
    let got = bus.poll(&mut sub);
    assert_eq!(got, vec![b"one".to_vec(), b"two".to_vec()]);
    let again = bus.poll(&mut sub);
    assert!(again.is_empty());
}

#[test]
fn independent_subscribers_each_get_every_publish() {
    let mut bus = EventBus::new();
    let mut first = bus.subscribe();
    let mut second = bus.subscribe();
    bus.publish(b"hello".to_vec());
    assert_eq!(bus.poll(&mut first), vec![b"hello".to_vec()]);
    assert_eq!(bus.poll(&mut second), vec![b"hello".to_vec()]);
}

#[test]
fn late_subscriber_sees_only_later_publishes() {
    let mut bus = EventBus::new();
    bus.publish(b"early".to_vec());
    let mut sub = bus.subscribe();
    bus.publish(b"late".to_vec());
    assert_eq!(bus.poll(&mut sub), vec![b"late".to_vec()]);
}

#[test]
fn polls_partition_the_stream() {
    let mut bus = EventBus::new();
    let mut sub = bus.subscribe();
    bus.publish(b"a".to_vec());
    assert_eq!(bus.poll(&mut sub), vec![b"a".to_vec()]);
    bus.publish(b"b".to_vec());
    bus.publish(b"c".to_vec());
    assert_eq!(bus.poll(&mut sub), vec![b"b".to_vec(), b"c".to_vec()]);
}
