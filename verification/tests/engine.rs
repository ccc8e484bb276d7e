use bytes::Bytes;
use mqtt_core::msg_assurance::sender::{
    AtLeastOnceList, AtLeastOncePacket, ExactlyOnceList, ExactlyOncePacket, QoS2Stage,
};
use mqtt_core::msg_assurance::{ExponentialBackoff, QoS1Stage, RetryDuration, RETRY_BASE, RETRY_MAX};
use mqtt_core::qos::QosLevel;
use mqtt_core::topic::TopicName;
use mqtt_core::v4::{MqttPacket, PubRelPacket, PublishPacket};

fn message(qos: QosLevel, id: Option<u16>) -> PublishPacket {
    let mut packet = PublishPacket::new(&TopicName::from_str("t").unwrap(), Bytes::from_static(b"m"));
    match (qos, id) {
        (QosLevel::AtLeastOnce, Some(id)) => packet.set_qos_atleastonce(id),
        (QosLevel::ExactlyOnce, Some(id)) => packet.set_qos_exactlyonce(id),
        _ => {}
    }
    packet
}

#[test]
fn backoff_doubles_up_to_the_longest_interval() {
    let mut interval = RetryDuration::default();
    assert_eq!(interval.inner(), 200);
    assert_eq!(RETRY_BASE, 200);
    assert_eq!(interval.exponential(), 400);
    interval.set_duration(400);
    assert_eq!(interval.exponential(), 800);
    interval.set_duration(u64::MAX / 2 + 1);
    assert_eq!(interval.exponential(), RETRY_MAX);
    interval.set_duration(u64::MAX);
    assert_eq!(interval.exponential(), u64::MAX);
}

#[test]
fn qos1_entry_life() {
    let mut entry = AtLeastOncePacket::origin(message(QosLevel::AtLeastOnce, Some(7)), 2, 1_000);
    assert_eq!(entry.stage(), QoS1Stage::Origin);
    assert_eq!(entry.id(), 2);
    assert!(!entry.should_retry(1_200));
    assert!(entry.should_retry(1_201));
    assert!(!entry.should_retry(500));
    match entry.get_retry_packet() {
        Some(MqttPacket::Publish(p)) => {
            assert!(p.dup());
            assert_eq!(p.id(), Some(2));
            assert_eq!(p.qos(), QosLevel::AtLeastOnce);
            assert_eq!(&p.payload()[..], b"m");
        }
        other => panic!("no PUBLISH to retry: {:?}", other),
    }
    assert!(!entry.inner().dup());
    entry.update_retry_duration();
    assert!(!entry.should_retry(1_400));
    assert!(entry.is_timed_out(1_401));
    entry.acknowledge(2_000);
    assert_eq!(entry.stage(), QoS1Stage::Ack);
    assert!(!entry.should_retry(9_000));
    assert!(entry.get_retry_packet().is_none());
    let arrived = AtLeastOncePacket::publish(message(QosLevel::AtLeastOnce, Some(7)), 7, 0);
    assert_eq!(arrived.stage(), QoS1Stage::Publish);
    assert!(!arrived.should_retry(10_000));
}

#[test]
fn qos2_entry_life_on_the_sending_side() {
    let mut entry = ExactlyOncePacket::origin(message(QosLevel::ExactlyOnce, Some(9)), 4, 0);
    assert_eq!(entry.stage(), QoS2Stage::Origin);
    assert!(entry.relay(1).is_none());
    assert!(entry.complete(1).is_none());
    assert_eq!(entry.stage(), QoS2Stage::Origin);
    assert!(entry.should_retry(201));
    assert!(matches!(entry.get_retry_packet(), Some(MqttPacket::Publish(_))));
    assert_eq!(entry.receive(300), Some(PubRelPacket::new(4)));
    assert_eq!(entry.stage(), QoS2Stage::Rec);
    assert!(entry.receive(301).is_none());
    assert!(!entry.should_retry(500));
    assert!(entry.should_retry(501));
    assert_eq!(
        entry.get_retry_packet(),
        Some(MqttPacket::PubRel(PubRelPacket::new(4)))
    );
    let done = entry.complete(600).unwrap();
    assert_eq!(done.id(), Some(4));
    assert_eq!(entry.stage(), QoS2Stage::Comp);
    assert!(!entry.should_retry(u64::MAX));
    assert!(entry.get_retry_packet().is_none());
    assert_eq!(entry.id(), 4);
    assert_eq!(entry.inner().id(), Some(9));
}

#[test]
fn qos2_entry_life_on_the_receiving_side() {
    let mut entry = ExactlyOncePacket::publish(message(QosLevel::ExactlyOnce, Some(5)), 5, 0);
    assert_eq!(entry.stage(), QoS2Stage::Publish);
    assert!(entry.receive(1).is_none());
    assert!(!entry.should_retry(10_000));
    assert_eq!(entry.relay(10).unwrap().id(), Some(5));
    assert_eq!(entry.stage(), QoS2Stage::Rel);
    assert!(entry.relay(11).is_none());
    entry.update_retry_duration();
    assert!(!entry.is_timed_out(410));
    assert!(entry.is_timed_out(411));
}

#[test]
fn qos1_list_acknowledge_clean_and_retry() {
    let mut list = AtLeastOnceList::new();
    let sent = list.origin(message(QosLevel::AtLeastOnce, Some(1)), 2, 0);
    assert_eq!(sent.id(), Some(2));
    list.origin(message(QosLevel::AtLeastOnce, Some(3)), 4, 100);
    list.origin(message(QosLevel::AtLeastOnce, Some(5)), 6, 100);
    list.publish(message(QosLevel::AtLeastOnce, Some(11)), 100);
    assert_eq!(list.len(), 4);
    assert_eq!(list.ids(), vec![2, 4, 6, 11]);
    let retries = list.retry(250);
    assert_eq!(retries.len(), 1);
    match &retries[0] {
        MqttPacket::Publish(p) => assert_eq!(p.id(), Some(2)),
        other => panic!("not a PUBLISH: {:?}", other),
    }
    assert!(list.retry(300).is_empty());
    assert_eq!(list.retry(401).len(), 3);
    list.acknowledge(4, 500);
    assert_eq!(list.get(1).stage(), QoS1Stage::Ack);
    assert_eq!(list.get(0).stage(), QoS1Stage::Origin);
    assert_eq!(list.clean(), vec![4]);
    assert_eq!(list.ids(), vec![2, 6, 11]);
    assert!(list.clean().is_empty());
    let copy = list.clone();
    assert_eq!(copy.len(), 3);
}

#[test]
fn qos2_list_transitions_and_clean() {
    let mut list = ExactlyOnceList::new();
    list.origin(message(QosLevel::ExactlyOnce, Some(1)), 2, 0);
    list.origin(message(QosLevel::ExactlyOnce, Some(1)), 4, 0);
    assert!(list.publish(message(QosLevel::ExactlyOnce, Some(9)), 9, 0).is_some());
    assert_eq!(list.len(), 3);
    assert!(list.receive(8, 10).is_none());
    assert_eq!(list.receive(4, 10), Some(PubRelPacket::new(4)));
    assert!(list.receive(4, 11).is_none());
    assert_eq!(list.get(1).stage(), QoS2Stage::Rec);
    assert!(list.complete(2, 12).is_none());
    assert_eq!(list.complete(4, 12).unwrap().id(), Some(4));
    assert!(list.release(4, 13).is_none());
    assert_eq!(list.release(9, 13).unwrap().id(), Some(9));
    assert!(list.release(9, 14).is_none());
    let retries = list.retry(1_000);
    assert_eq!(retries.len(), 1);
    assert_eq!(list.clean(), vec![4, 9]);
    assert_eq!(list.ids(), vec![2]);
    assert_eq!(list.get(0).stage(), QoS2Stage::Origin);
}

#[test]
fn duplicate_publish_is_kept_once() {
    let mut list = ExactlyOnceList::new();
    let first = message(QosLevel::ExactlyOnce, Some(9));
    let mut again = first.clone();
    again.set_dup(true);
    assert_eq!(list.publish(first, 9, 0).unwrap().id(), 9);
    assert_eq!(list.publish(again.clone(), 9, 5).unwrap().id(), 9);
    assert_eq!(list.len(), 1);
    assert!(list.release(9, 10).is_some());
    assert!(list.release(9, 11).is_none());
    // after the release the id is free again: the same PUBLISH is a new message
    assert!(list.publish(again, 9, 12).is_some());
    assert_eq!(list.len(), 2);
    assert!(list.release(9, 13).is_some());
}
