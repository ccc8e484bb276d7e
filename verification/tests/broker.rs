use bytes::Bytes;
use mqtt_core::connection::{
    credentials_of, drain_mailbox, forward_received, handle_connect_packet, handle_first_packet,
    handle_packet, publish_will, routed_form, terminate, Credentials, FirstStep,
};
use mqtt_core::err::{ServerError, ServerErrorKind};
use mqtt_core::mailbox::{fault_error, mail_outcome, Mail, Mailbox};
use mqtt_core::channel::MailFault;
use mqtt_core::qos::{QosLevel, SubAckQoS};
use mqtt_core::registry::{ServerTopic, ServerTopics};
use mqtt_core::session::{ActiveSession, DisconnectedSession, DisconnectedSessions};
use mqtt_core::topic::{TopicFilter, TopicName, TopicSubscription};
use mqtt_core::v4::{
    ConnAckPacket, ConnectPacket, DisconnectPacket, MqttPacket, PingReqPacket, PingRespPacket,
    PubAckPacket, PubCompPacket, PubRecPacket, PubRelPacket, PublishPacket, SubAckPacket,
    SubscribePacket, UnsubAckPacket, UnsubscribePacket, Will,
};
use mqtt_core::ConnectReturnCode;
use std::sync::Arc;

fn connect(
    sessions: &mut DisconnectedSessions,
    client: &str,
    clean: bool,
    keep_alive: u16,
    will: Option<Will>,
    now: u64,
) -> (ConnAckPacket, ActiveSession) {
    let packet = ConnectPacket::new(clean, keep_alive, client.to_string(), will, None, None);
    let (ack, session) = handle_connect_packet(sessions, packet, true, now);
    (ack, session.expect("no session"))
}

fn publish(topic: &str, payload: &'static [u8], qos: QosLevel, id: u16, retain: bool) -> MqttPacket {
    let mut packet = PublishPacket::new(
        &TopicName::from_str(topic).unwrap(),
        Bytes::from_static(payload),
    );
    match qos {
        QosLevel::AtMostOnce => {}
        QosLevel::AtLeastOnce => packet.set_qos_atleastonce(id),
        QosLevel::ExactlyOnce => packet.set_qos_exactlyonce(id),
    }
    packet.set_retain(retain);
    MqttPacket::Publish(packet)
}

fn subscribe(id: u16, filter: &str, qos: QosLevel) -> MqttPacket {
    MqttPacket::Subscribe(SubscribePacket::new(
        id,
        vec![TopicSubscription::new(
            TopicFilter::from_str(filter).unwrap(),
            qos,
        )],
    ))
}

fn as_publish(packet: &MqttPacket) -> &PublishPacket {
    match packet {
        MqttPacket::Publish(p) => p,
        other => panic!("not a PUBLISH: {:?}", other),
    }
}

#[test]
fn first_packet() {
    assert!(matches!(
        handle_first_packet(MqttPacket::PingReq(PingReqPacket::new())),
        Ok(FirstStep::Pong(_))
    ));
    let connect = ConnectPacket::new(true, 0, String::from("c"), None, None, None);
    assert!(matches!(
        handle_first_packet(MqttPacket::Connect(connect)),
        Ok(FirstStep::Connect(_))
    ));
    let err = handle_first_packet(MqttPacket::PubAck(PubAckPacket::new(1))).unwrap_err();
    assert_eq!(err.kind(), &ServerErrorKind::ProtocolError);
    assert!(!err.message().is_empty());
}

#[test]
fn connect_is_refused_without_authentication() {
    let mut sessions = DisconnectedSessions::new();
    let packet = ConnectPacket::new(true, 0, String::from("c"), None, None, None);
    let (ack, session) = handle_connect_packet(&mut sessions, packet, false, 0);
    assert_eq!(
        ack,
        ConnAckPacket::new(false, ConnectReturnCode::BadUsernameOrPassword)
    );
    assert_eq!(ack.return_code().as_u8(), 4);
    assert!(session.is_none());
}

#[test]
fn retained_message_is_delivered_on_subscribe() {
    let mut sessions = DisconnectedSessions::new();
    let mut topics = ServerTopics::new(128, QosLevel::ExactlyOnce);
    let (_, mut publisher) = connect(&mut sessions, "p", true, 0, None, 0);
    let step = handle_packet(
        &mut publisher,
        &mut topics,
        publish("t", b"hi", QosLevel::AtMostOnce, 0, true),
        1,
    )
    .unwrap();
    assert!(step.replies.is_empty() && !step.close);

    let (_, mut subscriber) = connect(&mut sessions, "s", true, 0, None, 2);
    let step = handle_packet(
        &mut subscriber,
        &mut topics,
        subscribe(5, "t", QosLevel::AtLeastOnce),
        3,
    )
    .unwrap();
    assert_eq!(step.replies.len(), 2);
    let retained = as_publish(&step.replies[0]);
    assert_eq!(&retained.payload()[..], b"hi");
    assert!(retained.retain());
    assert!(!retained.dup());
    assert_eq!(retained.qos(), QosLevel::AtMostOnce);
    assert_eq!(retained.id(), None);
    assert_eq!(
        step.replies[1],
        MqttPacket::SubAck(SubAckPacket::new(
            5,
            vec![SubAckQoS::QOS(QosLevel::AtLeastOnce)]
        ))
    );
}

#[test]
fn retained_message_keeps_the_lower_qos() {
    let mut sessions = DisconnectedSessions::new();
    let mut topics = ServerTopics::new(8, QosLevel::ExactlyOnce);
    let (_, mut publisher) = connect(&mut sessions, "p", true, 0, None, 0);
    let step = handle_packet(
        &mut publisher,
        &mut topics,
        publish("t", b"hi", QosLevel::ExactlyOnce, 3, true),
        1,
    )
    .unwrap();
    assert_eq!(step.replies, vec![MqttPacket::PubRec(PubRecPacket::new(3))]);
    let (_, mut subscriber) = connect(&mut sessions, "s", true, 0, None, 2);
    let step = handle_packet(
        &mut subscriber,
        &mut topics,
        subscribe(5, "#", QosLevel::AtLeastOnce),
        3,
    )
    .unwrap();
    let retained = as_publish(&step.replies[0]);
    assert_eq!(retained.qos(), QosLevel::AtLeastOnce);
    assert_eq!(retained.id(), Some(2));
    assert!(retained.retain());
    assert_eq!(subscriber.retry_packets(3 + 201).len(), 1);
}

#[test]
fn empty_retained_message_clears_the_slot() {
    let mut sessions = DisconnectedSessions::new();
    let mut topics = ServerTopics::new(128, QosLevel::ExactlyOnce);
    let (_, mut publisher) = connect(&mut sessions, "p", true, 0, None, 0);
    handle_packet(
        &mut publisher,
        &mut topics,
        publish("t", b"hi", QosLevel::AtMostOnce, 0, true),
        1,
    )
    .unwrap();
    handle_packet(
        &mut publisher,
        &mut topics,
        publish("t", b"", QosLevel::AtMostOnce, 0, true),
        2,
    )
    .unwrap();
    assert!(topics.get(0).get_retained_message().is_none());
    let (_, mut subscriber) = connect(&mut sessions, "s", true, 0, None, 2);
    let step = handle_packet(
        &mut subscriber,
        &mut topics,
        subscribe(5, "t", QosLevel::AtMostOnce),
        3,
    )
    .unwrap();
    assert_eq!(
        step.replies,
        vec![MqttPacket::SubAck(SubAckPacket::new(
            5,
            vec![SubAckQoS::QOS(QosLevel::AtMostOnce)]
        ))]
    );
}

#[test]
fn retained_publish_reaches_a_present_subscriber_without_retain() {
    let mut sessions = DisconnectedSessions::new();
    let mut topics = ServerTopics::new(128, QosLevel::ExactlyOnce);
    topics.create_topic(TopicName::from_str("t").unwrap());
    let (_, mut subscriber) = connect(&mut sessions, "s", true, 0, None, 0);
    handle_packet(
        &mut subscriber,
        &mut topics,
        subscribe(5, "t", QosLevel::AtMostOnce),
        1,
    )
    .unwrap();
    let (_, mut publisher) = connect(&mut sessions, "p", true, 0, None, 0);
    let mut sent = PublishPacket::new(&TopicName::from_str("t").unwrap(), Bytes::from_static(b"x"));
    sent.set_retain(true);
    sent.set_dup(true);
    handle_packet(&mut publisher, &mut topics, MqttPacket::Publish(sent), 2).unwrap();
    let out = drain_mailbox(&mut subscriber, 16, 3);
    assert_eq!(out.len(), 1);
    let got = as_publish(&out[0]);
    assert_eq!(&got.payload()[..], b"x");
    assert!(!got.retain());
    assert!(!got.dup());
    assert!(drain_mailbox(&mut subscriber, 16, 4).is_empty());
    assert!(topics.get(0).get_retained_message().unwrap().retain());
}

#[test]
fn qos1_end_to_end() {
    let mut sessions = DisconnectedSessions::new();
    let mut topics = ServerTopics::new(128, QosLevel::ExactlyOnce);
    topics.create_topic(TopicName::from_str("t").unwrap());
    let (_, mut subscriber) = connect(&mut sessions, "s", true, 0, None, 0);
    handle_packet(
        &mut subscriber,
        &mut topics,
        subscribe(1, "t", QosLevel::AtLeastOnce),
        0,
    )
    .unwrap();
    let (_, mut publisher) = connect(&mut sessions, "p", true, 0, None, 0);
    let step = handle_packet(
        &mut publisher,
        &mut topics,
        publish("t", b"m", QosLevel::AtLeastOnce, 41, false),
        1,
    )
    .unwrap();
    assert_eq!(step.replies, vec![MqttPacket::PubAck(PubAckPacket::new(41))]);
    let out = drain_mailbox(&mut subscriber, 16, 2);
    assert_eq!(out.len(), 1);
    let got = as_publish(&out[0]);
    assert_eq!(got.qos(), QosLevel::AtLeastOnce);
    assert_eq!(got.id(), Some(2));
    assert_eq!(&got.payload()[..], b"m");
    // not acknowledged: the broker sends it again, marked DUP, and backs off
    assert!(subscriber.retry_packets(202).is_empty());
    let again = subscriber.retry_packets(203);
    assert_eq!(again.len(), 1);
    assert!(as_publish(&again[0]).dup());
    assert_eq!(as_publish(&again[0]).id(), Some(2));
    assert!(subscriber.retry_packets(402).is_empty());
    assert_eq!(subscriber.retry_packets(403).len(), 1);
    // acknowledged: no more retries
    let step = handle_packet(
        &mut subscriber,
        &mut topics,
        MqttPacket::PubAck(PubAckPacket::new(2)),
        500,
    )
    .unwrap();
    assert!(step.replies.is_empty());
    assert!(subscriber.retry_packets(100_000).is_empty());
    assert!(drain_mailbox(&mut subscriber, 16, 600).is_empty());
}

#[test]
fn qos2_end_to_end() {
    let mut sessions = DisconnectedSessions::new();
    let mut topics = ServerTopics::new(128, QosLevel::ExactlyOnce);
    topics.create_topic(TopicName::from_str("t").unwrap());
    let (_, mut subscriber) = connect(&mut sessions, "s", true, 0, None, 0);
    handle_packet(
        &mut subscriber,
        &mut topics,
        subscribe(1, "t", QosLevel::ExactlyOnce),
        0,
    )
    .unwrap();
    let (_, mut publisher) = connect(&mut sessions, "p", true, 0, None, 0);
    let step = handle_packet(
        &mut publisher,
        &mut topics,
        publish("t", b"m", QosLevel::ExactlyOnce, 7, false),
        1,
    )
    .unwrap();
    assert_eq!(step.replies, vec![MqttPacket::PubRec(PubRecPacket::new(7))]);
    assert!(drain_mailbox(&mut subscriber, 16, 1).is_empty());
    // the same PUBLISH again, marked DUP: one more PUBREC, nothing routed
    let mut dup = PublishPacket::new(&TopicName::from_str("t").unwrap(), Bytes::from_static(b"m"));
    dup.set_qos_exactlyonce(7);
    dup.set_dup(true);
    let step = handle_packet(&mut publisher, &mut topics, MqttPacket::Publish(dup), 2).unwrap();
    assert_eq!(step.replies, vec![MqttPacket::PubRec(PubRecPacket::new(7))]);
    assert!(drain_mailbox(&mut subscriber, 16, 2).is_empty());
    let step = handle_packet(
        &mut publisher,
        &mut topics,
        MqttPacket::PubRel(PubRelPacket::new(7)),
        3,
    )
    .unwrap();
    assert_eq!(step.replies, vec![MqttPacket::PubComp(PubCompPacket::new(7))]);
    let step = handle_packet(
        &mut publisher,
        &mut topics,
        MqttPacket::PubRel(PubRelPacket::new(7)),
        4,
    )
    .unwrap();
    assert!(step.replies.is_empty());
    let out = drain_mailbox(&mut subscriber, 16, 5);
    assert_eq!(out.len(), 1);
    let got = as_publish(&out[0]);
    assert_eq!(got.qos(), QosLevel::ExactlyOnce);
    assert_eq!(got.id(), Some(2));
    assert!(!got.dup());
    // the subscriber's side of the exchange
    let step = handle_packet(
        &mut subscriber,
        &mut topics,
        MqttPacket::PubRec(PubRecPacket::new(2)),
        6,
    )
    .unwrap();
    assert_eq!(step.replies, vec![MqttPacket::PubRel(PubRelPacket::new(2))]);
    assert_eq!(
        subscriber.retry_packets(207),
        vec![MqttPacket::PubRel(PubRelPacket::new(2))]
    );
    let step = handle_packet(
        &mut subscriber,
        &mut topics,
        MqttPacket::PubComp(PubCompPacket::new(2)),
        300,
    )
    .unwrap();
    assert!(step.replies.is_empty());
    assert!(subscriber.retry_packets(100_000).is_empty());
    let step = handle_packet(
        &mut subscriber,
        &mut topics,
        MqttPacket::PubRec(PubRecPacket::new(2)),
        301,
    )
    .unwrap();
    assert!(step.replies.is_empty());
}

#[test]
fn forwarding_takes_the_lower_qos() {
    let mut sessions = DisconnectedSessions::new();
    let mut topics = ServerTopics::new(128, QosLevel::ExactlyOnce);
    topics.create_topic(TopicName::from_str("t").unwrap());
    let (_, mut low) = connect(&mut sessions, "low", true, 0, None, 0);
    let (_, mut mid) = connect(&mut sessions, "mid", true, 0, None, 0);
    handle_packet(&mut low, &mut topics, subscribe(1, "t", QosLevel::AtMostOnce), 0).unwrap();
    handle_packet(&mut mid, &mut topics, subscribe(1, "+", QosLevel::AtLeastOnce), 0).unwrap();
    let (_, mut publisher) = connect(&mut sessions, "p", true, 0, None, 0);
    handle_packet(
        &mut publisher,
        &mut topics,
        publish("t", b"m", QosLevel::ExactlyOnce, 9, false),
        1,
    )
    .unwrap();
    handle_packet(
        &mut publisher,
        &mut topics,
        MqttPacket::PubRel(PubRelPacket::new(9)),
        2,
    )
    .unwrap();
    let out = drain_mailbox(&mut low, 4, 3);
    assert_eq!(as_publish(&out[0]).qos(), QosLevel::AtMostOnce);
    assert_eq!(as_publish(&out[0]).id(), None);
    let out = drain_mailbox(&mut mid, 4, 3);
    assert_eq!(as_publish(&out[0]).qos(), QosLevel::AtLeastOnce);
    assert_eq!(as_publish(&out[0]).id(), Some(2));
}

#[test]
fn subscribe_answers_every_entry_in_order() {
    let mut sessions = DisconnectedSessions::new();
    let mut topics = ServerTopics::new(128, QosLevel::AtLeastOnce);
    assert_eq!(topics.max_qos(), QosLevel::AtLeastOnce);
    let (_, mut session) = connect(&mut sessions, "s", true, 0, None, 0);
    let wire = Bytes::from_static(&[
        0, 9, 0, 3, b'#', b'/', b'a', 1, 0, 1, b'b', 2, 0, 1, b'c', 0,
    ]);
    let mut body = wire.clone();
    let packet = SubscribePacket::decode(&mut body).unwrap();
    let step = handle_packet(&mut session, &mut topics, MqttPacket::Subscribe(packet), 1).unwrap();
    assert_eq!(
        step.replies,
        vec![MqttPacket::SubAck(SubAckPacket::new(
            9,
            vec![
                SubAckQoS::Failure,
                SubAckQoS::QOS(QosLevel::AtLeastOnce),
                SubAckQoS::QOS(QosLevel::AtMostOnce)
            ]
        ))]
    );
    let err = handle_packet(
        &mut session,
        &mut topics,
        MqttPacket::Subscribe(SubscribePacket::new(1, vec![])),
        2,
    )
    .unwrap_err();
    assert_eq!(err.kind(), &ServerErrorKind::ProtocolError);
}

#[test]
fn unsubscribe_removes_the_matching_slots() {
    let mut sessions = DisconnectedSessions::new();
    let mut topics = ServerTopics::new(128, QosLevel::ExactlyOnce);
    for name in ["a/x", "a/y", "b"] {
        topics.create_topic(TopicName::from_str(name).unwrap());
    }
    assert_eq!(topics.len(), 3);
    let (_, mut session) = connect(&mut sessions, "s", true, 0, None, 0);
    handle_packet(&mut session, &mut topics, subscribe(1, "#", QosLevel::AtMostOnce), 0).unwrap();
    assert_eq!(session.mailbox().len(), 3);
    handle_packet(&mut session, &mut topics, subscribe(2, "a/+", QosLevel::ExactlyOnce), 0).unwrap();
    assert_eq!(session.mailbox().len(), 3);
    assert_eq!(session.mailbox().qos_at(0), QosLevel::AtMostOnce);
    let step = handle_packet(
        &mut session,
        &mut topics,
        MqttPacket::Unsubscribe(UnsubscribePacket::new(
            3,
            vec![TopicFilter::from_str("a/+").unwrap()],
        )),
        1,
    )
    .unwrap();
    assert_eq!(step.replies, vec![MqttPacket::UnsubAck(UnsubAckPacket::new(3))]);
    assert_eq!(session.mailbox().len(), 1);
    let (_, mut publisher) = connect(&mut sessions, "p", true, 0, None, 0);
    handle_packet(&mut publisher, &mut topics, publish("a/x", b"1", QosLevel::AtMostOnce, 0, false), 2).unwrap();
    handle_packet(&mut publisher, &mut topics, publish("b", b"2", QosLevel::AtMostOnce, 0, false), 2).unwrap();
    let out = drain_mailbox(&mut session, 8, 3);
    assert_eq!(out.len(), 1);
    assert_eq!(&as_publish(&out[0]).payload()[..], b"2");
}

#[test]
fn ping_disconnect_and_protocol_violations() {
    let mut sessions = DisconnectedSessions::new();
    let mut topics = ServerTopics::new(128, QosLevel::ExactlyOnce);
    let (_, mut session) = connect(&mut sessions, "s", true, 0, None, 0);
    let step = handle_packet(&mut session, &mut topics, MqttPacket::PingReq(PingReqPacket::new()), 1).unwrap();
    assert_eq!(step.replies, vec![MqttPacket::PingResp(PingRespPacket::new())]);
    assert!(!step.close);
    let step = handle_packet(&mut session, &mut topics, MqttPacket::Disconnect(DisconnectPacket::new()), 1).unwrap();
    assert!(step.close && step.replies.is_empty());
    for packet in [
        MqttPacket::PingResp(PingRespPacket::new()),
        MqttPacket::ConnAck(ConnAckPacket::new(false, ConnectReturnCode::Accept)),
        MqttPacket::Connect(ConnectPacket::new(true, 0, String::from("s"), None, None, None)),
        MqttPacket::SubAck(SubAckPacket::new(1, vec![])),
        MqttPacket::UnsubAck(UnsubAckPacket::new(1)),
    ] {
        let err = handle_packet(&mut session, &mut topics, packet, 2).unwrap_err();
        assert_eq!(err.kind(), &ServerErrorKind::ProtocolError);
    }
    let mut no_id = PublishPacket::new(&TopicName::from_str("t").unwrap(), Bytes::new());
    no_id.set_qos_atleastonce(1);
    no_id.set_id(None);
    let err = handle_packet(&mut session, &mut topics, MqttPacket::Publish(no_id), 2).unwrap_err();
    assert_eq!(err.kind(), &ServerErrorKind::ProtocolError);
    assert_eq!(topics.len(), 0);
}

#[test]
fn will_is_published_when_the_connection_drops() {
    let mut sessions = DisconnectedSessions::new();
    let mut topics = ServerTopics::new(128, QosLevel::ExactlyOnce);
    topics.create_topic(TopicName::from_str("bye").unwrap());
    let (_, mut subscriber) = connect(&mut sessions, "s", true, 0, None, 0);
    handle_packet(&mut subscriber, &mut topics, subscribe(1, "bye", QosLevel::AtLeastOnce), 0).unwrap();
    let will = Will::new(
        TopicName::from_str("bye").unwrap(),
        String::from("gone"),
        QosLevel::AtLeastOnce,
        false,
    );
    let (_, session) = connect(&mut sessions, "c", true, 0, Some(will.clone()), 0);
    assert_eq!(session.will(), &Some(will.clone()));
    terminate(session, &mut sessions, &mut topics, false);
    let out = drain_mailbox(&mut subscriber, 8, 1);
    assert_eq!(out.len(), 1);
    let got = as_publish(&out[0]);
    assert_eq!(&got.payload()[..], b"gone");
    assert_eq!(got.qos(), QosLevel::AtLeastOnce);
    assert!(!got.retain());
    assert!(topics.get(0).get_retained_message().is_none());
    assert_eq!(sessions.len(), 0);

    // a DISCONNECT keeps the will back
    let (_, session) = connect(&mut sessions, "c", true, 0, Some(will), 2);
    terminate(session, &mut sessions, &mut topics, true);
    assert!(drain_mailbox(&mut subscriber, 8, 3).is_empty());
}

#[test]
fn will_with_retain_is_retained() {
    let mut sessions = DisconnectedSessions::new();
    let mut topics = ServerTopics::new(128, QosLevel::ExactlyOnce);
    let will = Will::new(
        TopicName::from_str("bye").unwrap(),
        String::from("gone"),
        QosLevel::AtMostOnce,
        true,
    );
    let (_, mut session) = connect(&mut sessions, "c", true, 0, Some(will), 0);
    assert!(publish_will(&mut session, &mut topics));
    assert_eq!(
        &topics.get(0).get_retained_message().unwrap().payload()[..],
        b"gone"
    );
    let (_, mut none) = connect(&mut sessions, "d", true, 0, None, 0);
    assert!(!publish_will(&mut none, &mut topics));
}

#[test]
fn session_persistence() {
    let mut sessions = DisconnectedSessions::new();
    let mut topics = ServerTopics::new(128, QosLevel::ExactlyOnce);
    topics.create_topic(TopicName::from_str("t/a").unwrap());
    let (ack, mut session) = connect(&mut sessions, "c", false, 0, None, 0);
    assert_eq!(ack, ConnAckPacket::new(false, ConnectReturnCode::Accept));
    assert!(!session.is_clean());
    handle_packet(&mut session, &mut topics, subscribe(1, "t/#", QosLevel::ExactlyOnce), 1).unwrap();
    terminate(session, &mut sessions, &mut topics, false);
    assert_eq!(sessions.len(), 1);

    let (_, mut publisher) = connect(&mut sessions, "p", true, 0, None, 2);
    for (id, payload) in [(1u16, &b"one"[..]), (3, &b"two"[..]), (5, &b"three"[..])] {
        let mut packet = PublishPacket::new(
            &TopicName::from_str("t/a").unwrap(),
            Bytes::copy_from_slice(payload),
        );
        packet.set_qos_exactlyonce(id);
        handle_packet(&mut publisher, &mut topics, MqttPacket::Publish(packet), 3).unwrap();
        handle_packet(
            &mut publisher,
            &mut topics,
            MqttPacket::PubRel(PubRelPacket::new(id)),
            3,
        )
        .unwrap();
    }

    let (ack, mut session) = connect(&mut sessions, "c", false, 0, None, 4);
    assert_eq!(ack, ConnAckPacket::new(true, ConnectReturnCode::Accept));
    assert_eq!(sessions.len(), 0);
    let out = drain_mailbox(&mut session, 16, 5);
    let payloads: Vec<&[u8]> = out.iter().map(|p| &as_publish(p).payload()[..]).collect();
    assert_eq!(payloads, vec![&b"one"[..], &b"two"[..], &b"three"[..]]);
    assert!(out.iter().all(|p| as_publish(p).qos() == QosLevel::ExactlyOnce));
    assert_eq!(as_publish(&out[0]).id(), Some(2));
    assert_eq!(as_publish(&out[2]).id(), Some(6));
}

#[test]
fn resumed_session_keeps_its_inflight_ids() {
    let mut sessions = DisconnectedSessions::new();
    let mut topics = ServerTopics::new(128, QosLevel::ExactlyOnce);
    let (_, mut session) = connect(&mut sessions, "c", false, 0, None, 0);
    let mut message = PublishPacket::new(&TopicName::from_str("t").unwrap(), Bytes::new());
    message.set_qos_atleastonce(99);
    assert_eq!(session.origin(&message, 1).unwrap().id(), Some(2));
    assert_eq!(session.origin(&message, 1).unwrap().id(), Some(4));
    assert_eq!(session.ack(2, 2), PubAckPacket::new(2));
    terminate(session, &mut sessions, &mut topics, true);
    let (ack, mut session) = connect(&mut sessions, "c", false, 0, None, 3);
    assert!(ack.session_present());
    // ids 2 and 4 are still taken by the inflight entries
    assert_eq!(session.next_id(), Some(6));
    session.force_clean();
    assert_eq!(session.retry_packets(1_000).len(), 1);
    // a clean session discards the record
    terminate(session, &mut sessions, &mut topics, true);
    let (ack, mut session) = connect(&mut sessions, "c", true, 0, None, 4);
    assert!(!ack.session_present());
    assert!(session.is_clean());
    assert_eq!(session.next_id(), Some(2));
    assert_eq!(sessions.len(), 0);
    terminate(session, &mut sessions, &mut topics, false);
    assert_eq!(sessions.len(), 0);
}

#[test]
fn keep_alive_runs_out_after_one_and_a_half_times() {
    let mut sessions = DisconnectedSessions::new();
    let (_, mut session) = connect(&mut sessions, "c", true, 10, None, 1_000);
    assert!(!session.timed_out(1_000));
    assert!(!session.timed_out(16_000));
    assert!(session.timed_out(16_001));
    session.update_last_read(16_000);
    assert!(!session.timed_out(31_000));
    assert!(session.timed_out(31_001));
    assert!(!session.should_retry_packets());
    assert_eq!(session.client_id(), "c");
    let (_, off) = connect(&mut sessions, "d", true, 0, None, 0);
    assert!(!off.timed_out(u64::MAX));
}

#[test]
fn records_expire_with_their_keep_alive() {
    let mut sessions = DisconnectedSessions::new();
    let mut topics = ServerTopics::new(128, QosLevel::ExactlyOnce);
    for (client, keep_alive, last) in [("a", 10u16, 0u64), ("b", 0, 0), ("c", 10, 5_000)] {
        let (_, mut session) = connect(&mut sessions, client, false, keep_alive, None, 0);
        session.update_last_read(last);
        terminate(session, &mut sessions, &mut topics, true);
    }
    assert_eq!(sessions.len(), 3);
    assert!(sessions.find_sessions(10_999).is_empty());
    assert_eq!(sessions.find_sessions(11_000), vec![String::from("a")]);
    sessions.clean_expired(10_999);
    assert_eq!(sessions.len(), 3);
    sessions.clean_expired(11_000);
    assert_eq!(sessions.len(), 2);
    assert!(sessions.remove_session("a").is_none());
    sessions.clean_expired(u64::MAX);
    assert_eq!(sessions.len(), 1);
    let record = sessions.remove_session("b").unwrap();
    assert_eq!(record.client_id(), "b");
    assert!(!record.expired(u64::MAX));
    assert_eq!(sessions.len(), 0);
}

#[test]
fn a_new_record_replaces_the_old_one_of_its_client() {
    let mut sessions = DisconnectedSessions::new();
    let mut stash = DisconnectedSessions::new();
    let (_, first) = connect(&mut stash, "c", false, 5, None, 0);
    let (_, second) = connect(&mut stash, "c", false, 7, None, 100);
    sessions.add_session(DisconnectedSession::from(first));
    sessions.add_session(DisconnectedSession::from(second));
    assert_eq!(sessions.len(), 1);
    let record = sessions.remove_session("c").unwrap();
    assert!(!record.expired(7_100 + 999));
    assert!(record.expired(8_100));
}

#[test]
fn housekeeping_cleans_long_lists_only() {
    let mut sessions = DisconnectedSessions::new();
    let (_, mut session) = connect(&mut sessions, "c", true, 0, None, 0);
    let mut message = PublishPacket::new(&TopicName::from_str("t").unwrap(), Bytes::new());
    message.set_qos_atleastonce(1);
    for _ in 0..4096 {
        let sent = session.origin(&message, 0).unwrap();
        session.ack(sent.id().unwrap(), 1);
    }
    session.clean_session();
    // 4096 acknowledged entries were removed and their ids released
    assert!(session.retry_packets(10_000).is_empty());
    let sent = session.origin(&message, 2).unwrap();
    assert_eq!(sent.id(), Some(8194));
    session.clean_session();
    assert_eq!(session.retry_packets(10_000).len(), 1);
}

#[test]
fn id_exhaustion_cleans_before_it_gives_up() {
    let mut sessions = DisconnectedSessions::new();
    let (_, mut session) = connect(&mut sessions, "c", true, 0, None, 0);
    let mut message = PublishPacket::new(&TopicName::from_str("t").unwrap(), Bytes::new());
    message.set_qos_exactlyonce(1);
    for _ in 0..32_767 {
        assert!(session.origin(&message, 0).is_some());
    }
    assert!(session.origin(&message, 0).is_none());
    session.rec(10, 1);
    session.comp(10, 2);
    let sent = session.origin(&message, 3).unwrap();
    assert_eq!(sent.id(), Some(10));
    assert!(session.origin(&message, 3).is_none());
}

#[test]
fn registry_and_mailbox_by_hand() {
    let mut topics = ServerTopics::new(2, QosLevel::AtLeastOnce);
    let name = TopicName::from_str("t").unwrap();
    assert_eq!(topics.position(&name), 0);
    topics.create_topic(name.clone());
    topics.create_topic(name.clone());
    assert_eq!(topics.len(), 1);
    assert_eq!(topics.position(&name), 0);
    assert_eq!(topics.position(&TopicName::from_str("u").unwrap()), 1);
    let mut retained = PublishPacket::new(&TopicName::from_str("u").unwrap(), Bytes::from_static(b"r"));
    retained.set_retain(true);
    topics.retain_message(retained.clone());
    assert_eq!(topics.len(), 2);
    assert_eq!(topics.get(1).get_retained_message(), Some(&retained));
    assert_eq!(topics.get(1).name(), &TopicName::from_str("u").unwrap());
    assert_eq!(topics.get(1).max_qos(), QosLevel::AtLeastOnce);

    let topic = ServerTopic::new(name.clone(), 2, QosLevel::ExactlyOnce);
    assert!(!topic.send(Arc::new(retained.clone())));
    let mut mailbox = Mailbox::new();
    mailbox.add_slot(Mail::new(name.clone(), topic.subscribe(), QosLevel::AtMostOnce));
    mailbox.add_slot(Mail::new(name.clone(), topic.subscribe(), QosLevel::ExactlyOnce));
    assert_eq!(mailbox.len(), 1);
    assert!(mailbox.recv_at(0).unwrap().is_none());
    for payload in [&b"1"[..], &b"2"[..], &b"3"[..]] {
        let packet = PublishPacket::new(&name, Bytes::copy_from_slice(payload));
        assert!(topic.send(Arc::new(packet)));
    }
    let err = mailbox.recv_at(0).unwrap_err();
    assert_eq!(err.kind(), &ServerErrorKind::FullMailbox(1));
    assert_eq!(&mailbox.recv_at(0).unwrap().unwrap().payload()[..], b"2");
    assert_eq!(&mailbox.recv_at(0).unwrap().unwrap().payload()[..], b"3");
    assert!(mailbox.recv_at(0).unwrap().is_none());
    let mut mail = Mail::new(name.clone(), topic.channel().subscribe(), QosLevel::AtLeastOnce);
    assert_eq!(mail.qos(), QosLevel::AtLeastOnce);
    assert_eq!(mail.topic(), &name);
    drop(topic);
    assert_eq!(
        mail.recv().unwrap_err().kind(),
        &ServerErrorKind::BroadcastError
    );
    assert_eq!(
        fault_error(MailFault::Lagged(3)).kind(),
        &ServerErrorKind::FullMailbox(3)
    );
    mailbox.remove_slot(&TopicFilter::from_str("+").unwrap());
    assert_eq!(mailbox.len(), 0);
}

#[test]
fn credentials_are_wanted_only_where_asked_for() {
    let bare = ConnectPacket::new(true, 0, String::from("c"), None, None, None);
    assert!(matches!(credentials_of(&bare, false), Credentials::NotAsked));
    assert!(matches!(credentials_of(&bare, true), Credentials::Missing));
    let half = ConnectPacket::new(true, 0, String::from("c"), None, Some(String::from("u")), None);
    assert!(matches!(credentials_of(&half, true), Credentials::Missing));
    let full = ConnectPacket::new(
        true,
        0,
        String::from("c"),
        None,
        Some(String::from("u")),
        Some(Bytes::from_static(b"pw")),
    );
    match credentials_of(&full, true) {
        Credentials::Given(username, password) => {
            assert_eq!(username, "u");
            assert_eq!(&password[..], b"pw");
        }
        other => panic!("no credentials: {:?}", other),
    }
    assert!(matches!(credentials_of(&full, false), Credentials::NotAsked));
}

#[test]
fn routed_messages_lose_dup_and_retain() {
    let mut packet = PublishPacket::new(&TopicName::from_str("t").unwrap(), Bytes::from_static(b"x"));
    packet.set_qos_exactlyonce(3);
    packet.set_dup(true);
    packet.set_retain(true);
    let routed = routed_form(packet);
    assert!(!routed.dup() && !routed.retain());
    assert_eq!(routed.qos(), QosLevel::ExactlyOnce);
    assert_eq!(routed.id(), Some(3));
}

#[test]
fn what_a_slot_hands_out_decides_the_step() {
    let mut sessions = DisconnectedSessions::new();
    let (_, mut session) = connect(&mut sessions, "s", true, 0, None, 0);
    let mut message = PublishPacket::new(&TopicName::from_str("t").unwrap(), Bytes::from_static(b"m"));
    message.set_qos_exactlyonce(40);
    message.set_retain(true);
    message.set_dup(true);
    let (sent, goes_on) = forward_received(
        &mut session,
        Ok(Some(Arc::new(message.clone()))),
        QosLevel::AtLeastOnce,
        1,
    );
    let sent = sent.unwrap();
    assert!(goes_on);
    assert_eq!(sent.qos(), QosLevel::AtLeastOnce);
    assert_eq!(sent.id(), Some(2));
    assert!(!sent.retain() && !sent.dup());
    assert_eq!(session.retry_packets(202).len(), 1);
    let (sent, goes_on) = forward_received(
        &mut session,
        Ok(Some(Arc::new(message))),
        QosLevel::AtMostOnce,
        1,
    );
    assert!(goes_on);
    assert_eq!(sent.unwrap().id(), None);
    assert_eq!(
        forward_received(&mut session, Ok(None), QosLevel::ExactlyOnce, 2),
        (None, false)
    );
    let lagged = ServerError::new(ServerErrorKind::FullMailbox(4), String::new());
    assert_eq!(
        forward_received(&mut session, Err(lagged), QosLevel::ExactlyOnce, 2),
        (None, true)
    );
    let closed = ServerError::new(ServerErrorKind::BroadcastError, String::new());
    assert_eq!(
        forward_received(&mut session, Err(closed), QosLevel::ExactlyOnce, 2),
        (None, false)
    );
    assert_eq!(session.retry_packets(1_000).len(), 1);
}

#[test]
fn mail_outcome_passes_messages_and_names_faults() {
    let message = Arc::new(PublishPacket::new(
        &TopicName::from_str("t").unwrap(),
        Bytes::from_static(b"m"),
    ));
    assert_eq!(
        mail_outcome(Ok(Some(message.clone()))).unwrap(),
        Some(message)
    );
    assert_eq!(mail_outcome(Ok(None)).unwrap(), None);
    assert_eq!(
        mail_outcome(Err(MailFault::Closed)).unwrap_err().kind(),
        &ServerErrorKind::BroadcastError
    );
    assert_eq!(
        mail_outcome(Err(MailFault::Lagged(7))).unwrap_err().kind(),
        &ServerErrorKind::FullMailbox(7)
    );
}

#[test]
fn drain_takes_no_more_than_its_budget_from_a_slot() {
    let mut sessions = DisconnectedSessions::new();
    let mut topics = ServerTopics::new(128, QosLevel::ExactlyOnce);
    topics.create_topic(TopicName::from_str("t").unwrap());
    let (_, mut subscriber) = connect(&mut sessions, "s", true, 0, None, 0);
    handle_packet(&mut subscriber, &mut topics, subscribe(1, "t", QosLevel::AtMostOnce), 0).unwrap();
    let (_, mut publisher) = connect(&mut sessions, "p", true, 0, None, 0);
    for payload in [&b"1"[..], &b"2"[..], &b"3"[..]] {
        let packet = PublishPacket::new(
            &TopicName::from_str("t").unwrap(),
            Bytes::copy_from_slice(payload),
        );
        handle_packet(&mut publisher, &mut topics, MqttPacket::Publish(packet), 1).unwrap();
    }
    assert!(drain_mailbox(&mut subscriber, 0, 2).is_empty());
    let out = drain_mailbox(&mut subscriber, 2, 2);
    assert_eq!(out.len(), 2);
    assert_eq!(&as_publish(&out[0]).payload()[..], b"1");
    assert_eq!(&as_publish(&out[1]).payload()[..], b"2");
    let out = drain_mailbox(&mut subscriber, 2, 3);
    assert_eq!(out.len(), 1);
    assert_eq!(&as_publish(&out[0]).payload()[..], b"3");
    assert!(drain_mailbox(&mut publisher, 5, 3).is_empty());
}
