//! What the broker decides on one connection: how it answers the first
//! packet, what it does with every packet after that, what it forwards
//! from the mailbox, and how it ends the session.
//!
//! The functions here read no socket and no clock. The program around them
//! reads packets and the time, calls them, and writes the packets they hand
//! out.
use crate::buffer::{bytes_copy_from_slice, bytes_view};
use crate::err::{ServerError, ServerErrorKind};
use crate::mailbox::{has_slot, slots_kept, Mail, MailView};
use crate::msg_assurance::sender::{
    at_least_once_acknowledged, awaits_release, exactly_once_found, exactly_once_moved,
    packet_views, ExactlyOnceView, QoS2Stage,
};
use crate::msg_assurance::RETRY_BASE;
use crate::qos::{QosLevel, SubAckQoS};
use crate::registry::{
    publish_view, spec_retain, with_retained, with_topic, ServerTopicView, ServerTopics,
};
use crate::session::{
    session_of, spec_forwarded, spec_fresh_session, without_session, ActiveSession, DisconnectedSession,
    DisconnectedSessions, DisconnectedView, SessionView,
};
use crate::topic::{levels_match, TopicFilter, TopicFilterResult, TopicSubscription};
use crate::v4::connack::{ConnAckPacket, ConnAckView};
use crate::v4::connect::{
    spec_conn_clean_session, ConnectPacket, ConnectView, Will, WillView,
};
use crate::v4::packet::{MqttPacket, MqttPacketView};
use crate::v4::pingresp::PingRespPacket;
use crate::v4::puback::PubAckPacket;
use crate::v4::pubcomp::PubCompPacket;
use crate::v4::publish::{spec_publish_flags, PublishPacket, PublishView};
use crate::v4::suback::{SubAckPacket, SubAckView};
use crate::v4::subscribe::{SubscribePacket, SubscriptionView};
use crate::v4::unsuback::UnsubAckPacket;
use crate::ConnectReturnCode;
use bytes::Bytes;
use std::sync::Arc;
use vstd::prelude::*;

verus! {

/// What the first packet of a connection leads to.
#[derive(Debug)]
pub enum FirstStep {
    /// The client probed the broker with a PINGREQ: the PINGRESP is sent
    /// and the connection is closed.
    Pong(PingRespPacket),
    /// The client asks for a session.
    Connect(ConnectPacket),
}

/// Looks at the first packet of a connection. A PINGREQ is answered and a
/// CONNECT is taken up; any other packet breaks the protocol.
pub fn handle_first_packet(packet: MqttPacket) -> (r: Result<FirstStep, ServerError>)
    ensures
        match r {
            Ok(FirstStep::Pong(_)) => packet@ is PingReq,
            Ok(FirstStep::Connect(p)) => packet@ == MqttPacketView::Connect(p@),
            Err(e) => !(packet@ is PingReq) && !(packet@ is Connect) && e.spec_kind()
                == ServerErrorKind::ProtocolError,
        },
{
    match packet {
        MqttPacket::PingReq(_) => Ok(FirstStep::Pong(PingRespPacket::new())),
        MqttPacket::Connect(packet) => Ok(FirstStep::Connect(packet)),
        _ => Err(
            ServerError::of(
                ServerErrorKind::ProtocolError,
                "Cannot initialize connection without first receiving a CONNECT packet",
            ),
        ),
    }
}

/// What a CONNECT offers to authenticate the client with.
#[derive(Debug)]
pub enum Credentials<'a> {
    /// The broker asks for no authentication.
    NotAsked,
    /// The broker asks for authentication and the CONNECT lacks the user
    /// name or the password: the client does not pass.
    Missing,
    /// The user name and the password to be checked.
    Given(&'a String, &'a Bytes),
}

/// Says what there is to check before a CONNECT is taken up. A broker that
/// asks for authentication wants both a user name and a password.
pub fn credentials_of<'a>(packet: &'a ConnectPacket, require_auth: bool) -> (c: Credentials<'a>)
    ensures
        match c {
            Credentials::NotAsked => !require_auth,
            Credentials::Missing => require_auth && (packet@.username is None
                || packet@.password is None),
            Credentials::Given(username, password) => require_auth && packet@.username == Some(
                username@,
            ) && packet@.password == Some(bytes_view(*password)),
        },
{
    if !require_auth {
        return Credentials::NotAsked;
    }
    match (packet.username(), packet.password()) {
        (Some(username), Some(password)) => Credentials::Given(username, password),
        _ => Credentials::Missing,
    }
}

/// The CONNACK that answers a CONNECT, given whether the client passed
/// authentication and what records of sessions there are: a client that did
/// not pass is refused with `BadUsernameOrPassword`; one that did is
/// accepted, and told that a session is present exactly when it did not ask
/// for a clean session and there is a record of its client id.
pub open spec fn spec_connack(
    records: Seq<DisconnectedView>,
    packet: ConnectView,
    authenticated: bool,
) -> ConnAckView {
    if !authenticated {
        ConnAckView {
            session_present: false,
            return_code: ConnectReturnCode::BadUsernameOrPassword,
        }
    } else {
        ConnAckView {
            session_present: !spec_conn_clean_session(packet.flags) && session_of(
                records,
                packet.client_id,
            ) is Some,
            return_code: ConnectReturnCode::Accept,
        }
    }
}

/// The session that a CONNECT begins at `now`, if the client passed
/// authentication: the record of its client id resumed where there is one
/// and no clean session is asked for, a fresh session otherwise.
pub open spec fn spec_connected(
    records: Seq<DisconnectedView>,
    packet: ConnectView,
    authenticated: bool,
    now: u64,
) -> Option<SessionView> {
    if !authenticated {
        None
    } else {
        match session_of(records, packet.client_id) {
            Some(record) => if spec_conn_clean_session(packet.flags) {
                Some(spec_fresh_session(packet, now))
            } else {
                Some(record.resumed(packet, now))
            },
            None => Some(spec_fresh_session(packet, now)),
        }
    }
}

/// Takes up a CONNECT at `now`. `authenticated` says whether the client
/// passed authentication, or that none is asked for.
///
/// A client that passed gets a session and the CONNACK that says so, and
/// the record of its client id, whether resumed or not, is gone from the
/// registry. A client that did not pass gets the refusing CONNACK and no
/// session, and the registry stays as it is.
pub fn handle_connect_packet(
    sessions: &mut DisconnectedSessions,
    packet: ConnectPacket,
    authenticated: bool,
    now: u64,
) -> (r: (ConnAckPacket, Option<ActiveSession>))
    ensures
        r.0@ == spec_connack(old(sessions)@, packet@, authenticated),
        match r.1 {
            Some(session) => spec_connected(old(sessions)@, packet@, authenticated, now) == Some(
                session@,
            ),
            None => spec_connected(old(sessions)@, packet@, authenticated, now) is None,
        },
        final(sessions)@ == (if authenticated {
            without_session(old(sessions)@, packet@.client_id)
        } else {
            old(sessions)@
        }),
{
    let mut connack = ConnAckPacket::new(false, ConnectReturnCode::Accept);
    if !authenticated {
        return (ConnAckPacket::new(false, ConnectReturnCode::BadUsernameOrPassword), None);
    }
    let session: ActiveSession = match sessions.remove_session(packet.client_id()) {
        Some(dc_session) => {
            if packet.clean_session() {
                ActiveSession::new_tcp(packet, now)
            } else {
                connack.set_session_present(true);
                match dc_session.into_active(packet, now) {
                    Ok(session) => session,
                    Err(_) => {
                        proof {
                            assert(false);
                        }
                        return (connack, None);
                    },
                }
            }
        },
        None => ActiveSession::new_tcp(packet, now),
    };
    (connack, Some(session))
}

/// The return code that answers one entry of a SUBSCRIBE in a registry that
/// grants up to `max_qos`: the lower of the QoS asked for and `max_qos`
/// for a filter that parsed, a refusal for one that did not.
pub open spec fn spec_suback_code(entry: SubscriptionView, max_qos: QosLevel) -> SubAckQoS {
    match entry {
        Some((_, qos)) => SubAckQoS::QOS(qos.spec_min(max_qos)),
        None => SubAckQoS::Failure,
    }
}

/// What a packet from the client leads to.
#[derive(Debug)]
pub struct Step {
    /// The packets to send to the client, in this order.
    pub replies: Vec<MqttPacket>,
    /// Whether the connection is to be closed, without publishing the will.
    pub close: bool,
}

/// The session after it was subscribed to one topic at `now`, having asked
/// for `asked`: the retained message of the topic, if it has one, is taken
/// on for the subscriber, and the mailbox gets a slot for the topic unless
/// it has one. The QoS granted is the lower of `asked` and the QoS that the
/// topic grants.
pub open spec fn spec_subscribed_topic(
    session: SessionView,
    topic: ServerTopicView,
    asked: QosLevel,
    now: u64,
) -> SessionView {
    let granted = asked.spec_min(topic.max_qos);
    let taken = match topic.retained {
        Some(retained) => session.originated(spec_forwarded(retained, granted, true), now),
        None => session,
    };
    SessionView {
        slots: if has_slot(taken.slots, topic.name) {
            taken.slots
        } else {
            taken.slots.push(MailView { topic: topic.name, qos: granted })
        },
        ..taken
    }
}

/// The PUBLISH that goes out when a session is subscribed to one topic: the
/// retained message of the topic, marked RETAIN, at the QoS granted; nothing
/// where the topic has none, or where no packet id is to be had.
pub open spec fn spec_retained_reply(session: SessionView, topic: ServerTopicView, asked: QosLevel)
    -> Option<MqttPacketView> {
    match topic.retained {
        Some(retained) => match session.outgoing(
            spec_forwarded(retained, asked.spec_min(topic.max_qos), true),
        ) {
            Some(p) => Some(MqttPacketView::Publish(p)),
            None => None,
        },
        None => None,
    }
}

/// The session after it was subscribed, at `now`, to each of `topics` that
/// the filter of `sub` matches, in their order.
pub open spec fn spec_subscribed(
    session: SessionView,
    topics: Seq<ServerTopicView>,
    sub: (Seq<Seq<char>>, QosLevel),
    now: u64,
) -> SessionView
    decreases topics.len(),
{
    if topics.len() == 0 {
        session
    } else {
        let before = spec_subscribed(session, topics.drop_last(), sub, now);
        if levels_match(sub.0, topics.last().name) {
            spec_subscribed_topic(before, topics.last(), sub.1, now)
        } else {
            before
        }
    }
}

/// The retained messages that go out when a session is subscribed to each
/// of `topics` that the filter of `sub` matches, in the order of the topics.
pub open spec fn spec_subscribe_replies(
    session: SessionView,
    topics: Seq<ServerTopicView>,
    sub: (Seq<Seq<char>>, QosLevel),
    now: u64,
) -> Seq<MqttPacketView>
    decreases topics.len(),
{
    if topics.len() == 0 {
        Seq::<MqttPacketView>::empty()
    } else {
        let session_before = spec_subscribed(session, topics.drop_last(), sub, now);
        let before = spec_subscribe_replies(session, topics.drop_last(), sub, now);
        if levels_match(sub.0, topics.last().name) {
            match spec_retained_reply(session_before, topics.last(), sub.1) {
                Some(p) => before.push(p),
                None => before,
            }
        } else {
            before
        }
    }
}

/// Subscribes the session, at `now`, to every topic of the registry that
/// the filter of `topic_sub` matches, and says whether there is any.
///
/// For every such topic the mailbox gets a slot, unless it has one for the
/// topic, with the lower of the QoS asked for and the QoS that the topic
/// grants. Where the topic has a retained message, the session takes it on
/// for the subscriber and the PUBLISH, marked RETAIN, is added to
/// `replies`.
pub fn subscribe_to_topic_filter(
    topics: &ServerTopics,
    session: &mut ActiveSession,
    topic_sub: &TopicSubscription,
    now: u64,
    replies: &mut Vec<MqttPacket>,
) -> (matched: bool)
    ensures
        matched == (exists|i: int|
            0 <= i < topics@.len() && levels_match(topic_sub@.0, (#[trigger] topics@[i]).name)),
        final(session)@ == spec_subscribed(old(session)@, topics@, topic_sub@, now),
        packet_views(final(replies)@) == packet_views(old(replies)@) + spec_subscribe_replies(
            old(session)@,
            topics@,
            topic_sub@,
            now,
        ),
{
    let mut sub_allowed: bool = false;
    let mut i: usize = 0;
    let ghost start = packet_views(replies@);
    let ghost first = session@;
    let ghost sub = topic_sub@;
    assert(topics@.take(0) =~= Seq::<ServerTopicView>::empty());
    assert(start + Seq::<MqttPacketView>::empty() =~= start);
    while i < topics.len()
        invariant
            i <= topics@.len(),
            sub == topic_sub@,
            sub_allowed == (exists|k: int|
                0 <= k < i && levels_match(sub.0, (#[trigger] topics@[k]).name)),
            session@ == spec_subscribed(first, topics@.take(i as int), sub, now),
            packet_views(replies@) == start + spec_subscribe_replies(
                first,
                topics@.take(i as int),
                sub,
                now,
            ),
        decreases topics@.len() - i,
    {
        let topic = topics.get(i);
        proof {
            assert(topics@.take(i + 1).drop_last() =~= topics@.take(i as int));
            assert(topics@.take(i + 1).last() == topics@[i as int]);
        }
        let ghost sent = packet_views(replies@);
        let ghost tail = spec_subscribe_replies(first, topics@.take(i as int), sub, now);
        if topic_sub.filter().matches(topic.name()) {
            sub_allowed = true;
            let granted = topic_sub.qos().min(topic.max_qos());
            if let Some(retained_message) = topic.get_retained_message() {
                if let Some(packet) = session.forward(retained_message, granted, true, now) {
                    replies.push(MqttPacket::Publish(packet));
                    assert(packet_views(replies@) =~= sent.push(MqttPacketView::Publish(packet@)));
                    assert(sent.push(MqttPacketView::Publish(packet@)) =~= start + tail.push(
                        MqttPacketView::Publish(packet@),
                    ));
                }
            }
            let receiver = topic.subscribe();
            let mail = Mail::new(topic.name().clone(), receiver, granted);
            session.mailbox_mut().add_slot(mail);
        }
        i = i + 1;
    }
    assert(topics@.take(i as int) =~= topics@);
    sub_allowed
}

/// A PUBLISH as the broker retains it: DUP is dropped, since it speaks of
/// the hop that lies behind.
pub open spec fn spec_taken_in(packet: PublishView) -> PublishView {
    PublishView { flags: (packet.flags % 8) as u8, ..packet }
}

/// A PUBLISH as the broker keeps it until its PUBREL comes: without RETAIN.
pub open spec fn spec_kept(packet: PublishView) -> PublishView {
    PublishView { flags: (packet.flags - packet.flags % 2) as u8, ..packet }
}

/// A PUBLISH as the broker routes it: without DUP and without RETAIN, since
/// subscribers that are there already get it as a fresh message.
pub open spec fn spec_routed(packet: PublishView) -> PublishView {
    PublishView { flags: (packet.flags % 8 - packet.flags % 2) as u8, ..packet }
}

/// The form in which a PUBLISH is routed to the subscribers of its topic.
pub fn routed_form(packet: PublishPacket) -> (r: PublishPacket)
    ensures
        r@ == spec_routed(packet@),
        !r@.retain(),
        !r@.dup(),
        r@.qos() == packet@.qos(),
{
    let mut packet = packet;
    packet.set_dup(false);
    packet.set_retain(false);
    packet
}

/// The registry after a PUBLISH came in: a PUBLISH marked RETAIN is handed
/// in for retaining under its topic, and a PUBLISH of QoS 0 or 1 is routed,
/// which makes its topic known where it was not. A PUBLISH of QoS 2 is
/// routed only when its PUBREL comes.
pub open spec fn spec_publish_topics(
    topics: Seq<ServerTopicView>,
    packet: PublishView,
    max_qos: QosLevel,
) -> Seq<ServerTopicView> {
    let retained = if packet.retain() {
        with_retained(topics, packet.topic, spec_retain(spec_taken_in(packet)), max_qos)
    } else {
        topics
    };
    if packet.qos() == QosLevel::ExactlyOnce {
        retained
    } else {
        with_topic(retained, packet.topic, max_qos)
    }
}

/// The QoS 2 entries after a PUBLISH of QoS 2 came in under `id` at `now`:
/// a PUBLISH marked DUP whose message still waits for its PUBREL changes
/// nothing, any other gets an entry.
pub open spec fn spec_publish_inflight(
    entries: Seq<ExactlyOnceView>,
    packet: PublishView,
    id: u16,
    now: u64,
) -> Seq<ExactlyOnceView> {
    if packet.dup() && awaits_release(entries, id) {
        entries
    } else {
        entries.push(
            ExactlyOnceView {
                packet,
                id,
                stage: QoS2Stage::Publish,
                last_change: now,
                retry_interval: RETRY_BASE,
            },
        )
    }
}

/// Takes in a PUBLISH from the client at `now` and hands out the packets to
/// answer with.
///
/// A PUBLISH of QoS 1 or 2 without a packet id breaks the protocol, and
/// nothing changes. Otherwise: a PUBLISH marked RETAIN is handed in for
/// retaining. At QoS 0 the message is routed and nothing is answered; at
/// QoS 1 it is routed and a PUBACK is answered; at QoS 2 it is kept until
/// its PUBREL comes and a PUBREC is answered, also where the message is a
/// duplicate of one that is kept already.
pub fn handle_publish(
    session: &mut ActiveSession,
    topics: &mut ServerTopics,
    packet: PublishPacket,
    now: u64,
) -> (r: Result<Vec<MqttPacket>, ServerError>)
    ensures
        final(topics).spec_max_qos() == old(topics).spec_max_qos(),
        match r {
            Err(e) => {
                &&& e.spec_kind() == ServerErrorKind::ProtocolError
                &&& packet@.qos() != QosLevel::AtMostOnce && packet@.packet_id is None
                &&& final(session)@ == old(session)@
                &&& final(topics)@ == old(topics)@
            },
            Ok(replies) => {
                &&& packet@.qos() == QosLevel::AtMostOnce || packet@.packet_id is Some
                &&& final(topics)@ == spec_publish_topics(
                    old(topics)@,
                    packet@,
                    old(topics).spec_max_qos(),
                )
                &&& packet@.qos() == QosLevel::AtMostOnce ==> packet_views(replies@)
                    == Seq::<MqttPacketView>::empty() && final(session)@ == old(session)@
                &&& packet@.qos() == QosLevel::AtLeastOnce ==> packet_views(replies@) == seq![
                    MqttPacketView::PubAck(packet@.packet_id.unwrap()),
                ] && final(session)@ == old(session)@
                &&& packet@.qos() == QosLevel::ExactlyOnce ==> packet_views(replies@) == seq![
                    MqttPacketView::PubRec(packet@.packet_id.unwrap()),
                ] && final(session)@ == (SessionView {
                    qos2: spec_publish_inflight(
                        old(session)@.qos2,
                        spec_kept(packet@),
                        packet@.packet_id.unwrap(),
                        now,
                    ),
                    ..old(session)@
                })
            },
        },
{
    let mut packet = packet;
    let ghost received = packet@;
    let mut replies: Vec<MqttPacket> = Vec::new();
    let id: Option<u16> = packet.id();
    match packet.qos() {
        QosLevel::AtMostOnce => {},
        _ => {
            if id.is_none() {
                return Err(
                    ServerError::of(
                        ServerErrorKind::ProtocolError,
                        "PUBLISH above QoS 0 had no packet id",
                    ),
                );
            }
        },
    }
    if packet.retain() {
        let mut stored = packet.clone();
        stored.set_dup(false);
        assert(stored@ == spec_taken_in(received));
        topics.retain_message(stored);
    }
    match packet.qos() {
        QosLevel::ExactlyOnce => {
            packet.set_retain(false);
            assert(packet@ == spec_kept(received));
            if let Some(rec) = session.publish(packet, now) {
                replies.push(MqttPacket::PubRec(rec));
            }
            assert(packet_views(replies@) =~= seq![
                MqttPacketView::PubRec(received.packet_id.unwrap()),
            ]);
        },
        QosLevel::AtLeastOnce => {
            let topic = packet.topic().clone();
            let arc_packet = Arc::new(routed_form(packet));
            replies.push(MqttPacket::PubAck(PubAckPacket::new(id.unwrap())));
            topics.publish(&topic, arc_packet);
            assert(packet_views(replies@) =~= seq![
                MqttPacketView::PubAck(received.packet_id.unwrap()),
            ]);
        },
        QosLevel::AtMostOnce => {
            let topic = packet.topic().clone();
            let arc_packet = Arc::new(routed_form(packet));
            topics.publish(&topic, arc_packet);
            assert(packet_views(replies@) =~= Seq::<MqttPacketView>::empty());
        },
    }
    Ok(replies)
}

/// The return codes that answer the entries of a SUBSCRIBE, in their order.
pub open spec fn spec_suback_codes(entries: Seq<SubscriptionView>, max_qos: QosLevel) -> Seq<
    SubAckQoS,
> {
    Seq::new(entries.len(), |i: int| spec_suback_code(entries[i], max_qos))
}

/// The session after the entries of a SUBSCRIBE were taken in at `now`, one
/// after the other: for each entry whose filter parsed, the session is
/// subscribed to the topics that the filter matches.
pub open spec fn spec_subscribed_all(
    session: SessionView,
    topics: Seq<ServerTopicView>,
    entries: Seq<SubscriptionView>,
    now: u64,
) -> SessionView
    decreases entries.len(),
{
    if entries.len() == 0 {
        session
    } else {
        let before = spec_subscribed_all(session, topics, entries.drop_last(), now);
        match entries.last() {
            Some(sub) => spec_subscribed(before, topics, sub, now),
            None => before,
        }
    }
}

/// The retained messages that go out when the entries of a SUBSCRIBE are
/// taken in at `now`, in the order of the entries and, for one entry, of
/// the topics.
pub open spec fn spec_subscribe_all_replies(
    session: SessionView,
    topics: Seq<ServerTopicView>,
    entries: Seq<SubscriptionView>,
    now: u64,
) -> Seq<MqttPacketView>
    decreases entries.len(),
{
    if entries.len() == 0 {
        Seq::<MqttPacketView>::empty()
    } else {
        let session_before = spec_subscribed_all(session, topics, entries.drop_last(), now);
        let before = spec_subscribe_all_replies(session, topics, entries.drop_last(), now);
        match entries.last() {
            Some(sub) => before + spec_subscribe_replies(session_before, topics, sub, now),
            None => before,
        }
    }
}

/// Takes in a SUBSCRIBE from the client at `now` and hands out the packets
/// to answer with: the retained messages of the topics that the filters
/// match, each as a PUBLISH, and last the SUBACK with one return code for
/// each entry, in the order of the entries.
///
/// For each entry whose filter parsed, the session is subscribed to the
/// topics that the filter matches. A SUBSCRIBE without entries breaks the
/// protocol, and nothing changes.
pub fn handle_subscribe(
    session: &mut ActiveSession,
    topics: &ServerTopics,
    packet: &SubscribePacket,
    now: u64,
) -> (r: Result<Vec<MqttPacket>, ServerError>)
    ensures
        match r {
            Err(e) => e.spec_kind() == ServerErrorKind::ProtocolError && packet@.entries.len()
                == 0 && final(session)@ == old(session)@,
            Ok(replies) => {
                &&& packet@.entries.len() > 0
                &&& final(session)@ == spec_subscribed_all(
                    old(session)@,
                    topics@,
                    packet@.entries,
                    now,
                )
                &&& packet_views(replies@) == spec_subscribe_all_replies(
                    old(session)@,
                    topics@,
                    packet@.entries,
                    now,
                ).push(
                    MqttPacketView::SubAck(
                        SubAckView {
                            packet_id: packet@.packet_id,
                            codes: spec_suback_codes(packet@.entries, topics.spec_max_qos()),
                        },
                    ),
                )
            },
        },
{
    let entries = packet.topic_filters();
    if entries.len() == 0 {
        return Err(
            ServerError::of(
                ServerErrorKind::ProtocolError,
                "Received SUBSCRIBE packet with no topic filters.",
            ),
        );
    }
    let ghost wanted = spec_suback_codes(packet@.entries, topics.spec_max_qos());
    let ghost asked = packet@.entries;
    let ghost first = session@;
    let mut replies: Vec<MqttPacket> = Vec::new();
    let mut resp: Vec<SubAckQoS> = Vec::new();
    let mut i: usize = 0;
    assert(asked.take(0) =~= Seq::<SubscriptionView>::empty());
    assert(packet_views(replies@) =~= Seq::<MqttPacketView>::empty());
    assert(asked =~= crate::v4::subscribe::entry_views(entries@));
    while i < entries.len()
        invariant
            i <= entries@.len(),
            asked == crate::v4::subscribe::entry_views(entries@),
            resp@.len() == i,
            forall|k: int| 0 <= k < i ==> resp@[k] == #[trigger] wanted[k],
            wanted == spec_suback_codes(asked, topics.spec_max_qos()),
            session@ == spec_subscribed_all(first, topics@, asked.take(i as int), now),
            packet_views(replies@) == spec_subscribe_all_replies(
                first,
                topics@,
                asked.take(i as int),
                now,
            ),
        decreases entries@.len() - i,
    {
        proof {
            assert(asked.take(i + 1).drop_last() =~= asked.take(i as int));
            assert(asked.take(i + 1).last() == entries@[i as int]@);
        }
        match &entries[i] {
            TopicFilterResult::Valid(sub) => {
                let _ = subscribe_to_topic_filter(topics, session, sub, now, &mut replies);
                resp.push(SubAckQoS::QOS(sub.qos().min(topics.max_qos())));
            },
            TopicFilterResult::Invalid => {
                resp.push(SubAckQoS::Failure);
            },
        }
        i = i + 1;
    }
    assert(asked.take(i as int) =~= asked);
    assert(resp@ =~= wanted);
    let ghost publishes = packet_views(replies@);
    let ack = MqttPacket::SubAck(SubAckPacket::new(packet.id(), resp));
    replies.push(ack);
    assert(packet_views(replies@) =~= publishes.push(ack@));
    Ok(replies)
}

/// The slots that stay when the filters are unsubscribed one after the
/// other.
pub open spec fn slots_after_unsubscribe(slots: Seq<MailView>, filters: Seq<Seq<Seq<char>>>)
    -> Seq<MailView>
    decreases filters.len(),
{
    if filters.len() == 0 {
        slots
    } else {
        slots_kept(slots_after_unsubscribe(slots, filters.drop_last()), filters.last())
    }
}

/// Takes in an UNSUBSCRIBE from the client: every slot whose topic one of
/// the filters matches is removed from the mailbox, and an UNSUBACK is
/// handed out.
pub fn handle_unsubscribe(session: &mut ActiveSession, filters: &Vec<TopicFilter>, id: u16) -> (r:
    UnsubAckPacket)
    ensures
        r@ == id,
        final(session)@ == (SessionView {
            slots: slots_after_unsubscribe(
                old(session)@.slots,
                crate::v4::unsubscribe::filter_views(filters@),
            ),
            ..old(session)@
        }),
{
    let ghost views = crate::v4::unsubscribe::filter_views(filters@);
    let mut i: usize = 0;
    assert(views.take(0) =~= Seq::<Seq<Seq<char>>>::empty());
    while i < filters.len()
        invariant
            i <= filters@.len(),
            views == crate::v4::unsubscribe::filter_views(filters@),
            session@ == (SessionView {
                slots: slots_after_unsubscribe(old(session)@.slots, views.take(i as int)),
                ..old(session)@
            }),
        decreases filters@.len() - i,
    {
        assert(views.take(i + 1).drop_last() =~= views.take(i as int));
        assert(views.take(i + 1).last() == filters@[i as int]@);
        session.mailbox_mut().remove_slot(&filters[i]);
        i = i + 1;
    }
    assert(views.take(i as int) =~= views);
    UnsubAckPacket::new(id)
}

/// Takes in a packet from the client at `now`, after the session has
/// begun, and says what to answer and whether to close.
///
/// - PUBLISH, SUBSCRIBE and UNSUBSCRIBE are handled as `handle_publish`,
///   `handle_subscribe` and `handle_unsubscribe` say.
/// - PINGREQ is answered with PINGRESP.
/// - PUBACK acknowledges the QoS 1 messages sent under its id.
/// - PUBREC moves on the QoS 2 message sent under its id, if one waits for
///   it, and is then answered with PUBREL.
/// - PUBREL releases the QoS 2 message that arrived under its id, if one
///   waits for it: the message is routed and PUBCOMP is answered.
/// - PUBCOMP completes the QoS 2 message sent under its id, if one waits
///   for it.
/// - DISCONNECT closes the connection.
/// - Any other packet breaks the protocol, and nothing changes.
pub fn handle_packet(
    session: &mut ActiveSession,
    topics: &mut ServerTopics,
    packet: MqttPacket,
    now: u64,
) -> (r: Result<Step, ServerError>)
    ensures
        final(topics).spec_max_qos() == old(topics).spec_max_qos(),
        (packet@ is Connect || packet@ is ConnAck || packet@ is SubAck || packet@ is UnsubAck
            || packet@ is PingResp) ==> r is Err && r->Err_0.spec_kind()
            == ServerErrorKind::ProtocolError && final(session)@ == old(session)@ && final(topics)@ == old(topics)@,
        r is Err ==> r->Err_0.spec_kind() == ServerErrorKind::ProtocolError && final(session)@
            == old(session)@ && final(topics)@ == old(topics)@,
        r is Ok ==> r->Ok_0.close == packet@ is Disconnect,
        packet@ is Disconnect ==> r is Ok && r->Ok_0.replies@.len() == 0 && final(session)@
            == old(session)@ && final(topics)@ == old(topics)@,
        packet@ is PingReq ==> r is Ok && packet_views(r->Ok_0.replies@) == seq![
            MqttPacketView::PingResp,
        ] && final(session)@ == old(session)@ && final(topics)@ == old(topics)@,
        packet@ is PubAck ==> r is Ok && r->Ok_0.replies@.len() == 0 && final(topics)@ == old(topics)@ && final(session)@ == (SessionView {
            qos1: at_least_once_acknowledged(old(session)@.qos1, packet@->PubAck_0, now),
            ..old(session)@
        }),
        packet@ is PubRec ==> r is Ok && final(topics)@ == old(topics)@ && final(session)@ == (
        SessionView {
            qos2: exactly_once_moved(
                old(session)@.qos2,
                packet@->PubRec_0,
                QoS2Stage::Origin,
                QoS2Stage::Rec,
                now,
            ),
            ..old(session)@
        }) && packet_views(r->Ok_0.replies@) == (if exactly_once_found(
            old(session)@.qos2,
            packet@->PubRec_0,
            QoS2Stage::Origin,
        ) is Some {
            seq![MqttPacketView::PubRel(packet@->PubRec_0)]
        } else {
            Seq::<MqttPacketView>::empty()
        }),
        packet@ is PubRel ==> r is Ok && final(session)@ == (SessionView {
            qos2: exactly_once_moved(
                old(session)@.qos2,
                packet@->PubRel_0,
                QoS2Stage::Publish,
                QoS2Stage::Rel,
                now,
            ),
            ..old(session)@
        }) && (match exactly_once_found(
            old(session)@.qos2,
            packet@->PubRel_0,
            QoS2Stage::Publish,
        ) {
            Some(e) => packet_views(r->Ok_0.replies@) == seq![
                MqttPacketView::PubComp(packet@->PubRel_0),
            ] && final(topics)@ == with_topic(
                old(topics)@,
                e.packet.topic,
                old(topics).spec_max_qos(),
            ),
            None => r->Ok_0.replies@.len() == 0 && final(topics)@ == old(topics)@,
        }),
        packet@ is PubComp ==> r is Ok && r->Ok_0.replies@.len() == 0 && final(topics)@ == old(topics)@ && final(session)@ == (SessionView {
            qos2: exactly_once_moved(
                old(session)@.qos2,
                packet@->PubComp_0,
                QoS2Stage::Rec,
                QoS2Stage::Comp,
                now,
            ),
            ..old(session)@
        }),
        packet@ is Unsubscribe ==> r is Ok && packet_views(r->Ok_0.replies@) == seq![
            MqttPacketView::UnsubAck(packet@->Unsubscribe_0.packet_id),
        ] && final(topics)@ == old(topics)@ && final(session)@ == (SessionView {
            slots: slots_after_unsubscribe(
                old(session)@.slots,
                packet@->Unsubscribe_0.filters,
            ),
            ..old(session)@
        }),
        packet@ is Publish ==> (r is Err <==> packet@->Publish_0.qos() != QosLevel::AtMostOnce
            && packet@->Publish_0.packet_id is None),
        packet@ is Publish && r is Ok ==> final(topics)@ == spec_publish_topics(
            old(topics)@,
            packet@->Publish_0,
            old(topics).spec_max_qos(),
        ) && packet_views(r->Ok_0.replies@) == spec_publish_replies(packet@->Publish_0)
            && final(session)@ == spec_publish_session(old(session)@, packet@->Publish_0, now),
        packet@ is Subscribe ==> final(topics)@ == old(topics)@ && (r is Err
            <==> packet@->Subscribe_0.entries.len() == 0),
        packet@ is Subscribe && r is Ok ==> final(session)@ == spec_subscribed_all(
            old(session)@,
            old(topics)@,
            packet@->Subscribe_0.entries,
            now,
        ) && packet_views(r->Ok_0.replies@) == spec_subscribe_all_replies(
            old(session)@,
            old(topics)@,
            packet@->Subscribe_0.entries,
            now,
        ).push(
            MqttPacketView::SubAck(
                SubAckView {
                    packet_id: packet@->Subscribe_0.packet_id,
                    codes: spec_suback_codes(
                        packet@->Subscribe_0.entries,
                        old(topics).spec_max_qos(),
                    ),
                },
            ),
        ),
{
    let mut replies: Vec<MqttPacket> = Vec::new();
    assert(packet_views(replies@) =~= Seq::<MqttPacketView>::empty());
    match packet {
        MqttPacket::Subscribe(packet) => {
            match handle_subscribe(session, topics, &packet, now) {
                Ok(out) => {
                    replies = out;
                },
                Err(e) => {
                    return Err(e);
                },
            }
        },
        MqttPacket::Publish(packet) => {
            match handle_publish(session, topics, packet, now) {
                Ok(out) => {
                    replies = out;
                },
                Err(e) => {
                    return Err(e);
                },
            }
        },
        MqttPacket::PingReq(_packet) => {
            replies.push(MqttPacket::PingResp(PingRespPacket::new()));
            assert(packet_views(replies@) =~= seq![MqttPacketView::PingResp]);
        },
        MqttPacket::PubAck(in_packet) => {
            let _ = session.ack(in_packet.id(), now);
        },
        MqttPacket::PubRec(in_packet) => {
            if let Some(packet) = session.rec(in_packet.id(), now) {
                replies.push(MqttPacket::PubRel(packet));
                assert(packet_views(replies@) =~= seq![MqttPacketView::PubRel(in_packet@)]);
            }
        },
        MqttPacket::PubRel(in_packet) => {
            if let Some(forw_packet) = session.rel(in_packet.id(), now) {
                replies.push(MqttPacket::PubComp(PubCompPacket::new(in_packet.id())));
                assert(packet_views(replies@) =~= seq![MqttPacketView::PubComp(in_packet@)]);
                let topic = forw_packet.topic().clone();
                topics.publish(&topic, Arc::new(routed_form(forw_packet)));
            }
        },
        MqttPacket::PubComp(in_packet) => {
            session.comp(in_packet.id(), now);
        },
        MqttPacket::Unsubscribe(in_packet) => {
            let ack = handle_unsubscribe(session, in_packet.filters(), in_packet.id());
            replies.push(MqttPacket::UnsubAck(ack));
            assert(packet_views(replies@) =~= seq![MqttPacketView::UnsubAck(in_packet@.packet_id)]);
        },
        MqttPacket::Disconnect(_packet) => {
            return Ok(Step { replies, close: true });
        },
        _ => {
            return Err(
                ServerError::of(
                    ServerErrorKind::ProtocolError,
                    "MQTT Broker does not support packet type.",
                ),
            );
        },
    }
    Ok(Step { replies, close: false })
}

/// The packets that answer a PUBLISH with a packet id where its QoS asks
/// for one: nothing at QoS 0, a PUBACK at QoS 1, a PUBREC at QoS 2.
pub open spec fn spec_publish_replies(packet: PublishView) -> Seq<MqttPacketView> {
    if packet.qos() == QosLevel::AtMostOnce {
        Seq::<MqttPacketView>::empty()
    } else if packet.qos() == QosLevel::AtLeastOnce {
        seq![MqttPacketView::PubAck(packet.packet_id.unwrap())]
    } else {
        seq![MqttPacketView::PubRec(packet.packet_id.unwrap())]
    }
}

/// The session after a PUBLISH came in at `now`: as it was at QoS 0 and 1,
/// with the message kept among the QoS 2 entries at QoS 2.
pub open spec fn spec_publish_session(session: SessionView, packet: PublishView, now: u64)
    -> SessionView {
    if packet.qos() == QosLevel::ExactlyOnce {
        SessionView {
            qos2: spec_publish_inflight(
                session.qos2,
                spec_kept(packet),
                packet.packet_id.unwrap(),
                now,
            ),
            ..session
        }
    } else {
        session
    }
}

/// Forwards to the client what waits in its mailbox at `now`, slot by slot
/// and at most `budget` messages from each slot, and hands out the PUBLISH
/// packets to send. Each message goes out at the lower of its QoS and the
/// QoS granted to the slot, without RETAIN. A slot that fell behind goes on
/// with the oldest message that is still there; a slot whose channel is
/// closed is passed over.
///
/// Which messages wait is for the channels to say. Whatever they are, the
/// session ends as if it had taken them on one after the other, each for
/// the QoS granted to one of its slots, and the packets handed out are the
/// ones that went out on the way. With no slot or no budget nothing is taken
/// and nothing changes.
pub fn drain_mailbox(session: &mut ActiveSession, budget: usize, now: u64) -> (out: Vec<MqttPacket>)
    ensures
        exists|mails: Seq<(PublishView, QosLevel)>|
            {
                &&& #[trigger] spec_drained(old(session)@, mails, now) == final(session)@
                &&& packet_views(out@) == spec_drain_replies(old(session)@, mails, now)
                &&& mails.len() <= old(session)@.slots.len() * budget
                &&& forall|k: int|
                    0 <= k < mails.len() ==> grants_slot(
                        old(session)@.slots,
                        (#[trigger] mails[k]).1,
                    )
            },
        old(session)@.slots.len() == 0 || budget == 0 ==> out@.len() == 0 && final(session)@
            == old(session)@,
        out@.len() <= old(session)@.slots.len() * budget,
        forall|i: int|
            0 <= i < out@.len() ==> (#[trigger] out@[i])@ is Publish
                && !out@[i]@->Publish_0.retain() && !out@[i]@->Publish_0.dup(),
        final(session)@.slots == old(session)@.slots,
        final(session)@.client_id == old(session)@.client_id,
        final(session)@.will == old(session)@.will,
        final(session)@.keep_alive == old(session)@.keep_alive,
        final(session)@.last_read == old(session)@.last_read,
        final(session)@.clean == old(session)@.clean,
{
    let mut out: Vec<MqttPacket> = Vec::new();
    let slots: usize = session.mailbox().len();
    let ghost first = session@;
    let ghost mut mails: Seq<(PublishView, QosLevel)> = Seq::empty();
    let mut i: usize = 0;
    assert(packet_views(out@) =~= Seq::<MqttPacketView>::empty());
    while i < slots
        invariant
            i <= slots,
            first == old(session)@,
            slots == first.slots.len(),
            session@ == spec_drained(first, mails, now),
            packet_views(out@) == spec_drain_replies(first, mails, now),
            mails.len() <= i * budget,
            out@.len() <= mails.len(),
            forall|k: int| 0 <= k < mails.len() ==> grants_slot(first.slots, (#[trigger] mails[k]).1),
            forall|k: int|
                0 <= k < out@.len() ==> (#[trigger] out@[k])@ is Publish
                    && !out@[k]@->Publish_0.retain() && !out@[k]@->Publish_0.dup(),
            session@.slots == first.slots,
            session@.client_id == first.client_id,
            session@.will == first.will,
            session@.keep_alive == first.keep_alive,
            session@.last_read == first.last_read,
            session@.clean == first.clean,
        decreases slots - i,
    {
        let granted = session.mailbox().qos_at(i);
        assert(grants_slot(first.slots, granted)) by {
            assert(first.slots[i as int].qos == granted);
        }
        let mut left: usize = budget;
        let mut open: bool = true;
        while left > 0 && open
            invariant
                i < slots,
                left <= budget,
                slots == first.slots.len(),
                grants_slot(first.slots, granted),
                session@ == spec_drained(first, mails, now),
                packet_views(out@) == spec_drain_replies(first, mails, now),
                mails.len() <= i * budget + (budget - left),
                out@.len() <= mails.len(),
                forall|k: int|
                    0 <= k < mails.len() ==> grants_slot(first.slots, (#[trigger] mails[k]).1),
                forall|k: int|
                    0 <= k < out@.len() ==> (#[trigger] out@[k])@ is Publish
                        && !out@[k]@->Publish_0.retain() && !out@[k]@->Publish_0.dup(),
                session@.slots == first.slots,
                session@.client_id == first.client_id,
                session@.will == first.will,
                session@.keep_alive == first.keep_alive,
                session@.last_read == first.last_read,
                session@.clean == first.clean,
            decreases left,
        {
            let received = session.mailbox_mut().recv_at(i);
            let ghost got = received;
            let ghost before = session@;
            let ghost taken = mails;
            let ghost sent = out@;
            let (forwarded, goes_on) = forward_received(session, received, granted, now);
            proof {
                match got {
                    Ok(Some(packet)) => {
                        mails = taken.push((packet@, granted));
                        assert(mails.drop_last() =~= taken);
                        assert(mails.last() == (packet@, granted));
                    },
                    _ => {},
                }
            }
            if let Some(packet) = forwarded {
                out.push(MqttPacket::Publish(packet));
                assert(packet_views(out@) =~= packet_views(sent).push(
                    MqttPacketView::Publish(packet@),
                ));
                assert forall|k: int| 0 <= k < out@.len() implies (#[trigger] out@[k])@ is Publish
                    && !out@[k]@->Publish_0.retain() && !out@[k]@->Publish_0.dup() by {
                    if k < sent.len() {
                        assert(out@[k] == sent[k]);
                    }
                }
            }
            open = goes_on;
            left = left - 1;
        }
        assert(i * budget + budget == (i + 1) * budget) by (nonlinear_arith);
        i = i + 1;
    }
    assert(mails.len() <= slots * budget);
    assert(slots == 0 || budget == 0 ==> mails.len() == 0) by (nonlinear_arith)
        requires
            mails.len() <= slots * budget,
    ;
    out
}

/// Whether one of the slots was granted `qos`.
pub open spec fn grants_slot(slots: Seq<MailView>, qos: QosLevel) -> bool {
    exists|i: int| 0 <= i < slots.len() && (#[trigger] slots[i]).qos == qos
}

/// The session after it took on, at `now`, the messages of `mails` one
/// after the other, each for a subscriber who was granted the QoS that goes
/// with it.
pub open spec fn spec_drained(session: SessionView, mails: Seq<(PublishView, QosLevel)>, now: u64)
    -> SessionView
    decreases mails.len(),
{
    if mails.len() == 0 {
        session
    } else {
        spec_drained(session, mails.drop_last(), now).originated(
            spec_forwarded(mails.last().0, mails.last().1, false),
            now,
        )
    }
}

/// The packets that go out when a session takes on the messages of `mails`
/// one after the other: for each message the PUBLISH that forwards it,
/// unless no packet id is to be had for it.
pub open spec fn spec_drain_replies(
    session: SessionView,
    mails: Seq<(PublishView, QosLevel)>,
    now: u64,
) -> Seq<MqttPacketView>
    decreases mails.len(),
{
    if mails.len() == 0 {
        Seq::<MqttPacketView>::empty()
    } else {
        let session_before = spec_drained(session, mails.drop_last(), now);
        let before = spec_drain_replies(session, mails.drop_last(), now);
        match session_before.outgoing(spec_forwarded(mails.last().0, mails.last().1, false)) {
            Some(p) => before.push(MqttPacketView::Publish(p)),
            None => before,
        }
    }
}

/// Deals with what a slot of the mailbox handed out at `now`, for a
/// subscriber who was granted `granted`, and says whether the slot is to be
/// read on.
///
/// A message is taken on by the session and goes out, without RETAIN, at
/// the lower of its QoS and `granted`, unless no packet id is to be had for
/// it; the slot is read on. Where nothing was waiting the slot is done. A
/// slot that fell behind has said so and is read on; any other failure ends
/// the reading of the slot. But for a message, the session stays as it is.
pub fn forward_received(
    session: &mut ActiveSession,
    received: Result<Option<Arc<PublishPacket>>, ServerError>,
    granted: QosLevel,
    now: u64,
) -> (r: (Option<PublishPacket>, bool))
    ensures
        match received {
            Ok(Some(packet)) => {
                &&& final(session)@ == old(session)@.originated(
                    spec_forwarded(packet@, granted, false),
                    now,
                )
                &&& publish_view(r.0) == old(session)@.outgoing(
                    spec_forwarded(packet@, granted, false),
                )
                &&& r.1
            },
            Ok(None) => final(session)@ == old(session)@ && r.0 is None && !r.1,
            Err(e) => final(session)@ == old(session)@ && r.0 is None && r.1 == (e.spec_kind()
                is FullMailbox),
        },
{
    match received {
        Ok(Some(packet)) => (session.forward(&*packet, granted, false, now), true),
        Ok(None) => (None, false),
        Err(err) => {
            match err.kind() {
                ServerErrorKind::FullMailbox(_) => (None, true),
                _ => (None, false),
            }
        },
    }
}

/// The PUBLISH that carries a will, under the packet id `id` where the QoS
/// of the will asks for one.
pub open spec fn spec_will_packet(will: WillView, id: Option<u16>) -> PublishView {
    PublishView {
        flags: spec_publish_flags(false, will.qos, false),
        topic: will.topic,
        packet_id: if will.qos == QosLevel::AtMostOnce {
            None
        } else {
            id
        },
        payload: vstd::utf8::encode_utf8(will.message),
    }
}

/// Whether the will of a session gets published when its connection ends
/// without a DISCONNECT: there is a will, and a packet id is to be had where
/// the QoS of the will asks for one.
pub open spec fn spec_will_goes_out(session: SessionView) -> bool {
    match session.will {
        Some(w) => w.qos == QosLevel::AtMostOnce || session.next_id() is Some,
        None => false,
    }
}

/// The session after its will was published, or was tried to be.
pub open spec fn spec_will_session(session: SessionView) -> SessionView {
    match session.will {
        Some(w) => if w.qos == QosLevel::AtMostOnce {
            session
        } else {
            session.allocated()
        },
        None => session,
    }
}

/// The registry after the will of a session was published: the will is
/// handed in for retaining where it asks for that, and routed.
pub open spec fn spec_will_topics(
    topics: Seq<ServerTopicView>,
    session: SessionView,
    max_qos: QosLevel,
) -> Seq<ServerTopicView> {
    if spec_will_goes_out(session) {
        let will = session.will.unwrap();
        let packet = spec_will_packet(will, session.next_id());
        let retained = if will.retain {
            with_retained(topics, will.topic, spec_retain(packet), max_qos)
        } else {
            topics
        };
        with_topic(retained, will.topic, max_qos)
    } else {
        topics
    }
}

/// Publishes the will of a session, if it has one, and says whether it did.
/// A will of QoS 1 or 2 takes a packet id of the session; where none is to
/// be had, the will is not published.
pub fn publish_will(session: &mut ActiveSession, topics: &mut ServerTopics) -> (published: bool)
    ensures
        published == spec_will_goes_out(old(session)@),
        final(session)@ == spec_will_session(old(session)@),
        final(topics)@ == spec_will_topics(
            old(topics)@,
            old(session)@,
            old(topics).spec_max_qos(),
        ),
        final(topics).spec_max_qos() == old(topics).spec_max_qos(),
{
    let will: Will = match session.will() {
        Some(will) => will.clone(),
        None => {
            return false;
        },
    };
    let message: String = will.will_message();
    let mut packet = PublishPacket::new(
        will.will_topic(),
        bytes_copy_from_slice(message.as_str().as_bytes()),
    );
    match will.will_qos() {
        QosLevel::AtMostOnce => {},
        QosLevel::AtLeastOnce => {
            match session.next_id() {
                Some(id) => {
                    packet.set_qos_atleastonce(id);
                },
                None => {
                    return false;
                },
            }
        },
        QosLevel::ExactlyOnce => {
            match session.next_id() {
                Some(id) => {
                    packet.set_qos_exactlyonce(id);
                },
                None => {
                    return false;
                },
            }
        },
    }
    assert(packet@ == spec_will_packet(will@, old(session)@.next_id()));
    if will.will_retain() {
        topics.retain_message(packet.clone());
    }
    let topic = packet.topic().clone();
    topics.publish(&topic, Arc::new(packet));
    true
}

/// Ends a session. Unless the client said goodbye with a DISCONNECT, its
/// will is published. A session that was not to be clean is filed in the
/// registry of records, where it replaces an older record of the same
/// client; a clean session is dropped.
pub fn terminate(
    session: ActiveSession,
    sessions: &mut DisconnectedSessions,
    topics: &mut ServerTopics,
    graceful: bool,
)
    ensures
        final(topics).spec_max_qos() == old(topics).spec_max_qos(),
        final(topics)@ == (if graceful {
            old(topics)@
        } else {
            spec_will_topics(old(topics)@, session@, old(topics).spec_max_qos())
        }),
        final(sessions)@ == (if session@.clean {
            old(sessions)@
        } else {
            crate::session::with_session(
                old(sessions)@,
                spec_record(
                    if graceful {
                        session@
                    } else {
                        spec_will_session(session@)
                    },
                ),
            )
        }),
{
    let mut session = session;
    if !graceful {
        let _ = publish_will(&mut session, topics);
    }
    if !session.is_clean() {
        sessions.add_session(DisconnectedSession::from(session));
    }
}

/// The record that is kept of a session.
pub open spec fn spec_record(session: SessionView) -> DisconnectedView {
    DisconnectedView {
        client_id: session.client_id,
        keep_alive: session.keep_alive,
        last_seen: session.last_read,
        qos1: session.qos1,
        qos2: session.qos2,
        slots: session.slots,
    }
}

} // verus!
