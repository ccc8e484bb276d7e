//! The sessions of the broker: the session of a client that is connected,
//! the record that is kept of one that is not, and the registry of those
//! records.
//!
//! Time is a number of milliseconds on a clock that the caller reads.
use crate::err::ServerError;
use crate::id::{spec_next_id, IdGenType, IdGenerator};
use crate::mailbox::{MailView, Mailbox};
use crate::msg_assurance::sender::{
    at_least_once_acknowledged, at_least_once_ids, at_least_once_kept, at_least_once_released,
    at_least_once_retries, exactly_once_found, exactly_once_ids, exactly_once_kept,
    exactly_once_moved, exactly_once_released, exactly_once_retries, awaits_release, packet_views,
    AtLeastOnceList, AtLeastOnceView, ExactlyOnceList, ExactlyOnceView, QoS2Stage,
};
use crate::msg_assurance::{QoS1Stage, RETRY_BASE};
use crate::qos::QosLevel;
use crate::v4::connect::{will_view, ConnectPacket, Will, WillView, spec_conn_clean_session};
use crate::v4::packet::MqttPacket;
use crate::v4::puback::PubAckPacket;
use crate::v4::publish::{spec_publish_flags, PublishPacket, PublishView};
use crate::v4::pubrec::PubRecPacket;
use crate::v4::pubrel::PubRelPacket;
use vstd::prelude::*;

verus! {

/// The length of an inflight list above which the session cleans it.
pub const CLEAN_MAX: usize = 4095;

/// How a client is connected.
#[derive(Clone, Copy, Debug, PartialEq, Eq, Structural)]
pub enum ConnectionType {
    Tcp,
}

/// The protocol that a session speaks, with its level.
#[derive(Clone, Copy, Debug, PartialEq, Eq, Structural)]
pub enum Protocol {
    Mqtt(u8),
}

/// `used` without the ids of `ids`.
pub open spec fn without_ids(used: Set<u16>, ids: Seq<u16>) -> Set<u16>
    decreases ids.len(),
{
    if ids.len() == 0 {
        used
    } else {
        without_ids(used, ids.drop_last()).remove(ids.last())
    }
}

/// `used` with the ids of `ids`.
pub open spec fn with_ids(used: Set<u16>, ids: Seq<u16>) -> Set<u16>
    decreases ids.len(),
{
    if ids.len() == 0 {
        used
    } else {
        with_ids(used, ids.drop_last()).insert(ids.last())
    }
}

/// Whether more than one and a half times `keep_alive` seconds lie between
/// `last_read` and `now`. A keep-alive of 0 never runs out.
pub open spec fn spec_keep_alive_over(keep_alive: u64, last_read: u64, now: u64) -> bool {
    keep_alive != 0 && now > last_read && 2 * (now - last_read) > 3000 * keep_alive
}

/// Whether more than `keep_alive` whole seconds lie between `last_seen` and
/// `now`. A keep-alive of 0 never runs out.
pub open spec fn spec_expired(keep_alive: u64, last_seen: u64, now: u64) -> bool {
    keep_alive != 0 && now > last_seen && (now - last_seen) / 1000 > keep_alive
}

/// What a session holds, but for the channels of its mailbox.
pub struct SessionView {
    pub client_id: Seq<char>,
    pub will: Option<WillView>,
    /// The keep-alive interval in seconds; 0 switches it off.
    pub keep_alive: u64,
    /// The reading of the clock when the last packet came in.
    pub last_read: u64,
    /// Whether the session ends with the connection.
    pub clean: bool,
    pub qos1: Seq<AtLeastOnceView>,
    pub qos2: Seq<ExactlyOnceView>,
    /// The packet ids that are in use.
    pub used_ids: Set<u16>,
    /// The packet id handed out last.
    pub cursor: u16,
    pub slots: Seq<MailView>,
}

impl SessionView {
    /// The session after both inflight lists were cleaned and the packet ids
    /// of the entries removed were released.
    pub open spec fn cleaned(self) -> SessionView {
        SessionView {
            qos1: at_least_once_kept(self.qos1),
            qos2: exactly_once_kept(self.qos2),
            used_ids: without_ids(
                without_ids(self.used_ids, at_least_once_released(self.qos1)),
                exactly_once_released(self.qos2),
            ),
            ..self
        }
    }

    /// The session after the housekeeping of a round: each inflight list
    /// that is longer than `CLEAN_MAX` is cleaned, and the packet ids of the
    /// entries removed are released.
    pub open spec fn tidied(self) -> SessionView {
        let first = if self.qos1.len() > CLEAN_MAX {
            SessionView {
                qos1: at_least_once_kept(self.qos1),
                used_ids: without_ids(self.used_ids, at_least_once_released(self.qos1)),
                ..self
            }
        } else {
            self
        };
        if self.qos2.len() > CLEAN_MAX {
            SessionView {
                qos2: exactly_once_kept(self.qos2),
                used_ids: without_ids(first.used_ids, exactly_once_released(self.qos2)),
                ..first
            }
        } else {
            first
        }
    }

    /// The session that packet ids are handed out from: the session itself
    /// while it has a free id, the cleaned session once it has none.
    pub open spec fn allocating(self) -> SessionView {
        if spec_next_id(self.used_ids, self.cursor) is Some {
            self
        } else {
            self.cleaned()
        }
    }

    /// The packet id that the session hands out next, if it can hand out
    /// any, before or after a cleanup.
    pub open spec fn next_id(self) -> Option<u16> {
        spec_next_id(self.allocating().used_ids, self.allocating().cursor)
    }

    /// The session after it handed out its next packet id, or tried to.
    pub open spec fn allocated(self) -> SessionView {
        match self.next_id() {
            Some(id) => SessionView {
                used_ids: self.allocating().used_ids.insert(id),
                cursor: id,
                ..self.allocating()
            },
            None => self.allocating(),
        }
    }

    /// The session after it took on `packet` for sending at `now`: a QoS 0
    /// message leaves it as it is; a message of a higher QoS takes the next
    /// packet id and an entry in the inflight list of its QoS, if there is
    /// an id to be had.
    pub open spec fn originated(self, packet: PublishView, now: u64) -> SessionView {
        if packet.qos() == QosLevel::AtMostOnce {
            self
        } else {
            match self.next_id() {
                None => self.allocated(),
                Some(id) => if packet.qos() == QosLevel::AtLeastOnce {
                    SessionView {
                        qos1: self.allocated().qos1.push(
                            AtLeastOnceView {
                                packet,
                                id,
                                stage: QoS1Stage::Origin,
                                last_change: now,
                                retry_interval: RETRY_BASE,
                            },
                        ),
                        ..self.allocated()
                    }
                } else {
                    SessionView {
                        qos2: self.allocated().qos2.push(
                            ExactlyOnceView {
                                packet,
                                id,
                                stage: QoS2Stage::Origin,
                                last_change: now,
                                retry_interval: RETRY_BASE,
                            },
                        ),
                        ..self.allocated()
                    }
                },
            }
        }
    }

    /// The PUBLISH that goes out when the session takes on `packet`: the
    /// packet itself at QoS 0, the packet under its new id at a higher QoS,
    /// nothing where no id is to be had.
    pub open spec fn outgoing(self, packet: PublishView) -> Option<PublishView> {
        if packet.qos() == QosLevel::AtMostOnce {
            Some(packet)
        } else {
            match self.next_id() {
                None => None,
                Some(id) => Some(PublishView { packet_id: Some(id), ..packet }),
            }
        }
    }
}

/// A message as it is forwarded to a subscriber who was granted `granted`:
/// at the lower of the granted QoS and its own, without DUP, without a
/// packet id yet, and with RETAIN as `retain` says.
pub open spec fn spec_forwarded(packet: PublishView, granted: QosLevel, retain: bool)
    -> PublishView {
    PublishView {
        flags: spec_publish_flags(false, granted.spec_min(packet.qos()), retain),
        packet_id: None,
        ..packet
    }
}

/// The session of a client that is connected.
#[derive(Debug)]
pub struct ActiveSession {
    client_id: String,
    conn_t: ConnectionType,
    protocol: Protocol,
    will: Option<Will>,
    keep_alive: u64,
    last_read: u64,
    clean: bool,
    qos1_packets: AtLeastOnceList,
    qos2_packets: ExactlyOnceList,
    id_gen: IdGenerator,
    mailbox: Mailbox,
}

impl View for ActiveSession {
    type V = SessionView;

    closed spec fn view(&self) -> SessionView {
        SessionView {
            client_id: self.client_id@,
            will: will_view(self.will),
            keep_alive: self.keep_alive,
            last_read: self.last_read,
            clean: self.clean,
            qos1: self.qos1_packets@,
            qos2: self.qos2_packets@,
            used_ids: self.id_gen.used(),
            cursor: self.id_gen.cursor(),
            slots: self.mailbox@,
        }
    }
}

/// The session that a CONNECT begins at `now` where nothing is resumed.
pub open spec fn spec_fresh_session(packet: crate::v4::connect::ConnectView, now: u64)
    -> SessionView {
    SessionView {
        client_id: packet.client_id,
        will: packet.will,
        keep_alive: packet.keep_alive as u64,
        last_read: now,
        clean: spec_conn_clean_session(packet.flags),
        qos1: Seq::<AtLeastOnceView>::empty(),
        qos2: Seq::<ExactlyOnceView>::empty(),
        used_ids: Set::<u16>::empty(),
        cursor: 65_534u16,
        slots: Seq::<MailView>::empty(),
    }
}

impl ActiveSession {
    /// The session that a CONNECT begins at `now` where nothing is resumed.
    pub fn new_tcp(packet: ConnectPacket, now: u64) -> (s: Self)
        ensures
            s@ == spec_fresh_session(packet@, now),
    {
        let client_id: String = packet.client_id().to_owned();
        let will: Option<Will> = match packet.will() {
            Some(w) => Some(w.clone()),
            None => None,
        };
        Self {
            client_id,
            conn_t: ConnectionType::Tcp,
            protocol: Protocol::Mqtt(4),
            will,
            keep_alive: packet.keep_alive() as u64,
            last_read: now,
            clean: packet.clean_session(),
            qos1_packets: AtLeastOnceList::new(),
            qos2_packets: ExactlyOnceList::new(),
            id_gen: IdGenerator::new(IdGenType::Broker),
            mailbox: Mailbox::new(),
        }
    }

    pub fn client_id(&self) -> (id: &str)
        ensures
            id@ == self@.client_id,
    {
        self.client_id.as_str()
    }

    pub fn will(&self) -> (w: &Option<Will>)
        ensures
            will_view(*w) == self@.will,
    {
        &self.will
    }

    /// Whether the session ends with the connection.
    pub fn is_clean(&self) -> (b: bool)
        ensures
            b == self@.clean,
    {
        self.clean
    }

    /// The mailbox of the session.
    pub fn mailbox(&self) -> (m: &Mailbox)
        ensures
            m@ == self@.slots,
    {
        &self.mailbox
    }

    /// The mailbox of the session, to add and remove slots.
    pub fn mailbox_mut(&mut self) -> (m: &mut Mailbox)
        ensures
            m@ == old(self)@.slots,
            final(self)@ == (SessionView { slots: final(m)@, ..old(self)@ }),
    {
        &mut self.mailbox
    }

    /// Notes that a packet came in at `now`.
    pub fn update_last_read(&mut self, now: u64)
        ensures
            final(self)@ == (SessionView { last_read: now, ..old(self)@ }),
    {
        self.last_read = now;
    }

    /// Whether the client has been silent at `now` for more than one and a
    /// half times its keep-alive.
    pub fn timed_out(&self, now: u64) -> (b: bool)
        ensures
            b == spec_keep_alive_over(self@.keep_alive, self@.last_read, now),
    {
        if self.keep_alive == 0 || now <= self.last_read {
            return false;
        }
        let elapsed: u128 = (now - self.last_read) as u128;
        2 * elapsed > 3000 * (self.keep_alive as u128)
    }

    /// Whether the transport leaves it to the session to retry packets. TCP
    /// delivers or fails, so it does not.
    pub fn should_retry_packets(&self) -> (b: bool)
        ensures
            !b,
    {
        match self.conn_t {
            ConnectionType::Tcp => false,
        }
    }

    /// Runs a retry round at `now`: hands out the retry packets of the
    /// QoS 1 entries that are due, then those of the QoS 2 entries, and lets
    /// each of these entries take one step of backoff.
    pub fn retry_packets(&mut self, now: u64) -> (out: Vec<MqttPacket>)
        ensures
            packet_views(out@) == at_least_once_retries(old(self)@.qos1, now)
                + exactly_once_retries(old(self)@.qos2, now),
            final(self)@.qos1.len() == old(self)@.qos1.len(),
            final(self)@.qos2.len() == old(self)@.qos2.len(),
            forall|i: int|
                0 <= i < old(self)@.qos1.len() ==> #[trigger] final(self)@.qos1[i] == (if old(
                    self,
                )@.qos1[i].retry_due(now) {
                    old(self)@.qos1[i].backed_off()
                } else {
                    old(self)@.qos1[i]
                }),
            forall|i: int|
                0 <= i < old(self)@.qos2.len() ==> #[trigger] final(self)@.qos2[i] == (if old(
                    self,
                )@.qos2[i].retry_due(now) {
                    old(self)@.qos2[i].backed_off()
                } else {
                    old(self)@.qos2[i]
                }),
            final(self)@ == (SessionView {
                qos1: final(self)@.qos1,
                qos2: final(self)@.qos2,
                ..old(self)@
            }),
    {
        let mut out = self.qos1_packets.retry(now);
        let mut more = self.qos2_packets.retry(now);
        let ghost first = packet_views(out@);
        let ghost second = packet_views(more@);
        out.append(&mut more);
        assert(packet_views(out@) =~= first + second);
        out
    }

    /// Releases the packet ids of `ids`.
    fn free_ids(&mut self, ids: &Vec<u16>)
        ensures
            final(self)@ == (SessionView {
                used_ids: without_ids(old(self)@.used_ids, ids@),
                ..old(self)@
            }),
    {
        let mut i: usize = 0;
        assert(ids@.take(0) =~= Seq::<u16>::empty());
        while i < ids.len()
            invariant
                i <= ids@.len(),
                self@ == (SessionView {
                    used_ids: without_ids(old(self)@.used_ids, ids@.take(i as int)),
                    ..old(self)@
                }),
            decreases ids@.len() - i,
        {
            assert(ids@.take(i + 1).drop_last() =~= ids@.take(i as int));
            self.id_gen.free_id(ids[i]);
            i = i + 1;
        }
        assert(ids@.take(i as int) =~= ids@);
    }

    /// The housekeeping of a round: cleans each inflight list that has
    /// grown longer than `CLEAN_MAX` and releases the packet ids of the
    /// entries removed.
    pub fn clean_session(&mut self)
        ensures
            final(self)@ == old(self)@.tidied(),
    {
        if self.qos1_packets.len() > CLEAN_MAX {
            let ids = self.qos1_packets.clean();
            self.free_ids(&ids);
        }
        if self.qos2_packets.len() > CLEAN_MAX {
            let ids = self.qos2_packets.clean();
            self.free_ids(&ids);
        }
    }

    /// Cleans both inflight lists, whatever their length, and releases the
    /// packet ids of the entries removed.
    pub fn force_clean(&mut self)
        ensures
            final(self)@ == old(self)@.cleaned(),
    {
        let ids = self.qos1_packets.clean();
        self.free_ids(&ids);
        let ids = self.qos2_packets.clean();
        self.free_ids(&ids);
    }

    /// Records at `now` the PUBACK for `packet_id`: the messages sent from
    /// here under that id count as acknowledged. Hands out a PUBACK for the
    /// same id.
    pub fn ack(&mut self, packet_id: u16, now: u64) -> (r: PubAckPacket)
        ensures
            r@ == packet_id,
            final(self)@ == (SessionView {
                qos1: at_least_once_acknowledged(old(self)@.qos1, packet_id, now),
                ..old(self)@
            }),
    {
        self.qos1_packets.acknowledge(packet_id, now);
        PubAckPacket::new(packet_id)
    }

    /// Hands out the next free packet id and marks it as in use. Where none
    /// is free, the inflight lists are cleaned first, which may free some.
    pub fn next_id(&mut self) -> (r: Option<u16>)
        ensures
            r == old(self)@.next_id(),
            final(self)@ == old(self)@.allocated(),
    {
        match self.id_gen.next_persistant_id() {
            Some(id) => Some(id),
            None => {
                self.force_clean();
                self.id_gen.next_persistant_id()
            },
        }
    }

    /// Takes on `packet` for sending at `now` and hands out the PUBLISH to
    /// send. A QoS 0 message goes out as it is. A message of a higher QoS
    /// gets the next packet id and an entry in the inflight list of its
    /// QoS; where no id is to be had, nothing goes out.
    pub fn origin(&mut self, packet: &PublishPacket, now: u64) -> (r: Option<PublishPacket>)
        ensures
            final(self)@ == old(self)@.originated(packet@, now),
            match r {
                Some(p) => old(self)@.outgoing(packet@) == Some(p@),
                None => old(self)@.outgoing(packet@) is None,
            },
    {
        match packet.qos() {
            QosLevel::AtMostOnce => Some(packet.clone()),
            QosLevel::AtLeastOnce => match self.next_id() {
                Some(new_id) => Some(self.qos1_packets.origin(packet.clone(), new_id, now)),
                None => None,
            },
            QosLevel::ExactlyOnce => match self.next_id() {
                Some(new_id) => Some(self.qos2_packets.origin(packet.clone(), new_id, now)),
                None => None,
            },
        }
    }

    /// Takes on a message for a subscriber who was granted `granted`, at
    /// `now`, and hands out the PUBLISH to send: the message at the lower of
    /// the two QoS, with RETAIN as `retain` says and without DUP.
    pub fn forward(&mut self, packet: &PublishPacket, granted: QosLevel, retain: bool, now: u64)
        -> (r: Option<PublishPacket>)
        ensures
            final(self)@ == old(self)@.originated(spec_forwarded(packet@, granted, retain), now),
            match r {
                Some(p) => old(self)@.outgoing(spec_forwarded(packet@, granted, retain)) == Some(
                    p@,
                ),
                None => old(self)@.outgoing(spec_forwarded(packet@, granted, retain)) is None,
            },
    {
        let mut outgoing = packet.clone();
        match granted.min(packet.qos()) {
            QosLevel::AtMostOnce => outgoing.set_qos_atmostonce(),
            QosLevel::AtLeastOnce => outgoing.set_qos_atleastonce(0),
            QosLevel::ExactlyOnce => outgoing.set_qos_exactlyonce(0),
        }
        outgoing.set_id(None);
        outgoing.set_dup(false);
        outgoing.set_retain(retain);
        assert(outgoing@ == spec_forwarded(packet@, granted, retain));
        self.origin(&outgoing, now)
    }

    /// Takes in a QoS 2 PUBLISH that arrived at `now` and hands out the
    /// PUBREC to answer with. The packet must carry a packet id.
    pub fn publish(&mut self, packet: PublishPacket, now: u64) -> (r: Option<PubRecPacket>)
        requires
            packet@.packet_id is Some,
        ensures
            r is Some && r.unwrap()@ == packet@.packet_id.unwrap(),
            final(self)@ == (SessionView {
                qos2: if packet@.dup() && awaits_release(
                    old(self)@.qos2,
                    packet@.packet_id.unwrap(),
                ) {
                    old(self)@.qos2
                } else {
                    old(self)@.qos2.push(
                        ExactlyOnceView {
                            packet: packet@,
                            id: packet@.packet_id.unwrap(),
                            stage: QoS2Stage::Publish,
                            last_change: now,
                            retry_interval: RETRY_BASE,
                        },
                    )
                },
                ..old(self)@
            }),
    {
        let id: u16 = packet.id().unwrap();
        self.qos2_packets.publish(packet, id, now)
    }

    /// Records at `now` the PUBREC for `packet_id` and hands out the PUBREL
    /// to answer with, if a message sent from here waits for that PUBREC.
    pub fn rec(&mut self, packet_id: u16, now: u64) -> (r: Option<PubRelPacket>)
        ensures
            final(self)@ == (SessionView {
                qos2: exactly_once_moved(
                    old(self)@.qos2,
                    packet_id,
                    QoS2Stage::Origin,
                    QoS2Stage::Rec,
                    now,
                ),
                ..old(self)@
            }),
            match exactly_once_found(old(self)@.qos2, packet_id, QoS2Stage::Origin) {
                Some(e) => r is Some && r.unwrap()@ == packet_id,
                None => r is None,
            },
    {
        self.qos2_packets.receive(packet_id, now)
    }

    /// Records at `now` the PUBREL for `packet_id` and hands out the PUBLISH
    /// to route, if a message that arrived here waits for that PUBREL.
    pub fn rel(&mut self, packet_id: u16, now: u64) -> (r: Option<PublishPacket>)
        ensures
            final(self)@ == (SessionView {
                qos2: exactly_once_moved(
                    old(self)@.qos2,
                    packet_id,
                    QoS2Stage::Publish,
                    QoS2Stage::Rel,
                    now,
                ),
                ..old(self)@
            }),
            match exactly_once_found(old(self)@.qos2, packet_id, QoS2Stage::Publish) {
                Some(e) => r is Some && r.unwrap()@ == e.packet,
                None => r is None,
            },
    {
        self.qos2_packets.release(packet_id, now)
    }

    /// Records at `now` the PUBCOMP for `packet_id`, if a message sent from
    /// here waits for that PUBCOMP.
    pub fn comp(&mut self, packet_id: u16, now: u64)
        ensures
            final(self)@ == (SessionView {
                qos2: exactly_once_moved(
                    old(self)@.qos2,
                    packet_id,
                    QoS2Stage::Rec,
                    QoS2Stage::Comp,
                    now,
                ),
                ..old(self)@
            }),
    {
        let _ = self.qos2_packets.complete(packet_id, now);
    }
}

/// What is kept of the session of a client that is not connected.
pub struct DisconnectedView {
    pub client_id: Seq<char>,
    /// The keep-alive interval in seconds; 0 keeps the record for good.
    pub keep_alive: u64,
    /// The reading of the clock when the last packet came in.
    pub last_seen: u64,
    pub qos1: Seq<AtLeastOnceView>,
    pub qos2: Seq<ExactlyOnceView>,
    pub slots: Seq<MailView>,
}

impl DisconnectedView {
    /// The session that resumes this record for a CONNECT at `now`: the
    /// CONNECT gives the will and the keep-alive, the record gives the
    /// inflight lists and the mailbox, and exactly the packet ids of the
    /// inflight entries are in use.
    pub open spec fn resumed(self, packet: crate::v4::connect::ConnectView, now: u64)
        -> SessionView {
        SessionView {
            client_id: packet.client_id,
            will: packet.will,
            keep_alive: packet.keep_alive as u64,
            last_read: now,
            clean: spec_conn_clean_session(packet.flags),
            qos1: self.qos1,
            qos2: self.qos2,
            used_ids: with_ids(
                with_ids(Set::<u16>::empty(), at_least_once_ids(self.qos1)),
                exactly_once_ids(self.qos2),
            ),
            cursor: 65_534u16,
            slots: self.slots,
        }
    }
}

/// The record of a session that ended without the wish for a clean session.
#[derive(Debug)]
pub struct DisconnectedSession {
    client_id: String,
    protocol: Protocol,
    conn_t: ConnectionType,
    keep_alive: u64,
    last_read: u64,
    qos1_packets: AtLeastOnceList,
    qos2_packets: ExactlyOnceList,
    mailbox: Mailbox,
}

impl View for DisconnectedSession {
    type V = DisconnectedView;

    closed spec fn view(&self) -> DisconnectedView {
        DisconnectedView {
            client_id: self.client_id@,
            keep_alive: self.keep_alive,
            last_seen: self.last_read,
            qos1: self.qos1_packets@,
            qos2: self.qos2_packets@,
            slots: self.mailbox@,
        }
    }
}

impl DisconnectedSession {
    /// The record of a session whose connection has ended.
    pub fn from(value: ActiveSession) -> (d: Self)
        ensures
            d@ == (DisconnectedView {
                client_id: value@.client_id,
                keep_alive: value@.keep_alive,
                last_seen: value@.last_read,
                qos1: value@.qos1,
                qos2: value@.qos2,
                slots: value@.slots,
            }),
    {
        Self {
            client_id: value.client_id,
            conn_t: value.conn_t,
            protocol: value.protocol,
            keep_alive: value.keep_alive,
            last_read: value.last_read,
            qos1_packets: value.qos1_packets,
            qos2_packets: value.qos2_packets,
            mailbox: value.mailbox,
        }
    }

    /// Whether the record has outlived its keep-alive at `now`. A keep-alive
    /// of 0 keeps the record for good.
    pub fn expired(&self, now: u64) -> (b: bool)
        ensures
            b == spec_expired(self@.keep_alive, self@.last_seen, now),
    {
        if self.keep_alive == 0 || now <= self.last_read {
            return false;
        }
        (now - self.last_read) / 1000 > self.keep_alive
    }

    pub fn client_id<'a>(&'a self) -> (id: &'a str)
        ensures
            id@ == self@.client_id,
    {
        self.client_id.as_str()
    }

    /// Resumes the record for a CONNECT at `now`. It always succeeds.
    pub fn into_active(self, packet: ConnectPacket, now: u64) -> (r: Result<
        ActiveSession,
        ServerError,
    >)
        ensures
            r is Ok,
            r.unwrap()@ == self@.resumed(packet@, now),
    {
        let mut id_gen = IdGenerator::new(IdGenType::Broker);
        let ids1 = self.qos1_packets.ids();
        let mut i: usize = 0;
        assert(ids1@.take(0) =~= Seq::<u16>::empty());
        while i < ids1.len()
            invariant
                i <= ids1@.len(),
                id_gen.cursor() == 65_534u16,
                id_gen.used() == with_ids(Set::<u16>::empty(), ids1@.take(i as int)),
            decreases ids1@.len() - i,
        {
            assert(ids1@.take(i + 1).drop_last() =~= ids1@.take(i as int));
            id_gen.set_id(ids1[i]);
            i = i + 1;
        }
        assert(ids1@.take(i as int) =~= ids1@);
        let ids2 = self.qos2_packets.ids();
        let ghost base = id_gen.used();
        let mut j: usize = 0;
        assert(ids2@.take(0) =~= Seq::<u16>::empty());
        while j < ids2.len()
            invariant
                j <= ids2@.len(),
                id_gen.cursor() == 65_534u16,
                id_gen.used() == with_ids(base, ids2@.take(j as int)),
            decreases ids2@.len() - j,
        {
            assert(ids2@.take(j + 1).drop_last() =~= ids2@.take(j as int));
            id_gen.set_id(ids2[j]);
            j = j + 1;
        }
        assert(ids2@.take(j as int) =~= ids2@);
        let client_id: String = packet.client_id().to_owned();
        let will: Option<Will> = match packet.will() {
            Some(w) => Some(w.clone()),
            None => None,
        };
        Ok(
            ActiveSession {
                client_id,
                protocol: self.protocol,
                conn_t: self.conn_t,
                will,
                keep_alive: packet.keep_alive() as u64,
                last_read: now,
                clean: packet.clean_session(),
                id_gen,
                qos1_packets: self.qos1_packets,
                qos2_packets: self.qos2_packets,
                mailbox: self.mailbox,
            },
        )
    }
}

/// The place of the record of the client `id`, or the number of records if
/// there is none of that client.
pub open spec fn spec_session_position(records: Seq<DisconnectedView>, id: Seq<char>) -> int
    decreases records.len(),
{
    if records.len() == 0 || records[0].client_id == id {
        0
    } else {
        1 + spec_session_position(records.drop_first(), id)
    }
}

/// Whether there is a record of the client `id`.
pub open spec fn has_session(records: Seq<DisconnectedView>, id: Seq<char>) -> bool {
    exists|i: int| 0 <= i < records.len() && (#[trigger] records[i]).client_id == id
}

/// Whether no two records are of the same client.
pub open spec fn distinct_clients(records: Seq<DisconnectedView>) -> bool {
    forall|i: int, j: int|
        0 <= i < j < records.len() ==> (#[trigger] records[i]).client_id != (
        #[trigger] records[j]).client_id
}

/// The records with `record` among them: in the place of the record of the
/// same client where there was one, at the end where there was none.
pub open spec fn with_session(records: Seq<DisconnectedView>, record: DisconnectedView) -> Seq<
    DisconnectedView,
> {
    let k = spec_session_position(records, record.client_id);
    if 0 <= k < records.len() {
        records.update(k, record)
    } else {
        records.push(record)
    }
}

/// The records without that of the client `id`.
pub open spec fn without_session(records: Seq<DisconnectedView>, id: Seq<char>) -> Seq<
    DisconnectedView,
> {
    let k = spec_session_position(records, id);
    if 0 <= k < records.len() {
        records.remove(k)
    } else {
        records
    }
}

/// The record of the client `id`, if there is one.
pub open spec fn session_of(records: Seq<DisconnectedView>, id: Seq<char>) -> Option<
    DisconnectedView,
> {
    let k = spec_session_position(records, id);
    if 0 <= k < records.len() {
        Some(records[k])
    } else {
        None
    }
}

/// The records that a sweep at `now` keeps: those that have not expired, in
/// their order.
pub open spec fn sessions_kept(records: Seq<DisconnectedView>, now: u64) -> Seq<DisconnectedView>
    decreases records.len(),
{
    if records.len() == 0 {
        records
    } else if spec_expired(records.last().keep_alive, records.last().last_seen, now) {
        sessions_kept(records.drop_last(), now)
    } else {
        sessions_kept(records.drop_last(), now).push(records.last())
    }
}

/// The client ids of the records that have expired at `now`, in the order
/// of the records.
pub open spec fn sessions_expired(records: Seq<DisconnectedView>, now: u64) -> Seq<Seq<char>>
    decreases records.len(),
{
    if records.len() == 0 {
        Seq::<Seq<char>>::empty()
    } else if spec_expired(records.last().keep_alive, records.last().last_seen, now) {
        sessions_expired(records.drop_last(), now).push(records.last().client_id)
    } else {
        sessions_expired(records.drop_last(), now)
    }
}

/// Where the first `k` records are of other clients than `id` and the next
/// one, if there is one, is of `id`, `k` is the place of the record of `id`.
pub proof fn lemma_session_position(records: Seq<DisconnectedView>, id: Seq<char>, k: int)
    requires
        0 <= k <= records.len(),
        forall|j: int| 0 <= j < k ==> (#[trigger] records[j]).client_id != id,
        k < records.len() ==> records[k].client_id == id,
    ensures
        spec_session_position(records, id) == k,
        k < records.len() <==> has_session(records, id),
    decreases records.len(),
{
    if k > 0 {
        let rest = records.drop_first();
        assert forall|j: int| 0 <= j < k - 1 implies (#[trigger] rest[j]).client_id != id by {
            assert(rest[j] == records[j + 1]);
        }
        lemma_session_position(rest, id, k - 1);
    }
    if k < records.len() {
        assert(records[k].client_id == id);
    }
}

/// A sweep keeps no two records of one client where there were none before,
/// and every record that it keeps was there before.
pub proof fn lemma_sessions_kept(records: Seq<DisconnectedView>, now: u64)
    ensures
        forall|i: int|
            0 <= i < sessions_kept(records, now).len() ==> has_session(
                records,
                (#[trigger] sessions_kept(records, now)[i]).client_id,
            ),
        distinct_clients(records) ==> distinct_clients(sessions_kept(records, now)),
    decreases records.len(),
{
    if records.len() > 0 {
        let init = records.drop_last();
        lemma_sessions_kept(init, now);
        let kept = sessions_kept(records, now);
        let kept_init = sessions_kept(init, now);
        assert forall|i: int| 0 <= i < kept.len() implies has_session(
            records,
            (#[trigger] kept[i]).client_id,
        ) by {
            if i < kept_init.len() {
                assert(kept[i] == kept_init[i]);
                let w = choose|w: int|
                    0 <= w < init.len() && (#[trigger] init[w]).client_id == kept_init[i].client_id;
                assert(records[w].client_id == kept[i].client_id);
            } else {
                assert(records[records.len() - 1].client_id == kept[i].client_id);
            }
        }
        if distinct_clients(records) {
            assert forall|i: int, j: int| 0 <= i < j < init.len() implies (
            #[trigger] init[i]).client_id != (#[trigger] init[j]).client_id by {
                assert(records[i].client_id != records[j].client_id);
            }
            assert forall|i: int, j: int| 0 <= i < j < kept.len() implies (
            #[trigger] kept[i]).client_id != (#[trigger] kept[j]).client_id by {
                if j < kept_init.len() {
                    assert(kept_init[i].client_id != kept_init[j].client_id);
                } else {
                    let w = choose|w: int|
                        0 <= w < init.len() && (#[trigger] init[w]).client_id
                            == kept_init[i].client_id;
                    assert(records[w].client_id != records[records.len() - 1].client_id);
                }
            }
        }
    }
}

/// The records of the sessions of clients that are not connected, at most
/// one for a client.
#[derive(Debug)]
pub struct DisconnectedSessions {
    dc_sessions: Vec<DisconnectedSession>,
}

impl View for DisconnectedSessions {
    type V = Seq<DisconnectedView>;

    closed spec fn view(&self) -> Seq<DisconnectedView> {
        Seq::new(self.dc_sessions@.len(), |i: int| self.dc_sessions@[i]@)
    }
}

impl DisconnectedSessions {
    #[verifier::type_invariant]
    pub closed spec fn inv(&self) -> bool {
        distinct_clients(self@)
    }

    /// A registry that meets the invariant of its type has no two records
    /// of one client.
    pub proof fn lemma_valid(&self)
        requires
            self.inv(),
        ensures
            distinct_clients(self@),
    {
    }

    /// A registry without records.
    pub fn new() -> (r: Self)
        ensures
            r@ == Seq::<DisconnectedView>::empty(),
    {
        let r = Self { dc_sessions: Vec::new() };
        assert(r@ =~= Seq::<DisconnectedView>::empty());
        r
    }

    /// The number of records.
    pub fn len(&self) -> (n: usize)
        ensures
            n == self@.len(),
    {
        self.dc_sessions.len()
    }

    /// The place of the record of the client `id`, or the number of
    /// records.
    fn position(&self, id: &String) -> (k: usize)
        ensures
            k == spec_session_position(self@, id@),
            k <= self@.len(),
            k < self@.len() <==> has_session(self@, id@),
            k < self@.len() ==> self@[k as int].client_id == id@,
    {
        let mut i: usize = 0;
        while i < self.dc_sessions.len()
            invariant
                i <= self.dc_sessions@.len(),
                self@.len() == self.dc_sessions@.len(),
                forall|j: int| 0 <= j < i ==> (#[trigger] self@[j]).client_id != id@,
            decreases self.dc_sessions@.len() - i,
        {
            assert(self@[i as int] == self.dc_sessions@[i as int]@);
            if self.dc_sessions[i].client_id == *id {
                proof {
                    lemma_session_position(self@, id@, i as int);
                }
                return i;
            }
            i = i + 1;
        }
        proof {
            lemma_session_position(self@, id@, i as int);
        }
        i
    }

    /// Removes the records that have expired at `now`.
    pub fn clean_expired(&mut self, now: u64)
        ensures
            final(self)@ == sessions_kept(old(self)@, now),
    {
        proof {
            use_type_invariant(&*self);
        }
        let ghost before = self@;
        let mut records: Vec<DisconnectedSession> = Vec::new();
        std::mem::swap(&mut records, &mut self.dc_sessions);
        let mut kept: Vec<DisconnectedSession> = Vec::new();
        let mut i: usize = 0;
        assert(before.take(0) =~= Seq::<DisconnectedView>::empty());
        while i < records.len()
            invariant
                i <= records@.len(),
                records@.len() == before.len(),
                forall|k: int| i <= k < records@.len() ==> (#[trigger] records@[k])@ == before[k],
                Seq::new(kept@.len(), |k: int| kept@[k]@) == sessions_kept(
                    before.take(i as int),
                    now,
                ),
            decreases records@.len() - i,
        {
            let ghost done = before.take(i as int);
            let ghost next = before.take(i + 1);
            assert(next.drop_last() =~= done);
            assert(next.last() == records@[i as int]@);
            if !records[i].expired(now) {
                let ghost shown = Seq::new(kept@.len(), |k: int| kept@[k]@);
                let mut record = DisconnectedSession {
                    client_id: String::new(),
                    protocol: Protocol::Mqtt(4),
                    conn_t: ConnectionType::Tcp,
                    keep_alive: 0,
                    last_read: 0,
                    qos1_packets: AtLeastOnceList::new(),
                    qos2_packets: ExactlyOnceList::new(),
                    mailbox: Mailbox::new(),
                };
                std::mem::swap(&mut record, &mut records[i]);
                kept.push(record);
                assert(Seq::new(kept@.len(), |k: int| kept@[k]@) =~= shown.push(before[i as int]));
            }
            i = i + 1;
        }
        proof {
            assert(before.take(i as int) =~= before);
            lemma_sessions_kept(before, now);
        }
        std::mem::swap(&mut kept, &mut self.dc_sessions);
        assert(self@ =~= sessions_kept(before, now));
    }

    /// The client ids of the records that have expired at `now`.
    pub fn find_sessions(&self, now: u64) -> (out: Vec<String>)
        ensures
            Seq::new(out@.len(), |i: int| out@[i]@) == sessions_expired(self@, now),
    {
        let mut out: Vec<String> = Vec::new();
        let mut i: usize = 0;
        assert(self@.take(0) =~= Seq::<DisconnectedView>::empty());
        while i < self.dc_sessions.len()
            invariant
                i <= self.dc_sessions@.len(),
                self@.len() == self.dc_sessions@.len(),
                Seq::new(out@.len(), |k: int| out@[k]@) == sessions_expired(
                    self@.take(i as int),
                    now,
                ),
            decreases self.dc_sessions@.len() - i,
        {
            assert(self@.take(i + 1).drop_last() =~= self@.take(i as int));
            assert(self@.take(i + 1).last() == self.dc_sessions@[i as int]@);
            if self.dc_sessions[i].expired(now) {
                let ghost shown = Seq::new(out@.len(), |k: int| out@[k]@);
                out.push(self.dc_sessions[i].client_id.clone());
                assert(Seq::new(out@.len(), |k: int| out@[k]@) =~= shown.push(
                    self.dc_sessions@[i as int]@.client_id,
                ));
            }
            i = i + 1;
        }
        assert(self@.take(i as int) =~= self@);
        out
    }

    /// Files a record. A record of the same client that is there already is
    /// replaced.
    pub fn add_session(&mut self, session: DisconnectedSession)
        ensures
            final(self)@ == with_session(old(self)@, session@),
    {
        proof {
            use_type_invariant(&*self);
        }
        let ghost before = self@;
        let ghost wanted = with_session(before, session@);
        let k: usize = self.position(&session.client_id);
        let mut records: Vec<DisconnectedSession> = Vec::new();
        std::mem::swap(&mut records, &mut self.dc_sessions);
        if k < records.len() {
            records[k] = session;
        } else {
            records.push(session);
        }
        proof {
            let after = Seq::new(records@.len(), |i: int| records@[i]@);
            assert(after =~= wanted);
            assert forall|i: int, j: int| 0 <= i < j < after.len() implies (
            #[trigger] after[i]).client_id != (#[trigger] after[j]).client_id by {
                if j < before.len() {
                    assert(before[i].client_id != before[j].client_id);
                } else {
                    assert(before[i].client_id != session@.client_id);
                }
            }
        }
        std::mem::swap(&mut records, &mut self.dc_sessions);
        assert(self@ =~= wanted);
    }

    /// Takes out the record of the client `id`, if there is one.
    pub fn remove_session(&mut self, id: &str) -> (r: Option<DisconnectedSession>)
        ensures
            final(self)@ == without_session(old(self)@, id@),
            match r {
                Some(record) => session_of(old(self)@, id@) == Some(record@),
                None => session_of(old(self)@, id@) is None,
            },
            !has_session(final(self)@, id@),
    {
        proof {
            use_type_invariant(&*self);
        }
        let ghost before = self@;
        let wanted: String = id.to_owned();
        let k: usize = self.position(&wanted);
        if k >= self.dc_sessions.len() {
            return None;
        }
        let mut records: Vec<DisconnectedSession> = Vec::new();
        std::mem::swap(&mut records, &mut self.dc_sessions);
        let record = records.remove(k);
        proof {
            let after = Seq::new(records@.len(), |i: int| records@[i]@);
            assert(after =~= before.remove(k as int));
            assert forall|i: int, j: int| 0 <= i < j < after.len() implies (
            #[trigger] after[i]).client_id != (#[trigger] after[j]).client_id by {
                let a = if i < k { i } else { i + 1 };
                let b = if j < k { j } else { j + 1 };
                assert(before[a].client_id != before[b].client_id);
            }
            assert forall|i: int| 0 <= i < after.len() implies (#[trigger] after[i]).client_id
                != id@ by {
                let a = if i < k { i } else { i + 1 };
                if a < k {
                    assert(before[a].client_id != before[k as int].client_id);
                } else {
                    assert(before[k as int].client_id != before[a].client_id);
                }
            }
        }
        std::mem::swap(&mut records, &mut self.dc_sessions);
        assert(self@ =~= before.remove(k as int));
        Some(record)
    }
}

} // verus!
