//! The inflight lists of a session, one for QoS 1 and one for QoS 2.
use crate::msg_assurance::{spec_backoff, ExponentialBackoff, QoS1Stage, RetryDuration, RETRY_BASE};
use crate::v4::packet::{MqttPacket, MqttPacketView};
use crate::v4::pubrec::PubRecPacket;
use crate::v4::pubrel::PubRelPacket;
use crate::v4::publish::{PublishPacket, PublishView};
use vstd::prelude::*;

verus! {

/// Where a QoS 2 message stands.
#[derive(Clone, Debug, Copy, PartialEq, Eq, Structural)]
pub enum QoS2Stage {
    /// Sent from here; the PUBREC is awaited.
    Origin,
    /// Arrived here and answered with PUBREC; the PUBREL is awaited.
    Publish,
    /// Sent from here and answered with PUBREC; PUBREL was sent and the
    /// PUBCOMP is awaited.
    Rec,
    /// Arrived here and released by PUBREL; the entry waits to be cleaned
    /// up.
    Rel,
    /// Sent from here and completed by PUBCOMP; the entry waits to be
    /// cleaned up.
    Comp,
}

/// Whether more than `interval` milliseconds lie between `last` and `now`.
/// A clock that reads earlier than `last` has let no time pass.
pub open spec fn spec_timed_out(last: u64, interval: u64, now: u64) -> bool {
    now > last && now - last > interval
}

/// The PUBLISH that is sent again for an entry: the stored one under the
/// entry's packet id, with DUP set.
pub open spec fn spec_resend(packet: PublishView, id: u16) -> PublishView {
    PublishView { flags: (packet.flags % 8 + 8) as u8, packet_id: Some(id), ..packet }
}

/// What a session remembers of one QoS 1 message.
pub struct AtLeastOnceView {
    pub packet: PublishView,
    /// The packet id under which the message travels on this connection.
    pub id: u16,
    pub stage: QoS1Stage,
    /// The reading of the clock at the last change of stage.
    pub last_change: u64,
    /// The current retry interval in milliseconds.
    pub retry_interval: u64,
}

impl AtLeastOnceView {
    /// Whether the entry is due for a retry at `now`: it is sent and not
    /// acknowledged, and its retry interval has run out.
    pub open spec fn retry_due(self, now: u64) -> bool {
        self.stage == QoS1Stage::Origin && spec_timed_out(
            self.last_change,
            self.retry_interval,
            now,
        )
    }

    /// The packet to send again, if the entry is one that is retried.
    pub open spec fn retry_packet(self) -> Option<MqttPacketView> {
        if self.stage == QoS1Stage::Origin {
            Some(MqttPacketView::Publish(spec_resend(self.packet, self.id)))
        } else {
            None
        }
    }

    /// Whether the entry has come to its end and may be cleaned up.
    pub open spec fn terminal(self) -> bool {
        self.stage == QoS1Stage::Ack
    }

    /// The entry after one step of backoff.
    pub open spec fn backed_off(self) -> AtLeastOnceView {
        AtLeastOnceView { retry_interval: spec_backoff(self.retry_interval), ..self }
    }
}

/// One QoS 1 message that a session keeps track of.
#[derive(Debug)]
pub struct AtLeastOncePacket {
    packet: PublishPacket,
    new_id: u16,
    stage: QoS1Stage,
    last_received: u64,
    retry_duration: RetryDuration,
}

impl View for AtLeastOncePacket {
    type V = AtLeastOnceView;

    closed spec fn view(&self) -> AtLeastOnceView {
        AtLeastOnceView {
            packet: self.packet@,
            id: self.new_id,
            stage: self.stage,
            last_change: self.last_received,
            retry_interval: self.retry_duration@,
        }
    }
}

impl Clone for AtLeastOncePacket {
    fn clone(&self) -> (r: Self)
        ensures
            r@ == self@,
    {
        Self {
            packet: self.packet.clone(),
            new_id: self.new_id,
            stage: self.stage,
            last_received: self.last_received,
            retry_duration: self.retry_duration,
        }
    }
}

impl AtLeastOncePacket {
    /// The entry for a message that is sent from here at `now`.
    pub fn origin(packet: PublishPacket, new_id: u16, now: u64) -> (e: Self)
        ensures
            e@ == (AtLeastOnceView {
                packet: packet@,
                id: new_id,
                stage: QoS1Stage::Origin,
                last_change: now,
                retry_interval: RETRY_BASE,
            }),
    {
        Self {
            packet,
            new_id,
            stage: QoS1Stage::Origin,
            last_received: now,
            retry_duration: RetryDuration::default(),
        }
    }

    /// The entry for a message that arrived here at `now`.
    pub fn publish(packet: PublishPacket, new_id: u16, now: u64) -> (e: Self)
        ensures
            e@ == (AtLeastOnceView {
                packet: packet@,
                id: new_id,
                stage: QoS1Stage::Publish,
                last_change: now,
                retry_interval: RETRY_BASE,
            }),
    {
        Self {
            packet,
            new_id,
            stage: QoS1Stage::Publish,
            last_received: now,
            retry_duration: RetryDuration::default(),
        }
    }

    /// Records at `now` that the PUBACK has come.
    pub fn acknowledge(&mut self, now: u64)
        ensures
            final(self)@ == (AtLeastOnceView {
                stage: QoS1Stage::Ack,
                last_change: now,
                ..old(self)@
            }),
    {
        self.last_received = now;
        self.stage = QoS1Stage::Ack;
    }

    /// Takes one step of backoff: the retry interval doubles, up to the
    /// longest interval.
    pub fn update_retry_duration(&mut self)
        ensures
            final(self)@ == old(self)@.backed_off(),
    {
        let mut interval = self.retry_duration;
        let duration: u64 = interval.exponential();
        interval.set_duration(duration);
        self.retry_duration = interval;
    }

    /// Whether the entry is due for a retry at `now`.
    pub fn should_retry(&self, now: u64) -> (b: bool)
        ensures
            b == self@.retry_due(now),
    {
        match self.stage {
            QoS1Stage::Origin => self.is_timed_out(now),
            _ => false,
        }
    }

    pub fn id(&self) -> (id: u16)
        ensures
            id == self@.id,
    {
        self.new_id
    }

    /// Whether the retry interval has run out at `now`.
    pub fn is_timed_out(&self, now: u64) -> (b: bool)
        ensures
            b == spec_timed_out(self@.last_change, self@.retry_interval, now),
    {
        now > self.last_received && now - self.last_received > self.retry_duration.inner()
    }

    pub fn stage(&self) -> (s: QoS1Stage)
        ensures
            s == self@.stage,
    {
        self.stage
    }

    /// The packet to send again, if the entry is one that is retried.
    pub fn get_retry_packet(&self) -> (r: Option<MqttPacket>)
        ensures
            match r {
                Some(p) => self@.retry_packet() == Some(p@),
                None => self@.retry_packet() is None,
            },
    {
        match self.stage {
            QoS1Stage::Origin => {
                let mut packet = self.packet.clone();
                packet.set_id(Some(self.new_id));
                packet.set_dup(true);
                Some(MqttPacket::Publish(packet))
            },
            _ => None,
        }
    }

    /// The PUBLISH of the entry.
    pub fn inner(&self) -> (p: &PublishPacket)
        ensures
            p@ == self@.packet,
    {
        &self.packet
    }
}

/// What a session remembers of one QoS 2 message.
pub struct ExactlyOnceView {
    pub packet: PublishView,
    /// The packet id under which the message travels on this connection.
    pub id: u16,
    pub stage: QoS2Stage,
    /// The reading of the clock at the last change of stage.
    pub last_change: u64,
    /// The current retry interval in milliseconds.
    pub retry_interval: u64,
}

impl ExactlyOnceView {
    /// Whether the entry is due for a retry at `now`: it waits for a PUBREC
    /// or a PUBCOMP, and its retry interval has run out.
    pub open spec fn retry_due(self, now: u64) -> bool {
        (self.stage == QoS2Stage::Origin || self.stage == QoS2Stage::Rec) && spec_timed_out(
            self.last_change,
            self.retry_interval,
            now,
        )
    }

    /// The packet to send again, if the entry is one that is retried: the
    /// PUBLISH while the PUBREC is awaited, the PUBREL while the PUBCOMP is.
    pub open spec fn retry_packet(self) -> Option<MqttPacketView> {
        if self.stage == QoS2Stage::Origin {
            Some(MqttPacketView::Publish(spec_resend(self.packet, self.id)))
        } else if self.stage == QoS2Stage::Rec {
            Some(MqttPacketView::PubRel(self.id))
        } else {
            None
        }
    }

    /// Whether the entry has come to its end and may be cleaned up.
    pub open spec fn terminal(self) -> bool {
        self.stage == QoS2Stage::Comp || self.stage == QoS2Stage::Rel
    }

    /// The entry after one step of backoff.
    pub open spec fn backed_off(self) -> ExactlyOnceView {
        ExactlyOnceView { retry_interval: spec_backoff(self.retry_interval), ..self }
    }

    /// The entry after a change of stage at `now`.
    pub open spec fn moved(self, stage: QoS2Stage, now: u64) -> ExactlyOnceView {
        ExactlyOnceView { stage, last_change: now, ..self }
    }
}

/// One QoS 2 message that a session keeps track of.
#[derive(Debug)]
pub struct ExactlyOncePacket {
    packet: PublishPacket,
    new_id: u16,
    stage: QoS2Stage,
    last_received: u64,
    retry_duration: RetryDuration,
}

impl View for ExactlyOncePacket {
    type V = ExactlyOnceView;

    closed spec fn view(&self) -> ExactlyOnceView {
        ExactlyOnceView {
            packet: self.packet@,
            id: self.new_id,
            stage: self.stage,
            last_change: self.last_received,
            retry_interval: self.retry_duration@,
        }
    }
}

impl Clone for ExactlyOncePacket {
    fn clone(&self) -> (r: Self)
        ensures
            r@ == self@,
    {
        Self {
            packet: self.packet.clone(),
            new_id: self.new_id,
            stage: self.stage,
            last_received: self.last_received,
            retry_duration: self.retry_duration,
        }
    }
}

impl ExactlyOncePacket {
    /// The entry for a message that is sent from here at `now`.
    pub fn origin(packet: PublishPacket, new_id: u16, now: u64) -> (e: Self)
        ensures
            e@ == (ExactlyOnceView {
                packet: packet@,
                id: new_id,
                stage: QoS2Stage::Origin,
                last_change: now,
                retry_interval: RETRY_BASE,
            }),
    {
        Self {
            packet,
            new_id,
            stage: QoS2Stage::Origin,
            last_received: now,
            retry_duration: RetryDuration::default(),
        }
    }

    /// The entry for a message that arrived here at `now`.
    pub fn publish(packet: PublishPacket, new_id: u16, now: u64) -> (e: Self)
        ensures
            e@ == (ExactlyOnceView {
                packet: packet@,
                id: new_id,
                stage: QoS2Stage::Publish,
                last_change: now,
                retry_interval: RETRY_BASE,
            }),
    {
        Self {
            packet,
            new_id,
            stage: QoS2Stage::Publish,
            last_received: now,
            retry_duration: RetryDuration::default(),
        }
    }

    /// Records at `now` that the PUBREC has come, and hands out the PUBREL
    /// to answer with. An entry that does not wait for a PUBREC is left
    /// alone.
    pub fn receive(&mut self, now: u64) -> (r: Option<PubRelPacket>)
        ensures
            old(self)@.stage == QoS2Stage::Origin ==> final(self)@ == old(self)@.moved(
                QoS2Stage::Rec,
                now,
            ) && r is Some && r.unwrap()@ == old(self)@.id,
            old(self)@.stage != QoS2Stage::Origin ==> final(self)@ == old(self)@ && r is None,
    {
        match self.stage {
            QoS2Stage::Origin => {},
            _ => {
                return None;
            },
        }
        self.last_received = now;
        self.stage = QoS2Stage::Rec;
        Some(PubRelPacket::new(self.new_id))
    }

    /// Records at `now` that the PUBREL has come, and hands out the PUBLISH
    /// to route. An entry that does not wait for a PUBREL is left alone.
    pub fn relay(&mut self, now: u64) -> (r: Option<PublishPacket>)
        ensures
            old(self)@.stage == QoS2Stage::Publish ==> final(self)@ == old(self)@.moved(
                QoS2Stage::Rel,
                now,
            ) && r is Some && r.unwrap()@ == old(self)@.packet,
            old(self)@.stage != QoS2Stage::Publish ==> final(self)@ == old(self)@ && r is None,
    {
        match self.stage {
            QoS2Stage::Publish => {},
            _ => {
                return None;
            },
        }
        self.last_received = now;
        self.stage = QoS2Stage::Rel;
        Some(self.packet.clone())
    }

    /// Records at `now` that the PUBCOMP has come, and hands out the PUBLISH
    /// under the entry's packet id. An entry that does not wait for a
    /// PUBCOMP is left alone.
    pub fn complete(&mut self, now: u64) -> (r: Option<PublishPacket>)
        ensures
            old(self)@.stage == QoS2Stage::Rec ==> final(self)@ == old(self)@.moved(
                QoS2Stage::Comp,
                now,
            ) && r is Some && r.unwrap()@ == (PublishView {
                packet_id: Some(old(self)@.id),
                ..old(self)@.packet
            }),
            old(self)@.stage != QoS2Stage::Rec ==> final(self)@ == old(self)@ && r is None,
    {
        match self.stage {
            QoS2Stage::Rec => {},
            _ => {
                return None;
            },
        }
        self.last_received = now;
        self.stage = QoS2Stage::Comp;
        let mut packet = self.packet.clone();
        packet.set_id(Some(self.new_id));
        Some(packet)
    }

    pub fn id(&self) -> (id: u16)
        ensures
            id == self@.id,
    {
        self.new_id
    }

    /// The packet to send again, if the entry is one that is retried.
    pub fn get_retry_packet(&self) -> (r: Option<MqttPacket>)
        ensures
            match r {
                Some(p) => self@.retry_packet() == Some(p@),
                None => self@.retry_packet() is None,
            },
    {
        match self.stage {
            QoS2Stage::Origin => {
                let mut packet = self.packet.clone();
                packet.set_id(Some(self.new_id));
                packet.set_dup(true);
                Some(MqttPacket::Publish(packet))
            },
            QoS2Stage::Rec => Some(MqttPacket::PubRel(PubRelPacket::new(self.new_id))),
            _ => None,
        }
    }

    /// The PUBLISH of the entry.
    pub fn inner(&self) -> (p: &PublishPacket)
        ensures
            p@ == self@.packet,
    {
        &self.packet
    }

    /// Takes one step of backoff: the retry interval doubles, up to the
    /// longest interval.
    pub fn update_retry_duration(&mut self)
        ensures
            final(self)@ == old(self)@.backed_off(),
    {
        let mut interval = self.retry_duration;
        let duration: u64 = interval.exponential();
        interval.set_duration(duration);
        self.retry_duration = interval;
    }

    /// Whether the entry is due for a retry at `now`.
    pub fn should_retry(&self, now: u64) -> (b: bool)
        ensures
            b == self@.retry_due(now),
    {
        match self.stage {
            QoS2Stage::Origin | QoS2Stage::Rec => self.is_timed_out(now),
            _ => false,
        }
    }

    /// Whether the retry interval has run out at `now`.
    pub fn is_timed_out(&self, now: u64) -> (b: bool)
        ensures
            b == spec_timed_out(self@.last_change, self@.retry_interval, now),
    {
        now > self.last_received && now - self.last_received > self.retry_duration.inner()
    }

    pub fn stage(&self) -> (s: QoS2Stage)
        ensures
            s == self@.stage,
    {
        self.stage
    }
}

/// The packet ids of a list of QoS 1 entries, in order.
pub open spec fn at_least_once_ids(entries: Seq<AtLeastOnceView>) -> Seq<u16> {
    Seq::new(entries.len(), |i: int| entries[i].id)
}

/// The entries that a cleanup keeps: those that have not come to their end,
/// in their order.
pub open spec fn at_least_once_kept(entries: Seq<AtLeastOnceView>) -> Seq<AtLeastOnceView>
    decreases entries.len(),
{
    if entries.len() == 0 {
        entries
    } else if entries.last().terminal() {
        at_least_once_kept(entries.drop_last())
    } else {
        at_least_once_kept(entries.drop_last()).push(entries.last())
    }
}

/// The packet ids that a cleanup releases: those of the entries that have
/// come to their end, in their order.
pub open spec fn at_least_once_released(entries: Seq<AtLeastOnceView>) -> Seq<u16>
    decreases entries.len(),
{
    if entries.len() == 0 {
        Seq::<u16>::empty()
    } else if entries.last().terminal() {
        at_least_once_released(entries.drop_last()).push(entries.last().id)
    } else {
        at_least_once_released(entries.drop_last())
    }
}

/// The packets that a retry round at `now` sends: the retry packet of every
/// entry that is due, in their order.
pub open spec fn at_least_once_retries(entries: Seq<AtLeastOnceView>, now: u64) -> Seq<
    MqttPacketView,
>
    decreases entries.len(),
{
    if entries.len() == 0 {
        Seq::<MqttPacketView>::empty()
    } else if entries.last().retry_due(now) {
        at_least_once_retries(entries.drop_last(), now).push(
            entries.last().retry_packet().unwrap(),
        )
    } else {
        at_least_once_retries(entries.drop_last(), now)
    }
}

/// The entries after the PUBACK for `id` came at `now`: every entry under
/// that id that waits for its PUBACK counts as acknowledged.
pub open spec fn at_least_once_acknowledged(entries: Seq<AtLeastOnceView>, id: u16, now: u64)
    -> Seq<AtLeastOnceView> {
    Seq::new(
        entries.len(),
        |i: int|
            if entries[i].id == id && entries[i].stage == QoS1Stage::Origin {
                AtLeastOnceView { stage: QoS1Stage::Ack, last_change: now, ..entries[i] }
            } else {
                entries[i]
            },
    )
}

/// The views of a list of packets, in order.
pub open spec fn packet_views(packets: Seq<MqttPacket>) -> Seq<MqttPacketView> {
    Seq::new(packets.len(), |i: int| packets[i]@)
}

/// The QoS 1 messages that a session keeps track of, oldest first.
#[derive(Debug)]
pub struct AtLeastOnceList {
    inner: Vec<AtLeastOncePacket>,
}

impl View for AtLeastOnceList {
    type V = Seq<AtLeastOnceView>;

    closed spec fn view(&self) -> Seq<AtLeastOnceView> {
        Seq::new(self.inner@.len(), |i: int| self.inner@[i]@)
    }
}

impl Clone for AtLeastOnceList {
    fn clone(&self) -> (r: Self)
        ensures
            r@ == self@,
    {
        let mut inner: Vec<AtLeastOncePacket> = Vec::new();
        let mut i: usize = 0;
        while i < self.inner.len()
            invariant
                i <= self.inner@.len(),
                inner@.len() == i,
                forall|k: int| 0 <= k < i ==> (#[trigger] inner@[k])@ == self.inner@[k]@,
            decreases self.inner@.len() - i,
        {
            inner.push(self.inner[i].clone());
            i = i + 1;
        }
        let r = Self { inner };
        assert(r@ =~= self@);
        r
    }
}

impl AtLeastOnceList {
    /// An empty list.
    pub fn new() -> (l: Self)
        ensures
            l@ == Seq::<AtLeastOnceView>::empty(),
    {
        let l = Self { inner: Vec::new() };
        assert(l@ =~= Seq::<AtLeastOnceView>::empty());
        l
    }

    pub fn len(&self) -> (n: usize)
        ensures
            n == self@.len(),
    {
        self.inner.len()
    }

    /// The entry at place `i`.
    pub fn get(&self, i: usize) -> (e: &AtLeastOncePacket)
        requires
            i < self@.len(),
        ensures
            e@ == self@[i as int],
    {
        &self.inner[i]
    }

    /// The packet ids of the entries, in order.
    pub fn ids(&self) -> (ids: Vec<u16>)
        ensures
            ids@ == at_least_once_ids(self@),
    {
        let mut ids: Vec<u16> = Vec::new();
        let mut i: usize = 0;
        while i < self.inner.len()
            invariant
                i <= self.inner@.len(),
                ids@.len() == i,
                forall|k: int| 0 <= k < i ==> ids@[k] == (#[trigger] self.inner@[k])@.id,
            decreases self.inner@.len() - i,
        {
            ids.push(self.inner[i].id());
            i = i + 1;
        }
        assert(ids@ =~= at_least_once_ids(self@));
        ids
    }

    /// Removes the entries that were acknowledged and returns their packet
    /// ids. The other entries stay in their order.
    pub fn clean(&mut self) -> (ids: Vec<u16>)
        ensures
            final(self)@ == at_least_once_kept(old(self)@),
            ids@ == at_least_once_released(old(self)@),
    {
        let ghost before = self@;
        let mut kept: Vec<AtLeastOncePacket> = Vec::new();
        let mut ids: Vec<u16> = Vec::new();
        let mut i: usize = 0;
        assert(before.take(0) =~= Seq::<AtLeastOnceView>::empty());
        while i < self.inner.len()
            invariant
                i <= self.inner@.len(),
                before == self@,
                before.len() == self.inner@.len(),
                Seq::new(kept@.len(), |k: int| kept@[k]@) == at_least_once_kept(
                    before.take(i as int),
                ),
                ids@ == at_least_once_released(before.take(i as int)),
            decreases self.inner@.len() - i,
        {
            let ghost done = before.take(i as int);
            let ghost next = before.take(i + 1);
            assert(next.drop_last() =~= done);
            assert(next.last() == self.inner@[i as int]@);
            match self.inner[i].stage() {
                QoS1Stage::Ack => {
                    ids.push(self.inner[i].id());
                },
                _ => {
                    let ghost old_kept = Seq::new(kept@.len(), |k: int| kept@[k]@);
                    kept.push(self.inner[i].clone());
                    assert(Seq::new(kept@.len(), |k: int| kept@[k]@) =~= old_kept.push(
                        self.inner@[i as int]@,
                    ));
                },
            }
            i = i + 1;
        }
        assert(before.take(i as int) =~= before);
        self.inner = kept;
        assert(self@ =~= at_least_once_kept(before));
        ids
    }

    /// Begins to keep track of a message that is sent from here at `now`
    /// under the packet id `new_id`, and hands out the PUBLISH to send.
    pub fn origin(&mut self, packet: PublishPacket, new_id: u16, now: u64) -> (r: PublishPacket)
        ensures
            final(self)@ == old(self)@.push(
                AtLeastOnceView {
                    packet: packet@,
                    id: new_id,
                    stage: QoS1Stage::Origin,
                    last_change: now,
                    retry_interval: RETRY_BASE,
                },
            ),
            r@ == (PublishView { packet_id: Some(new_id), ..packet@ }),
    {
        let mut deref_packet = packet.clone();
        let ghost before = self@;
        let entry = AtLeastOncePacket::origin(packet, new_id, now);
        self.inner.push(entry);
        assert(self@ =~= before.push(entry@));
        deref_packet.set_id(Some(new_id));
        deref_packet
    }

    /// Begins to keep track of a message that arrived here at `now`. The
    /// packet must carry a packet id.
    pub fn publish(&mut self, packet: PublishPacket, now: u64)
        requires
            packet@.packet_id is Some,
        ensures
            final(self)@ == old(self)@.push(
                AtLeastOnceView {
                    packet: packet@,
                    id: packet@.packet_id.unwrap(),
                    stage: QoS1Stage::Publish,
                    last_change: now,
                    retry_interval: RETRY_BASE,
                },
            ),
    {
        let id: u16 = packet.id().unwrap();
        let ghost before = self@;
        let entry = AtLeastOncePacket::publish(packet, id, now);
        self.inner.push(entry);
        assert(self@ =~= before.push(entry@));
    }

    /// Records at `now` the PUBACK for `packet_id`: every entry under that
    /// id that waits for its PUBACK moves from `Origin` to `Ack`.
    pub fn acknowledge(&mut self, packet_id: u16, now: u64)
        ensures
            final(self)@ == at_least_once_acknowledged(old(self)@, packet_id, now),
    {
        let ghost before = self@;
        let mut i: usize = 0;
        while i < self.inner.len()
            invariant
                i <= self.inner@.len(),
                self@.len() == before.len(),
                before.len() == self.inner@.len(),
                forall|k: int|
                    0 <= k < i ==> #[trigger] self@[k] == (if before[k].id == packet_id
                        && before[k].stage == QoS1Stage::Origin {
                        AtLeastOnceView {
                            stage: QoS1Stage::Ack,
                            last_change: now,
                            ..before[k]
                        }
                    } else {
                        before[k]
                    }),
                forall|k: int| i <= k < before.len() ==> #[trigger] self@[k] == before[k],
            decreases self.inner@.len() - i,
        {
            assert(self@[i as int] == before[i as int]);
            assert(self@[i as int] == self.inner@[i as int]@);
            if self.inner[i].id() == packet_id && self.inner[i].stage() == QoS1Stage::Origin {
                let ghost prior = self@;
                let mut entry = self.inner[i].clone();
                entry.acknowledge(now);
                self.inner[i] = entry;
                assert forall|k: int| 0 <= k < prior.len() && k != i implies #[trigger] self@[k]
                    == prior[k] by {
                }
                assert(self@[i as int] == entry@);
            }
            i = i + 1;
        }
        assert(self@ =~= at_least_once_acknowledged(before, packet_id, now));
    }

    /// Runs a retry round at `now`: hands out the retry packet of every
    /// entry that is due, in their order, and lets each of these entries
    /// take one step of backoff.
    pub fn retry(&mut self, now: u64) -> (out: Vec<MqttPacket>)
        ensures
            packet_views(out@) == at_least_once_retries(old(self)@, now),
            final(self)@.len() == old(self)@.len(),
            forall|i: int|
                0 <= i < old(self)@.len() ==> #[trigger] final(self)@[i] == (if old(
                    self,
                )@[i].retry_due(now) {
                    old(self)@[i].backed_off()
                } else {
                    old(self)@[i]
                }),
    {
        let ghost before = self@;
        let mut out: Vec<MqttPacket> = Vec::new();
        let mut i: usize = 0;
        assert(before.take(0) =~= Seq::<AtLeastOnceView>::empty());
        assert(packet_views(out@) =~= Seq::<MqttPacketView>::empty());
        while i < self.inner.len()
            invariant
                i <= self.inner@.len(),
                self@.len() == before.len(),
                before.len() == self.inner@.len(),
                packet_views(out@) == at_least_once_retries(before.take(i as int), now),
                forall|k: int|
                    0 <= k < i ==> #[trigger] self@[k] == (if before[k].retry_due(now) {
                        before[k].backed_off()
                    } else {
                        before[k]
                    }),
                forall|k: int| i <= k < before.len() ==> #[trigger] self@[k] == before[k],
            decreases self.inner@.len() - i,
        {
            let ghost done = before.take(i as int);
            let ghost next = before.take(i + 1);
            assert(next.drop_last() =~= done);
            assert(next.last() == before[i as int]);
            assert(self@[i as int] == before[i as int]);
            assert(self@[i as int] == self.inner@[i as int]@);
            if self.inner[i].should_retry(now) {
                if let Some(retry_packet) = self.inner[i].get_retry_packet() {
                    let ghost sent = packet_views(out@);
                    out.push(retry_packet);
                    assert(packet_views(out@) =~= sent.push(retry_packet@));
                }
                let ghost prior = self@;
                let mut entry = self.inner[i].clone();
                entry.update_retry_duration();
                self.inner[i] = entry;
                assert forall|k: int| 0 <= k < prior.len() && k != i implies #[trigger] self@[k]
                    == prior[k] by {
                }
                assert(self@[i as int] == entry@);
            }
            i = i + 1;
        }
        assert(before.take(i as int) =~= before);
        out
    }
}

/// The packet ids of a list of QoS 2 entries, in order.
pub open spec fn exactly_once_ids(entries: Seq<ExactlyOnceView>) -> Seq<u16> {
    Seq::new(entries.len(), |i: int| entries[i].id)
}

/// The entries that a cleanup keeps: those that have not come to their end,
/// in their order.
pub open spec fn exactly_once_kept(entries: Seq<ExactlyOnceView>) -> Seq<ExactlyOnceView>
    decreases entries.len(),
{
    if entries.len() == 0 {
        entries
    } else if entries.last().terminal() {
        exactly_once_kept(entries.drop_last())
    } else {
        exactly_once_kept(entries.drop_last()).push(entries.last())
    }
}

/// The packet ids that a cleanup releases: those of the entries that have
/// come to their end, in their order.
pub open spec fn exactly_once_released(entries: Seq<ExactlyOnceView>) -> Seq<u16>
    decreases entries.len(),
{
    if entries.len() == 0 {
        Seq::<u16>::empty()
    } else if entries.last().terminal() {
        exactly_once_released(entries.drop_last()).push(entries.last().id)
    } else {
        exactly_once_released(entries.drop_last())
    }
}

/// The packets that a retry round at `now` sends: the retry packet of every
/// entry that is due, in their order.
pub open spec fn exactly_once_retries(entries: Seq<ExactlyOnceView>, now: u64) -> Seq<
    MqttPacketView,
>
    decreases entries.len(),
{
    if entries.len() == 0 {
        Seq::<MqttPacketView>::empty()
    } else if entries.last().retry_due(now) {
        exactly_once_retries(entries.drop_last(), now).push(
            entries.last().retry_packet().unwrap(),
        )
    } else {
        exactly_once_retries(entries.drop_last(), now)
    }
}

/// Whether a message that arrived under `id` still waits for its PUBREL.
pub open spec fn awaits_release(entries: Seq<ExactlyOnceView>, id: u16) -> bool {
    exists|i: int|
        0 <= i < entries.len() && (#[trigger] entries[i]).id == id && entries[i].stage
            == QoS2Stage::Publish
}

/// The place of the first entry under `id` that is at `stage`, or the
/// length of the list if there is none.
pub open spec fn exactly_once_position(entries: Seq<ExactlyOnceView>, id: u16, stage: QoS2Stage)
    -> int
    decreases entries.len(),
{
    if entries.len() == 0 || (entries[0].id == id && entries[0].stage == stage) {
        0
    } else {
        1 + exactly_once_position(entries.drop_first(), id, stage)
    }
}

/// Where none of the first `k` entries is under `id` at `stage` and the
/// next one, if there is one, is, `k` is the place of such an entry.
pub proof fn lemma_exactly_once_position(
    entries: Seq<ExactlyOnceView>,
    id: u16,
    stage: QoS2Stage,
    k: int,
)
    requires
        0 <= k <= entries.len(),
        forall|j: int|
            0 <= j < k ==> !((#[trigger] entries[j]).id == id && entries[j].stage == stage),
        k < entries.len() ==> entries[k].id == id && entries[k].stage == stage,
    ensures
        exactly_once_position(entries, id, stage) == k,
    decreases entries.len(),
{
    if k > 0 {
        let rest = entries.drop_first();
        assert forall|j: int| 0 <= j < k - 1 implies !((#[trigger] rest[j]).id == id
            && rest[j].stage == stage) by {
            assert(rest[j] == entries[j + 1]);
        }
        lemma_exactly_once_position(rest, id, stage, k - 1);
    }
}

/// The list after the first entry under `id` at stage `from` has moved to
/// `to` at `now`; the list as it is where there is no such entry.
pub open spec fn exactly_once_moved(
    entries: Seq<ExactlyOnceView>,
    id: u16,
    from: QoS2Stage,
    to: QoS2Stage,
    now: u64,
) -> Seq<ExactlyOnceView> {
    let k = exactly_once_position(entries, id, from);
    if 0 <= k < entries.len() {
        entries.update(k, entries[k].moved(to, now))
    } else {
        entries
    }
}

/// The first entry under `id` at stage `from`, if there is one.
pub open spec fn exactly_once_found(entries: Seq<ExactlyOnceView>, id: u16, from: QoS2Stage)
    -> Option<ExactlyOnceView> {
    let k = exactly_once_position(entries, id, from);
    if 0 <= k < entries.len() {
        Some(entries[k])
    } else {
        None
    }
}

/// The QoS 2 messages that a session keeps track of, oldest first: those
/// sent from here and those that arrived here.
#[derive(Debug)]
pub struct ExactlyOnceList {
    inner: Vec<ExactlyOncePacket>,
}

impl View for ExactlyOnceList {
    type V = Seq<ExactlyOnceView>;

    closed spec fn view(&self) -> Seq<ExactlyOnceView> {
        Seq::new(self.inner@.len(), |i: int| self.inner@[i]@)
    }
}

impl Clone for ExactlyOnceList {
    fn clone(&self) -> (r: Self)
        ensures
            r@ == self@,
    {
        let mut inner: Vec<ExactlyOncePacket> = Vec::new();
        let mut i: usize = 0;
        while i < self.inner.len()
            invariant
                i <= self.inner@.len(),
                inner@.len() == i,
                forall|k: int| 0 <= k < i ==> (#[trigger] inner@[k])@ == self.inner@[k]@,
            decreases self.inner@.len() - i,
        {
            inner.push(self.inner[i].clone());
            i = i + 1;
        }
        let r = Self { inner };
        assert(r@ =~= self@);
        r
    }
}

impl ExactlyOnceList {
    /// An empty list.
    pub fn new() -> (l: Self)
        ensures
            l@ == Seq::<ExactlyOnceView>::empty(),
    {
        let l = Self { inner: Vec::new() };
        assert(l@ =~= Seq::<ExactlyOnceView>::empty());
        l
    }

    pub fn len(&self) -> (n: usize)
        ensures
            n == self@.len(),
    {
        self.inner.len()
    }

    /// The entry at place `i`.
    pub fn get(&self, i: usize) -> (e: &ExactlyOncePacket)
        requires
            i < self@.len(),
        ensures
            e@ == self@[i as int],
    {
        &self.inner[i]
    }

    /// The packet ids of the entries, in order.
    pub fn ids(&self) -> (ids: Vec<u16>)
        ensures
            ids@ == exactly_once_ids(self@),
    {
        let mut ids: Vec<u16> = Vec::new();
        let mut i: usize = 0;
        while i < self.inner.len()
            invariant
                i <= self.inner@.len(),
                ids@.len() == i,
                forall|k: int| 0 <= k < i ==> ids@[k] == (#[trigger] self.inner@[k])@.id,
            decreases self.inner@.len() - i,
        {
            ids.push(self.inner[i].id());
            i = i + 1;
        }
        assert(ids@ =~= exactly_once_ids(self@));
        ids
    }

    /// The place of the first entry under `packet_id` at `stage`, or the
    /// length of the list.
    fn find(&self, packet_id: u16, stage: QoS2Stage) -> (k: usize)
        ensures
            k == exactly_once_position(self@, packet_id, stage),
            k <= self@.len(),
            k < self@.len() ==> self@[k as int].id == packet_id && self@[k as int].stage == stage,
    {
        let mut i: usize = 0;
        while i < self.inner.len()
            invariant
                i <= self.inner@.len(),
                self@.len() == self.inner@.len(),
                forall|j: int|
                    0 <= j < i ==> !((#[trigger] self@[j]).id == packet_id && self@[j].stage
                        == stage),
            decreases self.inner@.len() - i,
        {
            assert(self@[i as int] == self.inner@[i as int]@);
            if self.inner[i].id() == packet_id && self.inner[i].stage() == stage {
                proof {
                    lemma_exactly_once_position(self@, packet_id, stage, i as int);
                }
                return i;
            }
            i = i + 1;
        }
        proof {
            lemma_exactly_once_position(self@, packet_id, stage, i as int);
        }
        i
    }

    /// Begins to keep track of a message that is sent from here at `now`
    /// under the packet id `new_id`, and hands out the PUBLISH to send.
    pub fn origin(&mut self, packet: PublishPacket, new_id: u16, now: u64) -> (r: PublishPacket)
        ensures
            final(self)@ == old(self)@.push(
                ExactlyOnceView {
                    packet: packet@,
                    id: new_id,
                    stage: QoS2Stage::Origin,
                    last_change: now,
                    retry_interval: RETRY_BASE,
                },
            ),
            r@ == (PublishView { packet_id: Some(new_id), ..packet@ }),
    {
        let mut deref_packet = packet.clone();
        let ghost before = self@;
        let entry = ExactlyOncePacket::origin(packet, new_id, now);
        self.inner.push(entry);
        assert(self@ =~= before.push(entry@));
        deref_packet.set_id(Some(new_id));
        deref_packet
    }

    /// Takes in a PUBLISH that arrived at `now` under the packet id
    /// `new_id`, and hands out the PUBREC to answer with.
    ///
    /// A PUBLISH marked DUP whose id belongs to a message that still waits
    /// for its PUBREL is that message again: the list stays as it is. Any
    /// other PUBLISH is a new message and gets an entry.
    #[verifier::loop_isolation(false)]
    pub fn publish(&mut self, packet: PublishPacket, new_id: u16, now: u64) -> (r: Option<
        PubRecPacket,
    >)
        ensures
            r is Some && r.unwrap()@ == new_id,
            final(self)@ == (if packet@.dup() && awaits_release(old(self)@, new_id) {
                old(self)@
            } else {
                old(self)@.push(
                    ExactlyOnceView {
                        packet: packet@,
                        id: new_id,
                        stage: QoS2Stage::Publish,
                        last_change: now,
                        retry_interval: RETRY_BASE,
                    },
                )
            }),
    {
        let ghost before = self@;
        if packet.dup() {
            let mut i: usize = 0;
            while i < self.inner.len()
                invariant
                    i <= self.inner@.len(),
                    before == self@,
                    before.len() == self.inner@.len(),
                    forall|j: int|
                        0 <= j < i ==> !((#[trigger] before[j]).id == new_id && before[j].stage
                            == QoS2Stage::Publish),
                decreases self.inner@.len() - i,
            {
                assert(before[i as int] == self.inner@[i as int]@);
                if self.inner[i].id() == new_id {
                    match self.inner[i].stage() {
                        QoS2Stage::Publish => {
                            assert(before[i as int].id == new_id && before[i as int].stage
                                == QoS2Stage::Publish);
                            return Some(PubRecPacket::new(new_id));
                        },
                        _ => {},
                    }
                }
                i = i + 1;
            }
        }
        let entry = ExactlyOncePacket::publish(packet, new_id, now);
        self.inner.push(entry);
        assert(self@ =~= before.push(entry@));
        Some(PubRecPacket::new(new_id))
    }

    /// Records at `now` the PUBREL for `packet_id` and hands out the PUBLISH
    /// to route: the first entry under that id that is at `Publish` moves to
    /// `Rel`. Where there is no such entry, nothing changes and nothing is
    /// handed out.
    pub fn release(&mut self, packet_id: u16, now: u64) -> (r: Option<PublishPacket>)
        ensures
            final(self)@ == exactly_once_moved(
                old(self)@,
                packet_id,
                QoS2Stage::Publish,
                QoS2Stage::Rel,
                now,
            ),
            match exactly_once_found(old(self)@, packet_id, QoS2Stage::Publish) {
                Some(e) => r is Some && r.unwrap()@ == e.packet,
                None => r is None,
            },
    {
        let k: usize = self.find(packet_id, QoS2Stage::Publish);
        if k >= self.inner.len() {
            return None;
        }
        let ghost before = self@;
        assert(before[k as int] == self.inner@[k as int]@);
        let mut entry = self.inner[k].clone();
        let r = entry.relay(now);
        self.inner[k] = entry;
        assert(self@ =~= exactly_once_moved(
            before,
            packet_id,
            QoS2Stage::Publish,
            QoS2Stage::Rel,
            now,
        ));
        r
    }

    /// Records at `now` the PUBCOMP for `packet_id`: the first entry under
    /// that id that is at `Rec` moves to `Comp`, and its PUBLISH is handed
    /// out. Where there is no such entry, nothing changes and nothing is
    /// handed out.
    pub fn complete(&mut self, packet_id: u16, now: u64) -> (r: Option<PublishPacket>)
        ensures
            final(self)@ == exactly_once_moved(
                old(self)@,
                packet_id,
                QoS2Stage::Rec,
                QoS2Stage::Comp,
                now,
            ),
            match exactly_once_found(old(self)@, packet_id, QoS2Stage::Rec) {
                Some(e) => r is Some && r.unwrap()@ == (PublishView {
                    packet_id: Some(e.id),
                    ..e.packet
                }),
                None => r is None,
            },
    {
        let k: usize = self.find(packet_id, QoS2Stage::Rec);
        if k >= self.inner.len() {
            return None;
        }
        let ghost before = self@;
        assert(before[k as int] == self.inner@[k as int]@);
        let mut entry = self.inner[k].clone();
        let r = entry.complete(now);
        self.inner[k] = entry;
        assert(self@ =~= exactly_once_moved(
            before,
            packet_id,
            QoS2Stage::Rec,
            QoS2Stage::Comp,
            now,
        ));
        r
    }

    /// Records at `now` the PUBREC for `packet_id` and hands out the PUBREL
    /// to answer with: the first entry under that id that is at `Origin`
    /// moves to `Rec`. Where there is no such entry, nothing changes and
    /// nothing is handed out.
    pub fn receive(&mut self, packet_id: u16, now: u64) -> (r: Option<PubRelPacket>)
        ensures
            final(self)@ == exactly_once_moved(
                old(self)@,
                packet_id,
                QoS2Stage::Origin,
                QoS2Stage::Rec,
                now,
            ),
            match exactly_once_found(old(self)@, packet_id, QoS2Stage::Origin) {
                Some(e) => r is Some && r.unwrap()@ == packet_id,
                None => r is None,
            },
    {
        let k: usize = self.find(packet_id, QoS2Stage::Origin);
        if k >= self.inner.len() {
            return None;
        }
        let ghost before = self@;
        assert(before[k as int] == self.inner@[k as int]@);
        let mut entry = self.inner[k].clone();
        let r = entry.receive(now);
        self.inner[k] = entry;
        assert(self@ =~= exactly_once_moved(
            before,
            packet_id,
            QoS2Stage::Origin,
            QoS2Stage::Rec,
            now,
        ));
        r
    }

    /// Removes the entries that were released or completed and returns
    /// their packet ids. The other entries stay in their order.
    pub fn clean(&mut self) -> (ids: Vec<u16>)
        ensures
            final(self)@ == exactly_once_kept(old(self)@),
            ids@ == exactly_once_released(old(self)@),
    {
        let ghost before = self@;
        let mut kept: Vec<ExactlyOncePacket> = Vec::new();
        let mut ids: Vec<u16> = Vec::new();
        let mut i: usize = 0;
        assert(before.take(0) =~= Seq::<ExactlyOnceView>::empty());
        while i < self.inner.len()
            invariant
                i <= self.inner@.len(),
                before == self@,
                before.len() == self.inner@.len(),
                Seq::new(kept@.len(), |k: int| kept@[k]@) == exactly_once_kept(
                    before.take(i as int),
                ),
                ids@ == exactly_once_released(before.take(i as int)),
            decreases self.inner@.len() - i,
        {
            let ghost done = before.take(i as int);
            let ghost next = before.take(i + 1);
            assert(next.drop_last() =~= done);
            assert(next.last() == self.inner@[i as int]@);
            match self.inner[i].stage() {
                QoS2Stage::Comp | QoS2Stage::Rel => {
                    ids.push(self.inner[i].id());
                },
                _ => {
                    let ghost old_kept = Seq::new(kept@.len(), |k: int| kept@[k]@);
                    kept.push(self.inner[i].clone());
                    assert(Seq::new(kept@.len(), |k: int| kept@[k]@) =~= old_kept.push(
                        self.inner@[i as int]@,
                    ));
                },
            }
            i = i + 1;
        }
        assert(before.take(i as int) =~= before);
        self.inner = kept;
        assert(self@ =~= exactly_once_kept(before));
        ids
    }

    /// Runs a retry round at `now`: hands out the retry packet of every
    /// entry that is due, in their order, and lets each of these entries
    /// take one step of backoff.
    pub fn retry(&mut self, now: u64) -> (out: Vec<MqttPacket>)
        ensures
            packet_views(out@) == exactly_once_retries(old(self)@, now),
            final(self)@.len() == old(self)@.len(),
            forall|i: int|
                0 <= i < old(self)@.len() ==> #[trigger] final(self)@[i] == (if old(
                    self,
                )@[i].retry_due(now) {
                    old(self)@[i].backed_off()
                } else {
                    old(self)@[i]
                }),
    {
        let ghost before = self@;
        let mut out: Vec<MqttPacket> = Vec::new();
        let mut i: usize = 0;
        assert(before.take(0) =~= Seq::<ExactlyOnceView>::empty());
        assert(packet_views(out@) =~= Seq::<MqttPacketView>::empty());
        while i < self.inner.len()
            invariant
                i <= self.inner@.len(),
                self@.len() == before.len(),
                before.len() == self.inner@.len(),
                packet_views(out@) == exactly_once_retries(before.take(i as int), now),
                forall|k: int|
                    0 <= k < i ==> #[trigger] self@[k] == (if before[k].retry_due(now) {
                        before[k].backed_off()
                    } else {
                        before[k]
                    }),
                forall|k: int| i <= k < before.len() ==> #[trigger] self@[k] == before[k],
            decreases self.inner@.len() - i,
        {
            let ghost done = before.take(i as int);
            let ghost next = before.take(i + 1);
            assert(next.drop_last() =~= done);
            assert(next.last() == before[i as int]);
            assert(self@[i as int] == before[i as int]);
            assert(self@[i as int] == self.inner@[i as int]@);
            if self.inner[i].should_retry(now) {
                if let Some(retry_packet) = self.inner[i].get_retry_packet() {
                    let ghost sent = packet_views(out@);
                    out.push(retry_packet);
                    assert(packet_views(out@) =~= sent.push(retry_packet@));
                }
                let ghost prior = self@;
                let mut entry = self.inner[i].clone();
                entry.update_retry_duration();
                self.inner[i] = entry;
                assert forall|k: int| 0 <= k < prior.len() && k != i implies #[trigger] self@[k]
                    == prior[k] by {
                }
                assert(self@[i as int] == entry@);
            }
            i = i + 1;
        }
        assert(before.take(i as int) =~= before);
        out
    }
}

/// A QoS 2 message that arrives twice is routed once.
///
/// Where no message under `id` waits for its PUBREL, the PUBLISH makes one
/// entry. The same PUBLISH marked DUP then leaves the list as it is. The
/// PUBREL hands out the message, and after it no message under `id` waits
/// any more: a second PUBREL hands out nothing.
pub proof fn lemma_duplicate_is_routed_once(
    entries: Seq<ExactlyOnceView>,
    packet: PublishView,
    id: u16,
    arrived: u64,
    released: u64,
)
    requires
        !awaits_release(entries, id),
    ensures
        ({
            let entry = ExactlyOnceView {
                packet,
                id,
                stage: QoS2Stage::Publish,
                last_change: arrived,
                retry_interval: RETRY_BASE,
            };
            let listed = entries.push(entry);
            let after = exactly_once_moved(listed, id, QoS2Stage::Publish, QoS2Stage::Rel, released);
            &&& awaits_release(listed, id)
            &&& exactly_once_found(listed, id, QoS2Stage::Publish) == Some(entry)
            &&& !awaits_release(after, id)
            &&& exactly_once_found(after, id, QoS2Stage::Publish) is None
        }),
{
    let entry = ExactlyOnceView {
        packet,
        id,
        stage: QoS2Stage::Publish,
        last_change: arrived,
        retry_interval: RETRY_BASE,
    };
    let listed = entries.push(entry);
    let n = entries.len() as int;
    assert(listed[n] == entry);
    assert forall|j: int| 0 <= j < n implies !((#[trigger] listed[j]).id == id && listed[j].stage
        == QoS2Stage::Publish) by {
        assert(listed[j] == entries[j]);
    }
    lemma_exactly_once_position(listed, id, QoS2Stage::Publish, n);
    let after = exactly_once_moved(listed, id, QoS2Stage::Publish, QoS2Stage::Rel, released);
    assert forall|j: int| 0 <= j < after.len() implies !((#[trigger] after[j]).id == id
        && after[j].stage == QoS2Stage::Publish) by {
        if j < n {
            assert(after[j] == listed[j]);
        }
    }
    lemma_exactly_once_position(after, id, QoS2Stage::Publish, after.len() as int);
}

} // verus!
