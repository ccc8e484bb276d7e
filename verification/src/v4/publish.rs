//! The PUBLISH packet: an application message on its way to or from the
//! broker.
use crate::buffer::{
    bytes_advance, bytes_as_slice, bytes_clone, bytes_get_u16, bytes_len, bytes_mut_freeze,
    bytes_mut_put_slice, bytes_mut_put_u16, bytes_mut_put_u8, bytes_mut_view,
    bytes_mut_with_capacity, bytes_view,
};
use crate::err::{DecodeError, DecodeErrorKind, EncodeError, EncodeErrorKind};
use crate::io::{
    encode_packet_length, encode_utf8, lemma_encode_length_len, spec_encode_string,
    spec_u16_at_front, spec_u16_be, MAX_ENCODED_PACKET_LEN, MAX_FIELD_LEN,
};
use crate::qos::QosLevel;
use crate::topic::{
    join_levels, lemma_topic_name_round_trip, spec_decode_topic_name, valid_name_levels,
    TopicName,
};
use crate::v4::header::{spec_encode_fixed_header, FixedHeader, PacketType};
use bytes::Bytes;
use vstd::prelude::*;

verus! {

/// Whether the RETAIN flag, bit 0 of a PUBLISH flag nibble, is set.
pub open spec fn spec_flags_retain(flags: u8) -> bool {
    flags % 2 == 1
}

/// The two QoS bits, bits 1 and 2 of a PUBLISH flag nibble, as a number.
pub open spec fn spec_flags_qos_bits(flags: u8) -> u8 {
    ((flags / 2) % 4) as u8
}

/// The QoS level that a PUBLISH flag nibble announces. The illegal value 3
/// reads as the lowest level.
pub open spec fn spec_flags_qos(flags: u8) -> QosLevel {
    if spec_flags_qos_bits(flags) == 1 {
        QosLevel::AtLeastOnce
    } else if spec_flags_qos_bits(flags) == 2 {
        QosLevel::ExactlyOnce
    } else {
        QosLevel::AtMostOnce
    }
}

/// Whether the DUP flag, bit 3 of a PUBLISH flag nibble, is set.
pub open spec fn spec_flags_dup(flags: u8) -> bool {
    (flags / 8) % 2 == 1
}

/// The flag nibble for the three settings.
pub open spec fn spec_publish_flags(dup: bool, qos: QosLevel, retain: bool) -> u8 {
    ((if dup {
        8int
    } else {
        0int
    }) + 2 * qos.spec_as_u8() + (if retain {
        1int
    } else {
        0int
    })) as u8
}

/// The flag nibble of a PUBLISH: DUP, QoS and RETAIN.
#[derive(PartialEq, Eq, Structural, Clone, Copy, Debug)]
pub struct PublishFixedHeaderFlags {
    byte: u8,
}

impl View for PublishFixedHeaderFlags {
    type V = u8;

    /// The nibble as a number.
    closed spec fn view(&self) -> u8 {
        self.byte
    }
}

impl PublishFixedHeaderFlags {
    #[verifier::type_invariant]
    pub closed spec fn inv(&self) -> bool {
        self.byte < 16
    }

    /// The flags in the low nibble of `byte`; the high nibble is dropped.
    pub fn from_byte(byte: u8) -> (f: Self)
        ensures
            f@ == byte % 16,
    {
        Self { byte: byte % 16 }
    }

    /// All flags clear.
    pub fn zero() -> (f: Self)
        ensures
            f@ == 0,
    {
        Self { byte: 0 }
    }

    pub fn as_byte(&self) -> (b: u8)
        ensures
            b == self@,
            b < 16,
    {
        proof {
            use_type_invariant(self);
        }
        self.byte
    }

    pub fn qos(&self) -> (q: QosLevel)
        ensures
            q == spec_flags_qos(self@),
    {
        let bits: u8 = (self.byte / 2) % 4;
        if bits == 1 {
            QosLevel::AtLeastOnce
        } else if bits == 2 {
            QosLevel::ExactlyOnce
        } else {
            QosLevel::AtMostOnce
        }
    }

    /// Sets the QoS bits and leaves the other flags.
    pub fn set_qos(&mut self, val: QosLevel)
        ensures
            final(self)@ == spec_publish_flags(
                spec_flags_dup(old(self)@),
                val,
                spec_flags_retain(old(self)@),
            ),
    {
        proof {
            use_type_invariant(&*self);
        }
        let cleared: u8 = self.byte - 2 * ((self.byte / 2) % 4);
        self.byte = cleared + 2 * val.as_u8();
    }

    pub fn retain(&self) -> (b: bool)
        ensures
            b == spec_flags_retain(self@),
    {
        self.byte % 2 == 1
    }

    /// Sets or clears RETAIN and leaves the other flags.
    pub fn set_retain(&mut self, val: bool)
        ensures
            final(self)@ == old(self)@ - old(self)@ % 2 + (if val {
                1int
            } else {
                0int
            }),
            spec_flags_retain(final(self)@) == val,
            spec_flags_qos_bits(final(self)@) == spec_flags_qos_bits(old(self)@),
            spec_flags_dup(final(self)@) == spec_flags_dup(old(self)@),
    {
        proof {
            use_type_invariant(&*self);
        }
        let cleared: u8 = self.byte - self.byte % 2;
        if val {
            self.byte = cleared + 1;
        } else {
            self.byte = cleared;
        }
    }

    pub fn dup(&self) -> (b: bool)
        ensures
            b == spec_flags_dup(self@),
    {
        (self.byte / 8) % 2 == 1
    }

    /// Sets or clears DUP and leaves the other flags.
    pub fn set_dup(&mut self, val: bool)
        ensures
            final(self)@ == old(self)@ % 8 + (if val {
                8int
            } else {
                0int
            }),
            spec_flags_dup(final(self)@) == val,
            spec_flags_qos_bits(final(self)@) == spec_flags_qos_bits(old(self)@),
            spec_flags_retain(final(self)@) == spec_flags_retain(old(self)@),
    {
        proof {
            use_type_invariant(&*self);
        }
        let cleared: u8 = self.byte % 8;
        if val {
            self.byte = cleared + 8;
        } else {
            self.byte = cleared;
        }
    }
}

/// What a PUBLISH says.
pub struct PublishView {
    /// The flag nibble: DUP, QoS and RETAIN.
    pub flags: u8,
    /// The levels of the topic name.
    pub topic: Seq<Seq<char>>,
    pub packet_id: Option<u16>,
    pub payload: Seq<u8>,
}

impl PublishView {
    pub open spec fn qos(self) -> QosLevel {
        spec_flags_qos(self.flags)
    }

    pub open spec fn retain(self) -> bool {
        spec_flags_retain(self.flags)
    }

    pub open spec fn dup(self) -> bool {
        spec_flags_dup(self.flags)
    }

    /// The body: the topic name as a text field, the packet id if there is
    /// one, then the payload up to the end of the packet.
    pub open spec fn body(self) -> Seq<u8> {
        spec_encode_string(join_levels(self.topic)) + (match self.packet_id {
            Some(id) => spec_u16_be(id),
            None => Seq::<u8>::empty(),
        }) + self.payload
    }

    /// A PUBLISH that may go on the wire: the QoS bits are not 3, there is a
    /// packet id exactly when the QoS is above 0, the topic is a topic name,
    /// and the topic and the body fit their length fields.
    #[verifier::opaque]
    pub open spec fn legal(self) -> bool {
        &&& self.flags < 16
        &&& spec_flags_qos_bits(self.flags) != 3
        &&& (self.packet_id is Some <==> spec_flags_qos_bits(self.flags) != 0)
        &&& valid_name_levels(self.topic)
        &&& vstd::utf8::encode_utf8(join_levels(self.topic)).len() <= MAX_FIELD_LEN
        &&& self.body().len() <= MAX_ENCODED_PACKET_LEN
    }
}

/// The whole PUBLISH on the wire.
pub open spec fn spec_encode_publish(v: PublishView) -> Seq<u8> {
    spec_encode_fixed_header(PacketType::PUBLISH, v.flags, v.body().len()) + v.body()
}

/// Reads a PUBLISH body under the flag nibble of its header.
///
/// The topic name comes first and fails as a topic name field does. QoS bits
/// of 3 give `QoS`. With a QoS above 0 the two bytes of the packet id must
/// follow, else the result is `MalformedLength`. All that is left is the
/// payload.
#[verifier::opaque]
pub open spec fn spec_decode_publish_body(flags: u8, body: Seq<u8>) -> Result<
    PublishView,
    DecodeErrorKind,
> {
    match spec_decode_topic_name(body) {
        Err(k) => Err(k),
        Ok((topic, rest)) => if spec_flags_qos_bits(flags) == 3 {
            Err(DecodeErrorKind::QoS)
        } else if spec_flags_qos_bits(flags) == 0 {
            Ok(PublishView { flags, topic, packet_id: None, payload: rest })
        } else if rest.len() < 2 {
            Err(DecodeErrorKind::MalformedLength)
        } else {
            Ok(
                PublishView {
                    flags,
                    topic,
                    packet_id: Some(spec_u16_at_front(rest)),
                    payload: rest.skip(2),
                },
            )
        },
    }
}

/// A PUBLISH packet.
#[derive(PartialEq, Eq, Debug)]
pub struct PublishPacket {
    flags: PublishFixedHeaderFlags,
    topic_name: TopicName,
    packet_id: Option<u16>,
    payload: Bytes,
}

impl View for PublishPacket {
    type V = PublishView;

    closed spec fn view(&self) -> PublishView {
        PublishView {
            flags: self.flags@,
            topic: self.topic_name@,
            packet_id: self.packet_id,
            payload: bytes_view(self.payload),
        }
    }
}

impl Clone for PublishPacket {
    fn clone(&self) -> (r: Self)
        ensures
            r@ == self@,
    {
        Self {
            flags: self.flags,
            topic_name: self.topic_name.clone(),
            packet_id: self.packet_id,
            payload: bytes_clone(&self.payload),
        }
    }
}

impl PublishPacket {
    /// A PUBLISH of QoS 0 for the topic, with all flags clear.
    pub fn new(topic_name: &TopicName, payload: Bytes) -> (p: Self)
        ensures
            p@ == (PublishView {
                flags: 0,
                topic: topic_name@,
                packet_id: None,
                payload: bytes_view(payload),
            }),
    {
        Self {
            packet_id: None,
            topic_name: topic_name.clone(),
            flags: PublishFixedHeaderFlags::zero(),
            payload,
        }
    }

    /// Reads the body of a PUBLISH under its fixed header and consumes the
    /// whole buffer, which must hold the body and nothing else. On failure
    /// the buffer is left as it was.
    pub fn decode(f_header: FixedHeader, bytes: &mut Bytes) -> (r: Result<Self, DecodeError>)
        ensures
            match r {
                Ok(p) => spec_decode_publish_body(
                    (f_header@.flags % 16) as u8,
                    bytes_view(*old(bytes)),
                ) == Ok::<PublishView, DecodeErrorKind>(p@) && bytes_view(*final(bytes))
                    == Seq::<u8>::empty(),
                Err(e) => spec_decode_publish_body(
                    (f_header@.flags % 16) as u8,
                    bytes_view(*old(bytes)),
                ) == Err::<PublishView, DecodeErrorKind>(e.spec_kind()) && *final(bytes) == *old(
                    bytes,
                ),
            },
    {
        proof {
            reveal(spec_decode_publish_body);
        }
        let mut cursor = bytes_clone(bytes);
        let topic_name = match TopicName::decode(&mut cursor) {
            Ok(name) => name,
            Err(e) => {
                return Err(e);
            },
        };
        let flags = PublishFixedHeaderFlags::from_byte(f_header.flags.as_byte());
        let bits: u8 = (flags.as_byte() / 2) % 4;
        if bits == 3 {
            return Err(
                DecodeError::of(DecodeErrorKind::QoS, "PUBLISH has both QoS bits set"),
            );
        }
        let packet_id: Option<u16> = if bits != 0 {
            if bytes_len(&cursor) < 2 {
                return Err(
                    DecodeError::of(
                        DecodeErrorKind::MalformedLength,
                        "PUBLISH is cut off inside its packet id",
                    ),
                );
            }
            Some(bytes_get_u16(&mut cursor))
        } else {
            None
        };
        let payload = bytes_clone(&cursor);
        let left: usize = bytes_len(&cursor);
        bytes_advance(&mut cursor, left);
        assert(bytes_view(cursor) =~= Seq::<u8>::empty());
        *bytes = cursor;
        Ok(Self { packet_id, flags, topic_name, payload })
    }

    /// Makes this a PUBLISH of QoS 0, which has no packet id.
    pub fn set_qos_atmostonce(&mut self)
        ensures
            final(self)@ == (PublishView {
                flags: spec_publish_flags(
                    old(self)@.dup(),
                    QosLevel::AtMostOnce,
                    old(self)@.retain(),
                ),
                packet_id: None,
                ..old(self)@
            }),
    {
        let mut flags = self.flags;
        flags.set_qos(QosLevel::AtMostOnce);
        self.flags = flags;
        self.packet_id = None;
    }

    /// Makes this a PUBLISH of QoS 1 with the given packet id.
    pub fn set_qos_atleastonce(&mut self, packet_id: u16)
        ensures
            final(self)@ == (PublishView {
                flags: spec_publish_flags(
                    old(self)@.dup(),
                    QosLevel::AtLeastOnce,
                    old(self)@.retain(),
                ),
                packet_id: Some(packet_id),
                ..old(self)@
            }),
    {
        let mut flags = self.flags;
        flags.set_qos(QosLevel::AtLeastOnce);
        self.flags = flags;
        self.packet_id = Some(packet_id);
    }

    /// Makes this a PUBLISH of QoS 2 with the given packet id.
    pub fn set_qos_exactlyonce(&mut self, packet_id: u16)
        ensures
            final(self)@ == (PublishView {
                flags: spec_publish_flags(
                    old(self)@.dup(),
                    QosLevel::ExactlyOnce,
                    old(self)@.retain(),
                ),
                packet_id: Some(packet_id),
                ..old(self)@
            }),
    {
        let mut flags = self.flags;
        flags.set_qos(QosLevel::ExactlyOnce);
        self.flags = flags;
        self.packet_id = Some(packet_id);
    }

    pub fn topic(&self) -> (t: &TopicName)
        ensures
            t@ == self@.topic,
            valid_name_levels(t@),
    {
        proof {
            use_type_invariant(&self.topic_name);
            self.topic_name.lemma_valid();
        }
        &self.topic_name
    }

    pub fn qos(&self) -> (q: QosLevel)
        ensures
            q == self@.qos(),
    {
        self.flags.qos()
    }

    pub fn retain(&self) -> (b: bool)
        ensures
            b == self@.retain(),
    {
        self.flags.retain()
    }

    pub fn set_retain(&mut self, val: bool)
        ensures
            final(self)@ == (PublishView {
                flags: (old(self)@.flags - old(self)@.flags % 2 + (if val {
                    1int
                } else {
                    0int
                })) as u8,
                ..old(self)@
            }),
            final(self)@.retain() == val,
            final(self)@.qos() == old(self)@.qos(),
            final(self)@.dup() == old(self)@.dup(),
            spec_flags_qos_bits(final(self)@.flags) == spec_flags_qos_bits(old(self)@.flags),
            final(self)@.flags < 16,
    {
        let mut flags = self.flags;
        flags.set_retain(val);
        proof {
            use_type_invariant(&flags);
        }
        self.flags = flags;
    }

    pub fn dup(&self) -> (b: bool)
        ensures
            b == self@.dup(),
    {
        self.flags.dup()
    }

    pub fn set_dup(&mut self, val: bool)
        ensures
            final(self)@ == (PublishView {
                flags: (old(self)@.flags % 8 + (if val {
                    8int
                } else {
                    0int
                })) as u8,
                ..old(self)@
            }),
            final(self)@.dup() == val,
            final(self)@.qos() == old(self)@.qos(),
            final(self)@.retain() == old(self)@.retain(),
            spec_flags_qos_bits(final(self)@.flags) == spec_flags_qos_bits(old(self)@.flags),
            final(self)@.flags < 16,
    {
        let mut flags = self.flags;
        flags.set_dup(val);
        proof {
            use_type_invariant(&flags);
        }
        self.flags = flags;
    }

    pub fn id(&self) -> (id: Option<u16>)
        ensures
            id == self@.packet_id,
    {
        self.packet_id
    }

    /// Replaces the packet id. A packet stays legal only when it has an id
    /// exactly if its QoS is above 0; the caller answers for that.
    pub fn set_id(&mut self, id: Option<u16>)
        ensures
            final(self)@ == (PublishView { packet_id: id, ..old(self)@ }),
    {
        self.packet_id = id;
    }

    pub fn payload(&self) -> (b: &Bytes)
        ensures
            bytes_view(*b) == self@.payload,
    {
        &self.payload
    }

    /// The whole packet, fixed header included. A topic name longer than
    /// `MAX_FIELD_LEN` bytes or a body longer than `MAX_ENCODED_PACKET_LEN`
    /// bytes cannot be announced and gives `OversizedPayload`.
    pub fn encode(&self) -> (r: Result<Bytes, EncodeError>)
        ensures
            match r {
                Ok(b) => bytes_view(b) == spec_encode_publish(self@) && self@.body().len()
                    <= MAX_ENCODED_PACKET_LEN && vstd::utf8::encode_utf8(
                    join_levels(self@.topic),
                ).len() <= MAX_FIELD_LEN,
                Err(e) => e.spec_kind() == EncodeErrorKind::OversizedPayload && (
                vstd::utf8::encode_utf8(join_levels(self@.topic)).len() > MAX_FIELD_LEN
                    || self@.body().len() > MAX_ENCODED_PACKET_LEN),
            },
    {
        let text: String = self.topic_name.clone().to_string();
        let topic_len: usize = text.as_str().as_bytes().len();
        let payload_len: usize = bytes_len(&self.payload);
        if topic_len > MAX_FIELD_LEN || payload_len > MAX_ENCODED_PACKET_LEN {
            return Err(
                EncodeError::new(
                    EncodeErrorKind::OversizedPayload,
                    "PUBLISH does not fit its length fields".to_owned(),
                ),
            );
        }
        let mut len: usize = 2 + topic_len;
        if self.packet_id.is_some() {
            len = len + 2;
        }
        len = len + payload_len;
        assert(len == self@.body().len());
        let mut bytes = bytes_mut_with_capacity(len);
        bytes_mut_put_u8(&mut bytes, PacketType::PUBLISH.as_u8() + self.flags.as_byte());
        match encode_packet_length(&mut bytes, len) {
            Ok(_) => {},
            Err(e) => {
                return Err(e);
            },
        }
        proof {
            lemma_encode_length_len(len as nat);
        }
        let ghost head = bytes_mut_view(bytes);
        assert(head =~= spec_encode_fixed_header(PacketType::PUBLISH, self@.flags, len as nat));
        match encode_utf8(&mut bytes, text.as_str()) {
            Ok(_) => {},
            Err(e) => {
                return Err(e);
            },
        }
        if let Some(packet_id) = self.packet_id {
            bytes_mut_put_u16(&mut bytes, packet_id);
        }
        bytes_mut_put_slice(&mut bytes, bytes_as_slice(&self.payload));
        assert(bytes_mut_view(bytes) =~= head + self@.body());
        Ok(bytes_mut_freeze(bytes))
    }
}

/// The body of every legal PUBLISH is read back, under the flags of the
/// packet, as the packet. The flags are a nibble and the body fits the
/// length field, so that a fixed header can announce both.
pub proof fn lemma_publish_round_trip(v: PublishView)
    requires
        v.legal(),
    ensures
        spec_decode_publish_body(v.flags, v.body()) == Ok::<PublishView, DecodeErrorKind>(v),
        v.flags < 16,
        v.body().len() <= MAX_ENCODED_PACKET_LEN,
{
    reveal(PublishView::legal);
    reveal(spec_decode_publish_body);
    let tail = (match v.packet_id {
        Some(id) => spec_u16_be(id),
        None => Seq::<u8>::empty(),
    }) + v.payload;
    assert(v.body() =~= spec_encode_string(join_levels(v.topic)) + tail);
    lemma_topic_name_round_trip(v.topic, tail);
    match v.packet_id {
        Some(id) => {
            assert(tail[0] == (id / 256) as u8);
            assert(tail[1] == (id % 256) as u8);
            assert(tail.skip(2) =~= v.payload);
        },
        None => {
            assert(tail =~= v.payload);
        },
    }
}

} // verus!
