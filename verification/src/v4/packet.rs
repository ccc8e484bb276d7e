//! Any control packet, and the framing of packets in a stream of bytes.
use crate::buffer::{bytes_advance, bytes_clone, bytes_len, bytes_slice, bytes_view};
use crate::err::{DecodeError, DecodeErrorKind, EncodeError, EncodeErrorKind};
use crate::io::spec_length_size;
use crate::v4::connack::{
    lemma_connack_round_trip, spec_decode_connack_body, spec_encode_connack, ConnAckPacket,
    ConnAckView,
};
use crate::v4::connect::{
    lemma_connect_round_trip, spec_decode_connect_body, spec_encode_connect, ConnectPacket,
    ConnectView,
};
use crate::v4::disconnect::DisconnectPacket;
use crate::v4::header::{
    lemma_empty_frame_round_trip, lemma_id_frame_round_trip, spec_decode_empty_body,
    spec_decode_fixed_header, spec_decode_id_body, spec_encode_empty_frame,
    spec_encode_id_frame, FixedHeader, FixedHeaderView, PacketType,
};
use crate::v4::pingreq::PingReqPacket;
use crate::v4::pingresp::PingRespPacket;
use crate::v4::puback::PubAckPacket;
use crate::v4::pubcomp::PubCompPacket;
use crate::v4::publish::{
    lemma_publish_round_trip, spec_decode_publish_body, spec_encode_publish, PublishPacket,
    PublishView,
};
use crate::v4::pubrec::PubRecPacket;
use crate::v4::pubrel::PubRelPacket;
use crate::v4::suback::{
    lemma_suback_round_trip, spec_decode_suback_body, spec_encode_suback, SubAckPacket,
    SubAckView,
};
use crate::v4::subscribe::{
    lemma_subscribe_round_trip, spec_decode_subscribe_body, spec_encode_subscribe,
    SubscribePacket, SubscribeView,
};
use crate::v4::unsuback::UnsubAckPacket;
use crate::v4::unsubscribe::{
    lemma_unsubscribe_round_trip, spec_decode_unsubscribe_body, spec_encode_unsubscribe,
    UnsubscribePacket, UnsubscribeView,
};
use bytes::Bytes;
use vstd::prelude::*;

verus! {

/// What a control packet says.
pub enum MqttPacketView {
    ConnAck(ConnAckView),
    Connect(ConnectView),
    Disconnect,
    PingReq,
    PingResp,
    PubAck(u16),
    PubComp(u16),
    Publish(PublishView),
    PubRec(u16),
    PubRel(u16),
    SubAck(SubAckView),
    Subscribe(SubscribeView),
    UnsubAck(u16),
    Unsubscribe(UnsubscribeView),
}

impl MqttPacketView {
    /// The type of the packet.
    pub open spec fn packet_type(self) -> PacketType {
        match self {
            MqttPacketView::ConnAck(_) => PacketType::CONNACK,
            MqttPacketView::Connect(_) => PacketType::CONNECT,
            MqttPacketView::Disconnect => PacketType::DISCONNECT,
            MqttPacketView::PingReq => PacketType::PINGREQ,
            MqttPacketView::PingResp => PacketType::PINGRESP,
            MqttPacketView::PubAck(_) => PacketType::PUBACK,
            MqttPacketView::PubComp(_) => PacketType::PUBCOMP,
            MqttPacketView::Publish(_) => PacketType::PUBLISH,
            MqttPacketView::PubRec(_) => PacketType::PUBREC,
            MqttPacketView::PubRel(_) => PacketType::PUBREL,
            MqttPacketView::SubAck(_) => PacketType::SUBACK,
            MqttPacketView::Subscribe(_) => PacketType::SUBSCRIBE,
            MqttPacketView::UnsubAck(_) => PacketType::UNSUBACK,
            MqttPacketView::Unsubscribe(_) => PacketType::UNSUBSCRIBE,
        }
    }

    /// Whether the packet may go on the wire. The packets of fixed size
    /// always may; the others by the rule of their kind.
    pub open spec fn legal(self) -> bool {
        match self {
            MqttPacketView::Connect(v) => v.legal(),
            MqttPacketView::Publish(v) => v.legal(),
            MqttPacketView::SubAck(v) => v.legal(),
            MqttPacketView::Subscribe(v) => v.legal(),
            MqttPacketView::Unsubscribe(v) => v.legal(),
            _ => true,
        }
    }

    /// Whether the packet can be written: every entry of a SUBSCRIBE has a
    /// filter.
    pub open spec fn writable(self) -> bool {
        match self {
            MqttPacketView::Subscribe(v) => forall|i: int|
                0 <= i < v.entries.len() ==> (#[trigger] v.entries[i]) is Some,
            _ => true,
        }
    }

    /// Whether the packet and its fields fit their length fields.
    pub open spec fn encodable(self) -> bool {
        match self {
            MqttPacketView::Connect(v) => v.encodable(),
            MqttPacketView::Publish(v) => v.body().len() <= crate::io::MAX_ENCODED_PACKET_LEN
                && vstd::utf8::encode_utf8(crate::topic::join_levels(v.topic)).len()
                <= crate::io::MAX_FIELD_LEN,
            MqttPacketView::SubAck(v) => v.legal(),
            MqttPacketView::Subscribe(v) => v.encodable(),
            MqttPacketView::Unsubscribe(v) => v.encodable(),
            _ => true,
        }
    }
}

/// The whole packet on the wire, fixed header included.
pub open spec fn spec_encode_packet(v: MqttPacketView) -> Seq<u8> {
    match v {
        MqttPacketView::ConnAck(p) => spec_encode_connack(p),
        MqttPacketView::Connect(p) => spec_encode_connect(p),
        MqttPacketView::Disconnect => spec_encode_empty_frame(PacketType::DISCONNECT),
        MqttPacketView::PingReq => spec_encode_empty_frame(PacketType::PINGREQ),
        MqttPacketView::PingResp => spec_encode_empty_frame(PacketType::PINGRESP),
        MqttPacketView::PubAck(id) => spec_encode_id_frame(PacketType::PUBACK, 0, id),
        MqttPacketView::PubComp(id) => spec_encode_id_frame(PacketType::PUBCOMP, 0, id),
        MqttPacketView::Publish(p) => spec_encode_publish(p),
        MqttPacketView::PubRec(id) => spec_encode_id_frame(PacketType::PUBREC, 0, id),
        MqttPacketView::PubRel(id) => spec_encode_id_frame(PacketType::PUBREL, 2, id),
        MqttPacketView::SubAck(p) => spec_encode_suback(p),
        MqttPacketView::Subscribe(p) => spec_encode_subscribe(p),
        MqttPacketView::UnsubAck(id) => spec_encode_id_frame(PacketType::UNSUBACK, 0, id),
        MqttPacketView::Unsubscribe(p) => spec_encode_unsubscribe(p),
    }
}

/// Reads the body of a packet under its fixed header. `body` is the body and
/// nothing else.
pub open spec fn spec_decode_packet_body(h: FixedHeaderView, body: Seq<u8>) -> Result<
    MqttPacketView,
    DecodeErrorKind,
> {
    match h.type_ {
        PacketType::CONNACK => match spec_decode_connack_body(body) {
            Ok(p) => Ok(MqttPacketView::ConnAck(p)),
            Err(k) => Err(k),
        },
        PacketType::CONNECT => match spec_decode_connect_body(body) {
            Ok((p, _)) => Ok(MqttPacketView::Connect(p)),
            Err(k) => Err(k),
        },
        PacketType::DISCONNECT => match spec_decode_empty_body(h.rest_len) {
            Ok(_) => Ok(MqttPacketView::Disconnect),
            Err(k) => Err(k),
        },
        PacketType::PINGREQ => match spec_decode_empty_body(h.rest_len) {
            Ok(_) => Ok(MqttPacketView::PingReq),
            Err(k) => Err(k),
        },
        PacketType::PINGRESP => match spec_decode_empty_body(h.rest_len) {
            Ok(_) => Ok(MqttPacketView::PingResp),
            Err(k) => Err(k),
        },
        PacketType::PUBACK => match spec_decode_id_body(h.rest_len, body) {
            Ok(id) => Ok(MqttPacketView::PubAck(id)),
            Err(k) => Err(k),
        },
        PacketType::PUBCOMP => match spec_decode_id_body(h.rest_len, body) {
            Ok(id) => Ok(MqttPacketView::PubComp(id)),
            Err(k) => Err(k),
        },
        PacketType::PUBLISH => match spec_decode_publish_body((h.flags % 16) as u8, body) {
            Ok(p) => Ok(MqttPacketView::Publish(p)),
            Err(k) => Err(k),
        },
        PacketType::PUBREC => match spec_decode_id_body(h.rest_len, body) {
            Ok(id) => Ok(MqttPacketView::PubRec(id)),
            Err(k) => Err(k),
        },
        PacketType::PUBREL => match spec_decode_id_body(h.rest_len, body) {
            Ok(id) => Ok(MqttPacketView::PubRel(id)),
            Err(k) => Err(k),
        },
        PacketType::SUBACK => match spec_decode_suback_body(body) {
            Ok(p) => Ok(MqttPacketView::SubAck(p)),
            Err(k) => Err(k),
        },
        PacketType::SUBSCRIBE => match spec_decode_subscribe_body(body) {
            Ok(p) => Ok(MqttPacketView::Subscribe(p)),
            Err(k) => Err(k),
        },
        PacketType::UNSUBACK => match spec_decode_id_body(h.rest_len, body) {
            Ok(id) => Ok(MqttPacketView::UnsubAck(id)),
            Err(k) => Err(k),
        },
        PacketType::UNSUBSCRIBE => match spec_decode_unsubscribe_body(body) {
            Ok(p) => Ok(MqttPacketView::Unsubscribe(p)),
            Err(k) => Err(k),
        },
    }
}

/// What the front of a stream of bytes holds.
pub enum Frame {
    /// A whole packet, and the number of bytes it takes.
    Packet(MqttPacketView, nat),
    /// The beginning of a packet whose remaining bytes have not arrived.
    Incomplete,
}

/// Reads the packet at the front of a stream of bytes.
///
/// A header that is cut off inside its length field, and a body of which
/// not all bytes are there, is an incomplete frame. Any other fault of the
/// header or of the body is the error of that fault.
pub open spec fn spec_decode_frame(b: Seq<u8>) -> Result<Frame, DecodeErrorKind> {
    match spec_decode_fixed_header(b) {
        Err(k) => if k == DecodeErrorKind::MalformedLength && b.len() < 5 {
            Ok(Frame::Incomplete)
        } else {
            Err(k)
        },
        Ok((h, rest)) => if rest.len() < h.rest_len {
            Ok(Frame::Incomplete)
        } else {
            match spec_decode_packet_body(h, rest.take(h.rest_len as int)) {
                Err(k) => Err(k),
                Ok(p) => Ok(Frame::Packet(p, h.header_len + h.rest_len)),
            }
        },
    }
}

/// A control packet of any of the fourteen types.
#[derive(PartialEq, Eq, Debug)]
pub enum MqttPacket {
    ConnAck(ConnAckPacket),
    Connect(ConnectPacket),
    Disconnect(DisconnectPacket),
    PingReq(PingReqPacket),
    PingResp(PingRespPacket),
    PubAck(PubAckPacket),
    PubComp(PubCompPacket),
    Publish(PublishPacket),
    PubRec(PubRecPacket),
    PubRel(PubRelPacket),
    SubAck(SubAckPacket),
    Subscribe(SubscribePacket),
    UnsubAck(UnsubAckPacket),
    Unsubscribe(UnsubscribePacket),
}

impl View for MqttPacket {
    type V = MqttPacketView;

    open spec fn view(&self) -> MqttPacketView {
        match self {
            MqttPacket::ConnAck(p) => MqttPacketView::ConnAck(p@),
            MqttPacket::Connect(p) => MqttPacketView::Connect(p@),
            MqttPacket::Disconnect(_) => MqttPacketView::Disconnect,
            MqttPacket::PingReq(_) => MqttPacketView::PingReq,
            MqttPacket::PingResp(_) => MqttPacketView::PingResp,
            MqttPacket::PubAck(p) => MqttPacketView::PubAck(p@),
            MqttPacket::PubComp(p) => MqttPacketView::PubComp(p@),
            MqttPacket::Publish(p) => MqttPacketView::Publish(p@),
            MqttPacket::PubRec(p) => MqttPacketView::PubRec(p@),
            MqttPacket::PubRel(p) => MqttPacketView::PubRel(p@),
            MqttPacket::SubAck(p) => MqttPacketView::SubAck(p@),
            MqttPacket::Subscribe(p) => MqttPacketView::Subscribe(p@),
            MqttPacket::UnsubAck(p) => MqttPacketView::UnsubAck(p@),
            MqttPacket::Unsubscribe(p) => MqttPacketView::Unsubscribe(p@),
        }
    }
}

impl Clone for MqttPacket {
    fn clone(&self) -> (r: Self)
        ensures
            r@ == self@,
    {
        match self {
            MqttPacket::ConnAck(p) => MqttPacket::ConnAck(*p),
            MqttPacket::Connect(p) => MqttPacket::Connect(p.clone()),
            MqttPacket::Disconnect(p) => MqttPacket::Disconnect(*p),
            MqttPacket::PingReq(p) => MqttPacket::PingReq(*p),
            MqttPacket::PingResp(p) => MqttPacket::PingResp(*p),
            MqttPacket::PubAck(p) => MqttPacket::PubAck(*p),
            MqttPacket::PubComp(p) => MqttPacket::PubComp(*p),
            MqttPacket::Publish(p) => MqttPacket::Publish(p.clone()),
            MqttPacket::PubRec(p) => MqttPacket::PubRec(*p),
            MqttPacket::PubRel(p) => MqttPacket::PubRel(*p),
            MqttPacket::SubAck(p) => MqttPacket::SubAck(p.clone()),
            MqttPacket::Subscribe(p) => MqttPacket::Subscribe(p.clone()),
            MqttPacket::UnsubAck(p) => MqttPacket::UnsubAck(*p),
            MqttPacket::Unsubscribe(p) => MqttPacket::Unsubscribe(p.clone()),
        }
    }
}

impl MqttPacket {
    /// The whole packet, fixed header included. A SUBSCRIBE must have a
    /// filter in every entry. A packet or a field that does not fit its
    /// length field gives `OversizedPayload`.
    pub fn encode(&self) -> (r: Result<Bytes, EncodeError>)
        requires
            self@.writable(),
        ensures
            match r {
                Ok(b) => self@.encodable() && bytes_view(b) == spec_encode_packet(self@),
                Err(e) => !self@.encodable() && e.spec_kind()
                    == EncodeErrorKind::OversizedPayload,
            },
    {
        match self {
            MqttPacket::ConnAck(packet) => Ok(packet.encode()),
            MqttPacket::Disconnect(packet) => Ok(packet.encode()),
            MqttPacket::PingReq(packet) => Ok(packet.encode()),
            MqttPacket::PingResp(packet) => Ok(packet.encode()),
            MqttPacket::PubAck(packet) => Ok(packet.encode()),
            MqttPacket::PubComp(packet) => Ok(packet.encode()),
            MqttPacket::PubRel(packet) => Ok(packet.encode()),
            MqttPacket::PubRec(packet) => Ok(packet.encode()),
            MqttPacket::UnsubAck(packet) => Ok(packet.encode()),
            MqttPacket::Unsubscribe(packet) => packet.encode(),
            MqttPacket::Connect(packet) => packet.encode(),
            MqttPacket::Subscribe(packet) => packet.encode(),
            MqttPacket::Publish(packet) => packet.encode(),
            MqttPacket::SubAck(packet) => packet.encode(),
        }
    }

    /// Reads the body of a packet under its fixed header and consumes the
    /// whole buffer, which must hold the body and nothing else. On failure
    /// the buffer is left as it was.
    pub fn decode(f_header: FixedHeader, bytes: &mut Bytes) -> (r: Result<Self, DecodeError>)
        ensures
            match r {
                Ok(p) => spec_decode_packet_body(f_header@, bytes_view(*old(bytes))) == Ok::<
                    MqttPacketView,
                    DecodeErrorKind,
                >(p@) && bytes_view(*final(bytes)) == Seq::<u8>::empty(),
                Err(e) => spec_decode_packet_body(f_header@, bytes_view(*old(bytes))) == Err::<
                    MqttPacketView,
                    DecodeErrorKind,
                >(e.spec_kind()) && *final(bytes) == *old(bytes),
            },
    {
        let mut cursor = bytes_clone(bytes);
        let decoded: Result<MqttPacket, DecodeError> = match f_header.type_ {
            PacketType::CONNECT => decode_connect(f_header, &mut cursor),
            PacketType::PUBLISH => decode_publish(f_header, &mut cursor),
            PacketType::SUBACK => decode_suback(f_header, &mut cursor),
            PacketType::SUBSCRIBE => decode_subscribe(f_header, &mut cursor),
            PacketType::UNSUBSCRIBE => decode_unsubscribe(f_header, &mut cursor),
            PacketType::PUBACK | PacketType::PUBREC | PacketType::PUBREL | PacketType::PUBCOMP
            | PacketType::UNSUBACK => decode_acknowledgement(f_header, &mut cursor),
            _ => decode_short(f_header, &mut cursor),
        };
        match decoded {
            Ok(p) => {
                let left: usize = bytes_len(&cursor);
                bytes_advance(&mut cursor, left);
                assert(bytes_view(cursor) =~= Seq::<u8>::empty());
                *bytes = cursor;
                Ok(p)
            },
            Err(e) => Err(e),
        }
    }
}

/// Reads the body of a CONNECT.
fn decode_connect(f_header: FixedHeader, bytes: &mut Bytes) -> (r: Result<MqttPacket, DecodeError>)
    requires
        f_header.type_ == PacketType::CONNECT,
    ensures
        match r {
            Ok(p) => spec_decode_packet_body(f_header@, bytes_view(*old(bytes))) == Ok::<
                MqttPacketView,
                DecodeErrorKind,
            >(p@),
            Err(e) => spec_decode_packet_body(f_header@, bytes_view(*old(bytes))) == Err::<
                MqttPacketView,
                DecodeErrorKind,
            >(e.spec_kind()),
        },
{
    match ConnectPacket::decode(bytes) {
        Ok(p) => Ok(MqttPacket::Connect(p)),
        Err(e) => Err(e),
    }
}

/// Reads the body of a PUBLISH.
fn decode_publish(f_header: FixedHeader, bytes: &mut Bytes) -> (r: Result<MqttPacket, DecodeError>)
    requires
        f_header.type_ == PacketType::PUBLISH,
    ensures
        match r {
            Ok(p) => spec_decode_packet_body(f_header@, bytes_view(*old(bytes))) == Ok::<
                MqttPacketView,
                DecodeErrorKind,
            >(p@),
            Err(e) => spec_decode_packet_body(f_header@, bytes_view(*old(bytes))) == Err::<
                MqttPacketView,
                DecodeErrorKind,
            >(e.spec_kind()),
        },
{
    match PublishPacket::decode(f_header, bytes) {
        Ok(p) => Ok(MqttPacket::Publish(p)),
        Err(e) => Err(e),
    }
}

/// Reads the body of a SUBACK.
fn decode_suback(f_header: FixedHeader, bytes: &mut Bytes) -> (r: Result<MqttPacket, DecodeError>)
    requires
        f_header.type_ == PacketType::SUBACK,
    ensures
        match r {
            Ok(p) => spec_decode_packet_body(f_header@, bytes_view(*old(bytes))) == Ok::<
                MqttPacketView,
                DecodeErrorKind,
            >(p@),
            Err(e) => spec_decode_packet_body(f_header@, bytes_view(*old(bytes))) == Err::<
                MqttPacketView,
                DecodeErrorKind,
            >(e.spec_kind()),
        },
{
    match SubAckPacket::decode(bytes) {
        Ok(p) => Ok(MqttPacket::SubAck(p)),
        Err(e) => Err(e),
    }
}

/// Reads the body of a SUBSCRIBE.
fn decode_subscribe(f_header: FixedHeader, bytes: &mut Bytes) -> (r: Result<MqttPacket, DecodeError>)
    requires
        f_header.type_ == PacketType::SUBSCRIBE,
    ensures
        match r {
            Ok(p) => spec_decode_packet_body(f_header@, bytes_view(*old(bytes))) == Ok::<
                MqttPacketView,
                DecodeErrorKind,
            >(p@),
            Err(e) => spec_decode_packet_body(f_header@, bytes_view(*old(bytes))) == Err::<
                MqttPacketView,
                DecodeErrorKind,
            >(e.spec_kind()),
        },
{
    match SubscribePacket::decode(bytes) {
        Ok(p) => Ok(MqttPacket::Subscribe(p)),
        Err(e) => Err(e),
    }
}

/// Reads the body of an UNSUBSCRIBE.
fn decode_unsubscribe(f_header: FixedHeader, bytes: &mut Bytes) -> (r: Result<MqttPacket, DecodeError>)
    requires
        f_header.type_ == PacketType::UNSUBSCRIBE,
    ensures
        match r {
            Ok(p) => spec_decode_packet_body(f_header@, bytes_view(*old(bytes))) == Ok::<
                MqttPacketView,
                DecodeErrorKind,
            >(p@),
            Err(e) => spec_decode_packet_body(f_header@, bytes_view(*old(bytes))) == Err::<
                MqttPacketView,
                DecodeErrorKind,
            >(e.spec_kind()),
        },
{
    match UnsubscribePacket::decode(bytes) {
        Ok(p) => Ok(MqttPacket::Unsubscribe(p)),
        Err(e) => Err(e),
    }
}

/// Reads the body of a packet that holds nothing but a packet id.
fn decode_acknowledgement(f_header: FixedHeader, bytes: &mut Bytes) -> (r: Result<
    MqttPacket,
    DecodeError,
>)
    requires
        f_header.type_ == PacketType::PUBACK || f_header.type_ == PacketType::PUBREC
            || f_header.type_ == PacketType::PUBREL || f_header.type_ == PacketType::PUBCOMP
            || f_header.type_ == PacketType::UNSUBACK,
    ensures
        match r {
            Ok(p) => spec_decode_packet_body(f_header@, bytes_view(*old(bytes))) == Ok::<
                MqttPacketView,
                DecodeErrorKind,
            >(p@),
            Err(e) => spec_decode_packet_body(f_header@, bytes_view(*old(bytes))) == Err::<
                MqttPacketView,
                DecodeErrorKind,
            >(e.spec_kind()),
        },
{
    match f_header.type_ {
        PacketType::PUBACK => match PubAckPacket::decode(f_header, bytes) {
            Ok(p) => Ok(MqttPacket::PubAck(p)),
            Err(e) => Err(e),
        },
        PacketType::PUBCOMP => match PubCompPacket::decode(f_header, bytes) {
            Ok(p) => Ok(MqttPacket::PubComp(p)),
            Err(e) => Err(e),
        },
        PacketType::PUBREL => match PubRelPacket::decode(f_header, bytes) {
            Ok(p) => Ok(MqttPacket::PubRel(p)),
            Err(e) => Err(e),
        },
        PacketType::PUBREC => match PubRecPacket::decode(f_header, bytes) {
            Ok(p) => Ok(MqttPacket::PubRec(p)),
            Err(e) => Err(e),
        },
        _ => match UnsubAckPacket::decode(f_header, bytes) {
            Ok(p) => Ok(MqttPacket::UnsubAck(p)),
            Err(e) => Err(e),
        },
    }
}

/// Reads the body of a CONNACK, or accepts the header of a packet without a
/// body.
fn decode_short(f_header: FixedHeader, bytes: &mut Bytes) -> (r: Result<MqttPacket, DecodeError>)
    requires
        f_header.type_ == PacketType::CONNACK || f_header.type_ == PacketType::DISCONNECT
            || f_header.type_ == PacketType::PINGREQ || f_header.type_ == PacketType::PINGRESP,
    ensures
        match r {
            Ok(p) => spec_decode_packet_body(f_header@, bytes_view(*old(bytes))) == Ok::<
                MqttPacketView,
                DecodeErrorKind,
            >(p@),
            Err(e) => spec_decode_packet_body(f_header@, bytes_view(*old(bytes))) == Err::<
                MqttPacketView,
                DecodeErrorKind,
            >(e.spec_kind()),
        },
{
    match f_header.type_ {
        PacketType::CONNACK => match ConnAckPacket::decode(bytes) {
            Ok(p) => Ok(MqttPacket::ConnAck(p)),
            Err(e) => Err(e),
        },
        PacketType::DISCONNECT => match DisconnectPacket::decode(f_header) {
            Ok(p) => Ok(MqttPacket::Disconnect(p)),
            Err(e) => Err(e),
        },
        PacketType::PINGREQ => match PingReqPacket::decode(f_header) {
            Ok(p) => Ok(MqttPacket::PingReq(p)),
            Err(e) => Err(e),
        },
        _ => match PingRespPacket::decode(f_header) {
            Ok(p) => Ok(MqttPacket::PingResp(p)),
            Err(e) => Err(e),
        },
    }
}

/// Reads the packet at the front of `bytes`, which may hold less or more
/// than one packet: the packet and the number of bytes it takes, or nothing
/// and 0 where the packet has not arrived in full.
pub fn decode_any(bytes: Bytes) -> (r: Result<(Option<MqttPacket>, usize), DecodeError>)
    ensures
        match r {
            Ok((Some(p), used)) => spec_decode_frame(bytes_view(bytes)) == Ok::<
                Frame,
                DecodeErrorKind,
            >(Frame::Packet(p@, used as nat)) && used <= bytes_view(bytes).len(),
            Ok((None, used)) => spec_decode_frame(bytes_view(bytes)) == Ok::<
                Frame,
                DecodeErrorKind,
            >(Frame::Incomplete) && used == 0,
            Err(e) => spec_decode_frame(bytes_view(bytes)) == Err::<Frame, DecodeErrorKind>(
                e.spec_kind(),
            ),
        },
{
    let total: usize = bytes_len(&bytes);
    let mut cursor = bytes_clone(&bytes);
    let f_header = match FixedHeader::decode(&mut cursor) {
        Ok(h) => h,
        Err(e) => {
            match e.kind() {
                DecodeErrorKind::MalformedLength => {
                    if total < 5 {
                        return Ok((None, 0));
                    }
                },
                _ => {},
            }
            return Err(e);
        },
    };
    proof {
        crate::io::lemma_decode_length_bounds(bytes_view(bytes).skip(1));
    }
    if bytes_len(&cursor) < f_header.rest_len {
        return Ok((None, 0));
    }
    let mut body = bytes_slice(&cursor, 0, f_header.rest_len);
    assert(bytes_view(body) =~= bytes_view(cursor).take(f_header.rest_len as int));
    match MqttPacket::decode(f_header, &mut body) {
        Ok(packet) => Ok((Some(packet), f_header.rest_len + f_header.header_len)),
        Err(err) => Err(err),
    }
}

/// A frame is read as its packet where its header is read as a header that
/// announces the body, the body follows the header and ends the bytes, and
/// the body under the header is read as the packet.
pub proof fn lemma_frame_of_parts(
    wire: Seq<u8>,
    h: FixedHeaderView,
    body: Seq<u8>,
    v: MqttPacketView,
)
    requires
        spec_decode_fixed_header(wire) == Ok::<(FixedHeaderView, Seq<u8>), DecodeErrorKind>(
            (h, body),
        ),
        h.rest_len == body.len(),
        wire.len() == h.header_len + h.rest_len,
        spec_decode_packet_body(h, body) == Ok::<MqttPacketView, DecodeErrorKind>(v),
    ensures
        spec_decode_frame(wire) == Ok::<Frame, DecodeErrorKind>(Frame::Packet(v, wire.len())),
{
    assert(body.take(h.rest_len as int) =~= body);
}

proof fn lemma_connack_frame(p: ConnAckView)
    ensures
        spec_decode_frame(spec_encode_packet(MqttPacketView::ConnAck(p))) == Ok::<
            Frame,
            DecodeErrorKind,
        >(
            Frame::Packet(
                MqttPacketView::ConnAck(p),
                spec_encode_packet(MqttPacketView::ConnAck(p)).len(),
            ),
        ),
{
    let v = MqttPacketView::ConnAck(p);
    let wire = spec_encode_packet(v);
    lemma_connack_round_trip(p);
    crate::io::lemma_encode_length_len(2);
    let decoded = spec_decode_fixed_header(wire).unwrap();
    lemma_frame_of_parts(wire, decoded.0, decoded.1, v);
}

proof fn lemma_connect_frame(p: ConnectView)
    requires
        p.legal(),
    ensures
        spec_decode_frame(spec_encode_packet(MqttPacketView::Connect(p))) == Ok::<
            Frame,
            DecodeErrorKind,
        >(
            Frame::Packet(
                MqttPacketView::Connect(p),
                spec_encode_packet(MqttPacketView::Connect(p)).len(),
            ),
        ),
{
    let v = MqttPacketView::Connect(p);
    let wire = spec_encode_packet(v);
    lemma_connect_round_trip(p);
    crate::v4::connect::lemma_connect_body_fits(p);
    crate::io::lemma_encode_length_len(p.body().len());
    let decoded = spec_decode_fixed_header(wire).unwrap();
    lemma_frame_of_parts(wire, decoded.0, decoded.1, v);
}

proof fn lemma_publish_body_as_packet(h: FixedHeaderView, body: Seq<u8>, p: PublishView)
    requires
        h.type_ == PacketType::PUBLISH,
        h.flags < 16,
        spec_decode_publish_body(h.flags, body) == Ok::<PublishView, DecodeErrorKind>(p),
    ensures
        spec_decode_packet_body(h, body) == Ok::<MqttPacketView, DecodeErrorKind>(
            MqttPacketView::Publish(p),
        ),
{
    assert((h.flags % 16) as u8 == h.flags);
}

/// A header written for a body, followed by the body, is read as the packet
/// that the body under that header is read as.
pub proof fn lemma_frame_round_trip(type_: PacketType, flags: u8, body: Seq<u8>, v: MqttPacketView)
    requires
        type_.spec_accepts_flags(flags),
        body.len() <= crate::io::MAX_ENCODED_PACKET_LEN,
        spec_decode_packet_body(
            FixedHeaderView {
                type_,
                flags,
                rest_len: body.len(),
                header_len: 1 + spec_length_size(body.len()),
            },
            body,
        ) == Ok::<MqttPacketView, DecodeErrorKind>(v),
    ensures
        spec_decode_frame(crate::v4::header::spec_encode_fixed_header(type_, flags, body.len()) + body)
            == Ok::<Frame, DecodeErrorKind>(
            Frame::Packet(
                v,
                (crate::v4::header::spec_encode_fixed_header(type_, flags, body.len()) + body).len(),
            ),
        ),
{
    let wire = crate::v4::header::spec_encode_fixed_header(type_, flags, body.len()) + body;
    let h = FixedHeaderView {
        type_,
        flags,
        rest_len: body.len(),
        header_len: 1 + spec_length_size(body.len()),
    };
    crate::v4::header::lemma_fixed_header_round_trip(type_, flags, body.len(), body);
    lemma_frame_len(type_, flags, body);
    lemma_frame_of_parts(wire, h, body, v);
}

proof fn lemma_frame_len(type_: PacketType, flags: u8, body: Seq<u8>)
    requires
        body.len() <= crate::io::MAX_ENCODED_PACKET_LEN,
    ensures
        (crate::v4::header::spec_encode_fixed_header(type_, flags, body.len()) + body).len() == 1
            + spec_length_size(body.len()) + body.len(),
{
    crate::io::lemma_encode_length_len(body.len());
}

proof fn lemma_publish_frame(p: PublishView)
    requires
        p.legal(),
    ensures
        spec_decode_frame(spec_encode_packet(MqttPacketView::Publish(p))) == Ok::<
            Frame,
            DecodeErrorKind,
        >(
            Frame::Packet(
                MqttPacketView::Publish(p),
                spec_encode_packet(MqttPacketView::Publish(p)).len(),
            ),
        ),
{
    let v = MqttPacketView::Publish(p);
    let wire = spec_encode_packet(v);
    lemma_publish_round_trip(p);
    let h = FixedHeaderView {
        type_: PacketType::PUBLISH,
        flags: p.flags,
        rest_len: p.body().len(),
        header_len: 1 + spec_length_size(p.body().len()),
    };
    lemma_publish_body_as_packet(h, p.body(), p);
    assert(PacketType::PUBLISH.spec_accepts_flags(p.flags));
    lemma_frame_round_trip(PacketType::PUBLISH, p.flags, p.body(), v);
}

proof fn lemma_suback_frame(p: SubAckView)
    requires
        p.legal(),
    ensures
        spec_decode_frame(spec_encode_packet(MqttPacketView::SubAck(p))) == Ok::<
            Frame,
            DecodeErrorKind,
        >(
            Frame::Packet(
                MqttPacketView::SubAck(p),
                spec_encode_packet(MqttPacketView::SubAck(p)).len(),
            ),
        ),
{
    let v = MqttPacketView::SubAck(p);
    let wire = spec_encode_packet(v);
    lemma_suback_round_trip(p);
    crate::io::lemma_encode_length_len(p.body().len());
    let decoded = spec_decode_fixed_header(wire).unwrap();
    lemma_frame_of_parts(wire, decoded.0, decoded.1, v);
}

proof fn lemma_subscribe_frame(p: SubscribeView)
    requires
        p.legal(),
    ensures
        spec_decode_frame(spec_encode_packet(MqttPacketView::Subscribe(p))) == Ok::<
            Frame,
            DecodeErrorKind,
        >(
            Frame::Packet(
                MqttPacketView::Subscribe(p),
                spec_encode_packet(MqttPacketView::Subscribe(p)).len(),
            ),
        ),
{
    let v = MqttPacketView::Subscribe(p);
    let wire = spec_encode_packet(v);
    lemma_subscribe_round_trip(p);
    crate::io::lemma_encode_length_len(p.body().len());
    let decoded = spec_decode_fixed_header(wire).unwrap();
    lemma_frame_of_parts(wire, decoded.0, decoded.1, v);
}

proof fn lemma_unsubscribe_frame(p: UnsubscribeView)
    requires
        p.legal(),
    ensures
        spec_decode_frame(spec_encode_packet(MqttPacketView::Unsubscribe(p))) == Ok::<
            Frame,
            DecodeErrorKind,
        >(
            Frame::Packet(
                MqttPacketView::Unsubscribe(p),
                spec_encode_packet(MqttPacketView::Unsubscribe(p)).len(),
            ),
        ),
{
    let v = MqttPacketView::Unsubscribe(p);
    let wire = spec_encode_packet(v);
    lemma_unsubscribe_round_trip(p);
    crate::io::lemma_encode_length_len(p.body().len());
    let decoded = spec_decode_fixed_header(wire).unwrap();
    lemma_frame_of_parts(wire, decoded.0, decoded.1, v);
}

proof fn lemma_puback_frame(p: u16)
    ensures
        spec_decode_frame(spec_encode_packet(MqttPacketView::PubAck(p))) == Ok::<
            Frame,
            DecodeErrorKind,
        >(
            Frame::Packet(
                MqttPacketView::PubAck(p),
                spec_encode_packet(MqttPacketView::PubAck(p)).len(),
            ),
        ),
{
    let v = MqttPacketView::PubAck(p);
    let wire = spec_encode_packet(v);
    lemma_id_frame_round_trip(PacketType::PUBACK, 0, p);
    crate::io::lemma_encode_length_len(2);
    let decoded = spec_decode_fixed_header(wire).unwrap();
    lemma_frame_of_parts(wire, decoded.0, decoded.1, v);
}

proof fn lemma_pubrec_frame(p: u16)
    ensures
        spec_decode_frame(spec_encode_packet(MqttPacketView::PubRec(p))) == Ok::<
            Frame,
            DecodeErrorKind,
        >(
            Frame::Packet(
                MqttPacketView::PubRec(p),
                spec_encode_packet(MqttPacketView::PubRec(p)).len(),
            ),
        ),
{
    let v = MqttPacketView::PubRec(p);
    let wire = spec_encode_packet(v);
    lemma_id_frame_round_trip(PacketType::PUBREC, 0, p);
    crate::io::lemma_encode_length_len(2);
    let decoded = spec_decode_fixed_header(wire).unwrap();
    lemma_frame_of_parts(wire, decoded.0, decoded.1, v);
}

proof fn lemma_pubrel_frame(p: u16)
    ensures
        spec_decode_frame(spec_encode_packet(MqttPacketView::PubRel(p))) == Ok::<
            Frame,
            DecodeErrorKind,
        >(
            Frame::Packet(
                MqttPacketView::PubRel(p),
                spec_encode_packet(MqttPacketView::PubRel(p)).len(),
            ),
        ),
{
    let v = MqttPacketView::PubRel(p);
    let wire = spec_encode_packet(v);
    lemma_id_frame_round_trip(PacketType::PUBREL, 2, p);
    crate::io::lemma_encode_length_len(2);
    let decoded = spec_decode_fixed_header(wire).unwrap();
    lemma_frame_of_parts(wire, decoded.0, decoded.1, v);
}

proof fn lemma_pubcomp_frame(p: u16)
    ensures
        spec_decode_frame(spec_encode_packet(MqttPacketView::PubComp(p))) == Ok::<
            Frame,
            DecodeErrorKind,
        >(
            Frame::Packet(
                MqttPacketView::PubComp(p),
                spec_encode_packet(MqttPacketView::PubComp(p)).len(),
            ),
        ),
{
    let v = MqttPacketView::PubComp(p);
    let wire = spec_encode_packet(v);
    lemma_id_frame_round_trip(PacketType::PUBCOMP, 0, p);
    crate::io::lemma_encode_length_len(2);
    let decoded = spec_decode_fixed_header(wire).unwrap();
    lemma_frame_of_parts(wire, decoded.0, decoded.1, v);
}

proof fn lemma_unsuback_frame(p: u16)
    ensures
        spec_decode_frame(spec_encode_packet(MqttPacketView::UnsubAck(p))) == Ok::<
            Frame,
            DecodeErrorKind,
        >(
            Frame::Packet(
                MqttPacketView::UnsubAck(p),
                spec_encode_packet(MqttPacketView::UnsubAck(p)).len(),
            ),
        ),
{
    let v = MqttPacketView::UnsubAck(p);
    let wire = spec_encode_packet(v);
    lemma_id_frame_round_trip(PacketType::UNSUBACK, 0, p);
    crate::io::lemma_encode_length_len(2);
    let decoded = spec_decode_fixed_header(wire).unwrap();
    lemma_frame_of_parts(wire, decoded.0, decoded.1, v);
}

proof fn lemma_disconnect_frame()
    ensures
        spec_decode_frame(spec_encode_packet(MqttPacketView::Disconnect)) == Ok::<
            Frame,
            DecodeErrorKind,
        >(
            Frame::Packet(
                MqttPacketView::Disconnect,
                spec_encode_packet(MqttPacketView::Disconnect).len(),
            ),
        ),
{
    let v = MqttPacketView::Disconnect;
    let wire = spec_encode_packet(v);
    lemma_empty_frame_round_trip(PacketType::DISCONNECT);
    crate::io::lemma_encode_length_len(0);
    let decoded = spec_decode_fixed_header(wire).unwrap();
    lemma_frame_of_parts(wire, decoded.0, decoded.1, v);
}

proof fn lemma_pingreq_frame()
    ensures
        spec_decode_frame(spec_encode_packet(MqttPacketView::PingReq)) == Ok::<
            Frame,
            DecodeErrorKind,
        >(
            Frame::Packet(
                MqttPacketView::PingReq,
                spec_encode_packet(MqttPacketView::PingReq).len(),
            ),
        ),
{
    let v = MqttPacketView::PingReq;
    let wire = spec_encode_packet(v);
    lemma_empty_frame_round_trip(PacketType::PINGREQ);
    crate::io::lemma_encode_length_len(0);
    let decoded = spec_decode_fixed_header(wire).unwrap();
    lemma_frame_of_parts(wire, decoded.0, decoded.1, v);
}

proof fn lemma_pingresp_frame()
    ensures
        spec_decode_frame(spec_encode_packet(MqttPacketView::PingResp)) == Ok::<
            Frame,
            DecodeErrorKind,
        >(
            Frame::Packet(
                MqttPacketView::PingResp,
                spec_encode_packet(MqttPacketView::PingResp).len(),
            ),
        ),
{
    let v = MqttPacketView::PingResp;
    let wire = spec_encode_packet(v);
    lemma_empty_frame_round_trip(PacketType::PINGRESP);
    crate::io::lemma_encode_length_len(0);
    let decoded = spec_decode_fixed_header(wire).unwrap();
    lemma_frame_of_parts(wire, decoded.0, decoded.1, v);
}

/// Every legal packet is read back as written: the bytes that encode it
/// decode to the packet itself and to their own number.
pub proof fn lemma_packet_round_trip(v: MqttPacketView)
    requires
        v.legal(),
    ensures
        spec_decode_frame(spec_encode_packet(v)) == Ok::<Frame, DecodeErrorKind>(
            Frame::Packet(v, spec_encode_packet(v).len()),
        ),
{
    match v {
        MqttPacketView::ConnAck(p) => lemma_connack_frame(p),
        MqttPacketView::Connect(p) => lemma_connect_frame(p),
        MqttPacketView::Disconnect => lemma_disconnect_frame(),
        MqttPacketView::PingReq => lemma_pingreq_frame(),
        MqttPacketView::PingResp => lemma_pingresp_frame(),
        MqttPacketView::PubAck(p) => lemma_puback_frame(p),
        MqttPacketView::PubComp(p) => lemma_pubcomp_frame(p),
        MqttPacketView::Publish(p) => lemma_publish_frame(p),
        MqttPacketView::PubRec(p) => lemma_pubrec_frame(p),
        MqttPacketView::PubRel(p) => lemma_pubrel_frame(p),
        MqttPacketView::SubAck(p) => lemma_suback_frame(p),
        MqttPacketView::Subscribe(p) => lemma_subscribe_frame(p),
        MqttPacketView::UnsubAck(p) => lemma_unsuback_frame(p),
        MqttPacketView::Unsubscribe(p) => lemma_unsubscribe_frame(p),
    }
}

} // verus!
