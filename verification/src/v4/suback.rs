//! The SUBACK packet: the broker's answer to a SUBSCRIBE, one return code
//! for each filter asked for, in the order of the request.
use crate::buffer::{
    bytes_advance, bytes_as_slice, bytes_len, bytes_mut_freeze, bytes_mut_put_u16,
    bytes_mut_put_u8, bytes_mut_view, bytes_mut_with_capacity, bytes_view,
};
use crate::err::{DecodeError, DecodeErrorKind, EncodeError, EncodeErrorKind};
use crate::io::{
    encode_packet_length, lemma_encode_length_len, spec_length_size, spec_u16_at_front,
    spec_u16_be, MAX_ENCODED_PACKET_LEN,
};
use crate::qos::SubAckQoS;
use crate::v4::header::{
    lemma_fixed_header_round_trip, spec_decode_fixed_header, spec_encode_fixed_header,
    FixedHeaderView, PacketType,
};
use bytes::Bytes;
use vstd::prelude::*;

verus! {

/// What a SUBACK says.
pub struct SubAckView {
    pub packet_id: u16,
    /// The return codes, in the order of the filters of the SUBSCRIBE.
    pub codes: Seq<SubAckQoS>,
}

impl SubAckView {
    /// The body: the packet id, then one byte for each return code.
    pub open spec fn body(self) -> Seq<u8> {
        spec_u16_be(self.packet_id) + Seq::new(self.codes.len(), |i: int| self.codes[i].spec_as_u8())
    }

    /// A SUBACK that may go on the wire: its body fits the length field.
    pub open spec fn legal(self) -> bool {
        2 + self.codes.len() <= MAX_ENCODED_PACKET_LEN
    }
}

/// The whole SUBACK on the wire.
pub open spec fn spec_encode_suback(v: SubAckView) -> Seq<u8> {
    spec_encode_fixed_header(PacketType::SUBACK, 0, v.body().len()) + v.body()
}

/// Reads a SUBACK body. The two bytes of the packet id must be there
/// (`MalformedLength`) and every byte after them must be a return code
/// (`QoS`).
#[verifier::opaque]
pub open spec fn spec_decode_suback_body(body: Seq<u8>) -> Result<SubAckView, DecodeErrorKind> {
    if body.len() < 2 {
        Err(DecodeErrorKind::MalformedLength)
    } else if !(forall|i: int|
        2 <= i < body.len() ==> (#[trigger] SubAckQoS::spec_from_u8(body[i])) is Some) {
        Err(DecodeErrorKind::QoS)
    } else {
        Ok(
            SubAckView {
                packet_id: spec_u16_at_front(body),
                codes: Seq::new(
                    (body.len() - 2) as nat,
                    |i: int| SubAckQoS::spec_from_u8(body[i + 2]).unwrap(),
                ),
            },
        )
    }
}

/// A SUBACK packet.
#[derive(PartialEq, Eq, Debug)]
pub struct SubAckPacket {
    packet_id: u16,
    payload: Vec<SubAckQoS>,
}

impl View for SubAckPacket {
    type V = SubAckView;

    closed spec fn view(&self) -> SubAckView {
        SubAckView { packet_id: self.packet_id, codes: self.payload@ }
    }
}

impl Clone for SubAckPacket {
    fn clone(&self) -> (r: Self)
        ensures
            r@ == self@,
    {
        let mut payload: Vec<SubAckQoS> = Vec::new();
        let mut i: usize = 0;
        while i < self.payload.len()
            invariant
                i <= self.payload@.len(),
                payload@ == self.payload@.take(i as int),
            decreases self.payload@.len() - i,
        {
            payload.push(self.payload[i]);
            assert(payload@ =~= self.payload@.take(i + 1));
            i = i + 1;
        }
        assert(self.payload@.take(self.payload@.len() as int) =~= self.payload@);
        Self { packet_id: self.packet_id, payload }
    }
}

impl SubAckPacket {
    pub fn new(packet_id: u16, payload: Vec<SubAckQoS>) -> (p: Self)
        ensures
            p@ == (SubAckView { packet_id, codes: payload@ }),
    {
        Self { packet_id, payload }
    }

    /// Reads the body of a SUBACK and consumes the whole buffer, which must
    /// hold the body and nothing else. On failure the buffer is left as it
    /// was.
    #[verifier::loop_isolation(false)]
    pub fn decode(bytes: &mut Bytes) -> (r: Result<Self, DecodeError>)
        ensures
            match r {
                Ok(p) => spec_decode_suback_body(bytes_view(*old(bytes))) == Ok::<
                    SubAckView,
                    DecodeErrorKind,
                >(p@) && bytes_view(*final(bytes)) == Seq::<u8>::empty(),
                Err(e) => spec_decode_suback_body(bytes_view(*old(bytes))) == Err::<
                    SubAckView,
                    DecodeErrorKind,
                >(e.spec_kind()) && *final(bytes) == *old(bytes),
            },
    {
        proof {
            reveal(spec_decode_suback_body);
        }
        let total: usize = bytes_len(bytes);
        if total < 2 {
            return Err(
                DecodeError::of(DecodeErrorKind::MalformedLength, "SUBACK body is cut off"),
            );
        }
        let s = bytes_as_slice(bytes);
        let ghost body = s@;
        let packet_id: u16 = (s[0] as u16) * 256 + (s[1] as u16);
        let mut payload: Vec<SubAckQoS> = Vec::new();
        let mut i: usize = 2;
        while i < total
            invariant
                2 <= i <= total,
                total == body.len(),
                s@ == body,
                payload@.len() == i - 2,
                forall|k: int|
                    2 <= k < i ==> (#[trigger] SubAckQoS::spec_from_u8(body[k])) == Some(
                        payload@[k - 2],
                    ),
            decreases total - i,
        {
            match SubAckQoS::try_from(s[i]) {
                Ok(code) => {
                    payload.push(code);
                },
                Err(e) => {
                    assert(SubAckQoS::spec_from_u8(body[i as int]) is None);
                    return Err(e);
                },
            }
            i = i + 1;
        }
        let p = Self { packet_id, payload };
        assert(p@.codes =~= spec_decode_suback_body(body).unwrap().codes);
        bytes_advance(bytes, total);
        assert(bytes_view(*bytes) =~= Seq::<u8>::empty());
        Ok(p)
    }

    /// The whole packet, fixed header included. More return codes than a
    /// body can hold give `OversizedPayload`.
    pub fn encode(&self) -> (r: Result<Bytes, EncodeError>)
        ensures
            match r {
                Ok(b) => self@.legal() && bytes_view(b) == spec_encode_suback(self@),
                Err(e) => !self@.legal() && e.spec_kind() == EncodeErrorKind::OversizedPayload,
            },
    {
        if self.payload.len() > MAX_ENCODED_PACKET_LEN - 2 {
            return Err(
                EncodeError::new(
                    EncodeErrorKind::OversizedPayload,
                    "SUBACK holds more return codes than a packet can".to_owned(),
                ),
            );
        }
        let len: usize = 2 + self.payload.len();
        let mut bytes = bytes_mut_with_capacity(len);
        bytes_mut_put_u8(&mut bytes, PacketType::SUBACK.as_u8());
        match encode_packet_length(&mut bytes, len) {
            Ok(_) => {},
            Err(e) => {
                return Err(e);
            },
        }
        proof {
            lemma_encode_length_len(len as nat);
        }
        bytes_mut_put_u16(&mut bytes, self.packet_id);
        let ghost head = spec_encode_fixed_header(PacketType::SUBACK, 0, len as nat) + spec_u16_be(
            self.packet_id,
        );
        assert(bytes_mut_view(bytes) =~= head);
        let mut i: usize = 0;
        while i < self.payload.len()
            invariant
                i <= self.payload@.len(),
                self.payload@.len() + 2 == len,
                len <= MAX_ENCODED_PACKET_LEN,
                head.len() <= 7,
                bytes_mut_view(bytes) == head + Seq::new(
                    i as nat,
                    |k: int| self.payload@[k].spec_as_u8(),
                ),
            decreases self.payload@.len() - i,
        {
            let ghost before = bytes_mut_view(bytes);
            bytes_mut_put_u8(&mut bytes, self.payload[i].as_u8());
            assert(bytes_mut_view(bytes) =~= head + Seq::new(
                (i + 1) as nat,
                |k: int| self.payload@[k].spec_as_u8(),
            ));
            i = i + 1;
        }
        assert(bytes_mut_view(bytes) =~= spec_encode_suback(self@));
        Ok(bytes_mut_freeze(bytes))
    }

    pub fn id(&self) -> (id: u16)
        ensures
            id == self@.packet_id,
    {
        self.packet_id
    }

    /// The return codes, in the order of the filters of the SUBSCRIBE.
    pub fn filters(&self) -> (codes: &Vec<SubAckQoS>)
        ensures
            codes@ == self@.codes,
    {
        &self.payload
    }
}

/// Every legal SUBACK is read back as written.
pub proof fn lemma_suback_round_trip(v: SubAckView)
    requires
        v.legal(),
    ensures
        spec_decode_fixed_header(spec_encode_suback(v)) == Ok::<
            (FixedHeaderView, Seq<u8>),
            DecodeErrorKind,
        >(
            (
                FixedHeaderView {
                    type_: PacketType::SUBACK,
                    flags: 0,
                    rest_len: v.body().len(),
                    header_len: 1 + spec_length_size(v.body().len()),
                },
                v.body(),
            ),
        ),
        spec_decode_suback_body(v.body()) == Ok::<SubAckView, DecodeErrorKind>(v),
{
    reveal(spec_decode_suback_body);
    lemma_fixed_header_round_trip(PacketType::SUBACK, 0, v.body().len(), v.body());
    let body = v.body();
    assert forall|i: int| 2 <= i < body.len() implies (#[trigger] SubAckQoS::spec_from_u8(
        body[i],
    )) == Some(v.codes[i - 2]) by {
        crate::qos::lemma_qos_round_trip(crate::qos::QosLevel::AtMostOnce, v.codes[i - 2]);
        assert(body[i] == v.codes[i - 2].spec_as_u8());
    }
    let back = spec_decode_suback_body(body).unwrap();
    assert(back.codes =~= v.codes);
    assert(body[0] == (v.packet_id / 256) as u8);
    assert(body[1] == (v.packet_id % 256) as u8);
}

} // verus!
