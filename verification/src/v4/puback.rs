//! The PUBACK packet: the answer to a PUBLISH of QoS 1.
use crate::buffer::bytes_view;
use crate::err::{DecodeError, DecodeErrorKind};
use crate::v4::header::{
    decode_id_body, encode_id_frame, spec_decode_id_body, spec_encode_id_frame, FixedHeader,
    PacketType,
};
use bytes::Bytes;
use vstd::prelude::*;

verus! {

/// A PUBACK packet. It holds the id of the PUBLISH that it answers.
#[derive(PartialEq, Eq, Structural, Clone, Copy, Debug)]
pub struct PubAckPacket {
    id: u16,
}

impl View for PubAckPacket {
    type V = u16;

    /// The packet id.
    closed spec fn view(&self) -> u16 {
        self.id
    }
}

impl PubAckPacket {
    /// The packet on the wire.
    pub open spec fn spec_encode(id: u16) -> Seq<u8> {
        spec_encode_id_frame(PacketType::PUBACK, 0, id)
    }

    pub fn new(id: u16) -> (p: Self)
        ensures
            p@ == id,
    {
        Self { id }
    }

    /// Reads the body of a PUBACK and consumes it. The header must announce
    /// exactly two bytes, else the result is `MalformedLength` and the
    /// buffer is left as it was.
    pub fn decode(f_header: FixedHeader, bytes: &mut Bytes) -> (r: Result<Self, DecodeError>)
        ensures
            match r {
                Ok(p) => spec_decode_id_body(f_header@.rest_len, bytes_view(*old(bytes))) == Ok::<
                    u16,
                    DecodeErrorKind,
                >(p@) && bytes_view(*final(bytes)) == bytes_view(*old(bytes)).skip(2),
                Err(e) => spec_decode_id_body(f_header@.rest_len, bytes_view(*old(bytes)))
                    == Err::<u16, DecodeErrorKind>(e.spec_kind()) && *final(bytes) == *old(bytes),
            },
    {
        match decode_id_body(f_header, bytes, "PUBACK packets can only contain a packet id.") {
            Ok(id) => Ok(Self { id }),
            Err(e) => Err(e),
        }
    }

    /// The whole packet, fixed header included.
    pub fn encode(&self) -> (b: Bytes)
        ensures
            bytes_view(b) == Self::spec_encode(self@),
    {
        encode_id_frame(PacketType::PUBACK, 0, self.id)
    }

    pub fn id(&self) -> (id: u16)
        ensures
            id == self@,
    {
        self.id
    }
}

} // verus!
