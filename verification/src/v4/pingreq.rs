//! The PINGREQ packet: a client's sign of life, which asks for a PINGRESP.
use crate::buffer::bytes_view;
use crate::err::{DecodeError, DecodeErrorKind};
use crate::v4::header::{
    encode_empty_frame, spec_decode_empty_body, spec_encode_empty_frame, FixedHeader, PacketType,
};
use bytes::Bytes;
use vstd::prelude::*;

verus! {

/// A PINGREQ packet. It has no body.
#[derive(PartialEq, Eq, Structural, Clone, Copy, Debug)]
pub struct PingReqPacket;

impl PingReqPacket {
    /// The packet on the wire.
    pub open spec fn spec_encode() -> Seq<u8> {
        spec_encode_empty_frame(PacketType::PINGREQ)
    }

    pub fn new() -> (p: Self) {
        Self
    }

    /// Accepts the header of a PINGREQ: it must announce no bytes, else the
    /// result is `MalformedLength`.
    pub fn decode(f_header: FixedHeader) -> (r: Result<Self, DecodeError>)
        ensures
            match r {
                Ok(_) => spec_decode_empty_body(f_header@.rest_len) == Ok::<(), DecodeErrorKind>(
                    (),
                ),
                Err(e) => spec_decode_empty_body(f_header@.rest_len) == Err::<
                    (),
                    DecodeErrorKind,
                >(e.spec_kind()),
            },
    {
        if f_header.rest_len != 0 {
            Err(
                DecodeError::of(
                    DecodeErrorKind::MalformedLength,
                    "PINGREQ packets can only contain a fixed header.",
                ),
            )
        } else {
            Ok(Self)
        }
    }

    /// The whole packet: the two bytes of its fixed header.
    pub fn encode(&self) -> (b: Bytes)
        ensures
            bytes_view(b) == Self::spec_encode(),
    {
        encode_empty_frame(PacketType::PINGREQ)
    }
}

} // verus!
