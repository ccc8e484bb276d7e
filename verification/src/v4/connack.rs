//! The CONNACK packet: the broker's answer to a CONNECT.
use crate::buffer::{
    bytes_advance, bytes_as_slice, bytes_len, bytes_mut_freeze, bytes_mut_put_u8, bytes_mut_view,
    bytes_mut_with_capacity, bytes_view,
};
use crate::err::{DecodeError, DecodeErrorKind};
use crate::v4::header::{
    lemma_fixed_header_round_trip, spec_decode_fixed_header, spec_encode_fixed_header,
    FixedHeaderView, PacketType,
};
use crate::ConnectReturnCode;
use bytes::Bytes;
use vstd::prelude::*;

verus! {

/// What a CONNACK says.
pub struct ConnAckView {
    /// Whether the broker resumed a stored session.
    pub session_present: bool,
    pub return_code: ConnectReturnCode,
}

/// A CONNACK packet.
#[derive(PartialEq, Eq, Structural, Debug, Clone, Copy)]
pub struct ConnAckPacket {
    session_present: bool,
    return_code: ConnectReturnCode,
}

impl View for ConnAckPacket {
    type V = ConnAckView;

    closed spec fn view(&self) -> ConnAckView {
        ConnAckView { session_present: self.session_present, return_code: self.return_code }
    }
}

/// The two bytes of a CONNACK body: the session-present flag in bit 0 of the
/// first, the return code in the second.
pub open spec fn spec_encode_connack_body(v: ConnAckView) -> Seq<u8> {
    seq![if v.session_present { 1u8 } else { 0u8 }, v.return_code.spec_as_u8()]
}

/// The whole CONNACK on the wire.
pub open spec fn spec_encode_connack(v: ConnAckView) -> Seq<u8> {
    spec_encode_fixed_header(PacketType::CONNACK, 0, 2) + spec_encode_connack_body(v)
}

/// Reads a CONNACK body. Two bytes must be there (`MalformedLength`), the
/// first may use bit 0 only (`ProtocolError`) and the second must be a
/// return code (`InvalidReturnCode`).
pub open spec fn spec_decode_connack_body(body: Seq<u8>) -> Result<ConnAckView, DecodeErrorKind> {
    if body.len() < 2 {
        Err(DecodeErrorKind::MalformedLength)
    } else if body[0] > 1 {
        Err(DecodeErrorKind::ProtocolError)
    } else {
        match ConnectReturnCode::spec_from_u8(body[1]) {
            None => Err(DecodeErrorKind::InvalidReturnCode),
            Some(return_code) => Ok(ConnAckView { session_present: body[0] == 1, return_code }),
        }
    }
}

impl ConnAckPacket {
    pub fn new(session_present: bool, return_code: ConnectReturnCode) -> (p: Self)
        ensures
            p@ == (ConnAckView { session_present, return_code }),
    {
        Self { session_present, return_code }
    }

    /// Reads the body of a CONNACK and consumes it. On failure the buffer is
    /// left as it was.
    pub fn decode(bytes: &mut Bytes) -> (r: Result<Self, DecodeError>)
        ensures
            match r {
                Ok(p) => spec_decode_connack_body(bytes_view(*old(bytes))) == Ok::<
                    ConnAckView,
                    DecodeErrorKind,
                >(p@) && bytes_view(*final(bytes)) == bytes_view(*old(bytes)).skip(2),
                Err(e) => spec_decode_connack_body(bytes_view(*old(bytes))) == Err::<
                    ConnAckView,
                    DecodeErrorKind,
                >(e.spec_kind()) && *final(bytes) == *old(bytes),
            },
    {
        if bytes_len(bytes) < 2 {
            return Err(
                DecodeError::of(DecodeErrorKind::MalformedLength, "CONNACK body is cut off"),
            );
        }
        let s = bytes_as_slice(bytes);
        let session_present_byte: u8 = s[0];
        let code_byte: u8 = s[1];
        if session_present_byte > 1 {
            return Err(
                DecodeError::of(
                    DecodeErrorKind::ProtocolError,
                    "One of the reserve bits of the connect acknowledge flags was set.",
                ),
            );
        }
        let return_code = match ConnectReturnCode::try_from(code_byte) {
            Ok(c) => c,
            Err(e) => {
                return Err(e);
            },
        };
        bytes_advance(bytes, 2);
        Ok(Self { session_present: session_present_byte != 0, return_code })
    }

    /// The whole packet, fixed header included.
    pub fn encode(&self) -> (b: Bytes)
        ensures
            bytes_view(b) == spec_encode_connack(self@),
    {
        let mut bytes = bytes_mut_with_capacity(4);
        bytes_mut_put_u8(&mut bytes, PacketType::CONNACK.as_u8());
        bytes_mut_put_u8(&mut bytes, 2);
        if self.session_present {
            bytes_mut_put_u8(&mut bytes, 1);
        } else {
            bytes_mut_put_u8(&mut bytes, 0);
        }
        bytes_mut_put_u8(&mut bytes, self.return_code.as_u8());
        assert(bytes_mut_view(bytes) =~= spec_encode_connack(self@));
        bytes_mut_freeze(bytes)
    }

    pub fn return_code(&self) -> (c: ConnectReturnCode)
        ensures
            c == self@.return_code,
    {
        self.return_code
    }

    pub fn session_present(&self) -> (b: bool)
        ensures
            b == self@.session_present,
    {
        self.session_present
    }

    pub fn set_session_present(&mut self, bool: bool)
        ensures
            final(self)@ == (ConnAckView { session_present: bool, ..old(self)@ }),
    {
        self.session_present = bool;
    }
}

/// Every CONNACK is read back as written.
pub proof fn lemma_connack_round_trip(v: ConnAckView)
    ensures
        spec_decode_fixed_header(spec_encode_connack(v)) == Ok::<
            (FixedHeaderView, Seq<u8>),
            DecodeErrorKind,
        >(
            (
                FixedHeaderView {
                    type_: PacketType::CONNACK,
                    flags: 0,
                    rest_len: 2,
                    header_len: 2,
                },
                spec_encode_connack_body(v),
            ),
        ),
        spec_decode_connack_body(spec_encode_connack_body(v)) == Ok::<
            ConnAckView,
            DecodeErrorKind,
        >(v),
{
    lemma_fixed_header_round_trip(PacketType::CONNACK, 0, 2, spec_encode_connack_body(v));
}

} // verus!
