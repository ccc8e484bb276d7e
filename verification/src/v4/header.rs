//! The fixed header that begins every control packet: the packet type, the
//! four flag bits that go with it, and the length of what follows.
use crate::buffer::{
    bytes_advance, bytes_as_slice, bytes_clone, bytes_get_u16, bytes_len, bytes_mut_freeze,
    bytes_mut_put_u16, bytes_mut_put_u8, bytes_mut_view, bytes_mut_with_capacity, bytes_view,
};
use crate::err::{DecodeError, DecodeErrorKind};
use crate::io::{
    lemma_decode_length_bounds, lemma_decode_length_bounds_within, lemma_encode_length_len,
    lemma_length_round_trip,
    spec_decode_length, spec_decode_length_within, spec_encode_length, spec_length_size,
    spec_u16_at_front, spec_u16_be, MAX_ENCODED_PACKET_LEN,
};
use bytes::Bytes;
use vstd::prelude::*;

verus! {

/// The fourteen control packets of MQTT 3.1.1.
#[allow(non_camel_case_types)]
#[derive(Clone, Copy, PartialEq, Eq, Structural, Debug)]
pub enum PacketType {
    CONNECT,
    CONNACK,
    PUBLISH,
    PUBACK,
    PUBREC,
    PUBREL,
    PUBCOMP,
    SUBSCRIBE,
    SUBACK,
    UNSUBSCRIBE,
    UNSUBACK,
    PINGREQ,
    PINGRESP,
    DISCONNECT,
}

impl PacketType {
    /// The number of the type, 1 to 14, as it stands in the high nibble of
    /// the first byte.
    pub open spec fn spec_number(self) -> u8 {
        match self {
            PacketType::CONNECT => 1,
            PacketType::CONNACK => 2,
            PacketType::PUBLISH => 3,
            PacketType::PUBACK => 4,
            PacketType::PUBREC => 5,
            PacketType::PUBREL => 6,
            PacketType::PUBCOMP => 7,
            PacketType::SUBSCRIBE => 8,
            PacketType::SUBACK => 9,
            PacketType::UNSUBSCRIBE => 10,
            PacketType::UNSUBACK => 11,
            PacketType::PINGREQ => 12,
            PacketType::PINGRESP => 13,
            PacketType::DISCONNECT => 14,
        }
    }

    /// The first byte of a packet of this type with all flag bits clear.
    pub open spec fn spec_as_u8(self) -> u8 {
        (self.spec_number() * 16) as u8
    }

    /// The type that the high nibble of a first byte names, if any.
    pub open spec fn spec_from_u8(value: u8) -> Option<PacketType> {
        let n = value / 16;
        if n == 1 {
            Some(PacketType::CONNECT)
        } else if n == 2 {
            Some(PacketType::CONNACK)
        } else if n == 3 {
            Some(PacketType::PUBLISH)
        } else if n == 4 {
            Some(PacketType::PUBACK)
        } else if n == 5 {
            Some(PacketType::PUBREC)
        } else if n == 6 {
            Some(PacketType::PUBREL)
        } else if n == 7 {
            Some(PacketType::PUBCOMP)
        } else if n == 8 {
            Some(PacketType::SUBSCRIBE)
        } else if n == 9 {
            Some(PacketType::SUBACK)
        } else if n == 10 {
            Some(PacketType::UNSUBSCRIBE)
        } else if n == 11 {
            Some(PacketType::UNSUBACK)
        } else if n == 12 {
            Some(PacketType::PINGREQ)
        } else if n == 13 {
            Some(PacketType::PINGRESP)
        } else if n == 14 {
            Some(PacketType::DISCONNECT)
        } else {
            None
        }
    }

    /// The flag nibble that a packet of this type must carry; PUBLISH alone
    /// is free in its flags.
    pub open spec fn spec_fixed_flags(self) -> Option<u8> {
        match self {
            PacketType::PUBLISH => None,
            PacketType::PUBREL | PacketType::SUBSCRIBE | PacketType::UNSUBSCRIBE => Some(2u8),
            _ => Some(0u8),
        }
    }

    /// Whether `flags` is a flag nibble that a packet of this type may carry.
    pub open spec fn spec_accepts_flags(self, flags: u8) -> bool {
        flags < 16 && match self.spec_fixed_flags() {
            Some(f) => flags == f,
            None => true,
        }
    }

    pub fn as_u8(self) -> (v: u8)
        ensures
            v == self.spec_as_u8(),
    {
        match self {
            PacketType::CONNECT => 0x10,
            PacketType::CONNACK => 0x20,
            PacketType::PUBLISH => 0x30,
            PacketType::PUBACK => 0x40,
            PacketType::PUBREC => 0x50,
            PacketType::PUBREL => 0x60,
            PacketType::PUBCOMP => 0x70,
            PacketType::SUBSCRIBE => 0x80,
            PacketType::SUBACK => 0x90,
            PacketType::UNSUBSCRIBE => 0xA0,
            PacketType::UNSUBACK => 0xB0,
            PacketType::PINGREQ => 0xC0,
            PacketType::PINGRESP => 0xD0,
            PacketType::DISCONNECT => 0xE0,
        }
    }

    /// Reads the type from the high nibble of a first byte. The nibbles 0
    /// and 15 name no packet and give `PacketType`.
    pub fn try_from(value: u8) -> (r: Result<PacketType, DecodeError>)
        ensures
            match r {
                Ok(t) => Self::spec_from_u8(value) == Some(t),
                Err(e) => Self::spec_from_u8(value) is None && e.spec_kind()
                    == DecodeErrorKind::PacketType,
            },
    {
        let n: u8 = value / 16;
        if n == 1 {
            Ok(PacketType::CONNECT)
        } else if n == 2 {
            Ok(PacketType::CONNACK)
        } else if n == 3 {
            Ok(PacketType::PUBLISH)
        } else if n == 4 {
            Ok(PacketType::PUBACK)
        } else if n == 5 {
            Ok(PacketType::PUBREC)
        } else if n == 6 {
            Ok(PacketType::PUBREL)
        } else if n == 7 {
            Ok(PacketType::PUBCOMP)
        } else if n == 8 {
            Ok(PacketType::SUBSCRIBE)
        } else if n == 9 {
            Ok(PacketType::SUBACK)
        } else if n == 10 {
            Ok(PacketType::UNSUBSCRIBE)
        } else if n == 11 {
            Ok(PacketType::UNSUBACK)
        } else if n == 12 {
            Ok(PacketType::PINGREQ)
        } else if n == 13 {
            Ok(PacketType::PINGRESP)
        } else if n == 14 {
            Ok(PacketType::DISCONNECT)
        } else {
            Err(
                DecodeError::of(
                    DecodeErrorKind::PacketType,
                    "First byte does not map to a valid packet type.",
                ),
            )
        }
    }

    /// The name of the type in capitals.
    pub open spec fn spec_name(self) -> Seq<char> {
        match self {
            PacketType::CONNECT => "CONNECT"@,
            PacketType::CONNACK => "CONNACK"@,
            PacketType::PUBLISH => "PUBLISH"@,
            PacketType::PUBACK => "PUBACK"@,
            PacketType::PUBREC => "PUBREC"@,
            PacketType::PUBREL => "PUBREL"@,
            PacketType::PUBCOMP => "PUBCOMP"@,
            PacketType::SUBSCRIBE => "SUBSCRIBE"@,
            PacketType::SUBACK => "SUBACK"@,
            PacketType::UNSUBSCRIBE => "UNSUBSCRIBE"@,
            PacketType::UNSUBACK => "UNSUBACK"@,
            PacketType::PINGREQ => "PINGREQ"@,
            PacketType::PINGRESP => "PINGRESP"@,
            PacketType::DISCONNECT => "DISCONNECT"@,
        }
    }

    /// The name of the type in capitals.
    pub fn name(self) -> (s: &'static str)
        ensures
            s@ == self.spec_name(),
    {
        match self {
            PacketType::CONNECT => "CONNECT",
            PacketType::CONNACK => "CONNACK",
            PacketType::PUBLISH => "PUBLISH",
            PacketType::PUBACK => "PUBACK",
            PacketType::PUBREC => "PUBREC",
            PacketType::PUBREL => "PUBREL",
            PacketType::PUBCOMP => "PUBCOMP",
            PacketType::SUBSCRIBE => "SUBSCRIBE",
            PacketType::SUBACK => "SUBACK",
            PacketType::UNSUBSCRIBE => "UNSUBSCRIBE",
            PacketType::UNSUBACK => "UNSUBACK",
            PacketType::PINGREQ => "PINGREQ",
            PacketType::PINGRESP => "PINGRESP",
            PacketType::DISCONNECT => "DISCONNECT",
        }
    }
}

/// The flag nibble of a fixed header.
#[derive(Clone, Copy, PartialEq, Eq, Structural, Debug)]
pub struct HeaderFlags {
    byte: u8,
}

impl HeaderFlags {
    #[verifier::type_invariant]
    pub closed spec fn inv(&self) -> bool {
        self.byte < 16
    }

    /// The flag bits as a number below 16.
    pub closed spec fn spec_as_byte(&self) -> u8 {
        self.byte
    }

    pub fn as_byte(&self) -> (b: u8)
        ensures
            b == self.spec_as_byte(),
            b < 16,
    {
        proof {
            use_type_invariant(self);
        }
        self.byte
    }

    /// Takes the flag nibble out of a first byte and holds it against the
    /// packet type: PUBREL, SUBSCRIBE and UNSUBSCRIBE demand 2, PUBLISH
    /// takes any, every other type demands 0. Else the result is `FlagBits`.
    pub fn try_from(value: (PacketType, u8)) -> (r: Result<HeaderFlags, DecodeError>)
        ensures
            match r {
                Ok(f) => value.0.spec_accepts_flags((value.1 % 16) as u8) && f.spec_as_byte()
                    == value.1 % 16,
                Err(e) => !value.0.spec_accepts_flags((value.1 % 16) as u8) && e.spec_kind()
                    == DecodeErrorKind::FlagBits,
            },
    {
        let (type_, byte) = value;
        let flags: u8 = byte % 16;
        match type_ {
            PacketType::PUBLISH => {},
            PacketType::PUBREL | PacketType::SUBSCRIBE | PacketType::UNSUBSCRIBE => {
                if flags != 2 {
                    return Err(
                        DecodeError::of(
                            DecodeErrorKind::FlagBits,
                            "Invalid flag bits, flag bits must be 2 for this packet type.",
                        ),
                    );
                }
            },
            _ => {
                if flags != 0 {
                    return Err(
                        DecodeError::of(
                            DecodeErrorKind::FlagBits,
                            "Invalid flag bits, flag bits must be 0 for this packet type.",
                        ),
                    );
                }
            },
        }
        Ok(Self { byte: flags })
    }
}

/// What a fixed header says.
pub struct FixedHeaderView {
    pub type_: PacketType,
    /// The flag nibble.
    pub flags: u8,
    /// The number of bytes of the packet after the fixed header.
    pub rest_len: nat,
    /// The number of bytes of the fixed header itself, 2 to 5.
    pub header_len: nat,
}

/// A decoded fixed header.
#[derive(Copy, Clone, Debug)]
pub struct FixedHeader {
    pub type_: PacketType,
    pub flags: HeaderFlags,
    /// The number of bytes of the packet after the fixed header.
    pub rest_len: usize,
    /// The number of bytes of the fixed header itself.
    pub header_len: usize,
}

impl View for FixedHeader {
    type V = FixedHeaderView;

    open spec fn view(&self) -> FixedHeaderView {
        FixedHeaderView {
            type_: self.type_,
            flags: self.flags.spec_as_byte(),
            rest_len: self.rest_len as nat,
            header_len: self.header_len as nat,
        }
    }
}

/// The fixed header of a packet of type `type_` with flag nibble `flags`
/// whose body has `rest_len` bytes.
pub open spec fn spec_encode_fixed_header(type_: PacketType, flags: u8, rest_len: nat) -> Seq<u8> {
    seq![(type_.spec_as_u8() + flags) as u8] + spec_encode_length(rest_len)
}

/// Reads the fixed header at the front of `b`: the header, and the bytes
/// after it.
///
/// It fails with `ImproperDisconnect` on no bytes at all, with `PacketType`
/// on a type nibble of 0 or 15, with `FlagBits` on a flag nibble that the
/// type does not take, and with `MalformedLength` where the length field
/// does not end within four bytes or within the bytes that are there.
pub open spec fn spec_decode_fixed_header(b: Seq<u8>) -> Result<
    (FixedHeaderView, Seq<u8>),
    DecodeErrorKind,
> {
    if b.len() == 0 {
        Err(DecodeErrorKind::ImproperDisconnect)
    } else {
        match PacketType::spec_from_u8(b[0]) {
            None => Err(DecodeErrorKind::PacketType),
            Some(type_) => if !type_.spec_accepts_flags((b[0] % 16) as u8) {
                Err(DecodeErrorKind::FlagBits)
            } else {
                match spec_decode_length(b.skip(1)) {
                    None => Err(DecodeErrorKind::MalformedLength),
                    Some((used, value)) => Ok(
                        (
                            FixedHeaderView {
                                type_,
                                flags: (b[0] % 16) as u8,
                                rest_len: value,
                                header_len: used + 1,
                            },
                            b.skip(1 + used as int),
                        ),
                    ),
                }
            },
        }
    }
}

impl FixedHeader {
    /// Reads a fixed header and consumes it. On failure the buffer is left
    /// as it was.
    pub fn decode(bytes: &mut Bytes) -> (r: Result<Self, DecodeError>)
        ensures
            match r {
                Ok(h) => spec_decode_fixed_header(bytes_view(*old(bytes))) == Ok::<
                    (FixedHeaderView, Seq<u8>),
                    DecodeErrorKind,
                >((h@, bytes_view(*final(bytes)))),
                Err(e) => spec_decode_fixed_header(bytes_view(*old(bytes))) == Err::<
                    (FixedHeaderView, Seq<u8>),
                    DecodeErrorKind,
                >(e.spec_kind()) && *final(bytes) == *old(bytes),
            },
    {
        if bytes_len(bytes) == 0 {
            return Err(
                DecodeError::of(
                    DecodeErrorKind::ImproperDisconnect,
                    "Received packet of length zero.",
                ),
            );
        }
        let type_byte: u8 = bytes_as_slice(bytes)[0];
        let type_ = match PacketType::try_from(type_byte) {
            Ok(t) => t,
            Err(e) => {
                return Err(e);
            },
        };
        let flags = match HeaderFlags::try_from((type_, type_byte)) {
            Ok(f) => f,
            Err(e) => {
                return Err(e);
            },
        };
        let ghost whole = bytes_view(*bytes);
        let mut cursor = bytes_clone(bytes);
        bytes_advance(&mut cursor, 1);
        let (len_len, rest_len) = match Self::decode_length(&mut cursor) {
            Ok(pair) => pair,
            Err(e) => {
                return Err(e);
            },
        };
        proof {
            lemma_decode_length_bounds(whole.skip(1));
            assert(whole.skip(1).skip(len_len as int) =~= whole.skip(1 + len_len));
        }
        *bytes = cursor;
        Ok(Self { type_, flags, header_len: len_len + 1, rest_len })
    }

    /// Reads a remaining-length field and consumes it: the number of bytes
    /// it took, 1 to 4, and the length it announces. The field must end
    /// within four bytes and within the buffer, else the result is
    /// `MalformedLength` and the buffer is left as it was.
    pub fn decode_length(bytes: &mut Bytes) -> (r: Result<(usize, usize), DecodeError>)
        ensures
            match r {
                Ok((used, value)) => spec_decode_length(bytes_view(*old(bytes))) == Some(
                    (used as nat, value as nat),
                ) && bytes_view(*final(bytes)) == bytes_view(*old(bytes)).skip(used as int)
                    && 1 <= used <= 4 && value <= MAX_ENCODED_PACKET_LEN,
                Err(e) => spec_decode_length(bytes_view(*old(bytes))) is None && e.spec_kind()
                    == DecodeErrorKind::MalformedLength && *final(bytes) == *old(bytes),
            },
    {
        let s = bytes_as_slice(bytes);
        let ghost whole = s@;
        let mut mult: usize = 1;
        let mut len: usize = 0;
        let mut i: usize = 0;
        let mut done: bool = false;
        proof {
            assert(whole.skip(0) =~= whole);
        }
        while i < 4 && i < s.len() && !done
            invariant
                i <= 4,
                i <= s@.len(),
                s@ == whole,
                i == 0 ==> mult == 1 && len == 0,
                i == 1 ==> (!done ==> mult == 128) && len < 128,
                i == 2 ==> (!done ==> mult == 16_384) && len < 16_384,
                i == 3 ==> (!done ==> mult == 2_097_152) && len < 2_097_152,
                i == 4 ==> len < 268_435_456,
                done ==> i >= 1 && spec_decode_length(whole) == Some((i as nat, len as nat)),
                !done ==> (match spec_decode_length_within(whole.skip(i as int), (4 - i) as nat) {
                    Some((used, value)) => spec_decode_length(whole) == Some(
                        ((used + i) as nat, (len + mult * value) as nat),
                    ),
                    None => spec_decode_length(whole) is None,
                }),
            decreases 4 - i + (if done { 0int } else { 1int }),
        {
            let c: u8 = s[i];
            let ghost tail = whole.skip(i as int);
            assert(tail[0] == c);
            assert(tail.skip(1) =~= whole.skip(i + 1));
            proof {
                lemma_decode_length_bounds_within(tail.skip(1), (3 - i) as nat);
            }
            if c < 128 {
                len = len + (c as usize) * mult;
                done = true;
            } else {
                len = len + ((c - 128) as usize) * mult;
                if i < 3 {
                    mult = mult * 128;
                }
                proof {
                    let sub = spec_decode_length_within(tail.skip(1), (3 - i) as nat);
                    if sub is Some {
                        let pair = sub.unwrap();
                        let v = pair.1;
                        let m0: int = if i == 0 {
                            1
                        } else if i == 1 {
                            128
                        } else if i == 2 {
                            16_384
                        } else {
                            2_097_152
                        };
                        assert(m0 * ((c - 128) + 128 * v) == m0 * (c - 128) + (m0 * 128) * v)
                            by (nonlinear_arith);
                    }
                }
            }
            i = i + 1;
        }
        if !done {
            return Err(
                DecodeError::of(
                    DecodeErrorKind::MalformedLength,
                    "Remaining length does not end within four bytes",
                ),
            );
        }
        bytes_advance(bytes, i);
        Ok((i, len))
    }

    pub fn set_flags(&mut self, flags: HeaderFlags)
        ensures
            *final(self) == (FixedHeader { flags, ..*old(self) }),
    {
        self.flags = flags;
    }

    /// The number of bytes of the fixed header itself.
    pub fn header_len(&self) -> (n: usize)
        ensures
            n == self@.header_len,
    {
        self.header_len
    }

    /// The number of bytes of the packet after the fixed header.
    pub fn rest_len(&self) -> (n: usize)
        ensures
            n == self@.rest_len,
    {
        self.rest_len
    }

    /// The first byte of the packet: the type in the high nibble, the flags
    /// in the low one.
    pub fn first_byte(&self) -> (b: u8)
        ensures
            b == self@.type_.spec_as_u8() + self@.flags,
    {
        self.type_.as_u8() + self.flags.as_byte()
    }
}

/// A fixed header that was written for a type, flags that the type takes,
/// and a body length up to the maximum, is read back as the same header,
/// whatever follows it.
pub proof fn lemma_fixed_header_round_trip(
    type_: PacketType,
    flags: u8,
    rest_len: nat,
    rest: Seq<u8>,
)
    requires
        type_.spec_accepts_flags(flags),
        rest_len <= MAX_ENCODED_PACKET_LEN,
    ensures
        spec_decode_fixed_header(spec_encode_fixed_header(type_, flags, rest_len) + rest) == Ok::<
            (FixedHeaderView, Seq<u8>),
            DecodeErrorKind,
        >(
            (
                FixedHeaderView {
                    type_,
                    flags,
                    rest_len,
                    header_len: 1 + spec_length_size(rest_len),
                },
                rest,
            ),
        ),
{
    let wire = spec_encode_fixed_header(type_, flags, rest_len) + rest;
    let first = (type_.spec_as_u8() + flags) as u8;
    assert(wire[0] == first);
    assert(PacketType::spec_from_u8(first) == Some(type_));
    assert(first % 16 == flags);
    assert(wire.skip(1) =~= spec_encode_length(rest_len) + rest);
    lemma_length_round_trip(rest_len, rest);
    lemma_encode_length_len(rest_len);
    assert(wire.skip(1 + spec_length_size(rest_len) as int) =~= rest);
}

/// A whole packet that holds nothing but a packet id: the fixed header for
/// a body of two bytes, then the id, high byte first.
pub open spec fn spec_encode_id_frame(type_: PacketType, flags: u8, id: u16) -> Seq<u8> {
    spec_encode_fixed_header(type_, flags, 2) + spec_u16_be(id)
}

/// Reads the body of a packet that holds nothing but a packet id. The header
/// must announce exactly two bytes and they must be there.
pub open spec fn spec_decode_id_body(rest_len: nat, body: Seq<u8>) -> Result<
    u16,
    DecodeErrorKind,
> {
    if rest_len != 2 || body.len() < 2 {
        Err(DecodeErrorKind::MalformedLength)
    } else {
        Ok(spec_u16_at_front(body))
    }
}

/// A whole packet without a body: the fixed header for a body of no bytes.
pub open spec fn spec_encode_empty_frame(type_: PacketType) -> Seq<u8> {
    spec_encode_fixed_header(type_, 0, 0)
}

/// Checks the header of a packet without a body: it must announce no bytes.
pub open spec fn spec_decode_empty_body(rest_len: nat) -> Result<(), DecodeErrorKind> {
    if rest_len != 0 {
        Err(DecodeErrorKind::MalformedLength)
    } else {
        Ok(())
    }
}

/// Reads a body that is a packet id and consumes it.
pub(crate) fn decode_id_body(f_header: FixedHeader, bytes: &mut Bytes, complaint: &str) -> (r:
    Result<u16, DecodeError>)
    ensures
        match r {
            Ok(id) => spec_decode_id_body(f_header@.rest_len, bytes_view(*old(bytes))) == Ok::<
                u16,
                DecodeErrorKind,
            >(id) && bytes_view(*final(bytes)) == bytes_view(*old(bytes)).skip(2),
            Err(e) => spec_decode_id_body(f_header@.rest_len, bytes_view(*old(bytes))) == Err::<
                u16,
                DecodeErrorKind,
            >(e.spec_kind()) && *final(bytes) == *old(bytes),
        },
{
    if f_header.rest_len != 2 || bytes_len(bytes) < 2 {
        Err(DecodeError::of(DecodeErrorKind::MalformedLength, complaint))
    } else {
        Ok(bytes_get_u16(bytes))
    }
}

/// Writes a whole packet that holds nothing but a packet id.
pub(crate) fn encode_id_frame(type_: PacketType, flags: u8, id: u16) -> (b: Bytes)
    requires
        flags < 16,
    ensures
        bytes_view(b) == spec_encode_id_frame(type_, flags, id),
{
    let mut bytes = bytes_mut_with_capacity(4);
    bytes_mut_put_u8(&mut bytes, type_.as_u8() + flags);
    bytes_mut_put_u8(&mut bytes, 2);
    bytes_mut_put_u16(&mut bytes, id);
    assert(bytes_mut_view(bytes) =~= spec_encode_id_frame(type_, flags, id));
    bytes_mut_freeze(bytes)
}

/// Writes a whole packet without a body.
pub(crate) fn encode_empty_frame(type_: PacketType) -> (b: Bytes)
    ensures
        bytes_view(b) == spec_encode_empty_frame(type_),
{
    let mut bytes = bytes_mut_with_capacity(2);
    bytes_mut_put_u8(&mut bytes, type_.as_u8());
    bytes_mut_put_u8(&mut bytes, 0);
    assert(bytes_mut_view(bytes) =~= spec_encode_empty_frame(type_));
    bytes_mut_freeze(bytes)
}

/// A packet that holds nothing but a packet id is read back as written: its
/// header announces two bytes, and those two bytes give the id.
pub proof fn lemma_id_frame_round_trip(type_: PacketType, flags: u8, id: u16)
    requires
        type_.spec_accepts_flags(flags),
    ensures
        spec_decode_fixed_header(spec_encode_id_frame(type_, flags, id)) == Ok::<
            (FixedHeaderView, Seq<u8>),
            DecodeErrorKind,
        >((FixedHeaderView { type_, flags, rest_len: 2, header_len: 2 }, spec_u16_be(id))),
        spec_decode_id_body(2, spec_u16_be(id)) == Ok::<u16, DecodeErrorKind>(id),
{
    lemma_fixed_header_round_trip(type_, flags, 2, spec_u16_be(id));
}

/// A packet without a body is read back as written: its header announces no
/// bytes and nothing follows it.
pub proof fn lemma_empty_frame_round_trip(type_: PacketType)
    requires
        type_.spec_accepts_flags(0),
    ensures
        spec_decode_fixed_header(spec_encode_empty_frame(type_)) == Ok::<
            (FixedHeaderView, Seq<u8>),
            DecodeErrorKind,
        >(
            (
                FixedHeaderView { type_, flags: 0, rest_len: 0, header_len: 2 },
                Seq::<u8>::empty(),
            ),
        ),
        spec_decode_empty_body(0) == Ok::<(), DecodeErrorKind>(()),
{
    lemma_fixed_header_round_trip(type_, 0, 0, Seq::<u8>::empty());
    assert(spec_encode_empty_frame(type_) + Seq::<u8>::empty() =~= spec_encode_empty_frame(type_));
}

} // verus!
