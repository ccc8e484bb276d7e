//! The CONNECT packet: the first packet of a connection, in which the client
//! names itself and sets the terms of its session.
use crate::buffer::{
    bytes_as_slice, bytes_clone, bytes_get_u16, bytes_get_u8, bytes_len, bytes_mut_freeze,
    bytes_mut_put_slice, bytes_mut_put_u16, bytes_mut_put_u8, bytes_mut_view,
    bytes_mut_with_capacity, bytes_view,
};
use crate::err::{DecodeError, DecodeErrorKind, EncodeError, EncodeErrorKind};
use crate::io::{
    decode_bytes, decode_utf8, encode_bytes, encode_packet_length, encode_utf8,
    lemma_binary_round_trip, lemma_encode_length_len, lemma_string_round_trip,
    spec_decode_binary, spec_decode_string, spec_encode_binary, spec_encode_string,
    spec_length_size, spec_u16_at_front, spec_u16_be, MAX_ENCODED_PACKET_LEN, MAX_FIELD_LEN,
};
use crate::qos::QosLevel;
use crate::topic::{
    join_levels, lemma_topic_name_round_trip, spec_decode_topic_name, valid_name_levels,
    TopicName,
};
use crate::v4::header::{
    lemma_fixed_header_round_trip, spec_decode_fixed_header, spec_encode_fixed_header,
    FixedHeaderView, PacketType,
};
use bytes::{Bytes, BytesMut};
use vstd::prelude::*;

verus! {

/// Whether the reserved bit, bit 0 of the connect flags, is set.
pub open spec fn spec_conn_reserved(flags: u8) -> bool {
    flags % 2 == 1
}

/// Whether the clean-session flag, bit 1, is set.
pub open spec fn spec_conn_clean_session(flags: u8) -> bool {
    (flags / 2) % 2 == 1
}

/// Whether the will flag, bit 2, is set.
pub open spec fn spec_conn_will(flags: u8) -> bool {
    (flags / 4) % 2 == 1
}

/// The will QoS, bits 3 and 4, as a number.
pub open spec fn spec_conn_will_qos_bits(flags: u8) -> u8 {
    ((flags / 8) % 4) as u8
}

/// The will QoS as a level. The illegal value 3 reads as the lowest level.
pub open spec fn spec_conn_will_qos(flags: u8) -> QosLevel {
    if spec_conn_will_qos_bits(flags) == 1 {
        QosLevel::AtLeastOnce
    } else if spec_conn_will_qos_bits(flags) == 2 {
        QosLevel::ExactlyOnce
    } else {
        QosLevel::AtMostOnce
    }
}

/// Whether the will-retain flag, bit 5, is set.
pub open spec fn spec_conn_will_retain(flags: u8) -> bool {
    (flags / 32) % 2 == 1
}

/// Whether the password flag, bit 6, is set.
pub open spec fn spec_conn_password(flags: u8) -> bool {
    (flags / 64) % 2 == 1
}

/// Whether the user name flag, bit 7, is set.
pub open spec fn spec_conn_user_name(flags: u8) -> bool {
    flags / 128 == 1
}

/// What is wrong with a connect flags byte, if anything: a will QoS of 3
/// (`WillQoS`), the reserved bit set (`ProtocolError`), a will QoS or will
/// retain without the will flag (`Will`), the password flag without the
/// user name flag (`UsernamePassword`), looked for in this order.
pub open spec fn spec_connect_flags_error(flags: u8) -> Option<DecodeErrorKind> {
    if spec_conn_will_qos_bits(flags) == 3 {
        Some(DecodeErrorKind::WillQoS)
    } else if spec_conn_reserved(flags) {
        Some(DecodeErrorKind::ProtocolError)
    } else if !spec_conn_will(flags) && (spec_conn_will_qos_bits(flags) != 0
        || spec_conn_will_retain(flags)) {
        Some(DecodeErrorKind::Will)
    } else if spec_conn_password(flags) && !spec_conn_user_name(flags) {
        Some(DecodeErrorKind::UsernamePassword)
    } else {
        None
    }
}

/// The connect flags byte for the given settings, the reserved bit clear.
pub open spec fn spec_connect_flags(
    clean_session: bool,
    will: Option<(QosLevel, bool)>,
    user_name: bool,
    password: bool,
) -> u8 {
    ((if clean_session {
        2int
    } else {
        0int
    }) + (match will {
        Some((qos, retain)) => 4 + 8 * qos.spec_as_u8() + (if retain {
            32int
        } else {
            0int
        }),
        None => 0int,
    }) + (if password {
        64int
    } else {
        0int
    }) + (if user_name {
        128int
    } else {
        0int
    })) as u8
}

/// The flags byte of a CONNECT.
#[derive(Clone, Copy, PartialEq, Eq, Structural, Debug)]
pub struct ConnectFlags {
    byte: u8,
}

impl View for ConnectFlags {
    type V = u8;

    /// The byte as a number.
    closed spec fn view(&self) -> u8 {
        self.byte
    }
}

impl ConnectFlags {
    /// Accepts a flags byte that `spec_connect_flags_error` finds no fault
    /// with, and refuses any other with the fault found.
    pub fn from_byte(byte: u8) -> (r: Result<Self, DecodeError>)
        ensures
            match r {
                Ok(f) => spec_connect_flags_error(byte) is None && f@ == byte,
                Err(e) => spec_connect_flags_error(byte) == Some(e.spec_kind()),
            },
    {
        if (byte / 8) % 4 == 3 {
            return Err(DecodeError::of(DecodeErrorKind::WillQoS, "Will QoS cannot be set to 3"));
        }
        if byte % 2 == 1 {
            return Err(
                DecodeError::of(
                    DecodeErrorKind::ProtocolError,
                    "Connect packet cannot have reserved bit (index 0) set",
                ),
            );
        }
        if (byte / 4) % 2 == 0 {
            if (byte / 8) % 4 != 0 || (byte / 32) % 2 == 1 {
                return Err(
                    DecodeError::of(
                        DecodeErrorKind::Will,
                        "Optional connection Will bits were set, but the Will bit itself was unset",
                    ),
                );
            }
        }
        if (byte / 64) % 2 == 1 {
            if byte / 128 == 0 {
                return Err(
                    DecodeError::of(
                        DecodeErrorKind::UsernamePassword,
                        "Password bit is set and Username bit is unset",
                    ),
                );
            }
        }
        Ok(Self { byte })
    }

    /// All flags clear.
    pub fn default() -> (f: Self)
        ensures
            f@ == 0,
    {
        Self { byte: 0 }
    }

    pub fn as_byte(&self) -> (b: u8)
        ensures
            b == self@,
    {
        self.byte
    }

    pub fn will_qos(&self) -> (q: QosLevel)
        ensures
            q == spec_conn_will_qos(self@),
    {
        let bits: u8 = (self.byte / 8) % 4;
        if bits == 1 {
            QosLevel::AtLeastOnce
        } else if bits == 2 {
            QosLevel::ExactlyOnce
        } else {
            QosLevel::AtMostOnce
        }
    }

    /// Sets the will QoS and leaves the other flags.
    pub fn set_will_qos(&mut self, value: QosLevel)
        ensures
            final(self)@ == old(self)@ - 8 * spec_conn_will_qos_bits(old(self)@) + 8
                * value.spec_as_u8(),
    {
        let cleared: u8 = self.byte - 8 * ((self.byte / 8) % 4);
        self.byte = cleared + 8 * value.as_u8();
    }

    pub fn user_name(&self) -> (b: bool)
        ensures
            b == spec_conn_user_name(self@),
    {
        self.byte / 128 == 1
    }

    /// Sets or clears the user name flag and leaves the other flags.
    pub fn set_user_name(&mut self, val: bool)
        ensures
            final(self)@ == old(self)@ % 128 + (if val {
                128int
            } else {
                0int
            }),
    {
        let cleared: u8 = self.byte % 128;
        self.byte = if val {
            cleared + 128
        } else {
            cleared
        };
    }

    pub fn password(&self) -> (b: bool)
        ensures
            b == spec_conn_password(self@),
    {
        (self.byte / 64) % 2 == 1
    }

    /// Sets or clears the password flag and leaves the other flags.
    pub fn set_password(&mut self, val: bool)
        ensures
            final(self)@ == old(self)@ - 64 * ((old(self)@ / 64) % 2) + (if val {
                64int
            } else {
                0int
            }),
    {
        let cleared: u8 = self.byte - 64 * ((self.byte / 64) % 2);
        self.byte = if val {
            cleared + 64
        } else {
            cleared
        };
    }

    pub fn will_retain(&self) -> (b: bool)
        ensures
            b == spec_conn_will_retain(self@),
    {
        (self.byte / 32) % 2 == 1
    }

    /// Sets or clears the will-retain flag and leaves the other flags.
    pub fn set_will_retain(&mut self, val: bool)
        ensures
            final(self)@ == old(self)@ - 32 * ((old(self)@ / 32) % 2) + (if val {
                32int
            } else {
                0int
            }),
    {
        let cleared: u8 = self.byte - 32 * ((self.byte / 32) % 2);
        self.byte = if val {
            cleared + 32
        } else {
            cleared
        };
    }

    pub fn will(&self) -> (b: bool)
        ensures
            b == spec_conn_will(self@),
    {
        (self.byte / 4) % 2 == 1
    }

    /// Sets or clears the will flag and leaves the other flags.
    pub fn set_will(&mut self, val: bool)
        ensures
            final(self)@ == old(self)@ - 4 * ((old(self)@ / 4) % 2) + (if val {
                4int
            } else {
                0int
            }),
    {
        let cleared: u8 = self.byte - 4 * ((self.byte / 4) % 2);
        self.byte = if val {
            cleared + 4
        } else {
            cleared
        };
    }

    /// Whether the client asks for a clean session.
    pub fn clean_session(&self) -> (b: bool)
        ensures
            b == spec_conn_clean_session(self@),
    {
        (self.byte / 2) % 2 == 1
    }

    /// Sets or clears the clean-session flag and leaves the other flags.
    pub fn set_clean_session(&mut self, val: bool)
        ensures
            final(self)@ == old(self)@ - 2 * ((old(self)@ / 2) % 2) + (if val {
                2int
            } else {
                0int
            }),
    {
        let cleared: u8 = self.byte - 2 * ((self.byte / 2) % 2);
        self.byte = if val {
            cleared + 2
        } else {
            cleared
        };
    }
}

/// The protocol name `MQTT`.
pub open spec fn spec_protocol_name() -> Seq<char> {
    seq!['M', 'Q', 'T', 'T']
}

/// The protocol that a CONNECT names. There is one.
#[derive(Debug, Clone, Copy, PartialEq, Eq, Structural)]
pub enum Protocol {
    MQTT,
}

/// Reads the protocol name field: a text field that must say `MQTT`, else
/// the result is `InvalidProtocol`.
pub open spec fn spec_decode_protocol(b: Seq<u8>) -> Result<Seq<u8>, DecodeErrorKind> {
    match spec_decode_string(b) {
        Err(k) => Err(k),
        Ok((name, rest)) => if name == spec_protocol_name() {
            Ok(rest)
        } else {
            Err(DecodeErrorKind::InvalidProtocol)
        },
    }
}

impl Protocol {
    /// Reads the protocol name field and consumes it. On failure the buffer
    /// is left as it was.
    pub fn from_bytes(bytes: &mut Bytes) -> (r: Result<Self, DecodeError>)
        ensures
            match r {
                Ok(_) => spec_decode_protocol(bytes_view(*old(bytes))) == Ok::<
                    Seq<u8>,
                    DecodeErrorKind,
                >(bytes_view(*final(bytes))),
                Err(e) => spec_decode_protocol(bytes_view(*old(bytes))) == Err::<
                    Seq<u8>,
                    DecodeErrorKind,
                >(e.spec_kind()) && *final(bytes) == *old(bytes),
            },
    {
        let mut cursor = bytes_clone(bytes);
        let protocol_name = match decode_utf8(&mut cursor) {
            Ok(name) => name,
            Err(e) => {
                return Err(e);
            },
        };
        let expected: String = Protocol::MQTT.as_str().to_owned();
        if protocol_name == expected {
            *bytes = cursor;
            Ok(Protocol::MQTT)
        } else {
            Err(
                DecodeError::of(
                    DecodeErrorKind::InvalidProtocol,
                    "Only the protocol name MQTT is allowed",
                ),
            )
        }
    }

    pub fn as_str(&self) -> (s: &'static str)
        ensures
            s@ == spec_protocol_name(),
    {
        proof {
            reveal_strlit("MQTT");
        }
        assert("MQTT"@ =~= spec_protocol_name());
        "MQTT"
    }

    /// The number of bytes of the name, not the number of characters.
    pub fn len(&self) -> (n: usize)
        ensures
            n == vstd::utf8::encode_utf8(spec_protocol_name()).len(),
    {
        self.as_str().as_bytes().len()
    }
}

/// What a will says.
pub struct WillView {
    /// The levels of the topic that the will is published to.
    pub topic: Seq<Seq<char>>,
    pub message: Seq<char>,
    pub qos: QosLevel,
    pub retain: bool,
}

/// The message that the broker publishes for a client whose connection
/// ends without a DISCONNECT.
#[derive(Debug, PartialEq, Eq)]
pub struct Will {
    will_topic: TopicName,
    will_message: String,
    will_qos: QosLevel,
    will_retain: bool,
}

impl View for Will {
    type V = WillView;

    closed spec fn view(&self) -> WillView {
        WillView {
            topic: self.will_topic@,
            message: self.will_message@,
            qos: self.will_qos,
            retain: self.will_retain,
        }
    }
}

impl Clone for Will {
    fn clone(&self) -> (r: Self)
        ensures
            r@ == self@,
    {
        Self {
            will_topic: self.will_topic.clone(),
            will_message: self.will_message.clone(),
            will_qos: self.will_qos,
            will_retain: self.will_retain,
        }
    }
}

impl Will {
    pub fn new(will_topic: TopicName, will_message: String, will_qos: QosLevel, will_retain: bool) -> (w: Self)
        ensures
            w@ == (WillView {
                topic: will_topic@,
                message: will_message@,
                qos: will_qos,
                retain: will_retain,
            }),
    {
        Self { will_topic, will_message, will_qos, will_retain }
    }

    pub fn will_topic(&self) -> (t: &TopicName)
        ensures
            t@ == self@.topic,
            valid_name_levels(t@),
    {
        proof {
            use_type_invariant(&self.will_topic);
            self.will_topic.lemma_valid();
        }
        &self.will_topic
    }

    pub fn will_message(&self) -> (m: String)
        ensures
            m@ == self@.message,
    {
        self.will_message.clone()
    }

    pub fn will_qos(&self) -> (q: QosLevel)
        ensures
            q == self@.qos,
    {
        self.will_qos
    }

    pub fn will_retain(&self) -> (b: bool)
        ensures
            b == self@.retain,
    {
        self.will_retain
    }
}

/// What a CONNECT says.
pub struct ConnectView {
    /// The protocol level; 4 stands for MQTT 3.1.1.
    pub level: u8,
    /// The connect flags byte.
    pub flags: u8,
    /// The keep-alive interval in seconds; 0 switches it off.
    pub keep_alive: u16,
    pub client_id: Seq<char>,
    pub will: Option<WillView>,
    pub username: Option<Seq<char>>,
    pub password: Option<Seq<u8>>,
}

/// The will fields on the wire: topic and message, each a text field.
pub open spec fn spec_encode_will(will: Option<WillView>) -> Seq<u8> {
    match will {
        Some(w) => spec_encode_string(join_levels(w.topic)) + spec_encode_string(w.message),
        None => Seq::<u8>::empty(),
    }
}

/// A text field that may be absent.
pub open spec fn spec_encode_opt_string(text: Option<Seq<char>>) -> Seq<u8> {
    match text {
        Some(t) => spec_encode_string(t),
        None => Seq::<u8>::empty(),
    }
}

/// A binary field that may be absent.
pub open spec fn spec_encode_opt_binary(data: Option<Seq<u8>>) -> Seq<u8> {
    match data {
        Some(d) => spec_encode_binary(d),
        None => Seq::<u8>::empty(),
    }
}

impl ConnectView {
    /// The payload: client id, will, user name and password, the last three
    /// only where present.
    pub open spec fn payload(self) -> Seq<u8> {
        spec_encode_string(self.client_id) + (spec_encode_will(self.will) + (
        spec_encode_opt_string(self.username) + spec_encode_opt_binary(self.password)))
    }

    /// The body: protocol name, level, flags, keep-alive, then the payload.
    pub open spec fn body(self) -> Seq<u8> {
        spec_encode_string(spec_protocol_name()) + (seq![self.level, self.flags] + spec_u16_be(
            self.keep_alive,
        ) + self.payload())
    }

    /// Whether every field fits its length prefix.
    pub open spec fn encodable(self) -> bool {
        &&& vstd::utf8::encode_utf8(self.client_id).len() <= MAX_FIELD_LEN
        &&& encodable_will(self.will)
        &&& match self.username {
            Some(u) => vstd::utf8::encode_utf8(u).len() <= MAX_FIELD_LEN,
            None => true,
        }
        &&& match self.password {
            Some(p) => p.len() <= MAX_FIELD_LEN,
            None => true,
        }
    }

    /// A CONNECT that may go on the wire: the level is 4, the flags are
    /// without fault and say which optional fields are present and what the
    /// will's QoS and retain are, the will topic is a topic name, and every
    /// field fits its length prefix.
    pub open spec fn legal(self) -> bool {
        &&& self.level == 4
        &&& spec_connect_flags_error(self.flags) is None
        &&& spec_conn_will(self.flags) == self.will is Some
        &&& spec_conn_user_name(self.flags) == self.username is Some
        &&& spec_conn_password(self.flags) == self.password is Some
        &&& match self.will {
            Some(w) => valid_name_levels(w.topic) && w.qos == spec_conn_will_qos(self.flags)
                && w.retain == spec_conn_will_retain(self.flags),
            None => true,
        }
        &&& self.encodable()
    }
}

/// The whole CONNECT on the wire.
pub open spec fn spec_encode_connect(v: ConnectView) -> Seq<u8> {
    spec_encode_fixed_header(PacketType::CONNECT, 0, v.body().len()) + v.body()
}

/// Reads what follows the protocol name: the level, which must be 4
/// (`InvalidProtocol`), the flags, which must be without fault, and the
/// keep-alive. Missing bytes give `MalformedLength`.
pub open spec fn spec_decode_connect_head(b: Seq<u8>) -> Result<
    (u8, u16, Seq<u8>),
    DecodeErrorKind,
> {
    if b.len() < 1 {
        Err(DecodeErrorKind::MalformedLength)
    } else if b[0] != 4 {
        Err(DecodeErrorKind::InvalidProtocol)
    } else if b.len() < 2 {
        Err(DecodeErrorKind::MalformedLength)
    } else if spec_connect_flags_error(b[1]) is Some {
        Err(spec_connect_flags_error(b[1]).unwrap())
    } else if b.len() < 4 {
        Err(DecodeErrorKind::MalformedLength)
    } else {
        Ok((b[1], spec_u16_at_front(b.skip(2)), b.skip(4)))
    }
}

/// Reads the will fields where the flags announce a will: the topic, which
/// must be a topic name, then the message.
pub open spec fn spec_decode_will(flags: u8, b: Seq<u8>) -> Result<
    (Option<WillView>, Seq<u8>),
    DecodeErrorKind,
> {
    if !spec_conn_will(flags) {
        Ok((None, b))
    } else {
        match spec_decode_topic_name(b) {
            Err(k) => Err(k),
            Ok((topic, rest)) => match spec_decode_string(rest) {
                Err(k) => Err(k),
                Ok((message, rest2)) => Ok(
                    (
                        Some(
                            WillView {
                                topic,
                                message,
                                qos: spec_conn_will_qos(flags),
                                retain: spec_conn_will_retain(flags),
                            },
                        ),
                        rest2,
                    ),
                ),
            },
        }
    }
}

/// Reads a text field if `present`, and nothing otherwise.
pub open spec fn spec_decode_opt_string(present: bool, b: Seq<u8>) -> Result<
    (Option<Seq<char>>, Seq<u8>),
    DecodeErrorKind,
> {
    if !present {
        Ok((None, b))
    } else {
        match spec_decode_string(b) {
            Err(k) => Err(k),
            Ok((text, rest)) => Ok((Some(text), rest)),
        }
    }
}

/// Reads a binary field if `present`, and nothing otherwise.
pub open spec fn spec_decode_opt_binary(present: bool, b: Seq<u8>) -> Result<
    (Option<Seq<u8>>, Seq<u8>),
    DecodeErrorKind,
> {
    if !present {
        Ok((None, b))
    } else {
        match spec_decode_binary(b) {
            Err(k) => Err(k),
            Ok((data, rest)) => Ok((Some(data), rest)),
        }
    }
}

/// Reads the payload of a CONNECT under its flags: the packet, but for level
/// and keep-alive, and the bytes after it.
pub open spec fn spec_decode_connect_payload(flags: u8, keep_alive: u16, b: Seq<u8>) -> Result<
    (ConnectView, Seq<u8>),
    DecodeErrorKind,
> {
    match spec_decode_string(b) {
        Err(k) => Err(k),
        Ok((client_id, r1)) => match spec_decode_will(flags, r1) {
            Err(k) => Err(k),
            Ok((will, r2)) => match spec_decode_opt_string(spec_conn_user_name(flags), r2) {
                Err(k) => Err(k),
                Ok((username, r3)) => match spec_decode_opt_binary(
                    spec_conn_password(flags),
                    r3,
                ) {
                    Err(k) => Err(k),
                    Ok((password, r4)) => Ok(
                        (
                            ConnectView {
                                level: 4,
                                flags,
                                keep_alive,
                                client_id,
                                will,
                                username,
                                password,
                            },
                            r4,
                        ),
                    ),
                },
            },
        },
    }
}

/// Reads a CONNECT body: the packet and the bytes after it.
#[verifier::opaque]
pub open spec fn spec_decode_connect_body(body: Seq<u8>) -> Result<
    (ConnectView, Seq<u8>),
    DecodeErrorKind,
> {
    match spec_decode_protocol(body) {
        Err(k) => Err(k),
        Ok(r0) => match spec_decode_connect_head(r0) {
            Err(k) => Err(k),
            Ok((flags, keep_alive, r1)) => spec_decode_connect_payload(flags, keep_alive, r1),
        },
    }
}

/// A CONNECT packet.
#[derive(PartialEq, Eq, Debug)]
pub struct ConnectPacket {
    protocol: Protocol,
    level: u8,
    conn_flags: ConnectFlags,
    keep_alive: u16,
    client_id: String,
    will: Option<Will>,
    username: Option<String>,
    password: Option<Bytes>,
}

/// The view of a will that may be absent.
pub open spec fn will_view(will: Option<Will>) -> Option<WillView> {
    match will {
        Some(w) => Some(w@),
        None => None,
    }
}

/// The view of a text that may be absent.
pub open spec fn text_view(text: Option<String>) -> Option<Seq<char>> {
    match text {
        Some(t) => Some(t@),
        None => None,
    }
}

/// The view of binary data that may be absent.
pub open spec fn data_view(data: Option<Bytes>) -> Option<Seq<u8>> {
    match data {
        Some(d) => Some(bytes_view(d)),
        None => None,
    }
}

impl View for ConnectPacket {
    type V = ConnectView;

    closed spec fn view(&self) -> ConnectView {
        ConnectView {
            level: self.level,
            flags: self.conn_flags@,
            keep_alive: self.keep_alive,
            client_id: self.client_id@,
            will: will_view(self.will),
            username: text_view(self.username),
            password: data_view(self.password),
        }
    }
}

impl Clone for ConnectPacket {
    fn clone(&self) -> (r: Self)
        ensures
            r@ == self@,
    {
        Self {
            protocol: self.protocol,
            level: self.level,
            conn_flags: self.conn_flags,
            keep_alive: self.keep_alive,
            client_id: self.client_id.clone(),
            will: match &self.will {
                Some(w) => Some(w.clone()),
                None => None,
            },
            username: match &self.username {
                Some(u) => Some(u.clone()),
                None => None,
            },
            password: match &self.password {
                Some(p) => Some(bytes_clone(p)),
                None => None,
            },
        }
    }
}

/// Reads the will fields where the flags announce a will and consumes them.
fn decode_will(flags: ConnectFlags, bytes: &mut Bytes) -> (r: Result<Option<Will>, DecodeError>)
    ensures
        match r {
            Ok(w) => spec_decode_will(flags@, bytes_view(*old(bytes))) == Ok::<
                (Option<WillView>, Seq<u8>),
                DecodeErrorKind,
            >((will_view(w), bytes_view(*final(bytes)))),
            Err(e) => spec_decode_will(flags@, bytes_view(*old(bytes))) == Err::<
                (Option<WillView>, Seq<u8>),
                DecodeErrorKind,
            >(e.spec_kind()),
        },
{
    if !flags.will() {
        return Ok(None);
    }
    let topic = match TopicName::decode(bytes) {
        Ok(topic) => topic,
        Err(e) => {
            return Err(e);
        },
    };
    let message = match decode_utf8(bytes) {
        Ok(message) => message,
        Err(e) => {
            return Err(e);
        },
    };
    Ok(Some(Will::new(topic, message, flags.will_qos(), flags.will_retain())))
}

/// The fixed part of a CONNECT body: protocol name, level, flags and
/// keep-alive.
pub open spec fn spec_encode_connect_head(level: u8, flags: u8, keep_alive: u16) -> Seq<u8> {
    spec_encode_string(spec_protocol_name()) + (seq![level, flags] + spec_u16_be(keep_alive))
}

/// Writes the fixed part of a CONNECT body to an empty buffer.
fn encode_head(
    protocol: Protocol,
    level: u8,
    flags: ConnectFlags,
    keep_alive: u16,
    body: &mut BytesMut,
)
    requires
        bytes_mut_view(*old(body)).len() == 0,
    ensures
        bytes_mut_view(*final(body)) == spec_encode_connect_head(level, flags@, keep_alive),
        bytes_mut_view(*final(body)).len() == 10,
{
    proof {
        lemma_protocol_name_bytes();
    }
    let written = encode_utf8(body, protocol.as_str());
    assert(written is Ok);
    bytes_mut_put_u8(body, level);
    bytes_mut_put_u8(body, flags.as_byte());
    bytes_mut_put_u16(body, keep_alive);
    assert(bytes_mut_view(*body) =~= spec_encode_connect_head(level, flags@, keep_alive));
}

/// Whether the fields of a will fit their length prefixes.
pub open spec fn encodable_will(will: Option<WillView>) -> bool {
    match will {
        Some(w) => vstd::utf8::encode_utf8(join_levels(w.topic)).len() <= MAX_FIELD_LEN
            && vstd::utf8::encode_utf8(w.message).len() <= MAX_FIELD_LEN,
        None => true,
    }
}

/// Appends the will fields, if there is a will.
fn encode_will(will: &Option<Will>, body: &mut BytesMut) -> (r: Result<(), EncodeError>)
    requires
        bytes_mut_view(*old(body)).len() <= 400_000,
    ensures
        match r {
            Ok(_) => encodable_will(will_view(*will)) && bytes_mut_view(*final(body))
                == bytes_mut_view(*old(body)) + spec_encode_will(will_view(*will))
                && bytes_mut_view(*final(body)).len() <= bytes_mut_view(*old(body)).len()
                + 131_074,
            Err(e) => !encodable_will(will_view(*will)) && e.spec_kind()
                == EncodeErrorKind::OversizedPayload,
        },
{
    let ghost start = bytes_mut_view(*body);
    if let Some(will) = will {
        let text: String = will.will_topic.clone().to_string();
        match encode_utf8(body, text.as_str()) {
            Ok(_) => {},
            Err(e) => {
                return Err(e);
            },
        }
        match encode_utf8(body, will.will_message.as_str()) {
            Ok(_) => {},
            Err(e) => {
                return Err(e);
            },
        }
        assert(bytes_mut_view(*body) =~= start + spec_encode_will(Some(will@)));
    } else {
        assert(start + Seq::<u8>::empty() =~= start);
    }
    Ok(())
}

/// Appends a text field, if there is a text.
fn encode_opt_string(text: &Option<String>, body: &mut BytesMut) -> (r: Result<(), EncodeError>)
    requires
        bytes_mut_view(*old(body)).len() <= 400_000,
    ensures
        match r {
            Ok(_) => (text_view(*text) is Some ==> vstd::utf8::encode_utf8(
                text_view(*text).unwrap(),
            ).len() <= MAX_FIELD_LEN) && bytes_mut_view(*final(body)) == bytes_mut_view(
                *old(body),
            ) + spec_encode_opt_string(text_view(*text)) && bytes_mut_view(*final(body)).len()
                <= bytes_mut_view(*old(body)).len() + 65_537,
            Err(e) => text_view(*text) is Some && vstd::utf8::encode_utf8(
                text_view(*text).unwrap(),
            ).len() > MAX_FIELD_LEN && e.spec_kind() == EncodeErrorKind::OversizedPayload,
        },
{
    let ghost start = bytes_mut_view(*body);
    if let Some(text) = text {
        match encode_utf8(body, text.as_str()) {
            Ok(_) => {},
            Err(e) => {
                return Err(e);
            },
        }
    } else {
        assert(start + Seq::<u8>::empty() =~= start);
    }
    Ok(())
}

/// Appends a binary field, if there is data.
fn encode_opt_binary(data: &Option<Bytes>, body: &mut BytesMut) -> (r: Result<(), EncodeError>)
    requires
        bytes_mut_view(*old(body)).len() <= 400_000,
    ensures
        match r {
            Ok(_) => (data_view(*data) is Some ==> data_view(*data).unwrap().len()
                <= MAX_FIELD_LEN) && bytes_mut_view(*final(body)) == bytes_mut_view(*old(body))
                + spec_encode_opt_binary(data_view(*data)) && bytes_mut_view(*final(body)).len()
                <= bytes_mut_view(*old(body)).len() + 65_537,
            Err(e) => data_view(*data) is Some && data_view(*data).unwrap().len() > MAX_FIELD_LEN
                && e.spec_kind() == EncodeErrorKind::OversizedPayload,
        },
{
    let ghost start = bytes_mut_view(*body);
    if let Some(data) = data {
        match encode_bytes(body, bytes_as_slice(data)) {
            Ok(_) => {},
            Err(e) => {
                return Err(e);
            },
        }
    } else {
        assert(start + Seq::<u8>::empty() =~= start);
    }
    Ok(())
}

/// The protocol name takes four bytes as UTF-8.
pub proof fn lemma_protocol_name_bytes()
    ensures
        vstd::utf8::encode_utf8(spec_protocol_name()).len() == 4,
        spec_encode_string(spec_protocol_name()).len() == 6,
{
    vstd::utf8::is_ascii_chars_encode_utf8(spec_protocol_name());
}

/// The body of a CONNECT is its fixed part followed by its payload.
pub proof fn lemma_connect_body_parts(v: ConnectView)
    ensures
        v.body() == spec_encode_connect_head(v.level, v.flags, v.keep_alive) + v.payload(),
        spec_encode_connect_head(v.level, v.flags, v.keep_alive).len() == 10,
{
    lemma_protocol_name_bytes();
    assert(v.body() =~= spec_encode_connect_head(v.level, v.flags, v.keep_alive) + v.payload());
}

impl ConnectPacket {
    /// Reads the body of a CONNECT and consumes it. On failure the buffer is
    /// left as it was.
    pub fn decode(bytes: &mut Bytes) -> (r: Result<Self, DecodeError>)
        ensures
            match r {
                Ok(p) => spec_decode_connect_body(bytes_view(*old(bytes))) == Ok::<
                    (ConnectView, Seq<u8>),
                    DecodeErrorKind,
                >((p@, bytes_view(*final(bytes)))),
                Err(e) => spec_decode_connect_body(bytes_view(*old(bytes))) == Err::<
                    (ConnectView, Seq<u8>),
                    DecodeErrorKind,
                >(e.spec_kind()) && *final(bytes) == *old(bytes),
            },
    {
        proof {
            reveal(spec_decode_connect_body);
        }
        let mut cursor = bytes_clone(bytes);
        let protocol = match Protocol::from_bytes(&mut cursor) {
            Ok(protocol) => protocol,
            Err(e) => {
                return Err(e);
            },
        };
        let ghost r0 = bytes_view(cursor);
        if bytes_len(&cursor) < 1 {
            return Err(
                DecodeError::of(DecodeErrorKind::MalformedLength, "CONNECT is cut off"),
            );
        }
        let level: u8 = bytes_get_u8(&mut cursor);
        if level != 4 {
            return Err(
                DecodeError::of(
                    DecodeErrorKind::InvalidProtocol,
                    "Mqtt V3.1.1 Requires Protocol level to be 4",
                ),
            );
        }
        if bytes_len(&cursor) < 1 {
            return Err(
                DecodeError::of(DecodeErrorKind::MalformedLength, "CONNECT is cut off"),
            );
        }
        let flags_byte: u8 = bytes_get_u8(&mut cursor);
        let conn_flags = match ConnectFlags::from_byte(flags_byte) {
            Ok(flags) => flags,
            Err(e) => {
                return Err(e);
            },
        };
        if bytes_len(&cursor) < 2 {
            return Err(
                DecodeError::of(DecodeErrorKind::MalformedLength, "CONNECT is cut off"),
            );
        }
        assert(bytes_view(cursor) =~= r0.skip(2));
        let keep_alive: u16 = bytes_get_u16(&mut cursor);
        assert(bytes_view(cursor) =~= r0.skip(4));
        let client_id = match decode_utf8(&mut cursor) {
            Ok(client_id) => client_id,
            Err(e) => {
                return Err(e);
            },
        };
        let will = match decode_will(conn_flags, &mut cursor) {
            Ok(will) => will,
            Err(e) => {
                return Err(e);
            },
        };
        let username: Option<String> = if conn_flags.user_name() {
            match decode_utf8(&mut cursor) {
                Ok(name) => Some(name),
                Err(e) => {
                    return Err(e);
                },
            }
        } else {
            None
        };
        let password: Option<Bytes> = if conn_flags.password() {
            match decode_bytes(&mut cursor) {
                Ok(data) => Some(data),
                Err(e) => {
                    return Err(e);
                },
            }
        } else {
            None
        };
        *bytes = cursor;
        Ok(Self { protocol, level, conn_flags, keep_alive, client_id, will, username, password })
    }

    /// The whole packet, fixed header included. A field longer than
    /// `MAX_FIELD_LEN` bytes gives `OversizedPayload`.
    pub fn encode(&self) -> (r: Result<Bytes, EncodeError>)
        ensures
            match r {
                Ok(b) => self@.encodable() && bytes_view(b) == spec_encode_connect(self@),
                Err(e) => !self@.encodable() && e.spec_kind()
                    == EncodeErrorKind::OversizedPayload,
            },
    {
        let ghost v = self@;
        let mut body = bytes_mut_with_capacity(16);
        encode_head(self.protocol, self.level, self.conn_flags, self.keep_alive, &mut body);
        let ghost head = bytes_mut_view(body);
        match encode_utf8(&mut body, self.client_id.as_str()) {
            Ok(_) => {},
            Err(e) => {
                return Err(e);
            },
        }
        let ghost with_id = bytes_mut_view(body);
        match encode_will(&self.will, &mut body) {
            Ok(_) => {},
            Err(e) => {
                return Err(e);
            },
        }
        let ghost with_will = bytes_mut_view(body);
        match encode_opt_string(&self.username, &mut body) {
            Ok(_) => {},
            Err(e) => {
                return Err(e);
            },
        }
        let ghost with_user = bytes_mut_view(body);
        match encode_opt_binary(&self.password, &mut body) {
            Ok(_) => {},
            Err(e) => {
                return Err(e);
            },
        }
        proof {
            lemma_connect_body_parts(v);
            assert(bytes_mut_view(body) =~= head + (spec_encode_string(v.client_id) + (
            spec_encode_will(v.will) + (spec_encode_opt_string(v.username)
                + spec_encode_opt_binary(v.password)))));
        }
        let body = bytes_mut_freeze(body);
        let len: usize = bytes_len(&body);
        let mut bytes = bytes_mut_with_capacity(len + 5);
        bytes_mut_put_u8(&mut bytes, PacketType::CONNECT.as_u8());
        match encode_packet_length(&mut bytes, len) {
            Ok(_) => {},
            Err(e) => {
                return Err(e);
            },
        }
        proof {
            lemma_encode_length_len(len as nat);
        }
        bytes_mut_put_slice(&mut bytes, bytes_as_slice(&body));
        assert(bytes_mut_view(bytes) =~= spec_encode_connect(v));
        Ok(bytes_mut_freeze(bytes))
    }

    /// A CONNECT of protocol level 4 whose flags say what the arguments
    /// hold.
    pub fn new(
        is_clean_session: bool,
        keep_alive: u16,
        client_id: String,
        will: Option<Will>,
        username: Option<String>,
        password: Option<Bytes>,
    ) -> (p: Self)
        ensures
            p@ == (ConnectView {
                level: 4,
                flags: spec_connect_flags(
                    is_clean_session,
                    match will {
                        Some(w) => Some((w@.qos, w@.retain)),
                        None => None,
                    },
                    username is Some,
                    password is Some,
                ),
                keep_alive,
                client_id: client_id@,
                will: will_view(will),
                username: text_view(username),
                password: data_view(password),
            }),
    {
        let mut conn_flags = ConnectFlags::default();
        if username.is_some() {
            conn_flags.set_user_name(true);
        }
        if password.is_some() {
            conn_flags.set_password(true);
        }
        match &will {
            Some(will) => {
                conn_flags.set_will_retain(will.will_retain);
                conn_flags.set_will_qos(will.will_qos);
                conn_flags.set_will(true);
            },
            None => {},
        }
        if is_clean_session {
            conn_flags.set_clean_session(true);
        }
        Self {
            protocol: Protocol::MQTT,
            level: 4,
            conn_flags,
            keep_alive,
            client_id,
            will,
            username,
            password,
        }
    }

    pub fn client_id(&self) -> (id: &str)
        ensures
            id@ == self@.client_id,
    {
        self.client_id.as_str()
    }

    pub fn keep_alive(&self) -> (k: u16)
        ensures
            k == self@.keep_alive,
    {
        self.keep_alive
    }

    pub fn will(&self) -> (w: &Option<Will>)
        ensures
            will_view(*w) == self@.will,
    {
        &self.will
    }

    pub fn will_retain(&self) -> (b: bool)
        ensures
            b == spec_conn_will_retain(self@.flags),
    {
        self.conn_flags.will_retain()
    }

    /// Whether the client asks for a clean session.
    pub fn clean_session(&self) -> (b: bool)
        ensures
            b == spec_conn_clean_session(self@.flags),
    {
        self.conn_flags.clean_session()
    }

    pub fn username(&self) -> (u: &Option<String>)
        ensures
            text_view(*u) == self@.username,
    {
        &self.username
    }

    pub fn password(&self) -> (p: &Option<Bytes>)
        ensures
            data_view(*p) == self@.password,
    {
        &self.password
    }
}

/// The body of a CONNECT fits the remaining-length field whenever its fields
/// fit their own length prefixes.
pub proof fn lemma_connect_body_fits(v: ConnectView)
    requires
        v.encodable(),
    ensures
        v.body().len() <= MAX_ENCODED_PACKET_LEN,
{
    lemma_connect_body_parts(v);
}

/// The fixed part of a CONNECT with level 4 and flags without fault is read
/// back as written, whatever follows it.
pub proof fn lemma_connect_head_round_trip(flags: u8, keep_alive: u16, rest: Seq<u8>)
    requires
        spec_connect_flags_error(flags) is None,
    ensures
        spec_decode_protocol(spec_encode_connect_head(4, flags, keep_alive) + rest) == Ok::<
            Seq<u8>,
            DecodeErrorKind,
        >(seq![4u8, flags] + spec_u16_be(keep_alive) + rest),
        spec_decode_connect_head(seq![4u8, flags] + spec_u16_be(keep_alive) + rest) == Ok::<
            (u8, u16, Seq<u8>),
            DecodeErrorKind,
        >((flags, keep_alive, rest)),
{
    lemma_protocol_name_bytes();
    let after_name = seq![4u8, flags] + spec_u16_be(keep_alive) + rest;
    assert(spec_encode_connect_head(4, flags, keep_alive) + rest =~= spec_encode_string(
        spec_protocol_name(),
    ) + after_name);
    lemma_string_round_trip(spec_protocol_name(), after_name);
    assert(after_name[0] == 4u8);
    assert(after_name[1] == flags);
    assert(after_name.skip(2)[0] == (keep_alive / 256) as u8);
    assert(after_name.skip(2)[1] == (keep_alive % 256) as u8);
    assert(after_name.skip(4) =~= rest);
}

/// The will fields are read back as written under flags that say whether
/// there is a will and what its QoS and retain are, whatever follows them.
pub proof fn lemma_will_round_trip(flags: u8, will: Option<WillView>, rest: Seq<u8>)
    requires
        spec_conn_will(flags) == will is Some,
        encodable_will(will),
        match will {
            Some(w) => valid_name_levels(w.topic) && w.qos == spec_conn_will_qos(flags)
                && w.retain == spec_conn_will_retain(flags),
            None => true,
        },
    ensures
        spec_decode_will(flags, spec_encode_will(will) + rest) == Ok::<
            (Option<WillView>, Seq<u8>),
            DecodeErrorKind,
        >((will, rest)),
{
    match will {
        Some(w) => {
            let after_topic = spec_encode_string(w.message) + rest;
            assert(spec_encode_will(will) + rest =~= spec_encode_string(join_levels(w.topic))
                + after_topic);
            lemma_topic_name_round_trip(w.topic, after_topic);
            lemma_string_round_trip(w.message, rest);
        },
        None => {
            assert(spec_encode_will(will) + rest =~= rest);
        },
    }
}

/// A text field that may be absent is read back as written, whatever
/// follows it.
pub proof fn lemma_opt_string_round_trip(text: Option<Seq<char>>, rest: Seq<u8>)
    requires
        text is Some ==> vstd::utf8::encode_utf8(text.unwrap()).len() <= MAX_FIELD_LEN,
    ensures
        spec_decode_opt_string(text is Some, spec_encode_opt_string(text) + rest) == Ok::<
            (Option<Seq<char>>, Seq<u8>),
            DecodeErrorKind,
        >((text, rest)),
{
    match text {
        Some(t) => {
            lemma_string_round_trip(t, rest);
        },
        None => {
            assert(spec_encode_opt_string(text) + rest =~= rest);
        },
    }
}

/// A binary field that may be absent is read back as written, whatever
/// follows it.
pub proof fn lemma_opt_binary_round_trip(data: Option<Seq<u8>>, rest: Seq<u8>)
    requires
        data is Some ==> data.unwrap().len() <= MAX_FIELD_LEN,
    ensures
        spec_decode_opt_binary(data is Some, spec_encode_opt_binary(data) + rest) == Ok::<
            (Option<Seq<u8>>, Seq<u8>),
            DecodeErrorKind,
        >((data, rest)),
{
    match data {
        Some(d) => {
            lemma_binary_round_trip(d, rest);
        },
        None => {
            assert(spec_encode_opt_binary(data) + rest =~= rest);
        },
    }
}

/// The payload of a legal CONNECT is read back as written.
pub proof fn lemma_connect_payload_round_trip(v: ConnectView)
    requires
        v.legal(),
    ensures
        spec_decode_connect_payload(v.flags, v.keep_alive, v.payload()) == Ok::<
            (ConnectView, Seq<u8>),
            DecodeErrorKind,
        >((v, Seq::<u8>::empty())),
{
    let secret = spec_encode_opt_binary(v.password);
    let user = spec_encode_opt_string(v.username) + secret;
    let will = spec_encode_will(v.will) + user;
    lemma_string_round_trip(v.client_id, will);
    lemma_will_round_trip(v.flags, v.will, user);
    lemma_opt_string_round_trip(v.username, secret);
    lemma_opt_binary_round_trip(v.password, Seq::<u8>::empty());
    assert(secret + Seq::<u8>::empty() =~= secret);
}

/// Every legal CONNECT is read back as written.
pub proof fn lemma_connect_round_trip(v: ConnectView)
    requires
        v.legal(),
    ensures
        spec_decode_fixed_header(spec_encode_connect(v)) == Ok::<
            (FixedHeaderView, Seq<u8>),
            DecodeErrorKind,
        >(
            (
                FixedHeaderView {
                    type_: PacketType::CONNECT,
                    flags: 0,
                    rest_len: v.body().len(),
                    header_len: 1 + spec_length_size(v.body().len()),
                },
                v.body(),
            ),
        ),
        spec_decode_connect_body(v.body()) == Ok::<(ConnectView, Seq<u8>), DecodeErrorKind>(
            (v, Seq::<u8>::empty()),
        ),
{
    reveal(spec_decode_connect_body);
    lemma_connect_body_fits(v);
    lemma_fixed_header_round_trip(PacketType::CONNECT, 0, v.body().len(), v.body());
    lemma_connect_body_parts(v);
    lemma_connect_head_round_trip(v.flags, v.keep_alive, v.payload());
    lemma_connect_payload_round_trip(v);
}

} // verus!
