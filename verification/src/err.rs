//! Errors of the wire codec.
use vstd::prelude::*;

verus! {

/// Why a packet could not be encoded.
#[derive(Clone, Debug, Copy, PartialEq, Eq, Structural)]
pub enum EncodeErrorKind {
    /// The body is longer than a remaining-length field can announce.
    OversizedPayload,
}

/// An encoding failure: its kind and a message for a human reader.
#[derive(Debug, Clone)]
pub struct EncodeError {
    kind: EncodeErrorKind,
    message: String,
}

impl EncodeError {
    pub closed spec fn spec_kind(&self) -> EncodeErrorKind {
        self.kind
    }

    pub closed spec fn spec_message(&self) -> Seq<char> {
        self.message@
    }

    pub fn new(kind: EncodeErrorKind, message: String) -> (e: Self)
        ensures
            e.spec_kind() == kind,
            e.spec_message() == message@,
    {
        Self { kind, message }
    }

    pub fn kind(&self) -> (k: EncodeErrorKind)
        ensures
            k == self.spec_kind(),
    {
        self.kind
    }

    pub fn message(&self) -> (m: &str)
        ensures
            m@ == self.spec_message(),
    {
        self.message.as_str()
    }
}

/// Why a sequence of bytes is not a packet.
#[derive(Clone, Copy, Debug, PartialEq, Eq, Structural)]
pub enum DecodeErrorKind {
    /// The flag nibble of the fixed header is not the one the type demands.
    FlagBits,
    /// The type nibble names no control packet.
    PacketType,
    /// A CONNECT asks for will QoS 3.
    WillQoS,
    /// A CONNECT sets will QoS or will retain without the will flag.
    Will,
    /// A QoS field holds a value above 2, or a SUBACK return code is none of
    /// 0, 1, 2 and `0x80`.
    QoS,
    /// A string field is not well-formed UTF-8.
    Utf8ParseError,
    /// A length field is malformed or announces more bytes than there are.
    MalformedLength,
    /// A topic filter is empty or has `#` before its last level.
    MalformedTopicFilter,
    /// A topic name is empty or has a wildcard level.
    MalformedTopicName,
    /// A CONNECT sets the password flag without the user name flag.
    UsernamePassword,
    /// The protocol name is not `MQTT` or the level is not 4.
    InvalidProtocol,
    /// A CONNACK return code is not one of 0 to 5.
    InvalidReturnCode,
    /// The peer went away in the middle of a packet.
    ImproperDisconnect,
    /// A reserved bit is set, or a packet breaks the protocol otherwise.
    ProtocolError,
    /// The peer did not answer in time.
    Timeout,
}

/// A decoding failure: its kind and a message for a human reader.
#[derive(Debug, Clone)]
pub struct DecodeError {
    kind: DecodeErrorKind,
    message: String,
}

impl DecodeError {
    pub closed spec fn spec_kind(&self) -> DecodeErrorKind {
        self.kind
    }

    pub closed spec fn spec_message(&self) -> Seq<char> {
        self.message@
    }

    pub fn new(kind: DecodeErrorKind, message: String) -> (e: Self)
        ensures
            e.spec_kind() == kind,
            e.spec_message() == message@,
    {
        Self { kind, message }
    }

    pub fn kind(&self) -> (k: DecodeErrorKind)
        ensures
            k == self.spec_kind(),
    {
        self.kind
    }

    pub fn message(&self) -> (m: &str)
        ensures
            m@ == self.spec_message(),
    {
        self.message.as_str()
    }

    /// An error of the given kind with a fixed message.
    pub(crate) fn of(kind: DecodeErrorKind, message: &str) -> (e: Self)
        ensures
            e.spec_kind() == kind,
            e.spec_message() == message@,
    {
        Self { kind, message: message.to_owned() }
    }
}

/// Why the broker gives up a connection.
#[derive(Clone, Copy, Debug, PartialEq, Eq, Structural)]
pub enum ServerErrorKind {
    /// Bytes from the client were no packet.
    DecodeError,
    /// A packet for the client could not be written.
    EncodeError,
    /// The client sent a packet that the protocol does not allow here.
    ProtocolError,
    /// A fan-out channel was closed under a subscriber.
    BroadcastError,
    /// A subscriber fell behind and this many messages were dropped for it.
    FullMailbox(u64),
    /// A client id is in use by another connection.
    ReusedClientId,
}

/// A failure of the broker on one connection: its kind and a message for a
/// human reader.
#[derive(Debug)]
pub struct ServerError {
    kind: ServerErrorKind,
    message: String,
}

impl ServerError {
    pub closed spec fn spec_kind(&self) -> ServerErrorKind {
        self.kind
    }

    pub closed spec fn spec_message(&self) -> Seq<char> {
        self.message@
    }

    pub fn new(kind: ServerErrorKind, message: String) -> (e: Self)
        ensures
            e.spec_kind() == kind,
            e.spec_message() == message@,
    {
        Self { kind, message }
    }

    pub fn kind(&self) -> (k: &ServerErrorKind)
        ensures
            *k == self.spec_kind(),
    {
        &self.kind
    }

    pub fn message(&self) -> (m: &str)
        ensures
            m@ == self.spec_message(),
    {
        self.message.as_str()
    }

    /// An error of the given kind with a fixed message.
    pub(crate) fn of(kind: ServerErrorKind, message: &str) -> (e: Self)
        ensures
            e.spec_kind() == kind,
            e.spec_message() == message@,
    {
        Self { kind, message: message.to_owned() }
    }

    /// The failure of the broker that a decoding failure amounts to.
    pub fn from_decode(value: DecodeError) -> (e: Self)
        ensures
            e.spec_kind() == ServerErrorKind::DecodeError,
            e.spec_message() == value.spec_message(),
    {
        Self { kind: ServerErrorKind::DecodeError, message: value.message }
    }

    /// The failure of the broker that an encoding failure amounts to.
    pub fn from_encode(value: EncodeError) -> (e: Self)
        ensures
            e.spec_kind() == ServerErrorKind::EncodeError,
            e.spec_message() == value.spec_message(),
    {
        Self { kind: ServerErrorKind::EncodeError, message: value.message }
    }
}

} // verus!
