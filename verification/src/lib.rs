//! Core of an MQTT 3.1.1 message broker: the wire codec, the topic algebra,
//! the packet-id allocator, the QoS 1/2 message-assurance engine, the topic
//! registry, the session records and the per-connection decision logic.
//!
//! The logic of the crate is verified. Two modules hold what is believed of
//! outside code instead: `buffer` states what the byte buffers of the
//! `bytes` crate do, and `channel` names the operations of the broadcast
//! channel of `tokio`, of which nothing is assumed. Transport, clocks and
//! task scheduling belong to the program built around the crate.
use crate::err::{DecodeError, DecodeErrorKind};
use vstd::prelude::*;

pub mod buffer;
pub mod channel;
pub mod config;
pub mod connection;
pub mod err;
pub mod id;
pub mod io;
pub mod mailbox;
pub mod msg_assurance;
pub mod qos;
pub mod registry;
pub mod session;
pub mod topic;
pub mod v4;

verus! {

/// The return code of a CONNACK: whether the broker accepts the connection,
/// and if not, why.
#[derive(Clone, Copy, Debug, PartialEq, Eq, Structural)]
pub enum ConnectReturnCode {
    Accept,
    InvalidProtocol,
    IdentifierRejected,
    ServerUnavailable,
    BadUsernameOrPassword,
    NotAuthorized,
}

impl ConnectReturnCode {
    /// The code as the number 0 to 5 that stands for it on the wire.
    pub open spec fn spec_as_u8(self) -> u8 {
        match self {
            ConnectReturnCode::Accept => 0,
            ConnectReturnCode::InvalidProtocol => 1,
            ConnectReturnCode::IdentifierRejected => 2,
            ConnectReturnCode::ServerUnavailable => 3,
            ConnectReturnCode::BadUsernameOrPassword => 4,
            ConnectReturnCode::NotAuthorized => 5,
        }
    }

    /// The code that a wire number stands for, if any.
    pub open spec fn spec_from_u8(value: u8) -> Option<ConnectReturnCode> {
        if value == 0 {
            Some(ConnectReturnCode::Accept)
        } else if value == 1 {
            Some(ConnectReturnCode::InvalidProtocol)
        } else if value == 2 {
            Some(ConnectReturnCode::IdentifierRejected)
        } else if value == 3 {
            Some(ConnectReturnCode::ServerUnavailable)
        } else if value == 4 {
            Some(ConnectReturnCode::BadUsernameOrPassword)
        } else if value == 5 {
            Some(ConnectReturnCode::NotAuthorized)
        } else {
            None
        }
    }

    pub fn as_u8(self) -> (v: u8)
        ensures
            v == self.spec_as_u8(),
    {
        match self {
            ConnectReturnCode::Accept => 0,
            ConnectReturnCode::InvalidProtocol => 1,
            ConnectReturnCode::IdentifierRejected => 2,
            ConnectReturnCode::ServerUnavailable => 3,
            ConnectReturnCode::BadUsernameOrPassword => 4,
            ConnectReturnCode::NotAuthorized => 5,
        }
    }

    /// Reads a return code. Only the values 0 to 5 are codes; any other gives
    /// `InvalidReturnCode`.
    pub fn try_from(value: u8) -> (r: Result<ConnectReturnCode, DecodeError>)
        ensures
            match r {
                Ok(c) => Self::spec_from_u8(value) == Some(c),
                Err(e) => Self::spec_from_u8(value) is None && e.spec_kind()
                    == DecodeErrorKind::InvalidReturnCode,
            },
    {
        if value == 0 {
            Ok(ConnectReturnCode::Accept)
        } else if value == 1 {
            Ok(ConnectReturnCode::InvalidProtocol)
        } else if value == 2 {
            Ok(ConnectReturnCode::IdentifierRejected)
        } else if value == 3 {
            Ok(ConnectReturnCode::ServerUnavailable)
        } else if value == 4 {
            Ok(ConnectReturnCode::BadUsernameOrPassword)
        } else if value == 5 {
            Ok(ConnectReturnCode::NotAuthorized)
        } else {
            Err(
                DecodeError::of(
                    DecodeErrorKind::InvalidReturnCode,
                    "Return code is invalid, only values of 0-5 are valid.",
                ),
            )
        }
    }

    /// The code in words.
    pub open spec fn spec_to_string(self) -> Seq<char> {
        match self {
            ConnectReturnCode::Accept => "Accept"@,
            ConnectReturnCode::BadUsernameOrPassword => "Bad username or password"@,
            ConnectReturnCode::IdentifierRejected => "Identifier rejected"@,
            ConnectReturnCode::InvalidProtocol => "Invalid protocol"@,
            ConnectReturnCode::NotAuthorized => "Not authorized"@,
            ConnectReturnCode::ServerUnavailable => "Server unavailable"@,
        }
    }

    /// The code in words.
    pub fn to_string(&self) -> (s: String)
        ensures
            s@ == self.spec_to_string(),
    {
        match self {
            ConnectReturnCode::Accept => "Accept".to_owned(),
            ConnectReturnCode::BadUsernameOrPassword => "Bad username or password".to_owned(),
            ConnectReturnCode::IdentifierRejected => "Identifier rejected".to_owned(),
            ConnectReturnCode::InvalidProtocol => "Invalid protocol".to_owned(),
            ConnectReturnCode::NotAuthorized => "Not authorized".to_owned(),
            ConnectReturnCode::ServerUnavailable => "Server unavailable".to_owned(),
        }
    }
}

} // verus!
