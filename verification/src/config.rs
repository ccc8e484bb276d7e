//! The settings of the broker, their defaults, and what the broker has to
//! say about a combination of settings before it starts.
use crate::channel::MAX_QUEUE;
use crate::qos::QosLevel;
use vstd::prelude::*;

verus! {

/// The port that plaintext MQTT is served on by custom.
pub const PLAINTEXT_PORT: u16 = 1883;

/// The port that MQTT over TLS is served on by custom.
pub const TLS_PORT: u16 = 8883;

pub fn default_false() -> (b: bool)
    ensures
        !b,
{
    false
}

pub fn default_true() -> (b: bool)
    ensures
        b,
{
    true
}

/// The port of a broker that is told none: the plaintext port.
pub fn default_port() -> (p: u16)
    ensures
        p == PLAINTEXT_PORT,
{
    1883
}

/// The file of the user database of a broker that is told none.
pub fn default_db_conn() -> (s: String)
    ensures
        s@ == "user.db"@,
{
    "user.db".to_owned()
}

/// The log level of a broker that is told none.
pub fn default_log_level() -> (s: String)
    ensures
        s@ == "trace"@,
{
    "trace".to_owned()
}

/// The bound of a fan-out channel of a broker that is told none.
pub fn default_queue_size() -> (n: usize)
    ensures
        n == 128,
{
    128
}

/// The highest QoS that a broker grants when it is told none.
pub fn default_qos() -> (q: QosLevel)
    ensures
        q == QosLevel::ExactlyOnce,
{
    QosLevel::ExactlyOnce
}

/// The settings on users.
#[derive(Debug, Clone, Copy, PartialEq, Eq, Structural)]
pub struct Users {
    /// Whether a client has to give a user name and a password.
    pub authenticate: bool,
}

impl Users {
    /// No authentication.
    pub fn default() -> (u: Self)
        ensures
            !u.authenticate,
    {
        Self { authenticate: default_false() }
    }
}

/// The settings on logging.
#[derive(Debug, Clone)]
pub struct Logger {
    pub console: bool,
    pub file: bool,
    /// One of off, error, warn, info, debug and trace.
    pub level: String,
}

impl Logger {
    /// Logging to the console and to files, at the level trace.
    pub fn default() -> (l: Self)
        ensures
            l.console,
            l.file,
            l.level@ == "trace"@,
    {
        Self { console: default_true(), file: default_true(), level: default_log_level() }
    }
}

/// The settings on routing.
#[derive(Debug, Clone, Copy, PartialEq, Eq, Structural)]
pub struct Broker {
    /// The bound of the fan-out channel of a topic.
    pub max_queued_messages: usize,
    /// The highest QoS that is granted.
    pub default_qos: QosLevel,
}

impl Broker {
    /// Channels of 128 messages, and every QoS granted.
    pub fn default() -> (b: Self)
        ensures
            b.max_queued_messages == 128,
            b.default_qos == QosLevel::ExactlyOnce,
    {
        Self { max_queued_messages: default_queue_size(), default_qos: default_qos() }
    }

    /// Whether a topic registry can be made with these settings: the bound
    /// of a channel is neither 0 nor above `MAX_QUEUE`.
    pub fn is_usable(&self) -> (b: bool)
        ensures
            b == (0 < self.max_queued_messages <= MAX_QUEUE),
    {
        0 < self.max_queued_messages && self.max_queued_messages <= MAX_QUEUE
    }
}

/// What is odd about a port for a transport.
#[derive(Debug, Clone, Copy, PartialEq, Eq, Structural)]
pub enum PortAdvice {
    /// TLS is served on the port that custom keeps for plaintext.
    TlsOnPlaintextPort,
    /// Plaintext is served on the port that custom keeps for TLS.
    PlaintextOnTlsPort,
}

/// What the broker warns of when it is to serve the transport on the port:
/// TLS on 1883 and plaintext on 8883 are each the other's port.
pub fn port_advice(tls: bool, port: u16) -> (advice: Option<PortAdvice>)
    ensures
        advice == (if tls && port == PLAINTEXT_PORT {
            Some(PortAdvice::TlsOnPlaintextPort)
        } else if !tls && port == TLS_PORT {
            Some(PortAdvice::PlaintextOnTlsPort)
        } else {
            None
        }),
{
    if tls {
        if port == PLAINTEXT_PORT {
            return Some(PortAdvice::TlsOnPlaintextPort);
        }
    } else if port == TLS_PORT {
        return Some(PortAdvice::PlaintextOnTlsPort);
    }
    None
}

/// Whether clients are asked to send their passwords over a transport that
/// anyone can read.
pub fn credentials_in_clear(authenticate: bool, tls: bool) -> (b: bool)
    ensures
        b == (authenticate && !tls),
{
    authenticate && !tls
}

} // verus!
