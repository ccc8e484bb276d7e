//! Quality-of-service levels and the return codes of a SUBACK.
use crate::err::{DecodeError, DecodeErrorKind};
use vstd::prelude::*;

verus! {

/// The delivery guarantee of a message.
#[derive(PartialEq, Eq, Structural, Clone, Copy, Debug, Hash)]
pub enum QosLevel {
    AtMostOnce,
    AtLeastOnce,
    ExactlyOnce,
}

impl QosLevel {
    /// The level as the number 0, 1 or 2 that stands for it on the wire.
    pub open spec fn spec_as_u8(self) -> u8 {
        match self {
            QosLevel::AtMostOnce => 0,
            QosLevel::AtLeastOnce => 1,
            QosLevel::ExactlyOnce => 2,
        }
    }

    /// The level that a wire number stands for, if any.
    pub open spec fn spec_from_u8(value: u8) -> Option<QosLevel> {
        if value == 0 {
            Some(QosLevel::AtMostOnce)
        } else if value == 1 {
            Some(QosLevel::AtLeastOnce)
        } else if value == 2 {
            Some(QosLevel::ExactlyOnce)
        } else {
            None
        }
    }

    /// The weaker of two levels.
    pub open spec fn spec_min(self, other: QosLevel) -> QosLevel {
        if self.spec_as_u8() <= other.spec_as_u8() {
            self
        } else {
            other
        }
    }

    pub fn as_u8(self) -> (v: u8)
        ensures
            v == self.spec_as_u8(),
    {
        match self {
            QosLevel::AtMostOnce => 0,
            QosLevel::AtLeastOnce => 1,
            QosLevel::ExactlyOnce => 2,
        }
    }

    /// Reads a level from a byte whose QoS bits were shifted down to bit 0.
    /// Values above 2 are refused with `QoS`.
    pub fn try_from(value: u8) -> (r: Result<QosLevel, DecodeError>)
        ensures
            match r {
                Ok(q) => Self::spec_from_u8(value) == Some(q),
                Err(e) => Self::spec_from_u8(value) is None && e.spec_kind()
                    == DecodeErrorKind::QoS,
            },
    {
        if value == 0 {
            Ok(QosLevel::AtMostOnce)
        } else if value == 1 {
            Ok(QosLevel::AtLeastOnce)
        } else if value == 2 {
            Ok(QosLevel::ExactlyOnce)
        } else {
            Err(DecodeError::of(DecodeErrorKind::QoS, "Invalid QoS, only values 0-2 are valid"))
        }
    }

    pub fn min(self, other: QosLevel) -> (m: QosLevel)
        ensures
            m == self.spec_min(other),
    {
        if self.as_u8() <= other.as_u8() {
            self
        } else {
            other
        }
    }
}

/// One return code of a SUBACK: the granted level, or a refusal.
#[derive(PartialEq, Eq, Structural, Clone, Copy, Debug)]
pub enum SubAckQoS {
    QOS(QosLevel),
    Failure,
}

impl SubAckQoS {
    /// The code as its wire byte: 0, 1, 2 for a granted level, `0x80` for a
    /// refusal.
    pub open spec fn spec_as_u8(self) -> u8 {
        match self {
            SubAckQoS::QOS(q) => q.spec_as_u8(),
            SubAckQoS::Failure => 0x80,
        }
    }

    /// The code that a wire byte stands for, if any.
    pub open spec fn spec_from_u8(value: u8) -> Option<SubAckQoS> {
        if value == 0x80 {
            Some(SubAckQoS::Failure)
        } else {
            match QosLevel::spec_from_u8(value) {
                Some(q) => Some(SubAckQoS::QOS(q)),
                None => None,
            }
        }
    }

    pub fn as_u8(self) -> (v: u8)
        ensures
            v == self.spec_as_u8(),
    {
        match self {
            SubAckQoS::QOS(q) => q.as_u8(),
            SubAckQoS::Failure => 0x80,
        }
    }

    /// Reads a return code. Bytes other than 0, 1, 2 and `0x80` are refused
    /// with `QoS`.
    pub fn try_from(value: u8) -> (r: Result<SubAckQoS, DecodeError>)
        ensures
            match r {
                Ok(c) => Self::spec_from_u8(value) == Some(c),
                Err(e) => Self::spec_from_u8(value) is None && e.spec_kind()
                    == DecodeErrorKind::QoS,
            },
    {
        if value == 0x80 {
            Ok(SubAckQoS::Failure)
        } else {
            match QosLevel::try_from(value) {
                Ok(q) => Ok(SubAckQoS::QOS(q)),
                Err(e) => Err(e),
            }
        }
    }

    /// The code that grants `value`.
    pub fn from(value: QosLevel) -> (c: SubAckQoS)
        ensures
            c == SubAckQoS::QOS(value),
    {
        SubAckQoS::QOS(value)
    }

    /// Whether this code grants exactly `level`.
    pub fn grants(self, level: QosLevel) -> (b: bool)
        ensures
            b == (self == SubAckQoS::QOS(level)),
    {
        match self {
            SubAckQoS::Failure => false,
            SubAckQoS::QOS(q) => q == level,
        }
    }
}

/// Reading a level back from its wire number gives the level, for each of
/// the three levels and for each SUBACK return code.
pub proof fn lemma_qos_round_trip(q: QosLevel, c: SubAckQoS)
    ensures
        QosLevel::spec_from_u8(q.spec_as_u8()) == Some(q),
        SubAckQoS::spec_from_u8(c.spec_as_u8()) == Some(c),
{
}

} // verus!
