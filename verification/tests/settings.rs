use mqtt_core::config::{
    credentials_in_clear, default_db_conn, default_false, default_log_level, default_port,
    default_qos, default_queue_size, default_true, port_advice, Broker, Logger, PortAdvice, Users,
};
use mqtt_core::err::{
    DecodeError, DecodeErrorKind, EncodeError, EncodeErrorKind, ServerError, ServerErrorKind,
};
use mqtt_core::qos::QosLevel;

#[test]
fn defaults() {
    assert!(!default_false());
    assert!(default_true());
    assert_eq!(default_port(), 1883);
    assert_eq!(default_db_conn(), "user.db");
    assert_eq!(default_log_level(), "trace");
    assert_eq!(default_queue_size(), 128);
    assert_eq!(default_qos(), QosLevel::ExactlyOnce);
    assert!(!Users::default().authenticate);
    let logger = Logger::default();
    assert!(logger.console && logger.file);
    assert_eq!(logger.level, "trace");
    let broker = Broker::default();
    assert_eq!(broker.max_queued_messages, 128);
    assert_eq!(broker.default_qos, QosLevel::ExactlyOnce);
    assert!(broker.is_usable());
}

#[test]
fn queue_size_must_suit_a_channel() {
    let mut broker = Broker::default();
    broker.max_queued_messages = 0;
    assert!(!broker.is_usable());
    broker.max_queued_messages = usize::MAX / 2;
    assert!(broker.is_usable());
    broker.max_queued_messages = usize::MAX / 2 + 1;
    assert!(!broker.is_usable());
}

#[test]
fn crossed_ports_are_pointed_out() {
    assert_eq!(port_advice(true, 1883), Some(PortAdvice::TlsOnPlaintextPort));
    assert_eq!(port_advice(false, 8883), Some(PortAdvice::PlaintextOnTlsPort));
    assert_eq!(port_advice(false, 1883), None);
    assert_eq!(port_advice(true, 8883), None);
    assert_eq!(port_advice(true, 1), None);
    assert!(credentials_in_clear(true, false));
    assert!(!credentials_in_clear(true, true));
    assert!(!credentials_in_clear(false, false));
}

#[test]
fn errors_carry_kind_and_message() {
    let decode = DecodeError::new(DecodeErrorKind::FlagBits, String::from("bits"));
    assert_eq!(decode.kind(), DecodeErrorKind::FlagBits);
    assert_eq!(decode.message(), "bits");
    let server = ServerError::from_decode(decode);
    assert_eq!(server.kind(), &ServerErrorKind::DecodeError);
    assert_eq!(server.message(), "bits");
    let encode = EncodeError::new(EncodeErrorKind::OversizedPayload, String::from("big"));
    assert_eq!(encode.kind(), EncodeErrorKind::OversizedPayload);
    let server = ServerError::from_encode(encode);
    assert_eq!(server.kind(), &ServerErrorKind::EncodeError);
    assert_eq!(server.message(), "big");
    let own = ServerError::new(ServerErrorKind::FullMailbox(3), String::from("lag"));
    assert_eq!(own.kind(), &ServerErrorKind::FullMailbox(3));
}
