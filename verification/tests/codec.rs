use bytes::{Bytes, BytesMut};
use mqtt_core::err::{DecodeErrorKind, EncodeErrorKind};
use mqtt_core::io::{
    decode_bytes, decode_u16_len, decode_utf8, encode_bytes, encode_packet_length, encode_utf8,
    MAX_ENCODED_PACKET_LEN,
};
use mqtt_core::qos::{QosLevel, SubAckQoS};
use mqtt_core::topic::{TopicFilter, TopicFilterResult, TopicName, TopicSubscription};
use mqtt_core::v4::{
    decode_any, ConnAckPacket, ConnectFlags, ConnectPacket, DisconnectPacket, FixedHeader,
    HeaderFlags, MqttPacket, PacketType, PingReqPacket, PingRespPacket, Protocol, PubAckPacket,
    PubCompPacket, PubRecPacket, PubRelPacket, PublishFixedHeaderFlags, PublishPacket,
    SubAckPacket, SubscribePacket, UnsubAckPacket, UnsubscribePacket, Will,
};
use mqtt_core::ConnectReturnCode;

fn decode_whole(mut buf: Bytes) -> MqttPacket {
    let f_header = FixedHeader::decode(&mut buf).unwrap();
    MqttPacket::decode(f_header, &mut buf).expect("Could not decode packet")
}

#[test]
fn mod_deserialize() {
    let mut bytes = Bytes::from_iter([0b1001_0000, 100]);
    let header = FixedHeader::decode(&mut bytes).expect("Could not decode header.");

    assert_eq!(header.header_len, 2);
    assert_eq!(header.rest_len, 100);
}

#[test]
fn pingreq_serialize_deserialize() {
    let packet = PingReqPacket::new();
    let mut buf = packet.encode();

    let f_header = FixedHeader::decode(&mut buf).unwrap();
    let packet_de = MqttPacket::decode(f_header, &mut buf).expect("Could not decode packet");

    assert_eq!(packet_de, MqttPacket::PingReq(packet));
}

#[test]
fn pingresp_serialize_deserialize() {
    let packet = PingRespPacket::new();
    let mut buf = packet.encode();

    let f_header = FixedHeader::decode(&mut buf).unwrap();
    let packet_de = MqttPacket::decode(f_header, &mut buf).expect("Could not decode packet");

    assert_eq!(packet_de, MqttPacket::PingResp(packet));
}

#[test]
fn pubcomp_serialize_deserialize() {
    let packet = PubCompPacket::new(1234);
    let mut buf = packet.encode();

    let f_header = FixedHeader::decode(&mut buf).unwrap();
    let packet_de = MqttPacket::decode(f_header, &mut buf).expect("Could not decode packet");

    assert_eq!(packet_de, MqttPacket::PubComp(packet));
}

#[test]
fn serialize_deserialize_generic() {
    let packet = PublishPacket::new(
        &TopicName::from_str("this/is/a/test").expect("Could not create topic name"),
        Bytes::from_iter([117]),
    );
    let mut buf = packet.encode().unwrap();

    let f_header = FixedHeader::decode(&mut buf).unwrap();
    let packet_de = MqttPacket::decode(f_header, &mut buf).expect("Could not decode packet");

    assert_eq!(packet.payload().first().expect("No payload present"), &117);
    assert_eq!(packet_de, MqttPacket::Publish(packet));
}

#[test]
fn serialize_deserialize_qos() {
    let mut packet = PublishPacket::new(
        &TopicName::from_str("this/is/a/test").expect("Could not create topic name"),
        Bytes::from_iter([117]),
    );
    packet.set_qos_atleastonce(1234);

    let mut buf = packet.encode().unwrap();

    let f_header = FixedHeader::decode(&mut buf).unwrap();
    let packet_de = MqttPacket::decode(f_header, &mut buf).expect("Could not decode packet");

    assert_eq!(packet_de, MqttPacket::Publish(packet));
}

#[test]
fn unsuback_serialize_deserialize() {
    let packet = UnsubAckPacket::new(1234);
    let mut buf = packet.encode();

    let f_header = FixedHeader::decode(&mut buf).unwrap();
    let packet_de = MqttPacket::decode(f_header, &mut buf).expect("Could not decode packet");

    assert_eq!(packet_de, MqttPacket::UnsubAck(packet));
}

#[test]
fn unsubscribe_serialize_deserialize() {
    let packet = UnsubscribePacket::new(1234, vec![TopicFilter::from_str("test").unwrap()]);
    let mut buf = packet.encode().unwrap();

    let f_header = FixedHeader::decode(&mut buf).unwrap();
    let packet_de = MqttPacket::decode(f_header, &mut buf).expect("Could not decode packet");

    assert_eq!(packet_de, MqttPacket::Unsubscribe(packet));
}

#[test]
fn connack_serialize_deserialize() {
    let packet = ConnAckPacket::new(true, ConnectReturnCode::Accept);
    let mut buf = packet.encode();

    let f_header = FixedHeader::decode(&mut buf).unwrap();
    println!("Buf: {:?}", buf);

    let packet_de = MqttPacket::decode(f_header, &mut buf).expect("Could not decode packet");

    assert_eq!(packet_de, MqttPacket::ConnAck(packet));
}

#[test]
fn disconnect_serialize_deserialize() {
    let packet = DisconnectPacket::new();
    let mut buf = packet.encode();

    let f_header = FixedHeader::decode(&mut buf).unwrap();
    let packet_de = MqttPacket::decode(f_header, &mut buf).expect("Could not decode packet");

    assert_eq!(packet_de, MqttPacket::Disconnect(packet));
}

#[test]
fn puback_serialize_deserialize() {
    let packet = PubAckPacket::new(1234);
    let mut buf = packet.encode();

    let f_header = FixedHeader::decode(&mut buf).unwrap();
    let packet_de = MqttPacket::decode(f_header, &mut buf).expect("Could not decode packet");

    assert_eq!(packet_de, MqttPacket::PubAck(packet));
}

#[test]
fn pubrec_serialize_deserialize() {
    let packet = PubRecPacket::new(1234);
    let mut buf = packet.encode();

    let f_header = FixedHeader::decode(&mut buf).unwrap();
    let packet_de = MqttPacket::decode(f_header, &mut buf).expect("Could not decode packet");

    assert_eq!(packet_de, MqttPacket::PubRec(packet));
}

#[test]
fn pubrel_serialize_deserialize() {
    let packet = PubRelPacket::new(1234);
    let mut buf = packet.encode();

    let f_header = FixedHeader::decode(&mut buf).unwrap();
    let packet_de = MqttPacket::decode(f_header, &mut buf).expect("Could not decode packet");

    assert_eq!(packet_de, MqttPacket::PubRel(packet));
}

#[test]
fn subscribe_serialize_deserialize() {
    let packet = SubscribePacket::new(
        1234,
        vec![TopicSubscription::new(
            TopicFilter::from_str("test").unwrap(),
            QosLevel::AtLeastOnce,
        )],
    );
    let mut buf = packet.encode().unwrap();

    let f_header = FixedHeader::decode(&mut buf).unwrap();
    let packet_de = MqttPacket::decode(f_header, &mut buf).expect("Could not decode packet");

    assert_eq!(packet_de, MqttPacket::Subscribe(packet));
}

#[test]
fn suback_serialize_deserialize() {
    let packet = SubAckPacket::new(1234, vec![SubAckQoS::QOS(QosLevel::AtLeastOnce)]);
    let mut buf = packet.encode().unwrap();

    let f_header = FixedHeader::decode(&mut buf).unwrap();
    let packet_de = MqttPacket::decode(f_header, &mut buf).expect("Could not decode packet");

    assert_eq!(packet_de, MqttPacket::SubAck(packet));
}

#[test]
fn connect_serialize_deserialize() {
    let packet = ConnectPacket::new(true, 100, "id_1".to_string(), None, None, None);
    let mut buf = packet.encode().unwrap();

    let f_header = FixedHeader::decode(&mut buf).unwrap();
    let packet_de = MqttPacket::decode(f_header, &mut buf).expect("Could not decode packet");

    assert_eq!(packet_de, MqttPacket::Connect(packet));

    let packet = ConnectPacket::new(true, 10, String::from("TestClientId"), None, None, None);
    let mut buf = packet.encode().unwrap();

    let f_header = FixedHeader::decode(&mut buf).unwrap();
    let packet_de = MqttPacket::decode(f_header, &mut buf).expect("Could not decode packet");

    assert_eq!(packet_de, MqttPacket::Connect(packet));
}

#[test]
fn io_encode_length() {
    let buf: &[u8] = &[0, 0, 0, 0];
    let mut bytes = BytesMut::from(buf);
    let len = MAX_ENCODED_PACKET_LEN;
    let size = encode_packet_length(&mut bytes.clone(), len);

    assert!(size.is_ok());
    assert_eq!(size.unwrap(), 4);

    let len = MAX_ENCODED_PACKET_LEN as usize + 1;
    let size = encode_packet_length(&mut bytes, len);

    assert!(size.is_err())
}

#[test]
fn io_decode_length() {
    let buf: &[u8] = &[255, 255, 255, 127];
    let mut_bytes = BytesMut::from(buf);
    let mut bytes = Bytes::from(mut_bytes);

    let (encode_len, rest_len) =
        FixedHeader::decode_length(&mut bytes).expect("Error decoding valid length");

    assert_eq!(encode_len, 4);
    assert_eq!(rest_len, MAX_ENCODED_PACKET_LEN);
}

#[test]
fn io_check_max_len_err() {
    let buf: &[u8] = &[255, 255, 255, 128];
    let mut bytes = Bytes::copy_from_slice(buf);

    let out = FixedHeader::decode_length(&mut bytes);
    assert!(out.is_err());
}

#[test]
fn io_check_does_not_peek() {
    let buf: &[u8] = &[127, 128, 128];
    let mut bytes = Bytes::copy_from_slice(buf);

    let (encode_len, rest_len) =
        FixedHeader::decode_length(&mut bytes).expect("Error decoding valid length");

    assert_eq!(encode_len, 1);
    assert_eq!(rest_len, 127);
}

#[test]
fn util_encode_length() {
    let buf: &[u8] = &[0, 0, 0, 0];
    let mut bytes = BytesMut::from(buf);
    let len = MAX_ENCODED_PACKET_LEN;
    let size = encode_packet_length(&mut bytes.clone(), len);

    assert!(size.is_ok());
    assert_eq!(size.unwrap(), 4);

    let len = MAX_ENCODED_PACKET_LEN as usize + 1;
    let size = encode_packet_length(&mut bytes, len);

    assert!(size.is_err())
}

#[test]
fn util_decode_length() {
    let buf: &[u8] = &[255, 255, 255, 127];
    let mut_bytes = BytesMut::from(buf);
    let mut bytes = Bytes::from(mut_bytes);

    let (encode_len, rest_len) =
        FixedHeader::decode_length(&mut bytes).expect("Error decoding valid length");

    assert_eq!(encode_len, 4);
    assert_eq!(rest_len, MAX_ENCODED_PACKET_LEN);
}

#[test]
fn util_check_max_len_err() {
    let buf: &[u8] = &[255, 255, 255, 128];
    let mut bytes = Bytes::copy_from_slice(buf);

    let out = FixedHeader::decode_length(&mut bytes);
    assert!(out.is_err());
}

#[test]
fn util_check_does_not_peek() {
    let buf: &[u8] = &[127, 128, 128];
    let mut bytes = Bytes::copy_from_slice(buf);

    let (encode_len, rest_len) =
        FixedHeader::decode_length(&mut bytes).expect("Error decoding valid length");

    assert_eq!(encode_len, 1);
    assert_eq!(rest_len, 127);
}

#[test]
fn length_field_bytes_and_sizes() {
    let cases: [(usize, &[u8]); 9] = [
        (0, &[0]),
        (127, &[127]),
        (128, &[128, 1]),
        (16_383, &[255, 127]),
        (16_384, &[128, 128, 1]),
        (2_097_151, &[255, 255, 127]),
        (2_097_152, &[128, 128, 128, 1]),
        (321, &[193, 2]),
        (268_435_455, &[255, 255, 255, 127]),
    ];
    for (n, wire) in cases {
        let mut out = BytesMut::new();
        let size = encode_packet_length(&mut out, n).unwrap();
        assert_eq!(size, wire.len());
        assert_eq!(&out[..], wire);
        let mut back = out.freeze();
        assert_eq!(
            FixedHeader::decode_length(&mut back).unwrap(),
            (wire.len(), n)
        );
        assert!(back.is_empty());
    }
}

#[test]
fn length_field_refuses_oversized() {
    let mut out = BytesMut::new();
    out.extend_from_slice(&[9]);
    let err = encode_packet_length(&mut out, 268_435_456).unwrap_err();
    assert_eq!(err.kind(), EncodeErrorKind::OversizedPayload);
    assert_eq!(&out[..], &[9]);
    assert!(!err.message().is_empty());
}

#[test]
fn length_field_that_does_not_end_is_malformed() {
    for wire in [&[][..], &[128][..], &[255, 255][..], &[128, 128, 128, 128, 1][..]] {
        let mut bytes = Bytes::copy_from_slice(wire);
        let err = FixedHeader::decode_length(&mut bytes).unwrap_err();
        assert_eq!(err.kind(), DecodeErrorKind::MalformedLength);
        assert_eq!(&bytes[..], wire);
    }
}

#[test]
fn string_and_binary_fields() {
    let mut out = BytesMut::new();
    encode_utf8(&mut out, "hé").unwrap();
    encode_bytes(&mut out, &[1, 2, 3]).unwrap();
    assert_eq!(&out[..], &[0, 3, b'h', 0xC3, 0xA9, 0, 3, 1, 2, 3]);
    let mut bytes = out.freeze();
    assert_eq!(decode_utf8(&mut bytes).unwrap(), "hé");
    assert_eq!(decode_u16_len(&mut bytes.clone()).unwrap(), 3);
    assert_eq!(&decode_bytes(&mut bytes).unwrap()[..], &[1, 2, 3]);
    assert!(bytes.is_empty());
}

#[test]
fn string_field_errors_leave_the_buffer() {
    let mut short = Bytes::from_static(&[0]);
    assert_eq!(
        decode_utf8(&mut short).unwrap_err().kind(),
        DecodeErrorKind::MalformedLength
    );
    let mut cut = Bytes::from_static(&[0, 5, b'a']);
    assert_eq!(
        decode_bytes(&mut cut).unwrap_err().kind(),
        DecodeErrorKind::MalformedLength
    );
    assert_eq!(cut.len(), 3);
    let mut bad = Bytes::from_static(&[0, 2, 0xC3, 0x28, 7]);
    assert_eq!(
        decode_utf8(&mut bad).unwrap_err().kind(),
        DecodeErrorKind::Utf8ParseError
    );
    assert_eq!(bad.len(), 5);
    let mut out = BytesMut::new();
    let long = vec![0u8; 65_536];
    assert_eq!(
        encode_bytes(&mut out, &long).unwrap_err().kind(),
        EncodeErrorKind::OversizedPayload
    );
    assert!(out.is_empty());
    assert!(encode_bytes(&mut out, &long[..65_535]).is_ok());
    assert_eq!(out.len(), 65_537);
    assert_eq!(&out[..2], &[255, 255]);
}

#[test]
fn fixed_header_errors() {
    let kind = |wire: &[u8]| {
        FixedHeader::decode(&mut Bytes::copy_from_slice(wire))
            .unwrap_err()
            .kind()
    };
    assert_eq!(kind(&[]), DecodeErrorKind::ImproperDisconnect);
    assert_eq!(kind(&[0x00, 0]), DecodeErrorKind::PacketType);
    assert_eq!(kind(&[0xF0, 0]), DecodeErrorKind::PacketType);
    assert_eq!(kind(&[0x41, 2]), DecodeErrorKind::FlagBits);
    assert_eq!(kind(&[0x60, 2]), DecodeErrorKind::FlagBits);
    assert_eq!(kind(&[0x80, 2]), DecodeErrorKind::FlagBits);
    assert_eq!(kind(&[0x40]), DecodeErrorKind::MalformedLength);
    assert_eq!(
        kind(&[0x40, 255, 255, 255, 255]),
        DecodeErrorKind::MalformedLength
    );
    let mut ok = Bytes::from_static(&[0x3B, 0x81, 0x01, 9]);
    let header = FixedHeader::decode(&mut ok).unwrap();
    assert_eq!(header.type_, PacketType::PUBLISH);
    assert_eq!(header.flags.as_byte(), 0x0B);
    assert_eq!(header.header_len(), 3);
    assert_eq!(header.rest_len(), 129);
    assert_eq!(header.first_byte(), 0x3B);
    assert_eq!(&ok[..], &[9]);
}

#[test]
fn packet_types_and_flags() {
    assert_eq!(PacketType::CONNECT.as_u8(), 0x10);
    assert_eq!(PacketType::DISCONNECT.as_u8(), 0xE0);
    assert_eq!(PacketType::try_from(0x9F).unwrap(), PacketType::SUBACK);
    assert_eq!(PacketType::SUBSCRIBE.name(), "SUBSCRIBE");
    assert_eq!(
        HeaderFlags::try_from((PacketType::PUBREL, 0x62))
            .unwrap()
            .as_byte(),
        2
    );
    assert!(HeaderFlags::try_from((PacketType::PUBREL, 0x60)).is_err());
    assert!(HeaderFlags::try_from((PacketType::PUBLISH, 0x3F)).is_ok());
    let mut header = FixedHeader::decode(&mut Bytes::from_static(&[0x30, 0])).unwrap();
    header.set_flags(HeaderFlags::try_from((PacketType::PUBLISH, 0x05)).unwrap());
    assert_eq!(header.flags.as_byte(), 5);
}

#[test]
fn fixed_size_packets_on_the_wire() {
    assert_eq!(&PingReqPacket::new().encode()[..], &[0xC0, 0]);
    assert_eq!(&PingRespPacket::new().encode()[..], &[0xD0, 0]);
    assert_eq!(&DisconnectPacket::new().encode()[..], &[0xE0, 0]);
    assert_eq!(&PubAckPacket::new(0x1234).encode()[..], &[0x40, 2, 0x12, 0x34]);
    assert_eq!(&PubRecPacket::new(1).encode()[..], &[0x50, 2, 0, 1]);
    assert_eq!(&PubRelPacket::new(258).encode()[..], &[0x62, 2, 1, 2]);
    assert_eq!(&PubCompPacket::new(65_535).encode()[..], &[0x70, 2, 255, 255]);
    assert_eq!(&UnsubAckPacket::new(7).encode()[..], &[0xB0, 2, 0, 7]);
    assert_eq!(
        &ConnAckPacket::new(true, ConnectReturnCode::NotAuthorized).encode()[..],
        &[0x20, 2, 1, 5]
    );
    assert_eq!(PubRelPacket::new(258).id(), 258);
}

#[test]
fn fixed_size_packets_refuse_wrong_lengths() {
    let kind = |wire: &'static [u8]| {
        let mut bytes = Bytes::from_static(wire);
        let header = FixedHeader::decode(&mut bytes).unwrap();
        MqttPacket::decode(header, &mut bytes).unwrap_err().kind()
    };
    assert_eq!(kind(&[0xC0, 1, 0]), DecodeErrorKind::MalformedLength);
    assert_eq!(kind(&[0xE0, 2, 0, 0]), DecodeErrorKind::MalformedLength);
    assert_eq!(kind(&[0x40, 3, 0, 1, 2]), DecodeErrorKind::MalformedLength);
    assert_eq!(kind(&[0x40, 2, 0]), DecodeErrorKind::MalformedLength);
    assert_eq!(kind(&[0x20, 2, 2, 0]), DecodeErrorKind::ProtocolError);
    assert_eq!(kind(&[0x20, 2, 0, 6]), DecodeErrorKind::InvalidReturnCode);
    assert_eq!(kind(&[0x20, 1, 0]), DecodeErrorKind::MalformedLength);
}

#[test]
fn return_codes() {
    for (n, code) in [
        (0u8, ConnectReturnCode::Accept),
        (1, ConnectReturnCode::InvalidProtocol),
        (2, ConnectReturnCode::IdentifierRejected),
        (3, ConnectReturnCode::ServerUnavailable),
        (4, ConnectReturnCode::BadUsernameOrPassword),
        (5, ConnectReturnCode::NotAuthorized),
    ] {
        assert_eq!(code.as_u8(), n);
        assert_eq!(ConnectReturnCode::try_from(n).unwrap(), code);
    }
    assert_eq!(
        ConnectReturnCode::try_from(6).unwrap_err().kind(),
        DecodeErrorKind::InvalidReturnCode
    );
    assert_eq!(
        ConnectReturnCode::BadUsernameOrPassword.to_string(),
        "Bad username or password"
    );
    let mut ack = ConnAckPacket::new(false, ConnectReturnCode::Accept);
    ack.set_session_present(true);
    assert!(ack.session_present());
    assert_eq!(ack.return_code(), ConnectReturnCode::Accept);
}

#[test]
fn qos_levels_and_suback_codes() {
    assert_eq!(QosLevel::try_from(2).unwrap(), QosLevel::ExactlyOnce);
    assert_eq!(QosLevel::try_from(3).unwrap_err().kind(), DecodeErrorKind::QoS);
    assert_eq!(QosLevel::AtLeastOnce.as_u8(), 1);
    assert_eq!(
        QosLevel::ExactlyOnce.min(QosLevel::AtLeastOnce),
        QosLevel::AtLeastOnce
    );
    assert_eq!(
        QosLevel::AtMostOnce.min(QosLevel::AtLeastOnce),
        QosLevel::AtMostOnce
    );
    assert_eq!(SubAckQoS::Failure.as_u8(), 0x80);
    assert_eq!(SubAckQoS::try_from(0x80).unwrap(), SubAckQoS::Failure);
    assert_eq!(
        SubAckQoS::try_from(1).unwrap(),
        SubAckQoS::QOS(QosLevel::AtLeastOnce)
    );
    assert_eq!(SubAckQoS::try_from(0x81).unwrap_err().kind(), DecodeErrorKind::QoS);
    assert_eq!(SubAckQoS::from(QosLevel::ExactlyOnce).as_u8(), 2);
    assert!(SubAckQoS::QOS(QosLevel::AtLeastOnce).grants(QosLevel::AtLeastOnce));
    assert!(!SubAckQoS::Failure.grants(QosLevel::AtMostOnce));
}

#[test]
fn publish_on_the_wire() {
    let mut packet = PublishPacket::new(
        &TopicName::from_str("a/b").unwrap(),
        Bytes::from_static(b"hi"),
    );
    assert_eq!(
        &packet.encode().unwrap()[..],
        &[0x30, 7, 0, 3, b'a', b'/', b'b', b'h', b'i']
    );
    packet.set_qos_exactlyonce(0x0102);
    packet.set_retain(true);
    packet.set_dup(true);
    assert_eq!(
        &packet.encode().unwrap()[..],
        &[0x3D, 9, 0, 3, b'a', b'/', b'b', 1, 2, b'h', b'i']
    );
    assert_eq!(packet.qos(), QosLevel::ExactlyOnce);
    assert!(packet.retain() && packet.dup());
    assert_eq!(packet.id(), Some(0x0102));
    assert_eq!(decode_whole(packet.encode().unwrap()), MqttPacket::Publish(packet.clone()));
    packet.set_qos_atmostonce();
    assert_eq!(packet.id(), None);
    assert_eq!(packet.encode().unwrap()[0], 0x39);
    packet.set_dup(false);
    packet.set_retain(false);
    assert_eq!(packet.encode().unwrap()[0], 0x30);
    assert_eq!(packet.topic().clone().to_string(), "a/b");
}

#[test]
fn publish_decode_errors() {
    let kind = |wire: &'static [u8]| {
        let mut bytes = Bytes::from_static(wire);
        let header = FixedHeader::decode(&mut bytes).unwrap();
        MqttPacket::decode(header, &mut bytes).unwrap_err().kind()
    };
    assert_eq!(kind(&[0x36, 3, 0, 1, b'a']), DecodeErrorKind::QoS);
    assert_eq!(kind(&[0x32, 4, 0, 1, b'a', 9]), DecodeErrorKind::MalformedLength);
    assert_eq!(kind(&[0x30, 3, 0, 1, b'+']), DecodeErrorKind::MalformedTopicName);
    assert_eq!(kind(&[0x30, 2, 0, 0]), DecodeErrorKind::MalformedTopicName);
    assert_eq!(kind(&[0x30, 3, 0, 1, 0xFF]), DecodeErrorKind::Utf8ParseError);
    assert_eq!(kind(&[0x30, 1, 0]), DecodeErrorKind::MalformedLength);
}

#[test]
fn publish_flags() {
    let mut flags = PublishFixedHeaderFlags::from_byte(0xFB);
    assert_eq!(flags.as_byte(), 0x0B);
    assert!(flags.dup() && flags.retain());
    assert_eq!(flags.qos(), QosLevel::AtLeastOnce);
    flags.set_qos(QosLevel::ExactlyOnce);
    assert_eq!(flags.as_byte(), 0x0D);
    flags.set_dup(false);
    assert_eq!(flags.as_byte(), 0x05);
    flags.set_retain(false);
    assert_eq!(flags.as_byte(), 0x04);
    flags.set_qos(QosLevel::AtMostOnce);
    assert_eq!(flags, PublishFixedHeaderFlags::zero());
    assert_eq!(PublishFixedHeaderFlags::from_byte(6).qos(), QosLevel::AtMostOnce);
}

#[test]
fn connect_on_the_wire() {
    let will = Will::new(
        TopicName::from_str("bye").unwrap(),
        String::from("gone"),
        QosLevel::AtLeastOnce,
        true,
    );
    let packet = ConnectPacket::new(
        true,
        60,
        String::from("c"),
        Some(will.clone()),
        Some(String::from("u")),
        Some(Bytes::from_static(b"pw")),
    );
    let wire = packet.encode().unwrap();
    assert_eq!(
        &wire[..],
        &[
            0x10, 31, 0, 4, b'M', b'Q', b'T', b'T', 4, 0xEE, 0, 60, 0, 1, b'c', 0, 3, b'b',
            b'y', b'e', 0, 4, b'g', b'o', b'n', b'e', 0, 1, b'u', 0, 2, b'p', b'w'
        ]
    );
    let back = decode_whole(wire);
    assert_eq!(back, MqttPacket::Connect(packet.clone()));
    assert!(packet.clean_session());
    assert!(packet.will_retain());
    assert_eq!(packet.client_id(), "c");
    assert_eq!(packet.keep_alive(), 60);
    assert_eq!(packet.username(), &Some(String::from("u")));
    assert_eq!(packet.password(), &Some(Bytes::from_static(b"pw")));
    assert_eq!(packet.will(), &Some(will.clone()));
    assert_eq!(will.will_message(), "gone");
    assert_eq!(will.will_qos(), QosLevel::AtLeastOnce);
    assert!(will.will_retain());
    assert_eq!(will.will_topic().clone().to_string(), "bye");
    let plain = ConnectPacket::new(false, 0, String::from("x"), None, None, None);
    assert!(!plain.clean_session());
    assert_eq!(plain.encode().unwrap()[9], 0);
}

#[test]
fn connect_decode_errors() {
    let kind = |body: &[u8]| {
        let mut wire = vec![0x10, body.len() as u8];
        wire.extend_from_slice(body);
        let mut bytes = Bytes::from(wire);
        let header = FixedHeader::decode(&mut bytes).unwrap();
        MqttPacket::decode(header, &mut bytes).unwrap_err().kind()
    };
    let head = |level: u8, flags: u8| {
        vec![0, 4, b'M', b'Q', b'T', b'T', level, flags, 0, 0, 0, 1, b'c']
    };
    assert_eq!(kind(&[0, 4, b'M', b'Q', b'T', b'X', 4, 0, 0, 0, 0, 0]), DecodeErrorKind::InvalidProtocol);
    assert_eq!(kind(&head(3, 0)), DecodeErrorKind::InvalidProtocol);
    assert_eq!(kind(&head(4, 0x18)), DecodeErrorKind::WillQoS);
    assert_eq!(kind(&head(4, 0x01)), DecodeErrorKind::ProtocolError);
    assert_eq!(kind(&head(4, 0x08)), DecodeErrorKind::Will);
    assert_eq!(kind(&head(4, 0x20)), DecodeErrorKind::Will);
    assert_eq!(kind(&head(4, 0x40)), DecodeErrorKind::UsernamePassword);
    assert_eq!(kind(&head(4, 0x80)), DecodeErrorKind::MalformedLength);
    assert_eq!(kind(&[0, 4, b'M', b'Q', b'T', b'T', 4]), DecodeErrorKind::MalformedLength);
    assert_eq!(kind(&[0, 4, b'M', b'Q', b'T', b'T', 4, 0, 0]), DecodeErrorKind::MalformedLength);
    let mut with_will = head(4, 0x04);
    with_will.extend_from_slice(&[0, 1, b'#', 0, 0]);
    assert_eq!(kind(&with_will), DecodeErrorKind::MalformedTopicName);
}

#[test]
fn connect_flags() {
    let mut flags = ConnectFlags::default();
    assert_eq!(flags.as_byte(), 0);
    flags.set_user_name(true);
    flags.set_password(true);
    flags.set_will_retain(true);
    flags.set_will_qos(QosLevel::ExactlyOnce);
    flags.set_will(true);
    flags.set_clean_session(true);
    assert_eq!(flags.as_byte(), 0xF6);
    assert!(flags.user_name() && flags.password() && flags.will_retain());
    assert!(flags.will() && flags.clean_session());
    assert_eq!(flags.will_qos(), QosLevel::ExactlyOnce);
    flags.set_will_qos(QosLevel::AtLeastOnce);
    assert_eq!(flags.as_byte(), 0xEE);
    flags.set_user_name(false);
    flags.set_password(false);
    flags.set_will_retain(false);
    flags.set_will(false);
    flags.set_clean_session(false);
    assert_eq!(flags.as_byte(), 0x08);
    assert_eq!(ConnectFlags::from_byte(0xC2).unwrap().as_byte(), 0xC2);
    assert_eq!(Protocol::MQTT.as_str(), "MQTT");
    assert_eq!(Protocol::MQTT.len(), 4);
    assert!(Protocol::from_bytes(&mut Bytes::from_static(&[0, 4, b'M', b'Q', b'T', b'T'])).is_ok());
}

#[test]
fn subscribe_and_friends_on_the_wire() {
    let packet = SubscribePacket::new(
        10,
        vec![
            TopicSubscription::new(TopicFilter::from_str("a/+").unwrap(), QosLevel::AtMostOnce),
            TopicSubscription::new(TopicFilter::from_str("#").unwrap(), QosLevel::ExactlyOnce),
        ],
    );
    let wire = packet.encode().unwrap();
    assert_eq!(
        &wire[..],
        &[0x82, 12, 0, 10, 0, 3, b'a', b'/', b'+', 0, 0, 1, b'#', 2]
    );
    assert_eq!(decode_whole(wire), MqttPacket::Subscribe(packet.clone()));
    assert_eq!(packet.id(), 10);
    assert_eq!(packet.topic_filters().len(), 2);

    let unsub = UnsubscribePacket::new(
        11,
        vec![
            TopicFilter::from_str("a/+").unwrap(),
            TopicFilter::from_str("b").unwrap(),
        ],
    );
    let wire = unsub.encode().unwrap();
    assert_eq!(
        &wire[..],
        &[0xA2, 10, 0, 11, 0, 3, b'a', b'/', b'+', 0, 1, b'b']
    );
    assert_eq!(decode_whole(wire), MqttPacket::Unsubscribe(unsub.clone()));
    assert_eq!(unsub.id(), 11);
    assert_eq!(unsub.filters().len(), 2);

    let suback = SubAckPacket::new(
        12,
        vec![
            SubAckQoS::QOS(QosLevel::AtMostOnce),
            SubAckQoS::Failure,
            SubAckQoS::QOS(QosLevel::ExactlyOnce),
        ],
    );
    let wire = suback.encode().unwrap();
    assert_eq!(&wire[..], &[0x90, 5, 0, 12, 0, 0x80, 2]);
    assert_eq!(decode_whole(wire), MqttPacket::SubAck(suback.clone()));
    assert_eq!(suback.id(), 12);
    assert_eq!(suback.filters().len(), 3);
}

#[test]
fn subscribe_keeps_its_place_at_a_filter_that_does_not_parse() {
    let mut bytes = Bytes::from_static(&[
        0x82, 12, 0, 1, 0, 3, b'#', b'/', b'a', 1, 0, 1, b'b', 2,
    ]);
    let header = FixedHeader::decode(&mut bytes).unwrap();
    let packet = MqttPacket::decode(header, &mut bytes).unwrap();
    match packet {
        MqttPacket::Subscribe(p) => {
            let entries = p.topic_filters();
            assert_eq!(entries.len(), 2);
            assert_eq!(entries[0], TopicFilterResult::Invalid);
            assert_eq!(
                entries[1],
                TopicFilterResult::Valid(TopicSubscription::new(
                    TopicFilter::from_str("b").unwrap(),
                    QosLevel::ExactlyOnce
                ))
            );
        }
        other => panic!("not a SUBSCRIBE: {:?}", other),
    }
}

#[test]
fn list_packets_decode_errors() {
    let kind = |wire: &'static [u8]| {
        let mut bytes = Bytes::from_static(wire);
        let header = FixedHeader::decode(&mut bytes).unwrap();
        MqttPacket::decode(header, &mut bytes).unwrap_err().kind()
    };
    assert_eq!(kind(&[0x82, 2, 0, 1]), DecodeErrorKind::MalformedLength);
    assert_eq!(kind(&[0x82, 1, 0]), DecodeErrorKind::MalformedLength);
    assert_eq!(kind(&[0x82, 5, 0, 1, 0, 1, b'a']), DecodeErrorKind::MalformedLength);
    assert_eq!(kind(&[0x82, 6, 0, 1, 0, 1, b'a', 3]), DecodeErrorKind::QoS);
    assert_eq!(kind(&[0xA2, 2, 0, 1]), DecodeErrorKind::MalformedLength);
    assert_eq!(
        kind(&[0xA2, 7, 0, 1, 0, 3, b'#', b'/', b'a']),
        DecodeErrorKind::MalformedTopicFilter
    );
    assert_eq!(kind(&[0x90, 1, 0]), DecodeErrorKind::MalformedLength);
    assert_eq!(kind(&[0x90, 3, 0, 1, 3]), DecodeErrorKind::QoS);
}

#[test]
fn framing_of_a_stream() {
    let ping = PingReqPacket::new().encode();
    let ack = PubAckPacket::new(9).encode();
    let mut stream = BytesMut::new();
    stream.extend_from_slice(&ping);
    stream.extend_from_slice(&ack);
    let stream = stream.freeze();
    let (packet, used) = decode_any(stream.clone()).unwrap();
    assert_eq!(packet, Some(MqttPacket::PingReq(PingReqPacket::new())));
    assert_eq!(used, 2);
    let (packet, used) = decode_any(stream.slice(2..)).unwrap();
    assert_eq!(packet, Some(MqttPacket::PubAck(PubAckPacket::new(9))));
    assert_eq!(used, 4);
    assert_eq!(decode_any(stream.slice(2..5)).unwrap(), (None, 0));
    assert_eq!(decode_any(stream.slice(2..3)).unwrap(), (None, 0));
    assert_eq!(decode_any(Bytes::from_static(&[0x30, 0x80])).unwrap(), (None, 0));
    assert_eq!(
        decode_any(Bytes::new()).unwrap_err().kind(),
        DecodeErrorKind::ImproperDisconnect
    );
    assert_eq!(
        decode_any(Bytes::from_static(&[0x30, 0x80, 0x80, 0x80, 0x80]))
            .unwrap_err()
            .kind(),
        DecodeErrorKind::MalformedLength
    );
    assert_eq!(
        decode_any(Bytes::from_static(&[0x00, 0])).unwrap_err().kind(),
        DecodeErrorKind::PacketType
    );
}

#[test]
fn every_packet_kind_round_trips() {
    let will = Will::new(
        TopicName::from_str("w/t").unwrap(),
        String::from("m"),
        QosLevel::ExactlyOnce,
        false,
    );
    let mut publish = PublishPacket::new(
        &TopicName::from_str("τ/x").unwrap(),
        Bytes::from(vec![0u8; 300]),
    );
    publish.set_qos_atleastonce(77);
    let packets = vec![
        MqttPacket::ConnAck(ConnAckPacket::new(false, ConnectReturnCode::ServerUnavailable)),
        MqttPacket::Connect(ConnectPacket::new(
            false,
            0,
            String::new(),
            Some(will),
            Some(String::from("user")),
            None,
        )),
        MqttPacket::Disconnect(DisconnectPacket::new()),
        MqttPacket::PingReq(PingReqPacket::new()),
        MqttPacket::PingResp(PingRespPacket::new()),
        MqttPacket::PubAck(PubAckPacket::new(1)),
        MqttPacket::PubComp(PubCompPacket::new(2)),
        MqttPacket::Publish(publish),
        MqttPacket::PubRec(PubRecPacket::new(3)),
        MqttPacket::PubRel(PubRelPacket::new(4)),
        MqttPacket::SubAck(SubAckPacket::new(5, vec![SubAckQoS::Failure])),
        MqttPacket::Subscribe(SubscribePacket::new(
            6,
            vec![TopicSubscription::new(
                TopicFilter::from_str("+/#").unwrap(),
                QosLevel::AtMostOnce,
            )],
        )),
        MqttPacket::UnsubAck(UnsubAckPacket::new(7)),
        MqttPacket::Unsubscribe(UnsubscribePacket::new(
            8,
            vec![TopicFilter::from_str("x").unwrap()],
        )),
    ];
    for packet in packets {
        let wire = packet.encode().unwrap();
        let (back, used) = decode_any(wire.clone()).unwrap();
        assert_eq!(used, wire.len());
        assert_eq!(back, Some(packet.clone()));
    }
}

#[test]
fn oversized_packets_are_refused() {
    let topic = TopicName::from_str("t").unwrap();
    let packet = PublishPacket::new(&topic, Bytes::from(vec![0u8; 268_435_453]));
    assert_eq!(
        packet.encode().unwrap_err().kind(),
        EncodeErrorKind::OversizedPayload
    );
    let long = "x".repeat(65_536);
    let packet = PublishPacket::new(&TopicName::from_str(&long).unwrap(), Bytes::new());
    assert_eq!(
        packet.encode().unwrap_err().kind(),
        EncodeErrorKind::OversizedPayload
    );
    let connect = ConnectPacket::new(true, 0, long.clone(), None, None, None);
    assert_eq!(
        connect.encode().unwrap_err().kind(),
        EncodeErrorKind::OversizedPayload
    );
    let unsub = UnsubscribePacket::new(1, vec![TopicFilter::from_str(&long).unwrap()]);
    assert_eq!(
        MqttPacket::Unsubscribe(unsub).encode().unwrap_err().kind(),
        EncodeErrorKind::OversizedPayload
    );
}
