//! The control packets of MQTT 3.1.1 and their wire format.
pub mod connack;
pub mod connect;
pub mod disconnect;
pub mod header;
pub mod packet;
pub mod pingreq;
pub mod pingresp;
pub mod puback;
pub mod pubcomp;
pub mod publish;
pub mod pubrec;
pub mod pubrel;
pub mod suback;
pub mod subscribe;
pub mod unsuback;
pub mod unsubscribe;

pub use connack::{ConnAckPacket, ConnAckView};
pub use connect::{ConnectFlags, ConnectPacket, ConnectView, Protocol, Will, WillView};
pub use disconnect::DisconnectPacket;
pub use header::{FixedHeader, FixedHeaderView, HeaderFlags, PacketType};
pub use packet::{decode_any, Frame, MqttPacket, MqttPacketView};
pub use pingreq::PingReqPacket;
pub use pingresp::PingRespPacket;
pub use puback::PubAckPacket;
pub use pubcomp::PubCompPacket;
pub use publish::{PublishFixedHeaderFlags, PublishPacket, PublishView};
pub use pubrec::PubRecPacket;
pub use pubrel::PubRelPacket;
pub use suback::{SubAckPacket, SubAckView};
pub use subscribe::{SubscribePacket, SubscribeView};
pub use unsuback::UnsubAckPacket;
pub use unsubscribe::{UnsubscribePacket, UnsubscribeView};
