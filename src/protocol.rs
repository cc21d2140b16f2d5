//! Packet shapes of MQTT that the broker works with.
use vstd::prelude::*;

pub mod fixed_header;
pub mod suback;

use bytes::{Bytes, BytesMut};

use crate::buffer::{bytes_content, bytes_len};

verus! {

#[verifier::external_type_specification]
#[verifier::external_body]
pub struct ExUtf8Error(std::str::Utf8Error);

/// The packets that travel between broker and clients.
#[derive(Clone, Debug, PartialEq, Eq)]
pub enum Packet {
    Connect(
        Connect,
        Option<ConnectProperties>,
        Option<LastWill>,
        Option<LastWillProperties>,
        Option<Login>,
    ),
    ConnAck(ConnAck, Option<ConnAckProperties>),
    Publish(Publish, Option<PublishProperties>),
    PubAck(PubAck, Option<PubAckProperties>),
    PubRec(PubRec, Option<PubRecProperties>),
    PubRel(PubRel, Option<PubRelProperties>),
    PubComp(PubComp, Option<PubCompProperties>),
}

/// Connection packet initialized by the client.
#[derive(Debug, Clone, PartialEq, Eq)]
pub struct Connect {
    /// Keep alive interval.
    pub keep_alive: u16,
    pub client_id: String,
    /// Ask the broker to clear the previous session.
    pub clean_session: bool,
}

/// Connect properties of MQTT 5.
#[derive(Debug, Clone, PartialEq, Eq)]
pub struct ConnectProperties {
    pub session_expiry_interval: Option<u32>,
    pub receive_maximum: Option<u16>,
    pub max_packet_size: Option<u32>,
    pub topic_alias_max: Option<u16>,
    pub request_response_info: Option<u8>,
    pub request_problem_info: Option<u8>,
    pub user_properties: Vec<(String, String)>,
    pub authentication_method: Option<String>,
    pub authentication_data: Option<Bytes>,
}

/// The message that the broker publishes on behalf of a client that went away.
#[derive(Debug, Clone, PartialEq, Eq)]
pub struct LastWill {
    pub topic: Bytes,
    pub message: Bytes,
    pub qos: QoS,
    pub retain: bool,
}

/// Last will properties of MQTT 5.
#[derive(Debug, Clone, PartialEq, Eq)]
pub struct LastWillProperties {
    pub delay_interval: Option<u32>,
    pub payload_format_indicator: Option<u8>,
    pub message_expiry_interval: Option<u32>,
    pub content_type: Option<String>,
    pub response_topic: Option<String>,
    pub correlation_data: Option<Bytes>,
    pub user_properties: Vec<(String, String)>,
}

/// Quality of service.
#[derive(Debug, Clone, Copy, PartialEq, Eq, Structural)]
pub enum QoS {
    AtMostOnce,
    AtLeastOnce,
    ExactlyOnce,
}

/// The number that stands for a QoS level on the wire.
pub open spec fn qos_level(q: QoS) -> u8 {
    match q {
        QoS::AtMostOnce => 0,
        QoS::AtLeastOnce => 1,
        QoS::ExactlyOnce => 2,
    }
}

/// The wire number of a QoS level.
pub fn qos_number(q: QoS) -> (r: u8)
    ensures
        r == qos_level(q),
{
    match q {
        QoS::AtMostOnce => 0,
        QoS::AtLeastOnce => 1,
        QoS::ExactlyOnce => 2,
    }
}

/// Maps a number to its QoS level.
pub fn qos(num: u8) -> (r: Option<QoS>)
    ensures
        num <= 2 ==> (r matches Some(q) && qos_level(q) == num),
        num > 2 ==> r is None,
{
    match num {
        0 => Some(QoS::AtMostOnce),
        1 => Some(QoS::AtLeastOnce),
        2 => Some(QoS::ExactlyOnce),
        _ => None,
    }
}

/// The lower of two QoS levels.
pub fn min_qos(a: QoS, b: QoS) -> (r: QoS)
    ensures
        qos_level(r) == if qos_level(a) <= qos_level(b) { qos_level(a) } else { qos_level(b) },
{
    if qos_number(a) <= qos_number(b) {
        a
    } else {
        b
    }
}

#[derive(Debug, Clone, PartialEq, Eq)]
pub struct Login {
    pub username: String,
    pub password: String,
}

/// Return code in CONNACK, for MQTT 3.1.1 and 5.
#[derive(Debug, Clone, Copy, PartialEq, Eq, Structural)]
pub enum ConnectReturnCode {
    Success,
    RefusedProtocolVersion,
    BadClientId,
    ServiceUnavailable,
    UnspecifiedError,
    MalformedPacket,
    ProtocolError,
    ImplementationSpecificError,
    UnsupportedProtocolVersion,
    ClientIdentifierNotValid,
    BadUserNamePassword,
    NotAuthorized,
    ServerUnavailable,
    ServerBusy,
    Banned,
    BadAuthenticationMethod,
    TopicNameInvalid,
    PacketTooLarge,
    QuotaExceeded,
    PayloadFormatInvalid,
    RetainNotSupported,
    QoSNotSupported,
    UseAnotherServer,
    ServerMoved,
    ConnectionRateExceeded,
}

/// Acknowledgement to a CONNECT.
#[derive(Debug, Clone, PartialEq, Eq, Structural)]
pub struct ConnAck {
    pub session_present: bool,
    pub code: ConnectReturnCode,
}

#[derive(Debug, Clone, PartialEq, Eq)]
pub struct ConnAckProperties {
    pub session_expiry_interval: Option<u32>,
    pub receive_max: Option<u16>,
    pub max_qos: Option<u8>,
    pub retain_available: Option<u8>,
    pub max_packet_size: Option<u32>,
    pub assigned_client_identifier: Option<String>,
    pub topic_alias_max: Option<u16>,
    pub reason_string: Option<String>,
    pub user_properties: Vec<(String, String)>,
    pub wildcard_subscription_available: Option<u8>,
    pub subscription_identifiers_available: Option<u8>,
    pub shared_subscription_available: Option<u8>,
    pub server_keep_alive: Option<u16>,
    pub response_information: Option<String>,
    pub server_reference: Option<String>,
    pub authentication_method: Option<String>,
    pub authentication_data: Option<Bytes>,
}

/// PUBLISH packet.
#[derive(Clone, Debug, PartialEq, Eq)]
pub struct Publish {
    pub dup: bool,
    pub qos: QoS,
    pub pkid: u16,
    pub retain: bool,
    pub topic: Bytes,
    pub payload: Bytes,
}

impl Publish {
    /// A QoS 0 PUBLISH, not a duplicate, with packet id 0.
    pub fn new<T: Into<Bytes>>(topic: T, payload: T, retain: bool) -> (r: Publish)
        ensures
            !r.dup,
            r.qos == QoS::AtMostOnce,
            r.pkid == 0,
            r.retain == retain,
    {
        Publish { dup: false, qos: QoS::AtMostOnce, pkid: 0, retain, topic: topic.into(), payload: payload.into() }
    }

    pub fn is_empty(&self) -> (r: bool)
        ensures
            !r,
    {
        false
    }

    /// Length of the variable header and payload: the topic with its two length
    /// bytes, the payload, and two bytes of packet id above QoS 0.
    pub fn len(&self) -> (r: usize)
        requires
            bytes_content(self.topic).len() + bytes_content(self.payload).len() + 4 <= usize::MAX,
        ensures
            r == 2 + bytes_content(self.topic).len() + bytes_content(self.payload).len() + if self.qos
                == QoS::AtMostOnce {
                0int
            } else {
                2int
            },
    {
        let len = 2 + bytes_len(&self.topic) + bytes_len(&self.payload);
        if self.qos == QoS::AtMostOnce {
            len
        } else {
            len + 2
        }
    }
}

/// Publish properties of MQTT 5.
#[derive(Debug, Clone, PartialEq, Eq)]
pub struct PublishProperties {
    pub payload_format_indicator: Option<u8>,
    pub message_expiry_interval: Option<u32>,
    pub topic_alias: Option<u16>,
    pub response_topic: Option<String>,
    pub correlation_data: Option<Bytes>,
    pub user_properties: Vec<(String, String)>,
    pub subscription_identifiers: Vec<usize>,
    pub content_type: Option<String>,
}

/// Acknowledgement to a QoS 1 PUBLISH.
#[derive(Debug, Clone, PartialEq, Eq, Structural)]
pub struct PubAck {
    pub pkid: u16,
    pub reason: PubAckReason,
}

/// Return code in PUBACK.
#[derive(Debug, Clone, Copy, PartialEq, Eq, Structural)]
pub enum PubAckReason {
    Success,
    NoMatchingSubscribers,
    UnspecifiedError,
    ImplementationSpecificError,
    NotAuthorized,
    TopicNameInvalid,
    PacketIdentifierInUse,
    QuotaExceeded,
    PayloadFormatInvalid,
}

/// First acknowledgement to a QoS 2 PUBLISH.
#[derive(Debug, Clone, PartialEq, Eq, Structural)]
pub struct PubRec {
    pub pkid: u16,
    pub reason: PubRecReason,
}

/// Return code in PUBREC.
#[derive(Debug, Clone, Copy, PartialEq, Eq, Structural)]
pub enum PubRecReason {
    Success,
    NoMatchingSubscribers,
    UnspecifiedError,
    ImplementationSpecificError,
    NotAuthorized,
    TopicNameInvalid,
    PacketIdentifierInUse,
    QuotaExceeded,
    PayloadFormatInvalid,
}

#[derive(Debug, Clone, PartialEq, Eq)]
pub struct PubRecProperties {
    pub reason_string: Option<String>,
    pub user_properties: Vec<(String, String)>,
}

#[derive(Debug, Clone, PartialEq, Eq)]
pub struct PubAckProperties {
    pub reason_string: Option<String>,
    pub user_properties: Vec<(String, String)>,
}

/// Release of a QoS 2 PUBLISH, in answer to PUBREC.
#[derive(Debug, Clone, PartialEq, Eq, Structural)]
pub struct PubRel {
    pub pkid: u16,
    pub reason: PubRelReason,
}

/// Return code in PUBREL.
#[derive(Debug, Clone, Copy, PartialEq, Eq, Structural)]
pub enum PubRelReason {
    Success,
    PacketIdentifierNotFound,
}

#[derive(Debug, Clone, PartialEq, Eq)]
pub struct PubRelProperties {
    pub reason_string: Option<String>,
    pub user_properties: Vec<(String, String)>,
}

/// Completion of a QoS 2 PUBLISH, in answer to PUBREL.
#[derive(Debug, Clone, PartialEq, Eq, Structural)]
pub struct PubComp {
    pub pkid: u16,
    pub reason: PubCompReason,
}

/// Return code in PUBCOMP.
#[derive(Debug, Clone, Copy, PartialEq, Eq, Structural)]
pub enum PubCompReason {
    Success,
    PacketIdentifierNotFound,
}

#[derive(Debug, Clone, PartialEq, Eq)]
pub struct PubCompProperties {
    pub reason_string: Option<String>,
    pub user_properties: Vec<(String, String)>,
}

/// Errors of encoding and decoding.
#[derive(Debug, Clone, Copy, PartialEq, Eq)]
pub enum Error {
    InvalidConnectReturnCode(u8),
    InvalidReason(u8),
    InvalidRemainingLength(usize),
    InvalidProtocol,
    InvalidProtocolLevel(u8),
    IncorrectPacketFormat,
    InvalidPacketType(u8),
    InvalidRetainForwardRule(u8),
    InvalidQoS(u8),
    InvalidSubscribeReasonCode(u8),
    PayloadTooLong,
    PayloadNotUtf8(std::str::Utf8Error),
    BoundaryCrossed(usize),
    MalformedPacket,
    MalformedRemainingLength,
    InsufficientBytes(usize),
    PacketIdZero,
    PayloadSizeLimitExceeded(usize),
}

/// A wire codec of MQTT packets, implemented per protocol version.
pub trait Protocol {
    fn read_mut(&mut self, stream: &mut BytesMut, max_size: usize) -> Result<Packet, Error>;

    fn write(&self, packet: Packet, write: &mut BytesMut) -> Result<usize, Error>;
}

} // verus!
