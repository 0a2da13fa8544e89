//! The vocabulary of the protocol: its constants, its message types, and the rules that
//! do not belong to one message.
use crate::text::{contains_text, lists};
use vstd::prelude::*;

pub use crate::collector::FragmentCollector;
pub use crate::delivery::{create_delivery_ack, DeliveryAck, DeliveryTracker};
pub use crate::fragmentation::{create_fragment_packet, should_fragment};
pub use crate::message::{
    create_bitchat_message_payload, create_bitchat_message_payload_full, create_bitchat_message_payload_with_flags,
    create_encrypted_channel_message_payload, parse_bitchat_message_payload, BitchatMessage,
};
pub use crate::packet::{
    create_bitchat_packet, create_bitchat_packet_with_recipient, create_bitchat_packet_with_recipient_and_signature,
    create_bitchat_packet_with_signature, parse_bitchat_packet, BitchatPacket,
};

verus! {

pub const VERSION: &'static str = "v1.0.0";

/// The Bluetooth service that bitchat devices offer.
pub const BITCHAT_SERVICE_UUID: u128 = 0xF47B5E2D_4A9E_4C5A_9B3F_8E1D2C3A4B5C;

/// The characteristic of that service through which packets pass.
pub const BITCHAT_CHARACTERISTIC_UUID: u128 = 0xA1B2C3D4_E5F6_4A5B_8C9D_0E1F2A3B4C5D;

/// What the text of a dummy message starts with.
pub const COVER_TRAFFIC_PREFIX: &'static str = "☂DUMMY☂";

pub const FLAG_HAS_RECIPIENT: u8 = 0x01;

pub const FLAG_HAS_SIGNATURE: u8 = 0x02;

pub const FLAG_IS_COMPRESSED: u8 = 0x04;

pub const MSG_FLAG_IS_RELAY: u8 = 0x01;

pub const MSG_FLAG_IS_PRIVATE: u8 = 0x02;

pub const MSG_FLAG_HAS_ORIGINAL_SENDER: u8 = 0x04;

pub const MSG_FLAG_HAS_RECIPIENT_NICKNAME: u8 = 0x08;

pub const MSG_FLAG_HAS_SENDER_PEER_ID: u8 = 0x10;

pub const MSG_FLAG_HAS_MENTIONS: u8 = 0x20;

pub const MSG_FLAG_HAS_CHANNEL: u8 = 0x40;

pub const MSG_FLAG_IS_ENCRYPTED: u8 = 0x80;

/// The size of an Ed25519 signature.
pub const SIGNATURE_SIZE: usize = 64;

/// The recipient of a packet that is meant for everyone.
pub const BROADCAST_RECIPIENT: [u8; 8] = [0xFF, 0xFF, 0xFF, 0xFF, 0xFF, 0xFF, 0xFF, 0xFF];

/// How much of its inner life the client reports.
#[derive(Debug, Clone, Copy, PartialEq, Eq, Structural)]
pub enum DebugLevel {
    /// As little as possible.
    Clean,
    /// Connections and key exchanges.
    Basic,
    /// Everything.
    Full,
}

impl DebugLevel {
    pub open spec fn rank(self) -> int {
        match self {
            DebugLevel::Clean => 0,
            DebugLevel::Basic => 1,
            DebugLevel::Full => 2,
        }
    }

    /// Whether a client at this level reports what is meant for `level` and above.
    pub fn shows(self, level: DebugLevel) -> (r: bool)
        ensures
            r == (self.rank() >= level.rank()),
    {
        match (self, level) {
            (_, DebugLevel::Clean) => true,
            (DebugLevel::Clean, _) => false,
            (DebugLevel::Full, _) => true,
            (DebugLevel::Basic, DebugLevel::Basic) => true,
            (DebugLevel::Basic, DebugLevel::Full) => false,
        }
    }
}

/// Whether one of `args` is `short` or `long`.
pub open spec fn has_flag(args: Seq<String>, short: Seq<char>, long: Seq<char>) -> bool {
    lists(args, short) || lists(args, long)
}

/// How much the client reports when it is started with `args`.
pub open spec fn level_of(args: Seq<String>) -> DebugLevel {
    if has_flag(args, "-dd"@, "--debug-full"@) {
        DebugLevel::Full
    } else if has_flag(args, "-d"@, "--debug"@) {
        DebugLevel::Basic
    } else {
        DebugLevel::Clean
    }
}

/// How much the client reports when it is started with `args`.
pub fn debug_level(args: &Vec<String>) -> (level: DebugLevel)
    ensures
        level == level_of(args@),
{
    if contains_text(args, "-dd") || contains_text(args, "--debug-full") {
        DebugLevel::Full
    } else if contains_text(args, "-d") || contains_text(args, "--debug") {
        DebugLevel::Basic
    } else {
        DebugLevel::Clean
    }
}

/// What a packet is for.
#[derive(Debug, Clone, Copy, PartialEq, Eq, Structural)]
pub enum MessageType {
    Announce,
    KeyExchange,
    Leave,
    Message,
    FragmentStart,
    FragmentContinue,
    FragmentEnd,
    ChannelAnnounce,
    ChannelRetention,
    DeliveryAck,
    DeliveryStatusRequest,
    ReadReceipt,
}

impl MessageType {
    /// The byte that stands for a message type in a packet.
    pub open spec fn spec_code(self) -> u8 {
        match self {
            MessageType::Announce => 0x01,
            MessageType::KeyExchange => 0x02,
            MessageType::Leave => 0x03,
            MessageType::Message => 0x04,
            MessageType::FragmentStart => 0x05,
            MessageType::FragmentContinue => 0x06,
            MessageType::FragmentEnd => 0x07,
            MessageType::ChannelAnnounce => 0x08,
            MessageType::ChannelRetention => 0x09,
            MessageType::DeliveryAck => 0x0A,
            MessageType::DeliveryStatusRequest => 0x0B,
            MessageType::ReadReceipt => 0x0C,
        }
    }

    /// The byte that stands for this message type in a packet.
    pub fn code(self) -> (byte: u8)
        ensures
            byte == self.spec_code(),
    {
        match self {
            MessageType::Announce => 0x01,
            MessageType::KeyExchange => 0x02,
            MessageType::Leave => 0x03,
            MessageType::Message => 0x04,
            MessageType::FragmentStart => 0x05,
            MessageType::FragmentContinue => 0x06,
            MessageType::FragmentEnd => 0x07,
            MessageType::ChannelAnnounce => 0x08,
            MessageType::ChannelRetention => 0x09,
            MessageType::DeliveryAck => 0x0A,
            MessageType::DeliveryStatusRequest => 0x0B,
            MessageType::ReadReceipt => 0x0C,
        }
    }

    /// The message type that `byte` stands for in a packet, if it stands for one.
    pub open spec fn spec_from_code(byte: u8) -> Option<MessageType> {
        match byte {
            0x01 => Some(MessageType::Announce),
            0x02 => Some(MessageType::KeyExchange),
            0x03 => Some(MessageType::Leave),
            0x04 => Some(MessageType::Message),
            0x05 => Some(MessageType::FragmentStart),
            0x06 => Some(MessageType::FragmentContinue),
            0x07 => Some(MessageType::FragmentEnd),
            0x08 => Some(MessageType::ChannelAnnounce),
            0x09 => Some(MessageType::ChannelRetention),
            0x0A => Some(MessageType::DeliveryAck),
            0x0B => Some(MessageType::DeliveryStatusRequest),
            0x0C => Some(MessageType::ReadReceipt),
            _ => None,
        }
    }

    /// The message type that `byte` stands for in a packet, if it stands for one.
    pub fn from_code(byte: u8) -> (r: Option<MessageType>)
        ensures
            r == MessageType::spec_from_code(byte),
    {
        match byte {
            0x01 => Some(MessageType::Announce),
            0x02 => Some(MessageType::KeyExchange),
            0x03 => Some(MessageType::Leave),
            0x04 => Some(MessageType::Message),
            0x05 => Some(MessageType::FragmentStart),
            0x06 => Some(MessageType::FragmentContinue),
            0x07 => Some(MessageType::FragmentEnd),
            0x08 => Some(MessageType::ChannelAnnounce),
            0x09 => Some(MessageType::ChannelRetention),
            0x0A => Some(MessageType::DeliveryAck),
            0x0B => Some(MessageType::DeliveryStatusRequest),
            0x0C => Some(MessageType::ReadReceipt),
            _ => None,
        }
    }

    /// Whether packets of this type carry a piece of a larger packet.
    pub open spec fn spec_is_fragment(self) -> bool {
        self is FragmentStart || self is FragmentContinue || self is FragmentEnd
    }

    /// Whether packets of this type carry a piece of a larger packet.
    pub fn is_fragment(self) -> (r: bool)
        ensures
            r == self.spec_is_fragment(),
    {
        matches!(self, MessageType::FragmentStart | MessageType::FragmentContinue | MessageType::FragmentEnd)
    }
}

/// Someone within reach.
#[derive(Debug, Clone)]
pub struct Peer {
    /// What this peer calls itself, once it has said so.
    pub nickname: Option<String>,
}

impl Default for Peer {
    fn default() -> (peer: Self)
        ensures
            peer.nickname is None,
    {
        Peer { nickname: None }
    }
}

/// Whether `data` ends in padding: its last byte, which is not zero, says how long the
/// padding is, and every byte of the padding is equal to it.
pub open spec fn is_padded(data: Seq<u8>) -> bool {
    &&& data.len() > 0
    &&& 0 < data.last() <= data.len()
    &&& forall|i: int| data.len() - data.last() <= i < data.len() ==> data[i] == data.last()
}

/// `data` without its padding, where it has any.
pub open spec fn unpadded(data: Seq<u8>) -> Seq<u8> {
    if is_padded(data) {
        data.take(data.len() - data.last())
    } else {
        data
    }
}

/// Takes the padding off a decrypted message. Data that has no padding is left as it is.
pub fn unpad_message(data: &[u8]) -> (r: Vec<u8>)
    ensures
        r@ == unpadded(data@),
{
    let total: usize = data.len();
    if total == 0 {
        return Vec::new();
    }
    let last_byte: u8 = data[total - 1];
    if last_byte > 0 && last_byte as usize <= total {
        let start: usize = total - last_byte as usize;
        let mut is_valid = true;
        for i in start..total
            invariant
                total == data@.len(),
                start <= total,
                is_valid ==> forall|j: int| start <= j < i ==> data@[j] == last_byte,
                !is_valid ==> exists|j: int| start <= j < total && data@[j] != last_byte,
        {
            if data[i] != last_byte {
                is_valid = false;
            }
        }
        if is_valid {
            return crate::bytes::copy_range(data, 0, start);
        }
    }
    vstd::slice::slice_to_vec(data)
}

/// The rule for confirming that a message has arrived: always for a private message; for
/// a channel message while few peers are around, or when it mentions us; else never.
pub open spec fn ack_is_due(
    is_private: bool,
    in_channel: bool,
    mentions_me: bool,
    active_peer_count: int,
) -> bool {
    is_private || (in_channel && (active_peer_count < 10 || mentions_me))
}

/// Whether the arrival of a message is to be confirmed.
pub fn should_send_ack(
    is_private: bool,
    channel: Option<&str>,
    mentions: Option<&Vec<String>>,
    my_nickname: &str,
    active_peer_count: usize,
) -> (r: bool)
    ensures
        r == ack_is_due(
            is_private,
            channel is Some,
            mentions is Some && lists(mentions->0@, my_nickname@),
            active_peer_count as int,
        ),
{
    if is_private {
        true
    } else if channel.is_some() {
        if active_peer_count < 10 {
            return true;
        }
        if let Some(m) = mentions {
            return contains_text(m, my_nickname);
        }
        false
    } else {
        false
    }
}

/// What others may know of our keys.
#[derive(Debug)]
pub struct PublicIdentity {
    /// The public keys, one after the other, as they are sent in a key exchange.
    pub combined_public_key: Vec<u8>,
    pub fingerprint: String,
}

/// The payload of a key exchange, and the fingerprint that goes with it.
pub fn generate_keys_and_payload(identity: &PublicIdentity) -> (r: (Vec<u8>, String))
    ensures
        r.0@ == identity.combined_public_key@,
        r.1@ == identity.fingerprint@,
{
    (vstd::slice::slice_to_vec(identity.combined_public_key.as_slice()), identity.fingerprint.clone())
}

/// Padding with `n` bytes of value `n` and taking the padding off gives the message back.
pub proof fn unpad_undoes_pad(message: Seq<u8>, n: u8)
    requires
        n > 0,
    ensures
        unpadded(message + Seq::new(n as nat, |i: int| n)) == message,
{
    let data = message + Seq::new(n as nat, |i: int| n);
    assert(data.last() == n);
    assert(data.take(data.len() - n) =~= message);
}

/// A message type is found again from the byte that stands for it, and no two types share
/// a byte.
pub proof fn message_type_round_trip(t: MessageType, byte: u8)
    ensures
        MessageType::spec_from_code(t.spec_code()) == Some(t),
        MessageType::spec_from_code(byte) matches Some(u) ==> u.spec_code() == byte,
{
}

} // verus!
