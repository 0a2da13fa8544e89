//! Packets: what travels between two devices.
use crate::adapters::{hex_bytes, hex_decode, hex_encode, hex_text, since_unix_epoch};
use crate::bytes::{be_u64, copy_range, push_be_u64};
use crate::protocol::{MessageType, BROADCAST_RECIPIENT, FLAG_HAS_RECIPIENT, FLAG_HAS_SIGNATURE};
use std::time::SystemTime;
use vstd::prelude::*;

verus! {

/// A packet as it was received.
#[derive(Debug)]
pub struct BitchatPacket {
    pub msg_type: MessageType,
    pub _sender_id: Vec<u8>,
    pub sender_id_str: String,
    pub recipient_id: Option<Vec<u8>>,
    pub recipient_id_str: Option<String>,
    pub payload: Vec<u8>,
    pub ttl: u8,
}

/// What a packet says.
#[verifier::ext_equal]
pub struct PacketView {
    pub msg_type: MessageType,
    pub sender_id: Seq<u8>,
    pub sender_id_str: Seq<char>,
    pub recipient_id: Option<Seq<u8>>,
    pub recipient_id_str: Option<Seq<char>>,
    pub payload: Seq<u8>,
    pub ttl: u8,
}

impl View for BitchatPacket {
    type V = PacketView;

    open spec fn view(&self) -> PacketView {
        PacketView {
            msg_type: self.msg_type,
            sender_id: self._sender_id@,
            sender_id_str: self.sender_id_str@,
            recipient_id: match self.recipient_id {
                Some(r) => Some(r@),
                None => None,
            },
            recipient_id_str: match self.recipient_id_str {
                Some(r) => Some(r@),
                None => None,
            },
            payload: self.payload@,
            ttl: self.ttl,
        }
    }
}

pub open spec fn has_recipient(flags: u8) -> bool {
    flags & FLAG_HAS_RECIPIENT != 0
}

pub open spec fn has_signature(flags: u8) -> bool {
    flags & FLAG_HAS_SIGNATURE != 0
}

/// Where the recipient of a packet with these flags ends.
pub open spec fn recipient_end(flags: u8) -> int {
    if has_recipient(flags) {
        24
    } else {
        16
    }
}

/// Where the payload of a packet with these flags starts.
pub open spec fn payload_start(flags: u8) -> int {
    if has_signature(flags) {
        recipient_end(flags) + 64
    } else {
        recipient_end(flags)
    }
}

/// What the bytes of a packet say, or what is wrong with them. A packet is made of a
/// version, a type, a time to live, eight bytes of time, flags, four bytes of sender, eight
/// bytes of recipient and sixty-four of signature where the flags say so, and a payload.
pub open spec fn packet_of(data: Seq<u8>) -> Result<PacketView, Seq<char>> {
    if data.len() < 12 {
        Err("Packet too short"@)
    } else if MessageType::spec_from_code(data[1]) is None {
        Err("Unknown message type"@)
    } else if data.len() < 16 {
        Err("Packet too short for sender ID"@)
    } else if data.len() < recipient_end(data[11]) {
        Err("Packet too short for recipient ID"@)
    } else if data.len() < payload_start(data[11]) {
        Err("Packet too short for signature"@)
    } else {
        let sender = data.subrange(12, 16);
        let recipient = data.subrange(16, 24);
        Ok(
            PacketView {
                msg_type: MessageType::spec_from_code(data[1])->0,
                sender_id: sender,
                sender_id_str: hex_text(sender),
                recipient_id: if has_recipient(data[11]) {
                    Some(recipient)
                } else {
                    None
                },
                recipient_id_str: if has_recipient(data[11]) {
                    Some(hex_text(recipient))
                } else {
                    None
                },
                payload: data.skip(payload_start(data[11])),
                ttl: data[2],
            },
        )
    }
}

/// Reads a packet.
pub fn parse_bitchat_packet(data: &[u8]) -> (r: Result<BitchatPacket, &'static str>)
    ensures
        match r {
            Ok(p) => packet_of(data@) == Ok::<PacketView, Seq<char>>(p@),
            Err(e) => packet_of(data@) == Err::<PacketView, Seq<char>>(e@),
        },
{
    let total: usize = data.len();
    if total < 12 {
        return Err("Packet too short");
    }
    let msg_type = match MessageType::from_code(data[1]) {
        Some(t) => t,
        None => return Err("Unknown message type"),
    };
    let ttl: u8 = data[2];
    let flags: u8 = data[11];
    if total < 16 {
        return Err("Packet too short for sender ID");
    }
    let sender_id = copy_range(data, 12, 16);
    let sender_id_str = hex_encode(sender_id.as_slice());
    let mut recipient_id: Option<Vec<u8>> = None;
    let mut recipient_id_str: Option<String> = None;
    let mut offset: usize = 16;
    if flags & FLAG_HAS_RECIPIENT != 0 {
        if total < 24 {
            return Err("Packet too short for recipient ID");
        }
        let recipient = copy_range(data, 16, 24);
        recipient_id_str = Some(hex_encode(recipient.as_slice()));
        recipient_id = Some(recipient);
        offset = 24;
    }
    if flags & FLAG_HAS_SIGNATURE != 0 {
        if total < offset + 64 {
            return Err("Packet too short for signature");
        }
        offset = offset + 64;
    }
    let payload = copy_range(data, offset, total);
    let packet = BitchatPacket {
        msg_type,
        _sender_id: sender_id,
        sender_id_str,
        recipient_id,
        recipient_id_str,
        payload,
        ttl,
    };
    assert(data@.skip(offset as int) =~= data@.subrange(offset as int, total as int));
    Ok(packet)
}

/// A sender that can be put in a packet: hexadecimal digits for at least four bytes, or
/// text that is not hexadecimal, which stands for four zero bytes.
pub open spec fn is_sender(sender: Seq<char>) -> bool {
    hex_bytes(sender) matches Some(b) ==> b.len() >= 4
}

/// The four bytes that a sender is sent as.
pub open spec fn sender_field(sender: Seq<char>) -> Seq<u8> {
    match hex_bytes(sender) {
        Some(b) => b.take(4),
        None => seq![0u8, 0, 0, 0],
    }
}

/// The bytes that a recipient is sent as, in a packet of type `t`. Fragments carry none.
/// No recipient, and one that is not hexadecimal, stand for everyone.
pub open spec fn recipient_field(t: MessageType, recipient: Option<Seq<char>>) -> Seq<u8> {
    if t.spec_is_fragment() {
        Seq::empty()
    } else {
        match recipient {
            Some(r) => match hex_bytes(r) {
                Some(b) => b,
                None => BROADCAST_RECIPIENT@,
            },
            None => BROADCAST_RECIPIENT@,
        }
    }
}

/// The flags of a packet.
pub open spec fn packet_flags(t: MessageType, signed: bool) -> u8 {
    match (t.spec_is_fragment(), signed) {
        (false, false) => FLAG_HAS_RECIPIENT,
        (false, true) => FLAG_HAS_RECIPIENT | FLAG_HAS_SIGNATURE,
        (true, false) => 0,
        (true, true) => FLAG_HAS_SIGNATURE,
    }
}

/// The bytes of a packet that was made at time `timestamp_ms`, in milliseconds since the
/// start of 1970.
pub open spec fn packet_bytes(
    timestamp_ms: u64,
    sender: Seq<char>,
    recipient: Option<Seq<char>>,
    t: MessageType,
    payload: Seq<u8>,
    signature: Option<Seq<u8>>,
) -> Seq<u8> {
    seq![0x01u8, t.spec_code(), 7u8] + be_u64(timestamp_ms) + seq![packet_flags(t, signature is Some)]
        + sender_field(sender) + recipient_field(t, recipient) + (match signature {
        Some(s) => s,
        None => Seq::empty(),
    }) + payload
}

pub open spec fn opt_text(t: Option<&str>) -> Option<Seq<char>> {
    match t {
        Some(s) => Some(s@),
        None => None,
    }
}

pub open spec fn opt_bytes(b: Option<Vec<u8>>) -> Option<Seq<u8>> {
    match b {
        Some(v) => Some(v@),
        None => None,
    }
}

/// The four bytes that a sender is sent as.
pub fn sender_bytes(sender: &str) -> (r: Vec<u8>)
    requires
        is_sender(sender@),
    ensures
        r@ == sender_field(sender@),
{
    match hex_decode(sender) {
        Some(b) => {
            assert(b@.subrange(0, 4) =~= b@.take(4));
            copy_range(b.as_slice(), 0, 4)
        },
        None => vec![0, 0, 0, 0],
    }
}

/// Puts a packet together.
pub fn encode_packet(
    timestamp_ms: u64,
    sender_id_str: &str,
    recipient_id_str: Option<&str>,
    msg_type: MessageType,
    payload: Vec<u8>,
    signature: Option<Vec<u8>>,
) -> (data: Vec<u8>)
    requires
        is_sender(sender_id_str@),
    ensures
        data@ == packet_bytes(
            timestamp_ms,
            sender_id_str@,
            opt_text(recipient_id_str),
            msg_type,
            payload@,
            opt_bytes(signature),
        ),
{
    let mut data: Vec<u8> = Vec::new();
    data.push(0x01);
    data.push(msg_type.code());
    data.push(7);
    push_be_u64(&mut data, timestamp_ms);
    let has_recipient = !msg_type.is_fragment();
    let mut flags: u8 = 0;
    if has_recipient {
        flags = flags | FLAG_HAS_RECIPIENT;
    }
    if signature.is_some() {
        flags = flags | FLAG_HAS_SIGNATURE;
    }
    assert(0u8 | 0x01u8 == 0x01u8 && 0u8 | 0x02u8 == 0x02u8) by (bit_vector);
    data.push(flags);
    data.extend_from_slice(sender_bytes(sender_id_str).as_slice());
    if has_recipient {
        let decoded = match recipient_id_str {
            Some(recipient) => hex_decode(recipient),
            None => None,
        };
        match decoded {
            Some(bytes) => data.extend_from_slice(bytes.as_slice()),
            None => data.extend_from_slice(BROADCAST_RECIPIENT.as_slice()),
        }
    }
    if let Some(sig) = &signature {
        data.extend_from_slice(sig.as_slice());
    }
    data.extend_from_slice(payload.as_slice());
    assert(data@ =~= packet_bytes(
        timestamp_ms,
        sender_id_str@,
        opt_text(recipient_id_str),
        msg_type,
        payload@,
        opt_bytes(signature),
    ));
    data
}

/// What the clock shows, as `stamp_of` has it. Nothing is stated: any number of milliseconds
/// can be what the clock shows.
pub(crate) fn now_ms() -> u64 {
    match since_unix_epoch(SystemTime::now()) {
        Some(span) => stamp_of(Some(span.as_millis())),
        None => stamp_of(None),
    }
}

/// The time that a packet or a confirmation carries when the clock shows `millis` milliseconds
/// since the start of 1970: as much of it as fits in sixty-four bits, and zero where the clock
/// is set before that.
pub open spec fn stamp_for(millis: Option<u128>) -> int {
    match millis {
        Some(m) => m as int % 0x1_0000_0000_0000_0000,
        None => 0,
    }
}

/// The time that a packet or a confirmation carries when the clock shows `millis` milliseconds
/// since the start of 1970.
pub fn stamp_of(millis: Option<u128>) -> (stamp: u64)
    ensures
        stamp == stamp_for(millis),
{
    match millis {
        Some(m) => (m % 0x1_0000_0000_0000_0000) as u64,
        None => 0,
    }
}

/// Puts a packet together, with the time that the clock shows.
pub fn create_bitchat_packet_with_recipient(
    sender_id_str: &str,
    recipient_id_str: Option<&str>,
    msg_type: MessageType,
    payload: Vec<u8>,
    signature: Option<Vec<u8>>,
) -> (data: Vec<u8>)
    requires
        is_sender(sender_id_str@),
    ensures
        exists|now: u64|
            data@ == #[trigger] packet_bytes(
                now,
                sender_id_str@,
                opt_text(recipient_id_str),
                msg_type,
                payload@,
                opt_bytes(signature),
            ),
{
    encode_packet(now_ms(), sender_id_str, recipient_id_str, msg_type, payload, signature)
}

/// A packet for everyone, without a signature.
pub fn create_bitchat_packet(sender_id_str: &str, msg_type: MessageType, payload: Vec<u8>) -> (data: Vec<u8>)
    requires
        is_sender(sender_id_str@),
    ensures
        exists|now: u64| data@ == #[trigger] packet_bytes(now, sender_id_str@, None, msg_type, payload@, None),
{
    create_bitchat_packet_with_recipient(sender_id_str, None, msg_type, payload, None)
}

/// A packet for everyone, with the signature that is given.
pub fn create_bitchat_packet_with_signature(
    sender_id_str: &str,
    msg_type: MessageType,
    payload: Vec<u8>,
    signature: Option<Vec<u8>>,
) -> (data: Vec<u8>)
    requires
        is_sender(sender_id_str@),
    ensures
        exists|now: u64|
            data@ == #[trigger] packet_bytes(
                now,
                sender_id_str@,
                None,
                msg_type,
                payload@,
                opt_bytes(signature),
            ),
{
    create_bitchat_packet_with_recipient(sender_id_str, None, msg_type, payload, signature)
}

/// A packet for one recipient, with the signature that is given.
pub fn create_bitchat_packet_with_recipient_and_signature(
    sender_id_str: &str,
    recipient_id_str: &str,
    msg_type: MessageType,
    payload: Vec<u8>,
    signature: Option<Vec<u8>>,
) -> (data: Vec<u8>)
    requires
        is_sender(sender_id_str@),
    ensures
        exists|now: u64|
            data@ == #[trigger] packet_bytes(
                now,
                sender_id_str@,
                Some(recipient_id_str@),
                msg_type,
                payload@,
                opt_bytes(signature),
            ),
{
    create_bitchat_packet_with_recipient(sender_id_str, Some(recipient_id_str), msg_type, payload, signature)
}

/// Every packet has a header, so there is room in it for a time to live.
pub proof fn header_is_there(
    timestamp_ms: u64,
    sender: Seq<char>,
    recipient: Option<Seq<char>>,
    t: MessageType,
    payload: Seq<u8>,
    signature: Option<Seq<u8>>,
)
    ensures
        packet_bytes(timestamp_ms, sender, recipient, t, payload, signature).len() >= 12,
{
}

/// The parts of a packet stand where they were put.
#[verifier::spinoff_prover]
proof fn packet_layout(
    timestamp_ms: u64,
    sender: Seq<char>,
    recipient: Option<Seq<char>>,
    t: MessageType,
    payload: Seq<u8>,
    signature: Option<Seq<u8>>,
)
    requires
        is_sender(sender),
        !t.spec_is_fragment() ==> recipient_field(t, recipient).len() == 8,
        signature matches Some(s) ==> s.len() == 64,
    ensures
        ({
            let data = packet_bytes(timestamp_ms, sender, recipient, t, payload, signature);
            let start = 16 + recipient_field(t, recipient).len() + if signature is Some {
                64int
            } else {
                0
            };
            &&& data.len() == start + payload.len()
            &&& data[1] == t.spec_code()
            &&& data[2] == 7
            &&& data[11] == packet_flags(t, signature is Some)
            &&& data.subrange(12, 16) == sender_field(sender)
            &&& !t.spec_is_fragment() ==> data.subrange(16, 24) == recipient_field(t, recipient)
            &&& data.skip(start) == payload
        }),
{
    let data = packet_bytes(timestamp_ms, sender, recipient, t, payload, signature);
    let field = recipient_field(t, recipient);
    let start = 16 + field.len() + if signature is Some {
        64int
    } else {
        0
    };
    assert(sender_field(sender).len() == 4);
    assert(data.subrange(12, 16) =~= sender_field(sender));
    if !t.spec_is_fragment() {
        assert(data.subrange(16, 24) =~= field);
    }
    assert(data.skip(start) =~= payload);
}

/// Reading a packet that was put together gives back what went into it: its type, its
/// sender, its recipient and its payload, with the full time to live. The reader takes a
/// recipient to be eight bytes and a signature to be sixty-four.
#[verifier::spinoff_prover]
pub proof fn packet_round_trip(
    timestamp_ms: u64,
    sender: Seq<char>,
    recipient: Option<Seq<char>>,
    t: MessageType,
    payload: Seq<u8>,
    signature: Option<Seq<u8>>,
)
    requires
        is_sender(sender),
        !t.spec_is_fragment() ==> recipient_field(t, recipient).len() == 8,
        signature matches Some(s) ==> s.len() == 64,
    ensures
        packet_of(packet_bytes(timestamp_ms, sender, recipient, t, payload, signature)) == Ok::<
            PacketView,
            Seq<char>,
        >(
            PacketView {
                msg_type: t,
                sender_id: sender_field(sender),
                sender_id_str: hex_text(sender_field(sender)),
                recipient_id: if t.spec_is_fragment() {
                    None
                } else {
                    Some(recipient_field(t, recipient))
                },
                recipient_id_str: if t.spec_is_fragment() {
                    None
                } else {
                    Some(hex_text(recipient_field(t, recipient)))
                },
                payload,
                ttl: 7,
            },
        ),
{
    let data = packet_bytes(timestamp_ms, sender, recipient, t, payload, signature);
    let flags = packet_flags(t, signature is Some);
    packet_layout(timestamp_ms, sender, recipient, t, payload, signature);
    assert(has_recipient(flags) == !t.spec_is_fragment() && has_signature(flags) == (signature is Some)) by {
        assert(0x01u8 & 0x01u8 != 0 && 0x01u8 & 0x02u8 == 0 && (0x01u8 | 0x02u8) & 0x01u8 != 0 && (0x01u8
            | 0x02u8) & 0x02u8 != 0 && 0u8 & 0x01u8 == 0 && 0u8 & 0x02u8 == 0 && 0x02u8 & 0x01u8 == 0 && 0x02u8
            & 0x02u8 != 0) by (bit_vector);
    }
    crate::protocol::message_type_round_trip(t, 0);
}

/// A sender of eight lower-case hexadecimal digits, as peers have, is read back as it was
/// written.
pub proof fn sender_text_survives(id: Seq<u8>)
    requires
        id.len() == 4,
    ensures
        is_sender(hex_text(id)),
        hex_text(sender_field(hex_text(id))) == hex_text(id),
{
    crate::adapters::hex_round_trip(id);
    assert(id.take(4) =~= id);
}

/// Sets the time to live of a packet.
pub fn set_ttl(data: &mut Vec<u8>, ttl: u8)
    requires
        old(data)@.len() > 2,
    ensures
        final(data)@ == old(data)@.update(2, ttl),
{
    data.set(2, ttl);
}

/// Changing the time to live of a packet changes nothing else that is read from it.
pub proof fn ttl_is_separate(data: Seq<u8>, ttl: u8)
    requires
        data.len() > 2,
    ensures
        match packet_of(data) {
            Ok(p) => packet_of(data.update(2, ttl)) == Ok::<PacketView, Seq<char>>(PacketView { ttl, ..p }),
            Err(e) => packet_of(data.update(2, ttl)) == Err::<PacketView, Seq<char>>(e),
        },
{
    let other = data.update(2, ttl);
    if packet_of(data) is Ok {
        assert(other.subrange(12, 16) =~= data.subrange(12, 16));
        if has_recipient(data[11]) {
            assert(other.subrange(16, 24) =~= data.subrange(16, 24));
        }
        assert(other.skip(payload_start(data[11])) =~= data.skip(payload_start(data[11])));
    }
}

} // verus!
