//! Packets are made of their parts, and are read by them.
use crate::adapters::{hex_bytes, hex_round_trip, hex_text};
use crate::bytes::be_u64;
use crate::inbox::{ack_route_of, audience_of, opened, AckRoute, Audience};
use crate::message::no_sender_is_zero;
use crate::packet::{
    header_is_there, is_sender, packet_bytes, packet_of, packet_round_trip, recipient_field, sender_field, stamp_for,
    ttl_is_separate, PacketView,
};
use crate::protocol::{unpadded, MessageType, BROADCAST_RECIPIENT};
use vstd::prelude::*;

verus! {

/// The number that bytes stand for, the highest first.
pub open spec fn number(bytes: Seq<u8>) -> nat
    decreases bytes.len(),
{
    if bytes.len() == 0 {
        0
    } else {
        256 * number(bytes.drop_last()) + bytes.last() as nat
    }
}

/// Parts of a packet one after the other. A packet has a recipient where its flags have the
/// lowest bit, and a signature where they have the next.
pub struct RawPacket {
    pub version: u8,
    pub code: u8,
    pub ttl: u8,
    pub time: Seq<u8>,
    pub flags: u8,
    pub sender: Seq<u8>,
    pub recipient: Seq<u8>,
    pub signature: Seq<u8>,
    pub payload: Seq<u8>,
}

impl RawPacket {
    /// The parts have the sizes that the flags ask for.
    pub open spec fn fits(self) -> bool {
        &&& self.time.len() == 8
        &&& self.sender.len() == 4
        &&& self.recipient.len() == if self.flags & 0x01 != 0 {
            8nat
        } else {
            0
        }
        &&& self.signature.len() == if self.flags & 0x02 != 0 {
            64nat
        } else {
            0
        }
    }

    pub open spec fn bytes(self) -> Seq<u8> {
        seq![self.version, self.code, self.ttl] + self.time + seq![self.flags] + self.sender + self.recipient
            + self.signature + self.payload
    }
}

proof fn raw_layout(r: RawPacket)
    requires
        r.fits(),
    ensures
        ({
            let data = r.bytes();
            let sig = 16 + r.recipient.len();
            let start = sig + r.signature.len();
            &&& data.len() == start + r.payload.len()
            &&& data[1] == r.code
            &&& data[2] == r.ttl
            &&& data[11] == r.flags
            &&& data.subrange(12, 16) == r.sender
            &&& r.flags & 0x01 != 0 ==> data.subrange(16, 24) == r.recipient
            &&& data.skip(start as int) == r.payload
        }),
{
    let data = r.bytes();
    let start = 16 + r.recipient.len() + r.signature.len();
    assert(data.subrange(12, 16) =~= r.sender);
    if r.flags & 0x01 != 0 {
        assert(data.subrange(16, 24) =~= r.recipient);
    }
    assert(data.skip(start as int) =~= r.payload);
}

/// A packet with any version, time to live, time and flags is read by its parts: its type by the
/// code, its sender, its recipient where it has one, and as payload all that is left.
#[verifier::spinoff_prover]
pub proof fn packets_are_read_by_their_parts(r: RawPacket)
    requires
        r.fits(),
        1 <= r.code <= 12,
    ensures
        ({
            &&& packet_of(r.bytes()) matches Ok(p)
            &&& p.msg_type.spec_code() == r.code
            &&& p.ttl == r.ttl
            &&& p.sender_id == r.sender
            &&& p.sender_id_str == hex_text(r.sender)
            &&& p.payload == r.payload
            &&& p.recipient_id == if r.flags & 0x01 != 0 {
                Some(r.recipient)
            } else {
                None
            }
            &&& p.recipient_id_str == if r.flags & 0x01 != 0 {
                Some(hex_text(r.recipient))
            } else {
                None
            }
        }),
{
    raw_layout(r);
}

/// A packet that ends before its payload starts is refused, and what is missing first is named.
#[verifier::spinoff_prover]
pub proof fn cut_packets_are_refused(r: RawPacket, n: int)
    requires
        r.fits(),
        1 <= r.code <= 12,
        0 <= n < 16 + r.recipient.len() + r.signature.len(),
    ensures
        packet_of(r.bytes().take(n)) == Err::<PacketView, Seq<char>>(
            if n < 12 {
                "Packet too short"@
            } else if n < 16 {
                "Packet too short for sender ID"@
            } else if n < 16 + r.recipient.len() {
                "Packet too short for recipient ID"@
            } else {
                "Packet too short for signature"@
            },
        ),
{
    raw_layout(r);
    let cut = r.bytes().take(n);
    if n >= 12 {
        assert(cut[1] == r.code);
        assert(cut[11] == r.flags);
    }
}

/// Bytes that are long enough for a header but have no type of ours are refused, and bytes that
/// have one are not refused for their type.
pub proof fn unknown_types_are_refused(data: Seq<u8>)
    requires
        data.len() >= 12,
    ensures
        !(1 <= data[1] <= 12) <==> packet_of(data) == Err::<PacketView, Seq<char>>("Unknown message type"@),
{
    reveal_strlit("Unknown message type");
    reveal_strlit("Packet too short for sender ID");
    reveal_strlit("Packet too short for recipient ID");
    reveal_strlit("Packet too short for signature");
    assert("Unknown message type"@.len() == 20);
    assert("Packet too short for sender ID"@.len() == 30);
    assert("Packet too short for recipient ID"@.len() == 33);
    assert("Packet too short for signature"@.len() == 30);
}

proof fn number_push(bytes: Seq<u8>, low: u8)
    ensures
        number(bytes.push(low)) == 256 * number(bytes) + low,
{
    assert(bytes.push(low).drop_last() =~= bytes);
}

#[verifier::spinoff_prover]
proof fn big_endian(n: u64)
    ensures
        be_u64(n).len() == 8,
        number(be_u64(n)) == n,
{
    let a = be_u64(n);
    let empty = Seq::<u8>::empty();
    number_push(empty, a[0]);
    number_push(empty.push(a[0]), a[1]);
    number_push(empty.push(a[0]).push(a[1]), a[2]);
    number_push(empty.push(a[0]).push(a[1]).push(a[2]), a[3]);
    number_push(empty.push(a[0]).push(a[1]).push(a[2]).push(a[3]), a[4]);
    number_push(empty.push(a[0]).push(a[1]).push(a[2]).push(a[3]).push(a[4]), a[5]);
    number_push(empty.push(a[0]).push(a[1]).push(a[2]).push(a[3]).push(a[4]).push(a[5]), a[6]);
    number_push(empty.push(a[0]).push(a[1]).push(a[2]).push(a[3]).push(a[4]).push(a[5]).push(a[6]), a[7]);
    assert(a =~= empty.push(a[0]).push(a[1]).push(a[2]).push(a[3]).push(a[4]).push(a[5]).push(a[6]).push(a[7]));
    assert(number(empty) == 0);
    assert(a[0] == n / 0x100_0000_0000_0000);
    assert(256 * (n / 0x100_0000_0000_0000) + n / 0x1_0000_0000_0000 % 256 == n / 0x1_0000_0000_0000);
    assert(256 * (n / 0x1_0000_0000_0000) + n / 0x100_0000_0000 % 256 == n / 0x100_0000_0000);
    assert(256 * (n / 0x100_0000_0000) + n / 0x1_0000_0000 % 256 == n / 0x1_0000_0000);
    assert(256 * (n / 0x1_0000_0000) + n / 0x100_0000 % 256 == n / 0x100_0000);
    assert(256 * (n / 0x100_0000) + n / 0x1_0000 % 256 == n / 0x1_0000);
    assert(256 * (n / 0x1_0000) + n / 0x100 % 256 == n / 0x100);
    assert(256 * (n / 0x100) + n % 256 == n);
}

/// A packet that is put together is made of the version one, the type, seven hops to live, the
/// time, the flags that say what follows and nothing else, the sender, the recipient, the
/// signature and the payload.
#[verifier::spinoff_prover]
pub proof fn created_packets_have_their_parts(
    now: u64,
    sender: Seq<char>,
    recipient: Option<Seq<char>>,
    t: MessageType,
    payload: Seq<u8>,
    signature: Option<Seq<u8>>,
) -> (time: Seq<u8>)
    ensures
        number(time) == now,
        time.len() == 8,
        ({
            let flags: u8 = if t.spec_is_fragment() {
                if signature is Some {
                    2
                } else {
                    0
                }
            } else {
                if signature is Some {
                    3
                } else {
                    1
                }
            };
            packet_bytes(now, sender, recipient, t, payload, signature) == (RawPacket {
                version: 1,
                code: t.spec_code(),
                ttl: 7,
                time,
                flags,
                sender: sender_field(sender),
                recipient: recipient_field(t, recipient),
                signature: match signature {
                    Some(s) => s,
                    None => Seq::empty(),
                },
                payload,
            }).bytes()
        }),
{
    big_endian(now);
    assert(0x01u8 | 0x02u8 == 3u8) by (bit_vector);
    be_u64(now)
}

/// The sender of a packet is the first four bytes of its identifier, in whichever case its digits
/// are; text that is not an identifier is like an identifier of zeros.
pub proof fn senders_are_four_bytes(id: Seq<u8>, digits: Seq<char>, text: Seq<char>)
    requires
        id.len() >= 4,
        hex_bytes(digits) == Some(id),
        hex_bytes(text) is None,
    ensures
        is_sender(digits),
        sender_field(digits) == id.take(4),
        sender_field(hex_text(id)) == id.take(4),
        is_sender(text),
        sender_field(text) == sender_field("00000000"@),
        sender_field(text) == seq![0u8, 0, 0, 0],
{
    hex_round_trip(id);
    no_sender_is_zero();
}

/// The recipient of a packet is the bytes of its identifier. Fragments have none; no identifier,
/// and text that is none, are everyone.
pub proof fn recipients_are_written_whole(
    t: MessageType,
    id: Seq<u8>,
    digits: Seq<char>,
    text: Seq<char>,
    any: Option<Seq<char>>,
)
    requires
        hex_bytes(digits) == Some(id),
        hex_bytes(text) is None,
    ensures
        t.spec_is_fragment() ==> recipient_field(t, any) == Seq::<u8>::empty(),
        !t.spec_is_fragment() ==> recipient_field(t, Some(digits)) == id,
        !t.spec_is_fragment() ==> recipient_field(t, Some(hex_text(id))) == id,
        recipient_field(t, Some(text)) == recipient_field(t, None),
        !t.spec_is_fragment() ==> recipient_field(t, None) == Seq::new(8, |i: int| 255u8),
{
    hex_round_trip(id);
    if !t.spec_is_fragment() {
        assert(recipient_field(t, None) =~= Seq::new(8, |i: int| 255u8));
    }
}

/// Whoever sends a packet, of whatever type and with however long to live, everyone else opens it,
/// and it gives what is read from it.
#[verifier::spinoff_prover]
pub proof fn packets_of_others_are_opened(r: RawPacket, me: Seq<char>)
    requires
        r.fits(),
        1 <= r.code <= 12,
        me != hex_text(r.sender),
    ensures
        ({
            &&& opened(r.bytes(), me) matches Some(p)
            &&& p.msg_type.spec_code() == r.code
            &&& p.ttl == r.ttl
            &&& p.sender_id_str == hex_text(r.sender)
            &&& p.payload == r.payload
            &&& packet_of(r.bytes()) == Ok::<PacketView, Seq<char>>(p)
        }),
{
    packets_are_read_by_their_parts(r);
}

/// A packet that a device puts together is opened by every other device, at every hop.
#[verifier::spinoff_prover]
pub proof fn created_packets_are_opened_by_others(
    now: u64,
    sender: Seq<char>,
    recipient: Option<Seq<char>>,
    t: MessageType,
    payload: Seq<u8>,
    signature: Option<Seq<u8>>,
    ttl: u8,
    me: Seq<char>,
)
    requires
        is_sender(sender),
        !t.spec_is_fragment() ==> recipient_field(t, recipient).len() == 8,
        signature matches Some(s) ==> s.len() == 64,
        me != hex_text(sender_field(sender)),
    ensures
        ({
            let data = packet_bytes(now, sender, recipient, t, payload, signature).update(2, ttl);
            &&& opened(data, me) matches Some(p)
            &&& p.msg_type == t
            &&& p.ttl == ttl
            &&& p.sender_id_str == hex_text(sender_field(sender))
            &&& p.payload == payload
        }),
{
    packet_round_trip(now, sender, recipient, t, payload, signature);
    header_is_there(now, sender, recipient, t, payload, signature);
    ttl_is_separate(packet_bytes(now, sender, recipient, t, payload, signature), ttl);
}

/// What is opened is never our own, and is always what is read from the bytes.
pub proof fn only_packets_of_others_are_opened(data: Seq<u8>, me: Seq<char>)
    ensures
        opened(data, me) matches Some(p) ==> packet_of(data) == Ok::<PacketView, Seq<char>>(p) && p.sender_id_str != me,
        opened(data, me) is None ==> packet_of(data) is Err || packet_of(data)->Ok_0.sender_id_str == me,
{
}

/// A confirmation for the device with the eight bytes `id` is taken in by that device, which may
/// have to decrypt it where it came straight from its sender and the key is there, and passed on
/// by every other device. One for everyone is passed on by all.
#[verifier::spinoff_prover]
pub proof fn confirmations_reach_their_recipient(
    now: u64,
    sender: Seq<char>,
    id: Seq<u8>,
    payload: Seq<u8>,
    ttl: u8,
    has_key: bool,
    other: Seq<char>,
)
    requires
        is_sender(sender),
        id.len() == 8,
        other != hex_text(id),
    ensures
        ({
            let data = packet_bytes(now, sender, Some(hex_text(id)), MessageType::DeliveryAck, payload, None).update(
                2,
                ttl,
            );
            &&& packet_of(data) matches Ok(p)
            &&& p.payload == payload
            &&& ack_route_of(p, other, has_key) == AckRoute::PassOn
            &&& ack_route_of(p, hex_text(id), has_key) == if ttl == 3 && has_key {
                AckRoute::Decrypt
            } else {
                AckRoute::Read
            }
        }),
{
    hex_round_trip(id);
    packet_round_trip(now, sender, Some(hex_text(id)), MessageType::DeliveryAck, payload, None);
    header_is_there(now, sender, Some(hex_text(id)), MessageType::DeliveryAck, payload, None);
    ttl_is_separate(packet_bytes(now, sender, Some(hex_text(id)), MessageType::DeliveryAck, payload, None), ttl);
}

/// A confirmation is for us exactly where it names us, and then it is never passed on; one that
/// names nobody, or anyone else, is passed on whatever else it says.
pub proof fn confirmations_are_for_whom_they_name(p: PacketView, me: Seq<char>, has_key: bool)
    ensures
        p.recipient_id_str is None ==> ack_route_of(p, me, has_key) == AckRoute::PassOn,
        p.recipient_id_str matches Some(name) ==> (ack_route_of(p, me, has_key) == AckRoute::PassOn <==> name != me),
        ack_route_of(p, me, has_key) == AckRoute::Decrypt ==> has_key && p.ttl == 3,
        ack_route_of(p, me, has_key) == AckRoute::Read ==> !has_key || p.ttl != 3,
{
}

/// A packet is for everyone where it names nobody, or the eight bytes that stand for everyone;
/// else it is for whom it names and nobody else.
pub proof fn packets_are_for_whom_they_name(r: RawPacket, me: Seq<char>)
    requires
        r.fits(),
        1 <= r.code <= 12,
    ensures
        ({
            &&& packet_of(r.bytes()) matches Ok(p)
            &&& r.flags & 0x01 == 0 ==> audience_of(p, me) == Audience::Everyone
            &&& r.flags & 0x01 != 0 && (forall|i: int| 0 <= i < 8 ==> r.recipient[i] == 255) ==> audience_of(p, me)
                == Audience::Everyone
            &&& r.flags & 0x01 != 0 && (exists|i: int| 0 <= i < 8 && r.recipient[i] != 255) ==> audience_of(p, me)
                == if me == hex_text(r.recipient) {
                Audience::Me
            } else {
                Audience::Other
            }
        }),
{
    packets_are_read_by_their_parts(r);
    if r.flags & 0x01 != 0 {
        if forall|i: int| 0 <= i < 8 ==> r.recipient[i] == 255 {
            assert(r.recipient =~= BROADCAST_RECIPIENT@);
        }
        if exists|i: int| 0 <= i < 8 && r.recipient[i] != 255 {
            let i = choose|i: int| 0 <= i < 8 && r.recipient[i] != 255;
            assert(BROADCAST_RECIPIENT@[i] == 255);
        }
    }
}

/// Padding of `n` bytes.
pub open spec fn padding(n: u8) -> Seq<u8> {
    Seq::new(n as nat, |i: int| n)
}

/// A message with padding of `n` bytes.
pub open spec fn padded(m: Seq<u8>, n: u8) -> Seq<u8> {
    m + padding(n)
}

/// Bytes come off a message only where they are padding: what is left, followed by `n` bytes that
/// are all `n`, is the message.
pub proof fn only_padding_comes_off(data: Seq<u8>)
    ensures
        unpadded(data) == data || exists|n: u8|
            n > 0 && data == unpadded(data) + #[trigger] padding(n),
{
    if unpadded(data) != data {
        let n = data.last();
        assert(data =~= unpadded(data) + padding(n));
    }
}

/// A message that does not end in `n` bytes that are all `n`, for any `n`, is left as it is.
pub proof fn what_is_not_padded_stays(data: Seq<u8>)
    requires
        forall|m: Seq<u8>, n: u8| n > 0 ==> data != #[trigger] padded(m, n),
    ensures
        unpadded(data) == data,
{
    if unpadded(data) != data {
        let n = data.last();
        let m = unpadded(data);
        assert(data =~= padded(m, n));
    }
}

/// A time that fits in sixty-four bits is carried as it is, and a larger one as the one that many
/// bits short of it.
pub proof fn stamps_wrap(m: u128)
    ensures
        m <= u64::MAX ==> stamp_for(Some(m)) == m,
        m > u64::MAX ==> stamp_for(Some(m)) == stamp_for(Some((m - u64::MAX - 1) as u128)),
{
}

} // verus!
