//! What the client does with what it receives.
use crate::adapters::{hex_round_trip, hex_text, is_random_uuid, lossy_text, text_of, uuid_text};
use crate::ble::{announcement_of, parse_channel_announce};
use crate::bytes::{be_u64, same_bytes};
use crate::channels::{body_of, with_announcement, with_message, BodyView};
use crate::client::{announces, leads_to, Action, ChatMode, Client, ModeView};
use crate::collector::{collect, collect_all, covers, cut_packets_come_out_whole, CollectorView};
use crate::commands::{rename_of, CommandView};
use crate::delivery::{create_delivery_ack, DeliveryAck};
use crate::fragmentation::{
    fragment_at, fragment_bytes, fragment_of, fragment_round_trip, parse_fragment, piece_count, pieces, FragmentType,
    FragmentView,
};
use crate::message::{
    mentions_fit, message_of, parse_bitchat_message_payload, plain_message_bytes, plain_message_round_trip,
    sealed_message_bytes, sealed_message_round_trip, BitchatMessage, MessageView,
};
use crate::packet::{
    create_bitchat_packet_with_recipient, has_recipient, has_signature, header_is_there, is_sender, opt_bytes, opt_text,
    packet_bytes, packet_flags, packet_of, packet_round_trip, parse_bitchat_packet, recipient_field, sender_field,
    sender_text_survives, set_ttl, ttl_is_separate, BitchatPacket, PacketView,
};
use crate::peers::shown_name;
use crate::protocol::{
    ack_is_due, message_type_round_trip, should_send_ack, unpad_message, unpad_undoes_pad, unpadded, MessageType,
    BROADCAST_RECIPIENT, COVER_TRAFFIC_PREFIX,
};
use crate::text::{has_prefix, joined, same_text, starts_with, trim_text, trimmed, trimming_is_final};
use vstd::prelude::*;
use vstd::string::StrSliceExecFns;
use vstd::utf8::encode_utf8;

verus! {

/// What a packet is taken for.
#[derive(Debug, Clone, Copy, PartialEq, Eq, Structural)]
pub enum Handling {
    /// A peer says what it calls itself.
    Announce,
    /// A chat message.
    Message,
    /// A piece of a larger packet.
    Piece,
    /// A peer offers its keys.
    KeyExchange,
    /// A peer leaves a channel, or for good.
    Leave,
    /// A channel is announced.
    ChannelAnnounce,
    /// A message of ours has arrived.
    DeliveryAck,
    /// Nothing is done about it.
    Nothing,
}

/// What packets of type `t` are taken for.
pub open spec fn handling_of(t: MessageType) -> Handling {
    match t {
        MessageType::Announce => Handling::Announce,
        MessageType::Message => Handling::Message,
        MessageType::FragmentStart => Handling::Piece,
        MessageType::FragmentContinue => Handling::Piece,
        MessageType::FragmentEnd => Handling::Piece,
        MessageType::KeyExchange => Handling::KeyExchange,
        MessageType::Leave => Handling::Leave,
        MessageType::ChannelAnnounce => Handling::ChannelAnnounce,
        MessageType::DeliveryAck => Handling::DeliveryAck,
        MessageType::ChannelRetention => Handling::Nothing,
        MessageType::DeliveryStatusRequest => Handling::Nothing,
        MessageType::ReadReceipt => Handling::Nothing,
    }
}

/// What packets of type `t` are taken for.
pub fn handling(t: MessageType) -> (h: Handling)
    ensures
        h == handling_of(t),
        h == Handling::Piece <==> t.spec_is_fragment(),
{
    match t {
        MessageType::Announce => Handling::Announce,
        MessageType::Message => Handling::Message,
        MessageType::FragmentStart => Handling::Piece,
        MessageType::FragmentContinue => Handling::Piece,
        MessageType::FragmentEnd => Handling::Piece,
        MessageType::KeyExchange => Handling::KeyExchange,
        MessageType::Leave => Handling::Leave,
        MessageType::ChannelAnnounce => Handling::ChannelAnnounce,
        MessageType::DeliveryAck => Handling::DeliveryAck,
        MessageType::ChannelRetention => Handling::Nothing,
        MessageType::DeliveryStatusRequest => Handling::Nothing,
        MessageType::ReadReceipt => Handling::Nothing,
    }
}

/// Whom a packet is for.
#[derive(Debug, Clone, Copy, PartialEq, Eq, Structural)]
pub enum Audience {
    Everyone,
    Me,
    Other,
}

/// Whom a packet is for, as the device `me` sees it.
pub open spec fn audience_of(p: PacketView, me: Seq<char>) -> Audience {
    if p.recipient_id is None || p.recipient_id == Some(BROADCAST_RECIPIENT@) {
        Audience::Everyone
    } else if p.recipient_id_str == Some(me) {
        Audience::Me
    } else {
        Audience::Other
    }
}

/// Whom a packet is for, as the device `me` sees it.
pub fn audience(packet: &BitchatPacket, me: &str) -> (a: Audience)
    ensures
        a == audience_of(packet@, me@),
{
    match &packet.recipient_id {
        None => Audience::Everyone,
        Some(recipient) => if same_bytes(recipient.as_slice(), BROADCAST_RECIPIENT.as_slice()) {
            Audience::Everyone
        } else if is_named(packet, me) {
            Audience::Me
        } else {
            Audience::Other
        },
    }
}

/// Whether a packet names `me` as its recipient.
fn is_named(packet: &BitchatPacket, me: &str) -> (r: bool)
    ensures
        r == (packet@.recipient_id_str == Some(me@)),
{
    match &packet.recipient_id_str {
        Some(recipient) => same_text(recipient.as_str(), me),
        None => false,
    }
}

/// A packet as it is passed on: with one less to live. A packet that has one or none is not
/// passed on.
pub open spec fn relayed(data: Seq<u8>) -> Option<Seq<u8>> {
    if data[2] > 1 {
        Some(data.update(2, (data[2] - 1) as u8))
    } else {
        None
    }
}

/// A packet as it is passed on, where it is.
pub fn relay_copy(data: &[u8]) -> (r: Option<Vec<u8>>)
    requires
        data@.len() > 2,
    ensures
        opt_bytes(r) == relayed(data@),
{
    let ttl: u8 = data[2];
    if ttl > 1 {
        let mut copy = vstd::slice::slice_to_vec(data);
        set_ttl(&mut copy, ttl - 1);
        Some(copy)
    } else {
        None
    }
}

/// Whom `/reply` goes to, an identifier and a nickname, once a chat message from `sender` is shown
/// as `p`. A private message makes it its sender; any other leaves it at `last`.
pub open spec fn reply_target(
    last: Option<(Seq<char>, Seq<char>)>,
    sender: Seq<char>,
    sender_nick: Seq<char>,
    p: Presentation,
) -> Option<(Seq<char>, Seq<char>)> {
    if p is Private {
        Some((sender, sender_nick))
    } else {
        last
    }
}

pub open spec fn owned_pair(p: Option<(String, String)>) -> Option<(Seq<char>, Seq<char>)> {
    match p {
        Some((a, b)) => Some((a@, b@)),
        None => None,
    }
}

/// Whom `/reply` goes to, once a chat message from `sender` is shown as `p`.
pub fn next_reply_target(
    last: Option<(String, String)>,
    sender: &str,
    sender_nick: &str,
    p: &Presentation,
) -> (next: Option<(String, String)>)
    ensures
        owned_pair(next) == reply_target(owned_pair(last), sender@, sender_nick@, *p),
{
    match p {
        Presentation::Private => Some((sender.to_owned(), sender_nick.to_owned())),
        _ => last,
    }
}

/// What became of a chat message, or of a piece of one.
#[derive(Debug, Clone, Copy, PartialEq, Eq, Structural)]
pub enum Fate {
    /// Its sender is blocked, or it could not be decrypted.
    Dropped,
    /// It is for someone else.
    Passed,
    /// The message that it is a piece of is not complete.
    Incomplete,
    /// It makes no sense.
    Unreadable,
    /// It was seen before.
    Repeated,
    /// It is no message.
    Discarded,
    Shown,
}

/// Whether a packet is passed on. A message that arrived in one packet is passed on when it is
/// for someone else or was shown; a piece is passed on unless the message that it completes is
/// dropped or discarded.
pub open spec fn is_passed_on(fate: Fate, is_piece: bool) -> bool {
    if is_piece {
        !(fate is Dropped) && !(fate is Discarded)
    } else {
        fate is Passed || fate is Shown
    }
}

/// The packet `data` as it is passed on, where it is, once `fate` became of it.
pub fn pass_on(fate: Fate, is_piece: bool, data: &[u8]) -> (r: Option<Vec<u8>>)
    requires
        data@.len() > 2,
    ensures
        opt_bytes(r) == if is_passed_on(fate, is_piece) {
            relayed(data@)
        } else {
            None
        },
{
    let goes_on = if is_piece {
        fate != Fate::Dropped && fate != Fate::Discarded
    } else {
        fate == Fate::Passed || fate == Fate::Shown
    };
    if goes_on {
        relay_copy(data)
    } else {
        None
    }
}

/// What happens to a chat message.
#[derive(Debug, Clone, Copy, PartialEq, Eq, Structural)]
pub enum Route {
    /// It goes no further.
    Over(Fate),
    /// It is private, and has to be decrypted.
    Decrypt,
    /// It is read as it is.
    Read,
}

/// What happens to a chat message. One for someone else is passed on and not read. That does
/// not hold of one that arrived in pieces: the pieces are passed on by themselves, and the
/// message is read as if it were for everyone.
pub open spec fn route_of(is_blocked: bool, audience: Audience, is_piece: bool) -> Route {
    if is_blocked {
        Route::Over(Fate::Dropped)
    } else {
        match audience {
            Audience::Everyone => Route::Read,
            Audience::Me => Route::Decrypt,
            Audience::Other => if is_piece {
                Route::Read
            } else {
                Route::Over(Fate::Passed)
            },
        }
    }
}

/// The payload of a private message, or what becomes of it.
pub open spec fn decrypted_payload(decrypted: Option<Seq<u8>>) -> Result<Seq<u8>, Fate> {
    match decrypted {
        Some(bytes) => Ok(unpadded(bytes)),
        None => Err(Fate::Dropped),
    }
}

/// The payload of a private message: what decrypting it gave, without its padding. A private
/// message that cannot be decrypted is dropped.
pub fn private_payload(decrypted: Option<Vec<u8>>) -> (r: Result<Vec<u8>, Fate>)
    ensures
        match r {
            Ok(payload) => decrypted_payload(opt_bytes(decrypted)) == Ok::<Seq<u8>, Fate>(payload@),
            Err(fate) => decrypted_payload(opt_bytes(decrypted)) == Err::<Seq<u8>, Fate>(fate),
        },
{
    match decrypted {
        Some(bytes) => Ok(unpad_message(bytes.as_slice())),
        None => Err(Fate::Dropped),
    }
}

/// The packet that some bytes are, unless we sent it ourselves.
pub open spec fn opened(data: Seq<u8>, me: Seq<char>) -> Option<PacketView> {
    match packet_of(data) {
        Ok(p) => if p.sender_id_str == me {
            None
        } else {
            Some(p)
        },
        Err(_) => None,
    }
}

/// What came of a chat message.
#[derive(Debug)]
pub enum Intake {
    /// It goes no further.
    Over(Fate),
    /// It is new, and its sender is shown by this name.
    New { message: BitchatMessage, sender_nick: String },
}

/// How a chat message is shown.
#[derive(Debug)]
pub enum Presentation {
    /// Not at all: it only hides when there is something to say.
    Discard,
    Private,
    Channel(String),
    Public,
}

/// How a chat message is shown.
pub open spec fn is_shown_as(is_private: bool, channel: Option<Seq<char>>, text: Seq<char>, p: Presentation) -> bool {
    if is_private {
        if starts_with(text, COVER_TRAFFIC_PREFIX@) {
            p is Discard
        } else {
            p is Private
        }
    } else {
        match channel {
            Some(c) => p matches Presentation::Channel(name) && name@ == c,
            None => p is Public,
        }
    }
}

/// How a chat message is shown. Private messages with a certain prefix are no messages.
pub fn present(is_private: bool, channel: Option<&str>, text: &str) -> (p: Presentation)
    ensures
        is_shown_as(is_private, opt_text(channel), text@, p),
{
    if is_private {
        if has_prefix(text, COVER_TRAFFIC_PREFIX) {
            Presentation::Discard
        } else {
            Presentation::Private
        }
    } else {
        match channel {
            Some(c) => Presentation::Channel(c.to_owned()),
            None => Presentation::Public,
        }
    }
}

/// Who has left what.
#[derive(Debug)]
pub enum Departure {
    /// A peer has left a channel. We are told where we are in that channel.
    Channel { nickname: String, channel: String, is_shown: bool },
    /// A peer is gone, with these words.
    Peer(String),
}

/// What happens to a confirmation.
#[derive(Debug, Clone, Copy, PartialEq, Eq, Structural)]
pub enum AckRoute {
    /// It is for us. It may be encrypted, or not.
    Decrypt,
    /// It is for us, and is not encrypted.
    Read,
    /// It is for someone else.
    PassOn,
}

/// What happens to a confirmation. One that came straight from a peer whose key we have may
/// be encrypted.
pub open spec fn ack_route_of(p: PacketView, me: Seq<char>, has_key: bool) -> AckRoute {
    if p.recipient_id_str != Some(me) {
        AckRoute::PassOn
    } else if p.ttl == 3 && has_key {
        AckRoute::Decrypt
    } else {
        AckRoute::Read
    }
}

/// What the packet of a confirmation carries.
pub open spec fn sent_ack(plain: Seq<u8>, is_private: bool, encrypted: Option<Seq<u8>>) -> Seq<u8> {
    if is_private && encrypted is Some {
        encrypted->0
    } else {
        plain
    }
}

/// The confirmation that a packet for us carries.
pub open spec fn read_ack(payload: Seq<u8>, route: AckRoute, decrypted: Option<Seq<u8>>) -> Seq<u8> {
    if route == AckRoute::Decrypt && decrypted is Some {
        decrypted->0
    } else {
        payload
    }
}

/// What the packet of a confirmation carries. `encrypted` is what encrypting the confirmation
/// for its receiver gave, where that succeeded; only that of a private message is sent encrypted.
pub fn ack_payload(plain: Vec<u8>, is_private: bool, encrypted: Option<Vec<u8>>) -> (payload: Vec<u8>)
    ensures
        payload@ == sent_ack(plain@, is_private, opt_bytes(encrypted)),
{
    if is_private {
        match encrypted {
            Some(bytes) => bytes,
            None => plain,
        }
    } else {
        plain
    }
}

/// The confirmation that a packet for us carries. `decrypted` is what decrypting its payload
/// gave, where that succeeded; a payload that is not to be decrypted, or cannot be, is taken as
/// it is.
pub fn received_ack(payload: Vec<u8>, route: AckRoute, decrypted: Option<Vec<u8>>) -> (ack: Vec<u8>)
    ensures
        ack@ == read_ack(payload@, route, opt_bytes(decrypted)),
{
    if route == AckRoute::Decrypt {
        match decrypted {
            Some(bytes) => bytes,
            None => payload,
        }
    } else {
        payload
    }
}

/// What a confirmation that the device `me` sends for a message is known by.
pub open spec fn ack_key(message_id: Seq<char>, me: Seq<char>) -> Seq<char> {
    message_id + seq!['-'] + me
}

/// The chat message that a fragment completes, if it completes one.
pub open spec fn completed(
    c: CollectorView,
    f: FragmentView,
    sender: Seq<char>,
) -> (CollectorView, Option<PacketView>) {
    let (after, done) = collect(c, f.fragment_id, f.index, f.total, f.original_type, f.data, sender);
    (
        after,
        match done {
            Some((data, _)) => match packet_of(data) {
                Ok(p) => if p.msg_type is Message {
                    Some(p)
                } else {
                    None
                },
                Err(_) => None,
            },
            None => None,
        },
    )
}

/// A confirmation says that the message `message_id` has reached the device `me`. It has a random
/// identifier of its own.
pub open spec fn confirms(
    ack: DeliveryAck,
    message_id: Seq<char>,
    me: Seq<char>,
    nickname: Seq<char>,
) -> bool {
    &&& ack.original_message_id@ == message_id
    &&& exists|id: Seq<u8>| is_random_uuid(id) && ack.ack_id@ == #[trigger] uuid_text(id)
    &&& ack.recipient_id@ == me
    &&& ack.recipient_nickname@ == nickname
    &&& ack.hop_count == 1
}

/// From `before` to `after` a message was confirmed by `r`, where that was due and was not done
/// before; and nothing else changed.
pub open spec fn confirmed(
    before: Client,
    message: MessageView,
    is_private: bool,
    r: Option<DeliveryAck>,
    after: Client,
) -> bool {
    let key = ack_key(message.id, before.my_peer_id@);
    let sent = before.deliveries.sent_acks@;
    if ack_is_due(is_private, message.channel is Some, false, before.peers@.len() as int) {
        &&& after.deliveries.sent_acks@ == sent.insert(key)
        &&& after.deliveries.pending_messages@ == before.deliveries.pending_messages@
        &&& after == (Client { deliveries: after.deliveries, ..before })
        &&& r is Some <==> !sent.contains(key)
        &&& r matches Some(ack) ==> confirms(ack, message.id, before.my_peer_id@, before.nickname@)
    } else {
        r is None && after == before
    }
}

/// From `before` to `after` the chat message `payload` was taken in from `sender`, and `r` came
/// of it. A message that makes no sense, or was seen before, changes nothing.
pub open spec fn takes(before: Client, sender: Seq<char>, payload: Seq<u8>, r: Intake, after: Client) -> bool {
    match message_of(payload) {
        Err(_) => r == Intake::Over(Fate::Unreadable) && after == before,
        Ok(m) => if before.seen@.contains(m.id) {
            r == Intake::Over(Fate::Repeated) && after == before
        } else {
            &&& r matches Intake::New { message, sender_nick }
            &&& message@ == m
            &&& sender_nick@ == shown_name(before.peers@, sender)
            &&& after.channels@ == with_message(before.channels@, m)
            &&& after.seen@ == before.seen.with(m.id)
            &&& after.seen@.contains(m.id)
            &&& before.seen@.subset_of(after.seen@)
            &&& after.seen.bits() == before.seen.bits()
            &&& after.seen.rounds() == before.seen.rounds()
            &&& after == (Client { channels: after.channels, seen: after.seen, ..before })
        },
    }
}

/// What is done with a chat message whose text is known.
#[derive(Debug)]
pub struct Settlement {
    pub presentation: Presentation,
    pub fate: Fate,
    /// The confirmation that its sender gets.
    pub ack: Option<DeliveryAck>,
}

/// From `before` to `after` it was decided what is done with a chat message whose text is known. One
/// that is discarded is not confirmed, and neither is one that arrived in pieces.
pub open spec fn settled(
    before: Client,
    message: MessageView,
    text: Seq<char>,
    is_private: bool,
    is_piece: bool,
    r: Settlement,
    after: Client,
) -> bool {
    &&& is_shown_as(is_private, message.channel, text, r.presentation)
    &&& r.fate == if r.presentation is Discard {
        Fate::Discarded
    } else {
        Fate::Shown
    }
    &&& if r.presentation is Discard || is_piece {
        r.ack is None && after == before
    } else {
        confirmed(before, message, is_private, r.ack, after)
    }
}

/// From `before` to `after` a peer said what it calls itself: `nickname`. Until then it was unknown
/// where `is_new` says so.
pub open spec fn hears_nickname(
    before: Client,
    p: PacketView,
    nickname: Seq<char>,
    is_new: bool,
    after: Client,
) -> bool {
    &&& nickname == trimmed(text_of(p.payload))
    &&& is_new == !before.peers@.contains_key(p.sender_id_str)
    &&& after.peers@ == before.peers@.insert(p.sender_id_str, Some(nickname))
    &&& after == (Client { peers: after.peers, ..before })
}

/// From `before` to `after` a peer left a channel, which changes nothing, or for good.
pub open spec fn departs(before: Client, p: PacketView, mode: ModeView, r: Departure, after: Client) -> bool {
    let text = trimmed(text_of(p.payload));
    if text.len() > 0 && text[0] == '#' {
        &&& r matches Departure::Channel { nickname, channel, is_shown }
        &&& nickname@ == shown_name(before.peers@, p.sender_id_str)
        &&& channel@ == text
        &&& is_shown == (mode.channel() == Some(text))
        &&& after == before
    } else {
        &&& r matches Departure::Peer(words)
        &&& words@ == text
        &&& after.peers@ == before.peers@.remove(p.sender_id_str)
        &&& after == (Client { peers: after.peers, ..before })
    }
}

/// From `before` to `after` the channel `r` was announced; an announcement that makes no sense
/// changes nothing.
pub open spec fn hears_of_channel(before: Client, p: PacketView, r: Option<String>, after: Client) -> bool {
    match announcement_of(p.payload) {
        Some(a) => {
            &&& r matches Some(channel)
            &&& channel@ == a.channel
            &&& after.channels@ == with_announcement(before.channels@, a)
            &&& after == (Client { channels: after.channels, ..before })
        },
        None => r is None && after == before,
    }
}

/// From `before` to `after` a confirmation was taken in, which reached the peer `r` where the
/// message was waited for.
pub open spec fn is_delivered(before: Client, ack: DeliveryAck, r: Option<String>, after: Client) -> bool {
    let pending = before.deliveries.pending_messages@;
    &&& r is Some <==> pending.contains_key(ack.original_message_id@)
    &&& r matches Some(nickname) ==> nickname@ == ack.recipient_nickname@
    &&& after.deliveries.pending_messages@ == pending.remove(ack.original_message_id@)
    &&& after.deliveries.sent_acks@ == before.deliveries.sent_acks@
    &&& after == (Client { deliveries: after.deliveries, ..before })
}

/// From `before` to `after` a fragment was taken in, which completed the chat message `r`, or none.
pub open spec fn takes_piece(
    before: Client,
    p: PacketView,
    r: Result<BitchatPacket, Fate>,
    after: Client,
) -> bool {
    match fragment_of(p.payload) {
        Some(f) => {
            let (kept, done) = completed(before.fragments@, f, p.sender_id_str);
            &&& after.fragments@ == kept
            &&& match r {
                Ok(whole) => done == Some(whole@),
                Err(fate) => done is None && fate == Fate::Incomplete,
            }
            &&& after == (Client { fragments: after.fragments, ..before })
        },
        None => r == Err::<BitchatPacket, Fate>(Fate::Incomplete) && after == before,
    }
}

impl Client {
    /// The packet that some bytes are, unless we sent it ourselves.
    pub fn open_packet(&self, data: &[u8]) -> (r: Option<BitchatPacket>)
        ensures
            match r {
                Some(p) => opened(data@, self.my_peer_id@) == Some(p@),
                None => opened(data@, self.my_peer_id@) is None,
            },
    {
        match parse_bitchat_packet(data) {
            Ok(packet) => if same_text(packet.sender_id_str.as_str(), self.my_peer_id.as_str()) {
                None
            } else {
                Some(packet)
            },
            Err(_) => None,
        }
    }

    /// Whether a peer with this fingerprint, if it has one, is blocked.
    pub open spec fn blocks(&self, fingerprint: Option<Seq<char>>) -> bool {
        fingerprint matches Some(f) && self.blocked_peers@.contains_key(f)
    }

    /// Whether a peer with this fingerprint, if it has one, is blocked.
    pub fn is_blocked(&self, fingerprint: Option<&str>) -> (r: bool)
        ensures
            r == self.blocks(opt_text(fingerprint)),
    {
        match fingerprint {
            Some(f) => self.blocked_peers.contains_key(f),
            None => false,
        }
    }

    /// What happens to a chat message, which arrived in pieces where `is_piece` says so.
    /// `fingerprint` is that of its sender.
    pub fn route_message(&self, packet: &BitchatPacket, fingerprint: Option<&str>, is_piece: bool) -> (r: Route)
        ensures
            r == route_of(self.blocks(opt_text(fingerprint)), audience_of(packet@, self.my_peer_id@), is_piece),
    {
        if self.is_blocked(fingerprint) {
            return Route::Over(Fate::Dropped);
        }
        match audience(packet, self.my_peer_id.as_str()) {
            Audience::Everyone => Route::Read,
            Audience::Me => Route::Decrypt,
            Audience::Other => if is_piece {
                Route::Read
            } else {
                Route::Over(Fate::Passed)
            },
        }
    }

    /// Takes a chat message in. The mentions of the message must stay within it.
    pub fn take_message(&mut self, sender: &str, payload: &[u8]) -> (r: Intake)
        requires
            mentions_fit(payload@),
        ensures
            takes(*old(self), sender@, payload@, r, *final(self)),
    {
        let message = match parse_bitchat_message_payload(payload) {
            Ok(m) => m,
            Err(_) => return Intake::Over(Fate::Unreadable),
        };
        if self.seen.contains(&message.id) {
            return Intake::Over(Fate::Repeated);
        }
        self.seen.insert(&message.id);
        self.channels.note_message(&message);
        let sender_nick = self.peers.display_name(sender);
        Intake::New { message, sender_nick }
    }

    /// Takes a fragment in. Gives the chat message that it completes; one that completes none goes
    /// no further.
    pub fn take_fragment(&mut self, packet: &BitchatPacket) -> (r: Result<BitchatPacket, Fate>)
        requires
            packet.msg_type.spec_is_fragment(),
        ensures
            takes_piece(*old(self), packet@, r, *final(self)),
    {
        let fragment_type = match packet.msg_type {
            MessageType::FragmentStart => FragmentType::Start,
            MessageType::FragmentEnd => FragmentType::End,
            _ => FragmentType::Continue,
        };
        let fragment = match parse_fragment(fragment_type, packet.payload.as_slice()) {
            Some(f) => f,
            None => return Err(Fate::Incomplete),
        };
        let done = self.fragments.add_fragment(
            fragment.fragment_id,
            fragment.index,
            fragment.total,
            fragment.original_type,
            fragment.data,
            packet.sender_id_str.clone(),
        );
        if let Some((data, _)) = done {
            if let Ok(whole) = parse_bitchat_packet(data.as_slice()) {
                if whole.msg_type == MessageType::Message {
                    return Ok(whole);
                }
            }
        }
        Err(Fate::Incomplete)
    }

    /// Confirms a chat message, where that is due and was not done before.
    pub fn confirm(&mut self, message: &BitchatMessage, is_private: bool) -> (r: Option<DeliveryAck>)
        ensures
            confirmed(*old(self), message@, is_private, r, *final(self)),
    {
        let channel: Option<&str> = match &message.channel {
            Some(c) => Some(c.as_str()),
            None => None,
        };
        if !should_send_ack(is_private, channel, None, self.nickname.as_str(), self.peers.len()) {
            return None;
        }
        proof {
            reveal_strlit("-");
            assert("-"@ =~= seq!['-']);
        }
        let key = joined(joined(message.id.as_str(), "-").as_str(), self.my_peer_id.as_str());
        if self.deliveries.should_send_ack(key.as_str()) {
            Some(create_delivery_ack(message.id.as_str(), self.my_peer_id.as_str(), self.nickname.as_str(), 1))
        } else {
            None
        }
    }

    /// Decides what is done with a chat message whose text is known: how it is shown, whether it is
    /// passed on, and whether it is confirmed. One that is discarded is not confirmed, and neither
    /// is one that arrived in pieces.
    pub fn settle(&mut self, message: &BitchatMessage, text: &str, is_private: bool, is_piece: bool) -> (r: Settlement)
        ensures
            settled(*old(self), message@, text@, is_private, is_piece, r, *final(self)),
    {
        let channel: Option<&str> = match &message.channel {
            Some(c) => Some(c.as_str()),
            None => None,
        };
        let presentation = present(is_private, channel, text);
        if let Presentation::Discard = &presentation {
            return Settlement { presentation, fate: Fate::Discarded, ack: None };
        }
        let ack = if is_piece {
            None
        } else {
            self.confirm(message, is_private)
        };
        Settlement { presentation, fate: Fate::Shown, ack }
    }

    /// The packet that takes a confirmation to the peer `to`. It travels no further than three
    /// hops.
    pub fn ack_packet(&self, to: &str, payload: Vec<u8>) -> (packet: Vec<u8>)
        requires
            self.valid(),
        ensures
            exists|now: u64|
                packet@ == (#[trigger] packet_bytes(
                    now,
                    self.my_peer_id@,
                    Some(to@),
                    MessageType::DeliveryAck,
                    payload@,
                    None,
                )).update(2, 3),
    {
        let ghost bytes = payload@;
        let mut packet = create_bitchat_packet_with_recipient(
            self.my_peer_id.as_str(),
            Some(to),
            MessageType::DeliveryAck,
            payload,
            None,
        );
        proof {
            let now = choose|now: u64|
                packet@ == #[trigger] packet_bytes(
                    now,
                    self.my_peer_id@,
                    Some(to@),
                    MessageType::DeliveryAck,
                    bytes,
                    None,
                );
            header_is_there(now, self.my_peer_id@, Some(to@), MessageType::DeliveryAck, bytes, None);
        }
        set_ttl(&mut packet, 3);
        packet
    }

    /// Takes in what a peer calls itself. Gives the nickname, and whether the peer was unknown.
    pub fn take_announce(&mut self, packet: &BitchatPacket) -> (r: (String, bool))
        ensures
            hears_nickname(*old(self), packet@, r.0@, r.1, *final(self)),
    {
        let nickname = trim_text(lossy_text(packet.payload.as_slice()).as_str());
        let is_new = self.peers.set_nickname(packet.sender_id_str.as_str(), nickname.clone());
        (nickname, is_new)
    }

    /// Whether a key exchange is answered with our own key: only to a peer that we do not know.
    pub fn answers_key_exchange(&self, packet: &BitchatPacket) -> (r: bool)
        ensures
            r == !self.peers@.contains_key(packet@.sender_id_str),
    {
        !self.peers.contains(packet.sender_id_str.as_str())
    }

    /// Takes in that a peer has left a channel, or for good.
    pub fn take_leave(&mut self, packet: &BitchatPacket, mode: &ChatMode) -> (r: Departure)
        ensures
            departs(*old(self), packet@, mode@, r, *final(self)),
    {
        let text = trim_text(lossy_text(packet.payload.as_slice()).as_str());
        if !text.as_str().is_empty() && text.as_str().get_char(0) == '#' {
            let is_shown = match mode.get_channel() {
                Some(current) => same_text(current, text.as_str()),
                None => false,
            };
            Departure::Channel {
                nickname: self.peers.display_name(packet.sender_id_str.as_str()),
                channel: text,
                is_shown,
            }
        } else {
            self.peers.remove(packet.sender_id_str.as_str());
            Departure::Peer(text)
        }
    }

    /// Takes in the announcement of a channel. Gives the name of the channel, where the
    /// announcement makes sense.
    pub fn take_channel_announce(&mut self, packet: &BitchatPacket) -> (r: Option<String>)
        ensures
            hears_of_channel(*old(self), packet@, r, *final(self)),
    {
        match parse_channel_announce(packet.payload.as_slice()) {
            Some(a) => {
                self.channels.note_announcement(&a);
                Some(a.channel)
            },
            None => None,
        }
    }

    /// What happens to a confirmation. `has_key` says whether we have the key of its sender.
    pub fn route_ack(&self, packet: &BitchatPacket, has_key: bool) -> (r: AckRoute)
        ensures
            r == ack_route_of(packet@, self.my_peer_id@, has_key),
    {
        if !is_named(packet, self.my_peer_id.as_str()) {
            AckRoute::PassOn
        } else if packet.ttl == 3 && has_key {
            AckRoute::Decrypt
        } else {
            AckRoute::Read
        }
    }

    /// Takes a confirmation in. Gives the nickname of the peer that our message has reached,
    /// where the message was waited for.
    pub fn take_ack(&mut self, ack: &DeliveryAck) -> (r: Option<String>)
        ensures
            is_delivered(*old(self), *ack, r, *final(self)),
    {
        if self.deliveries.mark_delivered(ack.original_message_id.as_str()) {
            Some(ack.recipient_nickname.clone())
        } else {
            None
        }
    }
}

/// Passing a packet on changes nothing that is read from it but the time that it has to live,
/// which gets less by one.
pub proof fn relaying_keeps_the_packet(data: Seq<u8>)
    requires
        data.len() > 2,
        data[2] > 1,
    ensures
        match packet_of(data) {
            Ok(p) => packet_of(relayed(data)->0) == Ok::<PacketView, Seq<char>>(
                PacketView { ttl: (p.ttl - 1) as u8, ..p },
            ),
            Err(e) => packet_of(relayed(data)->0) == Err::<PacketView, Seq<char>>(e),
        },
{
    ttl_is_separate(data, (data[2] - 1) as u8);
}

/// A packet once it was passed on `n` times.
pub open spec fn relayed_times(data: Seq<u8>, n: nat) -> Option<Seq<u8>>
    decreases n,
{
    if n == 0 {
        Some(data)
    } else {
        match relayed_times(data, (n - 1) as nat) {
            Some(d) => relayed(d),
            None => None,
        }
    }
}

/// No packet is passed on for ever: one with `t` to live is passed on `t - 1` times and no more.
pub proof fn relaying_ends(data: Seq<u8>, n: nat)
    requires
        data.len() > 2,
    ensures
        relayed_times(data, n) is Some <==> n == 0 || n < data[2],
        relayed_times(data, n) matches Some(d) ==> d == data.update(2, (data[2] - n) as u8),
    decreases n,
{
    if n == 0 {
        assert(data.update(2, data[2]) =~= data);
    } else {
        relaying_ends(data, (n - 1) as nat);
        if relayed_times(data, n) is Some {
            assert(relayed_times(data, n)->0 =~= data.update(2, (data[2] - n) as u8));
        }
    }
}

/// What a device sends itself it never opens, however it comes back. Devices are known by the
/// hexadecimal digits of four bytes.
pub proof fn own_packets_are_not_opened(
    id: Seq<u8>,
    timestamp_ms: u64,
    recipient: Option<Seq<char>>,
    t: MessageType,
    payload: Seq<u8>,
    signature: Option<Seq<u8>>,
    ttl: u8,
)
    requires
        id.len() == 4,
    ensures
        opened(
            packet_bytes(timestamp_ms, hex_text(id), recipient, t, payload, signature).update(2, ttl),
            hex_text(id),
        ) is None,
{
    let data = packet_bytes(timestamp_ms, hex_text(id), recipient, t, payload, signature).update(2, ttl);
    sender_text_survives(id);
    assert(data.subrange(12, 16) =~= sender_field(hex_text(id)));
}

/// A packet without a recipient is for everyone.
pub proof fn broadcasts_are_for_everyone(
    timestamp_ms: u64,
    sender: Seq<char>,
    t: MessageType,
    payload: Seq<u8>,
    signature: Option<Seq<u8>>,
    me: Seq<char>,
)
    requires
        is_sender(sender),
        signature matches Some(s) ==> s.len() == 64,
    ensures
        packet_of(packet_bytes(timestamp_ms, sender, None, t, payload, signature)) matches Ok(p) && audience_of(p, me)
            == Audience::Everyone,
{
    packet_round_trip(timestamp_ms, sender, None, t, payload, signature);
}

/// A packet for the device with the eight bytes `id` is for that device and for no other. Devices
/// with identifiers of four bytes are another matter: see `short_recipients_are_misread`.
pub proof fn addressed_packets_reach_their_recipient(
    timestamp_ms: u64,
    sender: Seq<char>,
    id: Seq<u8>,
    t: MessageType,
    payload: Seq<u8>,
    signature: Option<Seq<u8>>,
    other: Seq<char>,
)
    requires
        is_sender(sender),
        signature matches Some(s) ==> s.len() == 64,
        !t.spec_is_fragment(),
        id.len() == 8,
        id != BROADCAST_RECIPIENT@,
        other != hex_text(id),
    ensures
        packet_of(packet_bytes(timestamp_ms, sender, Some(hex_text(id)), t, payload, signature)) matches Ok(p)
            && audience_of(p, hex_text(id)) == Audience::Me && audience_of(p, other) == Audience::Other,
{
    hex_round_trip(id);
    packet_round_trip(timestamp_ms, sender, Some(hex_text(id)), t, payload, signature);
}

/// A public message, or one in a channel, is read by everyone who receives its packet, as its
/// sender wrote it.
pub proof fn sent_messages_are_read(
    now: u64,
    sender: Seq<char>,
    id: Seq<u8>,
    content: Seq<char>,
    channel: Option<Seq<char>>,
    sender_peer_id: Seq<char>,
    signature: Seq<u8>,
    me: Seq<char>,
)
    requires
        is_sender(sender),
        is_sender(sender_peer_id),
        id.len() == 16,
        channel matches Some(c) ==> encode_utf8(c).len() <= 255,
        signature.len() == 64,
    ensures
        ({
            let payload = plain_message_bytes(id, content, channel, false, sender_peer_id);
            let data = packet_bytes(now, sender, None, MessageType::Message, payload, Some(signature));
            &&& packet_of(data) matches Ok(p)
            &&& p.msg_type is Message
            &&& route_of(false, audience_of(p, me), false) == Route::Read
            &&& mentions_fit(p.payload)
            &&& message_of(p.payload) == Ok::<MessageView, Seq<char>>(
                MessageView {
                    id: hex_text(id),
                    content,
                    channel,
                    is_encrypted: false,
                    encrypted_content: None,
                },
            )
        }),
{
    let payload = plain_message_bytes(id, content, channel, false, sender_peer_id);
    packet_round_trip(now, sender, None, MessageType::Message, payload, Some(signature));
    plain_message_round_trip(id, content, channel, false, sender_peer_id);
}

/// A packet for a device with an identifier of four bytes is not read as it was written, because
/// its reader takes a recipient to be eight bytes. The first four bytes of what follows, which is
/// the signature or, where there is none, the payload, count as part of the recipient, and the
/// first four bytes of the payload are lost. So the packet is for no device with an identifier of
/// four bytes, and for everyone where the eight bytes happen to say so. A packet with less than
/// four bytes of payload cannot be read at all.
#[verifier::spinoff_prover]
pub proof fn short_recipients_are_misread(
    timestamp_ms: u64,
    sender: Seq<char>,
    id: Seq<u8>,
    t: MessageType,
    payload: Seq<u8>,
    signature: Option<Seq<u8>>,
    me: Seq<u8>,
)
    requires
        is_sender(sender),
        signature matches Some(s) ==> s.len() == 64,
        !t.spec_is_fragment(),
        id.len() == 4,
        me.len() == 4,
    ensures
        ({
            let data = packet_bytes(timestamp_ms, sender, Some(hex_text(id)), t, payload, signature);
            let recipient = id + match signature {
                Some(s) => s.take(4),
                None => payload.take(4),
            };
            if payload.len() < 4 {
                packet_of(data) == Err::<PacketView, Seq<char>>(
                    if signature is Some {
                        "Packet too short for signature"@
                    } else {
                        "Packet too short for recipient ID"@
                    },
                )
            } else {
                &&& packet_of(data) == Ok::<PacketView, Seq<char>>(
                    PacketView {
                        msg_type: t,
                        sender_id: sender_field(sender),
                        sender_id_str: hex_text(sender_field(sender)),
                        recipient_id: Some(recipient),
                        recipient_id_str: Some(hex_text(recipient)),
                        payload: payload.skip(4),
                        ttl: 7,
                    },
                )
                &&& audience_of(packet_of(data)->Ok_0, hex_text(me)) == if recipient == BROADCAST_RECIPIENT@ {
                    Audience::Everyone
                } else {
                    Audience::Other
                }
            }
        }),
{
    hex_round_trip(id);
    if payload.len() < 4 {
        short_payloads_are_refused(timestamp_ms, sender, Some(hex_text(id)), t, payload, signature);
    } else {
        let (recipient, shifted) = match signature {
            Some(s) => (id + s.take(4), Some(s.skip(4) + payload.take(4))),
            None => (id + payload.take(4), None),
        };
        short_recipients_are_shifted(timestamp_ms, sender, id, t, payload, signature);
        hex_round_trip(recipient);
        packet_round_trip(timestamp_ms, sender, Some(hex_text(recipient)), t, payload.skip(4), shifted);
        assert(hex_text(recipient).len() == 16);
        assert(hex_text(me).len() == 8);
    }
}

/// The bytes of a packet for a device with an identifier of four bytes are also those of a packet
/// for a device with an identifier of eight, whose parts begin four bytes later.
#[verifier::spinoff_prover]
proof fn short_recipients_are_shifted(
    timestamp_ms: u64,
    sender: Seq<char>,
    id: Seq<u8>,
    t: MessageType,
    payload: Seq<u8>,
    signature: Option<Seq<u8>>,
)
    requires
        signature matches Some(s) ==> s.len() == 64,
        !t.spec_is_fragment(),
        id.len() == 4,
        payload.len() >= 4,
    ensures
        ({
            let (recipient, shifted) = match signature {
                Some(s) => (id + s.take(4), Some(s.skip(4) + payload.take(4))),
                None => (id + payload.take(4), None),
            };
            packet_bytes(timestamp_ms, sender, Some(hex_text(id)), t, payload, signature) == packet_bytes(
                timestamp_ms,
                sender,
                Some(hex_text(recipient)),
                t,
                payload.skip(4),
                shifted,
            )
        }),
{
    let head = seq![0x01u8, t.spec_code(), 7u8] + be_u64(timestamp_ms) + seq![packet_flags(t, signature is Some)]
        + sender_field(sender);
    hex_round_trip(id);
    match signature {
        Some(s) => {
            hex_round_trip(id + s.take(4));
            parts_can_be_regrouped(head, id, s, payload);
        },
        None => {
            hex_round_trip(id + payload.take(4));
            parts_can_be_regrouped(head, id, payload, Seq::empty());
            assert(payload.skip(4) + Seq::<u8>::empty() =~= payload.skip(4));
            assert(head + id + Seq::<u8>::empty() + payload =~= head + id + payload + Seq::<u8>::empty());
            assert(head + (id + payload.take(4)) + Seq::<u8>::empty() + payload.skip(4) =~= head + (id
                + payload.take(4)) + payload.skip(4) + Seq::<u8>::empty());
        },
    }
}

/// Four bytes can be counted with what stands before or behind them.
proof fn parts_can_be_regrouped(head: Seq<u8>, id: Seq<u8>, middle: Seq<u8>, tail: Seq<u8>)
    requires
        middle.len() >= 4,
    ensures
        head + id + middle + tail == head + (id + middle.take(4)) + middle.skip(4) + tail,
        tail.len() >= 4 ==> head + id + middle + tail == head + (id + middle.take(4)) + (middle.skip(4)
            + tail.take(4)) + tail.skip(4),
{
    assert(head + id + middle + tail =~= head + (id + middle.take(4)) + middle.skip(4) + tail);
    if tail.len() >= 4 {
        assert(head + id + middle + tail =~= head + (id + middle.take(4)) + (middle.skip(4) + tail.take(4))
            + tail.skip(4));
    }
}

/// A packet with a recipient of four bytes and less than four bytes of payload is too short.
#[verifier::spinoff_prover]
proof fn short_payloads_are_refused(
    timestamp_ms: u64,
    sender: Seq<char>,
    recipient: Option<Seq<char>>,
    t: MessageType,
    payload: Seq<u8>,
    signature: Option<Seq<u8>>,
)
    requires
        is_sender(sender),
        signature matches Some(s) ==> s.len() == 64,
        !t.spec_is_fragment(),
        recipient_field(t, recipient).len() == 4,
        payload.len() < 4,
    ensures
        packet_of(packet_bytes(timestamp_ms, sender, recipient, t, payload, signature)) == Err::<
            PacketView,
            Seq<char>,
        >(
            if signature is Some {
                "Packet too short for signature"@
            } else {
                "Packet too short for recipient ID"@
            },
        ),
{
    let data = packet_bytes(timestamp_ms, sender, recipient, t, payload, signature);
    let flags = packet_flags(t, signature is Some);
    assert(has_recipient(flags) && has_signature(flags) == (signature is Some)) by {
        assert(0x01u8 & 0x01u8 != 0 && 0x01u8 & 0x02u8 == 0 && (0x01u8 | 0x02u8) & 0x01u8 != 0 && (0x01u8
            | 0x02u8) & 0x02u8 != 0) by (bit_vector);
    }
    message_type_round_trip(t, 0);
    assert(sender_field(sender).len() == 4);
    assert(data[1] == t.spec_code());
    assert(data[11] == flags);
}

/// A private message is read by the device that it is for as its sender wrote it, once what was
/// padded and encrypted is decrypted, where that device has an identifier of eight bytes. Its
/// packet is decrypted by that device and passed on by every other. It says nothing of devices
/// that `new_peer_id` named, whose identifiers have four bytes: what becomes of packets for those
/// `short_recipients_are_misread` says.
pub proof fn private_messages_are_read(
    now: u64,
    sender: Seq<char>,
    recipient: Seq<u8>,
    id: Seq<u8>,
    content: Seq<char>,
    sealed: Seq<u8>,
    padding: u8,
    signature: Seq<u8>,
    other: Seq<char>,
)
    requires
        is_sender(sender),
        recipient.len() == 8,
        recipient != BROADCAST_RECIPIENT@,
        other != hex_text(recipient),
        id.len() == 16,
        padding > 0,
        signature.len() == 64,
    ensures
        ({
            let data = packet_bytes(
                now,
                sender,
                Some(hex_text(recipient)),
                MessageType::Message,
                sealed,
                Some(signature),
            );
            &&& packet_of(data) matches Ok(p)
            &&& p.payload == sealed
            &&& route_of(false, audience_of(p, hex_text(recipient)), false) == Route::Decrypt
            &&& route_of(false, audience_of(p, other), false) == Route::Over(Fate::Passed)
        }),
        ({
            let padded = plain_message_bytes(id, content, None, true, sender) + Seq::new(
                padding as nat,
                |i: int| padding,
            );
            &&& mentions_fit(unpadded(padded))
            &&& message_of(unpadded(padded)) == Ok::<MessageView, Seq<char>>(
                MessageView {
                    id: hex_text(id),
                    content,
                    channel: None,
                    is_encrypted: false,
                    encrypted_content: None,
                },
            )
        }),
{
    hex_round_trip(recipient);
    packet_round_trip(now, sender, Some(hex_text(recipient)), MessageType::Message, sealed, Some(signature));
    plain_message_round_trip(id, content, None, true, sender);
    unpad_undoes_pad(plain_message_bytes(id, content, None, true, sender), padding);
}

/// A message that was encrypted for a channel reaches everyone. Those who have the key of the
/// channel have what they need to open it; the others are told that they need the password.
pub proof fn sealed_messages_reach_key_holders(
    now: u64,
    sender: Seq<char>,
    id: Seq<u8>,
    channel: Seq<char>,
    sealed: Seq<u8>,
    signature: Seq<u8>,
    me: Seq<char>,
    keys: Map<Seq<char>, Seq<u8>>,
)
    requires
        is_sender(sender),
        id.len() == 16,
        encode_utf8(channel).len() <= 255,
        signature.len() == 64,
    ensures
        ({
            let payload = sealed_message_bytes(id, channel, Some(sealed), sender);
            let data = packet_bytes(now, sender, None, MessageType::Message, payload, Some(signature));
            &&& packet_of(data) matches Ok(p)
            &&& route_of(false, audience_of(p, me), false) == Route::Read
            &&& mentions_fit(p.payload)
            &&& message_of(p.payload) matches Ok(m)
            &&& body_of(keys, m, false) == if keys.contains_key(channel) {
                BodyView::Sealed { bytes: sealed, key: keys[channel] }
            } else {
                BodyView::Readable("[Encrypted message - join channel with password]"@)
            }
        }),
{
    let payload = sealed_message_bytes(id, channel, Some(sealed), sender);
    packet_round_trip(now, sender, None, MessageType::Message, payload, Some(signature));
    sealed_message_round_trip(id, channel, sealed, sender);
}

/// The nickname that a user chooses with `/name` is the one that peers read from the packet
/// that announces it.
pub proof fn chosen_nicknames_are_read(packet: Seq<u8>, sender: Seq<char>, rest: Seq<char>, name: Seq<char>)
    requires
        is_sender(sender),
        rename_of(rest) == CommandView::Rename(name),
        announces(packet, sender, name),
    ensures
        ({
            &&& packet_of(packet) matches Ok(p)
            &&& p.msg_type is Announce
            &&& p.sender_id_str == hex_text(sender_field(sender))
            &&& trimmed(text_of(p.payload)) == name
        }),
{
    let now = choose|now: u64|
        packet == #[trigger] packet_bytes(now, sender, None, MessageType::Announce, encode_utf8(name), None);
    packet_round_trip(now, sender, None, MessageType::Announce, encode_utf8(name), None);
    vstd::utf8::encode_utf8_valid_utf8(name);
    vstd::utf8::encode_utf8_decode_utf8(name);
    trimming_is_final(rest);
}

/// After a private message is shown, and until another is, `/reply` leads to a conversation with
/// its sender.
pub proof fn replies_go_to_the_last_private_sender(
    last: Option<(Seq<char>, Seq<char>)>,
    sender: Seq<char>,
    sender_nick: Seq<char>,
    channel: Option<Seq<char>>,
    text: Seq<char>,
    shown: Presentation,
    others: Seq<(Seq<char>, Seq<char>, Presentation)>,
    c: Client,
    mode: ModeView,
    action: Action,
)
    requires
        is_shown_as(true, channel, text, shown),
        !starts_with(text, COVER_TRAFFIC_PREFIX@),
        forall|k: int| 0 <= k < others.len() ==> !((#[trigger] others[k]).2 is Private),
        leads_to(
            c,
            CommandView::Reply,
            mode,
            reply_target_after(reply_target(last, sender, sender_nick, shown), others),
            action,
        ),
    ensures
        action matches Action::EnterDm { nickname, peer_id } && nickname@ == sender_nick && peer_id@ == sender,
{
    others_keep_the_target(reply_target(last, sender, sender_nick, shown), others);
}

/// Whom `/reply` goes to once chat messages were shown one after the other: from whom, by what
/// name, and how.
pub open spec fn reply_target_after(
    last: Option<(Seq<char>, Seq<char>)>,
    shown: Seq<(Seq<char>, Seq<char>, Presentation)>,
) -> Option<(Seq<char>, Seq<char>)>
    decreases shown.len(),
{
    if shown.len() == 0 {
        last
    } else {
        reply_target(
            reply_target_after(last, shown.drop_last()),
            shown.last().0,
            shown.last().1,
            shown.last().2,
        )
    }
}

proof fn others_keep_the_target(
    last: Option<(Seq<char>, Seq<char>)>,
    others: Seq<(Seq<char>, Seq<char>, Presentation)>,
)
    requires
        forall|k: int| 0 <= k < others.len() ==> !((#[trigger] others[k]).2 is Private),
    ensures
        reply_target_after(last, others) == last,
    decreases others.len(),
{
    if others.len() > 0 {
        let rest = others.drop_last();
        assert forall|k: int| 0 <= k < rest.len() implies !((#[trigger] rest[k]).2 is Private) by {
            assert(rest[k] == others[k]);
        }
        others_keep_the_target(last, rest);
        assert(!(others[others.len() - 1].2 is Private));
    }
}

/// A chat message that was taken in: what the client was before, and what came of it.
pub struct Taking {
    pub before: Client,
    pub sender: Seq<char>,
    pub payload: Seq<u8>,
    pub result: Intake,
    pub after: Client,
}

/// Chat messages were taken in one after the other. In between the client may have done anything
/// that leaves the messages that count as seen as they are; nothing else that it does changes
/// those.
pub open spec fn taken_in_turn(history: Seq<Taking>) -> bool {
    &&& forall|k: int|
        #![trigger history[k]]
        0 <= k < history.len() ==> takes(
            history[k].before,
            history[k].sender,
            history[k].payload,
            history[k].result,
            history[k].after,
        )
    &&& forall|k: int, next: int|
        #![trigger history[k], history[next]]
        0 <= k < history.len() - 1 && next == k + 1 ==> history[next].before.seen@ == history[k].after.seen@
}

/// What counts as seen at some time counts as seen before every later taking.
proof fn seen_messages_stay_seen(history: Seq<Taking>, id: Seq<char>, i: int, j: int)
    requires
        taken_in_turn(history),
        0 <= i < j < history.len(),
        history[i].after.seen@.contains(id),
    ensures
        history[j].before.seen@.contains(id),
    decreases j - i,
{
    assert(history[i + 1].before.seen@ == history[i].after.seen@);
    if i + 1 < j {
        assert(history[i + 1].after.seen@.contains(id));
        seen_messages_stay_seen(history, id, i + 1, j);
    }
}

/// A message that is taken in twice is new at most the first time: the second time it counts as
/// repeated, whoever it comes from then and whatever was taken in since.
pub proof fn messages_are_new_once(history: Seq<Taking>, i: int, j: int)
    requires
        taken_in_turn(history),
        0 <= i < j < history.len(),
        message_of(history[i].payload) is Ok,
        message_of(history[j].payload) is Ok,
        message_of(history[i].payload)->Ok_0.id == message_of(history[j].payload)->Ok_0.id,
    ensures
        history[j].result == Intake::Over(Fate::Repeated),
        history[j].after == history[j].before,
{
    let id = message_of(history[i].payload)->Ok_0.id;
    assert(history[i].after.seen@.contains(id));
    seen_messages_stay_seen(history, id, i, j);
}

/// What a packet that carries a fragment is read as.
pub proof fn fragment_packets_are_read(now: u64, sender: Seq<char>, t: FragmentType, f: FragmentView)
    requires
        is_sender(sender),
        f.fragment_id.len() == 8,
    ensures
        ({
            let data = packet_bytes(now, sender, None, t.spec_message_type(), fragment_bytes(f), None);
            &&& packet_of(data) matches Ok(p)
            &&& p.msg_type == t.spec_message_type()
            &&& p.sender_id_str == hex_text(sender_field(sender))
            &&& fragment_of(p.payload) == Some(f)
        }),
{
    packet_round_trip(now, sender, None, t.spec_message_type(), fragment_bytes(f), None);
    fragment_round_trip(f);
}

/// What a collector holds once fragments from one sender have arrived, and what the last of
/// them completed.
pub open spec fn completed_by(c: CollectorView, fragments: Seq<FragmentView>, sender: Seq<char>) -> (
    CollectorView,
    Option<PacketView>,
)
    decreases fragments.len(),
{
    if fragments.len() == 0 {
        (c, None)
    } else {
        completed(completed_by(c, fragments.drop_last(), sender).0, fragments.last(), sender)
    }
}

/// The pieces of a packet that are numbered `order`.
pub open spec fn fragments_in(packet: Seq<u8>, fragment_id: Seq<u8>, order: Seq<u16>) -> Seq<FragmentView> {
    order.map_values(|i: u16| fragment_at(packet, fragment_id, i as int))
}

#[verifier::spinoff_prover]
#[verifier::rlimit(50)]
proof fn fragments_are_collected(
    c: CollectorView,
    packet: Seq<u8>,
    fragment_id: Seq<u8>,
    sender: Seq<char>,
    order: Seq<u16>,
)
    requires
        piece_count(packet.len()) <= 65535,
        forall|i: int| 0 <= i < order.len() ==> #[trigger] order[i] < piece_count(packet.len()),
    ensures
        completed_by(c, fragments_in(packet, fragment_id, order), sender).0 == collect_all(
            c,
            fragment_id,
            MessageType::Message.spec_code(),
            sender,
            pieces(packet),
            order,
        ).0,
    decreases order.len(),
{
    let fragments = fragments_in(packet, fragment_id, order);
    if order.len() > 0 {
        let rest = order.drop_last();
        assert forall|i: int| 0 <= i < rest.len() implies #[trigger] rest[i] < piece_count(packet.len()) by {
            assert(rest[i] == order[i]);
        }
        fragments_are_collected(c, packet, fragment_id, sender, rest);
        assert(fragments.drop_last() =~= fragments_in(packet, fragment_id, rest));
        assert(order[order.len() - 1] == order.last());
    }
}

/// A chat message whose packet was cut to pieces is read as if it had come in one packet, in
/// whatever order the pieces arrive and however often: the last missing piece completes it. The
/// number of pieces must fit in sixteen bits.
#[verifier::spinoff_prover]
#[verifier::rlimit(50)]
pub proof fn cut_messages_are_completed(
    c: CollectorView,
    packet: Seq<u8>,
    fragment_id: Seq<u8>,
    sender: Seq<char>,
    order: Seq<u16>,
)
    requires
        packet_of(packet) matches Ok(p) && p.msg_type is Message,
        !c.fragments.contains_key(hex_text(fragment_id)),
        !c.metadata.contains_key(hex_text(fragment_id)),
        piece_count(packet.len()) <= 65535,
        forall|i: int| 0 <= i < order.len() ==> #[trigger] order[i] < piece_count(packet.len()),
        covers(order, piece_count(packet.len())),
        !covers(order.drop_last(), piece_count(packet.len())),
    ensures
        completed_by(c, fragments_in(packet, fragment_id, order), sender) == (
            c,
            Some(packet_of(packet)->Ok_0),
        ),
{
    let kind = MessageType::Message.spec_code();
    let fragments = fragments_in(packet, fragment_id, order);
    let rest = order.drop_last();
    assert(order.contains(0));
    assert forall|i: int| 0 <= i < rest.len() implies #[trigger] rest[i] < piece_count(packet.len()) by {
        assert(rest[i] == order[i]);
    }
    fragments_are_collected(c, packet, fragment_id, sender, rest);
    assert(fragments.drop_last() =~= fragments_in(packet, fragment_id, rest));
    assert(order[order.len() - 1] == order.last());
    cut_packets_come_out_whole(c, fragment_id, kind, sender, packet, order);
}

} // verus!
