//! What is sent over Bluetooth, and how.
use crate::adapters::{hex_encode, hex_is_ascii, hex_text, lossy_text, random_between, random_bytes, text_of};
use crate::fragmentation::{fragment_at, piece_count, piece_type, split_packet, Fragment};
use crate::packet::{
    create_bitchat_packet, header_is_there, is_sender, packet_bytes, sender_text_survives, set_ttl,
};
use crate::protocol::{MessageType, BITCHAT_SERVICE_UUID};
use crate::text::{same_text, split_on, split_on_first, split_on_none, split_text};
use vstd::prelude::*;
use vstd::string::{StrSliceExecFns, StringExecFns};
use vstd::utf8::encode_utf8;

verus! {

/// Whether the receiver is asked to confirm a write.
#[derive(Debug, Clone, Copy, PartialEq, Eq, Structural)]
pub enum WriteMode {
    WithResponse,
    WithoutResponse,
}

/// How a packet is sent.
#[derive(Debug)]
pub enum Transmission {
    /// At once.
    Whole { data: Vec<u8>, mode: WriteMode },
    /// In pieces, one after the other.
    Pieces { fragments: Vec<Fragment>, mode: WriteMode },
}

/// How long the pause between two pieces is, in milliseconds.
pub const FRAGMENT_PAUSE_MS: u64 = 20;

/// How a write of `len` bytes is done.
pub open spec fn mode_for(len: int) -> WriteMode {
    if len > 512 {
        WriteMode::WithResponse
    } else {
        WriteMode::WithoutResponse
    }
}

/// How a write of `len` bytes is done.
pub fn write_mode(len: usize) -> (mode: WriteMode)
    ensures
        mode == mode_for(len as int),
{
    if len > 512 {
        WriteMode::WithResponse
    } else {
        WriteMode::WithoutResponse
    }
}

/// A packet of more than 500 bytes is cut to pieces that have `fragment_id` in common, whose
/// writes are not confirmed, and any other is sent as it is.
pub open spec fn carries(t: Transmission, packet: Seq<u8>, fragment_id: Seq<u8>) -> bool {
    match t {
        Transmission::Whole { data, mode } => packet.len() <= 500 && data@ == packet && mode == mode_for(
            packet.len() as int,
        ),
        Transmission::Pieces { fragments, mode } => {
            &&& packet.len() > 500
            &&& mode == WriteMode::WithoutResponse
            &&& fragments@.len() == piece_count(packet.len())
            &&& forall|i: int|
                #![trigger fragments@[i]]
                0 <= i < fragments@.len() ==> fragments@[i]@ == fragment_at(packet, fragment_id, i)
                    && fragments@[i].fragment_type == piece_type(i, piece_count(packet.len()))
        },
    }
}

/// How a packet is sent, when its pieces get the identifier `fragment_id`.
pub fn plan_transmission_with(packet: Vec<u8>, fragment_id: [u8; 8]) -> (t: Transmission)
    ensures
        carries(t, packet@, fragment_id@),
{
    if packet.len() > 500 {
        Transmission::Pieces {
            fragments: split_packet(packet.as_slice(), fragment_id),
            mode: WriteMode::WithoutResponse,
        }
    } else {
        let mode = write_mode(packet.len());
        Transmission::Whole { data: packet, mode }
    }
}

/// How a packet is sent. Its pieces, if it is cut to pieces, get a random identifier.
pub fn plan_transmission(packet: Vec<u8>) -> (t: Transmission)
    ensures
        exists|fragment_id: Seq<u8>| fragment_id.len() == 8 && #[trigger] carries(t, packet@, fragment_id),
{
    let r = random_bytes(8);
    let fragment_id: [u8; 8] = [r[0], r[1], r[2], r[3], r[4], r[5], r[6], r[7]];
    plan_transmission_with(packet, fragment_id)
}

/// What is done once a piece was written, or could not be.
#[derive(Debug, Clone, Copy, PartialEq, Eq, Structural)]
pub enum AfterPiece {
    /// The packet cannot be sent: no further piece is written.
    GiveUp,
    /// The next piece is written, after a pause.
    Pause,
    /// All pieces are written.
    Done,
}

/// What is done once the piece with number `index` of `count` was written, or could not be.
pub open spec fn step_after(index: int, count: int, is_written: bool) -> AfterPiece {
    if !is_written {
        AfterPiece::GiveUp
    } else if index + 1 < count {
        AfterPiece::Pause
    } else {
        AfterPiece::Done
    }
}

/// What is done once the piece with number `index` of `count` was written, or could not be.
pub fn after_piece(index: usize, count: usize, is_written: bool) -> (next: AfterPiece)
    requires
        index < count,
    ensures
        next == step_after(index as int, count as int, is_written),
{
    if !is_written {
        AfterPiece::GiveUp
    } else if index + 1 < count {
        AfterPiece::Pause
    } else {
        AfterPiece::Done
    }
}

/// A new identifier for this device: four random bytes in hexadecimal digits.
pub fn new_peer_id() -> (id: String)
    ensures
        exists|bytes: Seq<u8>| bytes.len() == 4 && id@ == #[trigger] hex_text(bytes),
        is_sender(id@),
        encode_utf8(id@).len() == 8,
{
    let bytes = random_bytes(4);
    proof {
        sender_text_survives(bytes@);
        hex_is_ascii(bytes@);
    }
    hex_encode(bytes.as_slice())
}

/// How long to wait before a packet is passed on, in milliseconds.
pub fn relay_delay_ms() -> (ms: u64)
    ensures
        10 <= ms < 50,
{
    random_between(10, 50)
}

/// Whether a device that offers these services takes part.
pub fn offers_bitchat(services: &Vec<u128>) -> (r: bool)
    ensures
        r == services@.contains(BITCHAT_SERVICE_UUID),
{
    for i in 0..services.len()
        invariant
            forall|j: int| 0 <= j < i ==> services@[j] != BITCHAT_SERVICE_UUID,
    {
        if services[i] == BITCHAT_SERVICE_UUID {
            assert(services@[i as int] == BITCHAT_SERVICE_UUID);
            return true;
        }
    }
    false
}

/// The text that announces a channel: its name, whether it is protected, who made it, and
/// the commitment to its key, with bars between.
pub open spec fn announcement_text(
    channel: Seq<char>,
    is_protected: bool,
    creator: Seq<char>,
    commitment: Seq<char>,
) -> Seq<char> {
    channel + seq!['|'] + seq![
        if is_protected {
            '1'
        } else {
            '0'
        },
    ] + seq!['|'] + creator + seq!['|'] + commitment
}

pub open spec fn text_or_empty(text: Option<&str>) -> Seq<char> {
    match text {
        Some(t) => t@,
        None => Seq::empty(),
    }
}

/// The text that announces a channel.
pub fn write_announcement(
    channel: &str,
    is_protected: bool,
    creator: &str,
    key_commitment: Option<&str>,
) -> (text: String)
    ensures
        text@ == announcement_text(channel@, is_protected, creator@, text_or_empty(key_commitment)),
{
    proof {
        reveal_strlit("|");
        reveal_strlit("|1|");
        reveal_strlit("|0|");
    }
    let mut text = channel.to_owned();
    if is_protected {
        text.append("|1|");
    } else {
        text.append("|0|");
    }
    text.append(creator);
    text.append("|");
    if let Some(c) = key_commitment {
        text.append(c);
    }
    assert(text@ =~= announcement_text(channel@, is_protected, creator@, text_or_empty(key_commitment)));
    text
}

/// The packet that announces a channel. It travels no further than five hops.
pub fn create_channel_announce_packet(
    my_peer_id: &str,
    channel: &str,
    is_protected: bool,
    key_commitment: Option<&str>,
) -> (packet: Vec<u8>)
    requires
        is_sender(my_peer_id@),
    ensures
        exists|now: u64|
            packet@ == (#[trigger] packet_bytes(
                now,
                my_peer_id@,
                None,
                MessageType::ChannelAnnounce,
                encode_utf8(
                    announcement_text(
                        channel@,
                        is_protected,
                        my_peer_id@,
                        text_or_empty(key_commitment),
                    ),
                ),
                None,
            )).update(2, 5),
{
    let text = write_announcement(channel, is_protected, my_peer_id, key_commitment);
    let ghost payload = encode_utf8(text@);
    let mut packet = create_bitchat_packet(
        my_peer_id,
        MessageType::ChannelAnnounce,
        text.as_str().as_bytes_vec(),
    );
    proof {
        let now = choose|now: u64|
            packet@ == #[trigger] packet_bytes(
                now,
                my_peer_id@,
                None,
                MessageType::ChannelAnnounce,
                payload,
                None,
            );
        header_is_there(now, my_peer_id@, None, MessageType::ChannelAnnounce, payload, None);
    }
    set_ttl(&mut packet, 5);
    packet
}

/// What the announcement of a channel says.
#[derive(Debug)]
pub struct ChannelAnnouncement {
    pub channel: String,
    pub is_protected: bool,
    pub creator: String,
    pub key_commitment: String,
}

#[verifier::ext_equal]
pub struct AnnouncementView {
    pub channel: Seq<char>,
    pub is_protected: bool,
    pub creator: Seq<char>,
    pub key_commitment: Seq<char>,
}

impl View for ChannelAnnouncement {
    type V = AnnouncementView;

    open spec fn view(&self) -> AnnouncementView {
        AnnouncementView {
            channel: self.channel@,
            is_protected: self.is_protected,
            creator: self.creator@,
            key_commitment: self.key_commitment@,
        }
    }
}

/// What the text of an announcement says. It must have at least three parts with bars
/// between; a fourth is the commitment to the key, and further ones do not matter.
pub open spec fn announcement_in(text: Seq<char>) -> Option<AnnouncementView> {
    let parts = split_on(text, '|');
    if parts.len() >= 3 {
        Some(
            AnnouncementView {
                channel: parts[0],
                is_protected: parts[1] == seq!['1'],
                creator: parts[2],
                key_commitment: if parts.len() > 3 {
                    parts[3]
                } else {
                    Seq::empty()
                },
            },
        )
    } else {
        None
    }
}

/// What the payload of an announcement says.
pub open spec fn announcement_of(payload: Seq<u8>) -> Option<AnnouncementView> {
    announcement_in(text_of(payload))
}

/// Reads the text of an announcement.
pub fn read_announcement(text: &str) -> (r: Option<ChannelAnnouncement>)
    ensures
        match r {
            Some(a) => announcement_in(text@) == Some(a@),
            None => announcement_in(text@) is None,
        },
{
    let parts = split_text(text, '|');
    if parts.len() < 3 {
        return None;
    }
    proof {
        reveal_strlit("1");
        assert("1"@ =~= seq!['1']);
    }
    let is_protected = same_text(parts[1].as_str(), "1");
    let key_commitment = if parts.len() > 3 {
        parts[3].clone()
    } else {
        String::new()
    };
    assert(parts@[0]@ == split_on(text@, '|')[0]);
    assert(parts@[1]@ == split_on(text@, '|')[1]);
    assert(parts@[2]@ == split_on(text@, '|')[2]);
    Some(
        ChannelAnnouncement {
            channel: parts[0].clone(),
            is_protected,
            creator: parts[2].clone(),
            key_commitment,
        },
    )
}

/// Reads the payload of an announcement.
pub fn parse_channel_announce(payload: &[u8]) -> (r: Option<ChannelAnnouncement>)
    ensures
        match r {
            Some(a) => announcement_of(payload@) == Some(a@),
            None => announcement_of(payload@) is None,
        },
{
    read_announcement(lossy_text(payload).as_str())
}

/// Reading an announcement gives back what was announced, where no part has a bar in it.
pub proof fn announcement_round_trip(
    channel: Seq<char>,
    is_protected: bool,
    creator: Seq<char>,
    commitment: Seq<char>,
)
    requires
        !channel.contains('|'),
        !creator.contains('|'),
        !commitment.contains('|'),
    ensures
        announcement_of(encode_utf8(announcement_text(channel, is_protected, creator, commitment))) == Some(
            AnnouncementView { channel, is_protected, creator, key_commitment: commitment },
        ),
{
    let text = announcement_text(channel, is_protected, creator, commitment);
    vstd::utf8::encode_utf8_valid_utf8(text);
    vstd::utf8::encode_utf8_decode_utf8(text);
    let mark = seq![
        if is_protected {
            '1'
        } else {
            '0'
        },
    ];
    let last = creator + seq!['|'] + commitment;
    let middle = mark + seq!['|'] + last;
    assert(text =~= channel + seq!['|'] + middle);
    assert(!mark.contains('|'));
    split_on_first(channel, middle, '|');
    split_on_first(mark, last, '|');
    split_on_first(creator, commitment, '|');
    split_on_none(commitment, '|');
    if !is_protected {
        assert(mark[0] != seq!['1'][0]);
    }
}

/// Whatever is sent, its writes need no response: a packet that is sent at once is never so
/// large that its write has to be confirmed.
pub proof fn writes_need_no_response(t: Transmission, packet: Seq<u8>, fragment_id: Seq<u8>)
    requires
        carries(t, packet, fragment_id),
    ensures
        match t {
            Transmission::Whole { data, mode } => mode == WriteMode::WithoutResponse,
            Transmission::Pieces { fragments, mode } => mode == WriteMode::WithoutResponse,
        },
{
}

} // verus!
