//! Chat messages: the payloads of packets of type `Message`.
use crate::adapters::{
    hex_encode, hex_text, is_random_uuid, lossy_text, random_uuid, text_of, uuid_text, uuid_to_text,
};
use crate::bytes::copy_range;
use crate::packet::{is_sender, opt_bytes, opt_text, sender_bytes, sender_field};
use crate::protocol::{
    MSG_FLAG_HAS_CHANNEL, MSG_FLAG_HAS_MENTIONS, MSG_FLAG_HAS_ORIGINAL_SENDER,
    MSG_FLAG_HAS_RECIPIENT_NICKNAME, MSG_FLAG_HAS_SENDER_PEER_ID, MSG_FLAG_IS_ENCRYPTED,
    MSG_FLAG_IS_PRIVATE,
};
use vstd::prelude::*;
use vstd::slice::slice_subrange;
use vstd::string::StringSliceAdditionalSpecFns;
use vstd::utf8::encode_utf8;

verus! {

/// A chat message as it was received.
#[derive(Debug)]
pub struct BitchatMessage {
    pub id: String,
    pub content: String,
    pub channel: Option<String>,
    pub is_encrypted: bool,
    /// What only the key of the channel opens.
    pub encrypted_content: Option<Vec<u8>>,
}

/// What a chat message says.
#[verifier::ext_equal]
pub struct MessageView {
    pub id: Seq<char>,
    pub content: Seq<char>,
    pub channel: Option<Seq<char>>,
    pub is_encrypted: bool,
    pub encrypted_content: Option<Seq<u8>>,
}

impl View for BitchatMessage {
    type V = MessageView;

    open spec fn view(&self) -> MessageView {
        MessageView {
            id: self.id@,
            content: self.content@,
            channel: match self.channel {
                Some(c) => Some(c@),
                None => None,
            },
            is_encrypted: self.is_encrypted,
            encrypted_content: opt_bytes(self.encrypted_content),
        }
    }
}

/// Where a field of `width` bytes at `pos` ends; it takes no room where it is absent.
pub open spec fn after_fixed(data: Seq<u8>, pos: int, present: bool, width: int, short: Seq<char>) -> Result<
    int,
    Seq<char>,
> {
    if !present {
        Ok(pos)
    } else if data.len() < pos + width {
        Err(short)
    } else {
        Ok(pos + width)
    }
}

/// Where a field at `pos` ends whose first byte says how many bytes follow; it takes no
/// room where it is absent.
pub open spec fn after_sized(
    data: Seq<u8>,
    pos: int,
    present: bool,
    no_length: Seq<char>,
    short: Seq<char>,
) -> Result<int, Seq<char>> {
    if !present {
        Ok(pos)
    } else if data.len() < pos + 1 {
        Err(no_length)
    } else if data.len() < pos + 1 + data[pos] {
        Err(short)
    } else {
        Ok(pos + 1 + data[pos])
    }
}

/// Where `count` mentions from `pos` on end. Each starts with a byte that says how many
/// bytes follow; whether those are there is not looked at.
pub open spec fn after_mentions(data: Seq<u8>, pos: int, count: nat) -> Result<int, Seq<char>>
    decreases count,
{
    if count == 0 {
        Ok(pos)
    } else if data.len() < pos + 1 {
        Err("Payload too short for mention len"@)
    } else {
        after_mentions(data, pos + 1 + data[pos], (count - 1) as nat)
    }
}

pub open spec fn id_end(data: Seq<u8>) -> Result<int, Seq<char>> {
    after_fixed(
        data,
        1,
        data[0] & MSG_FLAG_HAS_ORIGINAL_SENDER != 0,
        16,
        "Payload too short for message ID"@,
    )
}

pub open spec fn peer_id_end(data: Seq<u8>) -> Result<int, Seq<char>> {
    match id_end(data) {
        Ok(pos) => after_fixed(
            data,
            pos,
            data[0] & MSG_FLAG_HAS_SENDER_PEER_ID != 0,
            4,
            "Payload too short for sender peer ID"@,
        ),
        Err(e) => Err(e),
    }
}

pub open spec fn channel_end(data: Seq<u8>) -> Result<int, Seq<char>> {
    match peer_id_end(data) {
        Ok(pos) => after_sized(
            data,
            pos,
            data[0] & MSG_FLAG_HAS_CHANNEL != 0,
            "Payload too short for channel len"@,
            "Payload too short for channel name"@,
        ),
        Err(e) => Err(e),
    }
}

pub open spec fn nickname_end(data: Seq<u8>) -> Result<int, Seq<char>> {
    match channel_end(data) {
        Ok(pos) => after_sized(
            data,
            pos,
            data[0] & MSG_FLAG_HAS_RECIPIENT_NICKNAME != 0,
            "Payload too short for recipient len"@,
            "Payload too short for recipient nickname"@,
        ),
        Err(e) => Err(e),
    }
}

/// Where the text of a message starts: after the flags, the identifier, the sender, the
/// channel, the nickname of the recipient and the mentions, each where the flags say so.
pub open spec fn content_start(data: Seq<u8>) -> Result<int, Seq<char>> {
    if data.len() == 0 {
        Err("Payload too short for flags"@)
    } else {
        match nickname_end(data) {
            Ok(pos) => if data[0] & MSG_FLAG_HAS_MENTIONS == 0 {
                Ok(pos)
            } else if data.len() < pos + 1 {
                Err("Payload too short for mentions count"@)
            } else {
                after_mentions(data, pos + 1, data[pos] as nat)
            },
            Err(e) => Err(e),
        }
    }
}

/// The mentions of a message, where it has any, do not run past its end.
pub open spec fn mentions_fit(data: Seq<u8>) -> bool {
    content_start(data) matches Ok(start) ==> start <= data.len()
}

/// What the bytes of a message say, or what is wrong with them.
pub open spec fn message_of(data: Seq<u8>) -> Result<MessageView, Seq<char>> {
    match content_start(data) {
        Err(e) => Err(e),
        Ok(start) => {
            let is_encrypted = data[0] & MSG_FLAG_IS_ENCRYPTED != 0;
            Ok(
                MessageView {
                    id: if data[0] & MSG_FLAG_HAS_ORIGINAL_SENDER != 0 {
                        hex_text(data.subrange(1, 17))
                    } else {
                        Seq::empty()
                    },
                    content: if is_encrypted {
                        "[Encrypted message]"@
                    } else {
                        text_of(data.skip(start))
                    },
                    channel: if data[0] & MSG_FLAG_HAS_CHANNEL != 0 {
                        Some(text_of(data.subrange(peer_id_end(data)->Ok_0 + 1, channel_end(data)->Ok_0)))
                    } else {
                        None
                    },
                    is_encrypted,
                    encrypted_content: if is_encrypted {
                        Some(data.skip(start))
                    } else {
                        None
                    },
                },
            )
        },
    }
}

/// Skips a field of `width` bytes at `pos`, where it is present.
fn skip_fixed(data: &[u8], pos: usize, present: bool, width: usize, short: &'static str) -> (r: Result<
    usize,
    &'static str,
>)
    requires
        pos <= data@.len(),
    ensures
        match r {
            Ok(end) => end <= data@.len() && after_fixed(data@, pos as int, present, width as int, short@) == Ok::<
                int,
                Seq<char>,
            >(end as int),
            Err(e) => after_fixed(data@, pos as int, present, width as int, short@) == Err::<int, Seq<char>>(e@),
        },
{
    if !present {
        Ok(pos)
    } else if data.len() - pos < width {
        Err(short)
    } else {
        Ok(pos + width)
    }
}

/// Skips a field at `pos` whose first byte says how many bytes follow, where it is
/// present.
fn skip_sized(
    data: &[u8],
    pos: usize,
    present: bool,
    no_length: &'static str,
    short: &'static str,
) -> (r: Result<usize, &'static str>)
    requires
        pos <= data@.len(),
    ensures
        match r {
            Ok(end) => end <= data@.len() && after_sized(data@, pos as int, present, no_length@, short@) == Ok::<
                int,
                Seq<char>,
            >(end as int),
            Err(e) => after_sized(data@, pos as int, present, no_length@, short@) == Err::<int, Seq<char>>(e@),
        },
{
    let total: usize = data.len();
    if !present {
        return Ok(pos);
    }
    if total - pos < 1 {
        return Err(no_length);
    }
    let len: usize = data[pos] as usize;
    if total - pos - 1 < len {
        Err(short)
    } else {
        Ok(pos + 1 + len)
    }
}

/// Skips `count` mentions from `pos` on. `None` says that the last of them runs past the
/// end of the data.
fn skip_mentions(data: &[u8], pos: usize, count: usize) -> (r: Result<Option<usize>, &'static str>)
    requires
        pos <= data@.len(),
    ensures
        match r {
            Ok(Some(end)) => end <= data@.len() && after_mentions(data@, pos as int, count as nat) == Ok::<
                int,
                Seq<char>,
            >(end as int),
            Ok(None) => after_mentions(data@, pos as int, count as nat) matches Ok(end) && end > data@.len(),
            Err(e) => after_mentions(data@, pos as int, count as nat) == Err::<int, Seq<char>>(e@),
        },
{
    let total: usize = data.len();
    let mut offset: usize = pos;
    for i in 0..count
        invariant
            total == data@.len(),
            offset <= total,
            after_mentions(data@, pos as int, count as nat) == after_mentions(
                data@,
                offset as int,
                (count - i) as nat,
            ),
    {
        if total - offset < 1 {
            return Err("Payload too short for mention len");
        }
        let len: usize = data[offset] as usize;
        assert(after_mentions(data@, offset as int, (count - i) as nat) == after_mentions(
            data@,
            offset + 1 + len,
            (count - i - 1) as nat,
        ));
        if total - offset - 1 < len {
            if i + 1 < count {
                return Err("Payload too short for mention len");
            } else {
                return Ok(None);
            }
        }
        offset = offset + 1 + len;
    }
    Ok(Some(offset))
}

/// Where the parts of a message that matter to its reader are.
struct Layout {
    peer_id_end: usize,
    channel_end: usize,
    /// `None` where the mentions run past the end of the message.
    content_start: Option<usize>,
}

/// Finds the parts of a message.
fn lay_out(data: &[u8]) -> (r: Result<Layout, &'static str>)
    ensures
        match r {
            Ok(l) => {
                &&& data@.len() > 0
                &&& peer_id_end(data@) == Ok::<int, Seq<char>>(l.peer_id_end as int)
                &&& channel_end(data@) == Ok::<int, Seq<char>>(l.channel_end as int)
                &&& l.channel_end <= data@.len()
                &&& match l.content_start {
                    Some(start) => start <= data@.len() && content_start(data@) == Ok::<int, Seq<char>>(
                        start as int,
                    ),
                    None => content_start(data@) matches Ok(start) && start > data@.len(),
                }
            },
            Err(e) => content_start(data@) == Err::<int, Seq<char>>(e@),
        },
{
    let total: usize = data.len();
    if total == 0 {
        return Err("Payload too short for flags");
    }
    let flags: u8 = data[0];
    let id_end = match skip_fixed(
        data,
        1,
        flags & MSG_FLAG_HAS_ORIGINAL_SENDER != 0,
        16,
        "Payload too short for message ID",
    ) {
        Ok(end) => end,
        Err(e) => return Err(e),
    };
    let peer_id_end = match skip_fixed(
        data,
        id_end,
        flags & MSG_FLAG_HAS_SENDER_PEER_ID != 0,
        4,
        "Payload too short for sender peer ID",
    ) {
        Ok(end) => end,
        Err(e) => return Err(e),
    };
    let channel_end = match skip_sized(
        data,
        peer_id_end,
        flags & MSG_FLAG_HAS_CHANNEL != 0,
        "Payload too short for channel len",
        "Payload too short for channel name",
    ) {
        Ok(end) => end,
        Err(e) => return Err(e),
    };
    let nickname_end = match skip_sized(
        data,
        channel_end,
        flags & MSG_FLAG_HAS_RECIPIENT_NICKNAME != 0,
        "Payload too short for recipient len",
        "Payload too short for recipient nickname",
    ) {
        Ok(end) => end,
        Err(e) => return Err(e),
    };
    let mut content_start: Option<usize> = Some(nickname_end);
    if flags & MSG_FLAG_HAS_MENTIONS != 0 {
        if total - nickname_end < 1 {
            return Err("Payload too short for mentions count");
        }
        content_start = match skip_mentions(data, nickname_end + 1, data[nickname_end] as usize) {
            Ok(start) => start,
            Err(e) => return Err(e),
        };
    }
    Ok(Layout { peer_id_end, channel_end, content_start })
}

/// Whether the mentions of a message, where it has any, stay within it.
pub fn have_mentions_room(data: &[u8]) -> (r: bool)
    ensures
        r == mentions_fit(data@),
{
    match lay_out(data) {
        Ok(layout) => layout.content_start.is_some(),
        Err(_) => true,
    }
}

/// Reads the payload of a chat message. The mentions of the message must stay within it,
/// which `have_mentions_room` tells.
pub fn parse_bitchat_message_payload(data: &[u8]) -> (r: Result<BitchatMessage, &'static str>)
    requires
        mentions_fit(data@),
    ensures
        match r {
            Ok(m) => message_of(data@) == Ok::<MessageView, Seq<char>>(m@),
            Err(e) => message_of(data@) == Err::<MessageView, Seq<char>>(e@),
        },
{
    let layout = match lay_out(data) {
        Ok(l) => l,
        Err(e) => return Err(e),
    };
    let total: usize = data.len();
    let start: usize = match layout.content_start {
        Some(start) => start,
        None => total,
    };
    let flags: u8 = data[0];
    let id = if flags & MSG_FLAG_HAS_ORIGINAL_SENDER != 0 {
        hex_encode(slice_subrange(data, 1, 17))
    } else {
        String::new()
    };
    let channel = if flags & MSG_FLAG_HAS_CHANNEL != 0 {
        Some(lossy_text(slice_subrange(data, layout.peer_id_end + 1, layout.channel_end)))
    } else {
        None
    };
    assert(data@.skip(start as int) =~= data@.subrange(start as int, total as int));
    let is_encrypted = flags & MSG_FLAG_IS_ENCRYPTED != 0;
    let mut content = "[Encrypted message]".to_owned();
    let mut encrypted_content: Option<Vec<u8>> = None;
    if is_encrypted {
        encrypted_content = Some(copy_range(data, start, total));
    } else {
        content = lossy_text(slice_subrange(data, start, total));
    }
    Ok(BitchatMessage { id, content, channel, is_encrypted, encrypted_content })
}

/// The flags of a message that is not encrypted.
pub open spec fn message_flags(is_private: bool, in_channel: bool) -> u8 {
    match (is_private, in_channel) {
        (false, false) => 0x14,
        (true, false) => 0x16,
        (false, true) => 0x54,
        (true, true) => 0x56,
    }
}

/// The flags of a message that is encrypted for a channel.
pub const ENCRYPTED_CHANNEL_FLAGS: u8 = 0xD4;

/// A channel as it stands in a message: the number of its bytes, of which only the lowest
/// eight bits fit, and the bytes.
pub open spec fn channel_field(channel: Option<Seq<char>>) -> Seq<u8> {
    match channel {
        Some(c) => seq![(encode_utf8(c).len() % 256) as u8] + encode_utf8(c),
        None => Seq::empty(),
    }
}

/// The bytes of a message.
pub open spec fn message_bytes(
    flags: u8,
    id: Seq<u8>,
    sender_peer_id: Seq<char>,
    channel: Option<Seq<char>>,
    body: Seq<u8>,
) -> Seq<u8> {
    seq![flags] + id + sender_field(sender_peer_id) + channel_field(channel) + body
}

/// The bytes of a message that is not encrypted.
pub open spec fn plain_message_bytes(
    id: Seq<u8>,
    content: Seq<char>,
    channel: Option<Seq<char>>,
    is_private: bool,
    sender_peer_id: Seq<char>,
) -> Seq<u8> {
    message_bytes(
        message_flags(is_private, channel is Some),
        id,
        sender_peer_id,
        channel,
        encode_utf8(content),
    )
}

/// The bytes of a message that is encrypted for a channel. `sealed` is its encrypted text,
/// where encryption succeeded.
pub open spec fn sealed_message_bytes(
    id: Seq<u8>,
    channel: Seq<char>,
    sealed: Option<Seq<u8>>,
    sender_peer_id: Seq<char>,
) -> Seq<u8> {
    message_bytes(
        ENCRYPTED_CHANNEL_FLAGS,
        id,
        sender_peer_id,
        Some(channel),
        match sealed {
            Some(b) => b,
            None => Seq::empty(),
        },
    )
}

/// Puts a message together from its parts.
fn encode_message(flags: u8, id: [u8; 16], sender_peer_id: &str, channel: Option<&str>, body: &[u8]) -> (data: Vec<
    u8,
>)
    requires
        is_sender(sender_peer_id@),
    ensures
        data@ == message_bytes(flags, id@, sender_peer_id@, opt_text(channel), body@),
{
    let mut data: Vec<u8> = Vec::new();
    data.push(flags);
    data.extend_from_slice(id.as_slice());
    data.extend_from_slice(sender_bytes(sender_peer_id).as_slice());
    if let Some(ch) = channel {
        let name = ch.as_bytes();
        data.push((name.len() % 256) as u8);
        data.extend_from_slice(name);
    }
    data.extend_from_slice(body);
    assert(data@ =~= message_bytes(flags, id@, sender_peer_id@, opt_text(channel), body@));
    data
}

/// The payload of a message with the identifier `id`.
pub fn encode_plain_message(
    id: [u8; 16],
    content: &str,
    channel: Option<&str>,
    is_private: bool,
    sender_peer_id: &str,
) -> (data: Vec<u8>)
    requires
        is_sender(sender_peer_id@),
    ensures
        data@ == plain_message_bytes(id@, content@, opt_text(channel), is_private, sender_peer_id@),
{
    let mut flags: u8 = MSG_FLAG_HAS_ORIGINAL_SENDER | MSG_FLAG_HAS_SENDER_PEER_ID;
    if is_private {
        flags = flags | MSG_FLAG_IS_PRIVATE;
    }
    if channel.is_some() {
        flags = flags | MSG_FLAG_HAS_CHANNEL;
    }
    assert(0x04u8 | 0x10u8 == 0x14u8 && 0x14u8 | 0x02u8 == 0x16u8 && 0x14u8 | 0x40u8 == 0x54u8 && 0x16u8
        | 0x40u8 == 0x56u8) by (bit_vector);
    encode_message(flags, id, sender_peer_id, channel, content.as_bytes())
}

/// The payload of a message with the identifier `id` that is encrypted for a channel.
/// `sealed` is its encrypted text, where encryption succeeded.
pub fn encode_sealed_message(
    id: [u8; 16],
    channel: &str,
    sealed: Option<Vec<u8>>,
    sender_peer_id: &str,
) -> (data: Vec<u8>)
    requires
        is_sender(sender_peer_id@),
    ensures
        data@ == sealed_message_bytes(id@, channel@, opt_bytes(sealed), sender_peer_id@),
{
    let body = match sealed {
        Some(b) => b,
        None => Vec::new(),
    };
    encode_message(ENCRYPTED_CHANNEL_FLAGS, id, sender_peer_id, Some(channel), body.as_slice())
}

/// The payload of a new message, and the text of the identifier that it was given.
pub fn create_bitchat_message_payload_full(
    _sender: &str,
    content: &str,
    channel: Option<&str>,
    is_private: bool,
    sender_peer_id: &str,
) -> (r: (Vec<u8>, String))
    requires
        is_sender(sender_peer_id@),
    ensures
        exists|id: Seq<u8>|
            #![trigger uuid_text(id)]
            is_random_uuid(id) && r.1@ == uuid_text(id) && r.0@ == plain_message_bytes(
                id,
                content@,
                opt_text(channel),
                is_private,
                sender_peer_id@,
            ),
{
    let id = random_uuid();
    (encode_plain_message(id, content, channel, is_private, sender_peer_id), uuid_to_text(id))
}

/// The payload of a new message that names no sender.
pub fn create_bitchat_message_payload_with_flags(
    sender: &str,
    content: &str,
    channel: Option<&str>,
    is_private: bool,
) -> (payload: Vec<u8>)
    ensures
        exists|id: Seq<u8>|
            is_random_uuid(id) && payload@ == #[trigger] plain_message_bytes(
                id,
                content@,
                opt_text(channel),
                is_private,
                "00000000"@,
            ),
{
    proof {
        no_sender_is_zero();
    }
    let (payload, _) = create_bitchat_message_payload_full(sender, content, channel, is_private, "00000000");
    payload
}

/// The payload of a new public or channel message that names no sender.
pub fn create_bitchat_message_payload(sender: &str, content: &str, channel: Option<&str>) -> (payload: Vec<u8>)
    ensures
        exists|id: Seq<u8>|
            is_random_uuid(id) && payload@ == #[trigger] plain_message_bytes(
                id,
                content@,
                opt_text(channel),
                false,
                "00000000"@,
            ),
{
    create_bitchat_message_payload_with_flags(sender, content, channel, false)
}

/// The payload of a new message that is encrypted for a channel, and the text of the
/// identifier that it was given. `sealed` is what encrypting the text of the message with
/// the key of the channel gave, where that succeeded.
pub fn create_encrypted_channel_message_payload(
    _sender: &str,
    channel: &str,
    sealed: Option<Vec<u8>>,
    sender_peer_id: &str,
) -> (r: (Vec<u8>, String))
    requires
        is_sender(sender_peer_id@),
    ensures
        exists|id: Seq<u8>|
            #![trigger uuid_text(id)]
            is_random_uuid(id) && r.1@ == uuid_text(id) && r.0@ == sealed_message_bytes(
                id,
                channel@,
                opt_bytes(sealed),
                sender_peer_id@,
            ),
{
    let id = random_uuid();
    (encode_sealed_message(id, channel, sealed, sender_peer_id), uuid_to_text(id))
}

/// Eight zero digits are a sender, and stand for four zero bytes.
pub proof fn no_sender_is_zero()
    ensures
        is_sender("00000000"@),
        sender_field("00000000"@) == seq![0u8, 0, 0, 0],
{
    reveal_strlit("00000000");
    let b = crate::adapters::hex_bytes("00000000"@);
    assert(b is Some);
    assert(b->0.take(4) =~= seq![0u8, 0, 0, 0]);
}

/// The parts of a message that was put together are found where they were put.
proof fn message_layout(flags: u8, id: Seq<u8>, peer: Seq<char>, channel: Option<Seq<char>>, body: Seq<u8>)
    requires
        id.len() == 16,
        is_sender(peer),
        channel matches Some(c) ==> encode_utf8(c).len() <= 255,
        flags & 0x04 != 0,
        flags & 0x10 != 0,
        (flags & 0x40 != 0) == (channel is Some),
        flags & 0x08 == 0,
        flags & 0x20 == 0,
    ensures
        ({
            let data = message_bytes(flags, id, peer, channel, body);
            let start = 21 + channel_field(channel).len();
            &&& data[0] == flags
            &&& peer_id_end(data) == Ok::<int, Seq<char>>(21)
            &&& channel_end(data) == Ok::<int, Seq<char>>(start as int)
            &&& content_start(data) == Ok::<int, Seq<char>>(start as int)
            &&& data.subrange(1, 17) == id
            &&& data.skip(start as int) == body
            &&& channel matches Some(c) ==> data.subrange(22, start as int) == encode_utf8(c)
        }),
{
    let data = message_bytes(flags, id, peer, channel, body);
    let start = 21 + channel_field(channel).len();
    assert(sender_field(peer).len() == 4);
    assert(data.subrange(1, 17) =~= id);
    assert(data.skip(start as int) =~= body);
    match channel {
        Some(c) => {
            assert(data[21] == encode_utf8(c).len());
            assert(data.subrange(22, start as int) =~= encode_utf8(c));
        },
        None => {},
    }
}

/// Reading a message gives back its text, its channel and its identifier. The reader takes
/// the name of a channel to be at most 255 bytes.
pub proof fn plain_message_round_trip(
    id: Seq<u8>,
    content: Seq<char>,
    channel: Option<Seq<char>>,
    is_private: bool,
    sender_peer_id: Seq<char>,
)
    requires
        id.len() == 16,
        is_sender(sender_peer_id),
        channel matches Some(c) ==> encode_utf8(c).len() <= 255,
    ensures
        ({
            let data = plain_message_bytes(id, content, channel, is_private, sender_peer_id);
            &&& mentions_fit(data)
            &&& message_of(data) == Ok::<MessageView, Seq<char>>(
                MessageView {
                    id: hex_text(id),
                    content,
                    channel,
                    is_encrypted: false,
                    encrypted_content: None,
                },
            )
        }),
{
    let flags = message_flags(is_private, channel is Some);
    assert(forall|f: u8|
        #![auto]
        (f == 0x14u8 || f == 0x16u8 || f == 0x54u8 || f == 0x56u8) ==> f & 0x04u8 != 0 && f & 0x10u8 != 0 && f
            & 0x08u8 == 0 && f & 0x20u8 == 0 && f & 0x80u8 == 0) by (bit_vector);
    assert(0x14u8 & 0x40u8 == 0 && 0x16u8 & 0x40u8 == 0 && 0x54u8 & 0x40u8 != 0 && 0x56u8 & 0x40u8 != 0)
        by (bit_vector);
    message_layout(flags, id, sender_peer_id, channel, encode_utf8(content));
    vstd::utf8::encode_utf8_valid_utf8(content);
    vstd::utf8::encode_utf8_decode_utf8(content);
    match channel {
        Some(c) => {
            vstd::utf8::encode_utf8_valid_utf8(c);
            vstd::utf8::encode_utf8_decode_utf8(c);
        },
        None => {},
    }
}

/// Reading a message that is encrypted for a channel gives back its encrypted text, its
/// channel and its identifier.
pub proof fn sealed_message_round_trip(
    id: Seq<u8>,
    channel: Seq<char>,
    sealed: Seq<u8>,
    sender_peer_id: Seq<char>,
)
    requires
        id.len() == 16,
        is_sender(sender_peer_id),
        encode_utf8(channel).len() <= 255,
    ensures
        ({
            let data = sealed_message_bytes(id, channel, Some(sealed), sender_peer_id);
            &&& mentions_fit(data)
            &&& message_of(data) == Ok::<MessageView, Seq<char>>(
                MessageView {
                    id: hex_text(id),
                    content: "[Encrypted message]"@,
                    channel: Some(channel),
                    is_encrypted: true,
                    encrypted_content: Some(sealed),
                },
            )
        }),
{
    assert(0xD4u8 & 0x04u8 != 0 && 0xD4u8 & 0x10u8 != 0 && 0xD4u8 & 0x08u8 == 0 && 0xD4u8 & 0x20u8 == 0 && 0xD4u8
        & 0x80u8 != 0 && 0xD4u8 & 0x40u8 != 0) by (bit_vector);
    message_layout(0xD4, id, sender_peer_id, Some(channel), sealed);
    vstd::utf8::encode_utf8_valid_utf8(channel);
    vstd::utf8::encode_utf8_decode_utf8(channel);
}

/// The identifier that a sender keeps of a message and the one that a receiver reads from
/// it have the same digits. The sender's has hyphens between them and the receiver's has
/// none, so the two texts are never equal.
pub proof fn kept_and_read_ids(id: Seq<u8>)
    requires
        id.len() == 16,
    ensures
        ({
            let kept = uuid_text(id);
            kept.subrange(0, 8) + kept.subrange(9, 13) + kept.subrange(14, 18) + kept.subrange(19, 23)
                + kept.subrange(24, 36) == hex_text(id)
        }),
        uuid_text(id) != hex_text(id),
{
    let kept = uuid_text(id);
    assert(kept.subrange(0, 8) + kept.subrange(9, 13) + kept.subrange(14, 18) + kept.subrange(19, 23)
        + kept.subrange(24, 36) =~= hex_text(id));
    assert(kept.len() == 36);
}

} // verus!
