//! Messages are made of their parts, and are read by them.
use crate::adapters::{hex_text, text_of};
use crate::channels::{body_of, BodyView};
use crate::message::{
    after_mentions, channel_end, channel_field, content_start, id_end, mentions_fit, message_bytes, message_of,
    nickname_end, peer_id_end, plain_message_bytes, sealed_message_bytes, MessageView,
};
use crate::packet::{is_sender, sender_field};
use vstd::prelude::*;
use vstd::utf8::encode_utf8;

verus! {

/// Bytes behind a byte that says how many they are.
pub open spec fn sized(bytes: Seq<u8>) -> Seq<u8> {
    seq![bytes.len() as u8] + bytes
}

/// Runs of bytes one after the other, each behind a byte that says how many it has.
pub open spec fn all_sized(list: Seq<Seq<u8>>) -> Seq<u8>
    decreases list.len(),
{
    if list.len() == 0 {
        Seq::empty()
    } else {
        sized(list[0]) + all_sized(list.skip(1))
    }
}

/// `bytes` where they are present.
pub open spec fn present(is_there: bool, bytes: Seq<u8>) -> Seq<u8> {
    if is_there {
        bytes
    } else {
        Seq::empty()
    }
}

/// Parts of a message.
pub struct RawMessage {
    pub flags: u8,
    pub id: Seq<u8>,
    pub peer: Seq<u8>,
    pub channel: Seq<u8>,
    pub nickname: Seq<u8>,
    pub mentions: Seq<Seq<u8>>,
    pub body: Seq<u8>,
}

impl RawMessage {
    /// The parts have sizes that can be written down.
    pub open spec fn fits(self) -> bool {
        &&& self.id.len() == 16
        &&& self.peer.len() == 4
        &&& self.channel.len() <= 255
        &&& self.nickname.len() <= 255
        &&& self.mentions.len() <= 255
        &&& forall|i: int| 0 <= i < self.mentions.len() ==> (#[trigger] self.mentions[i]).len() <= 255
    }

    pub open spec fn upto_id(self) -> Seq<u8> {
        seq![self.flags] + present(self.flags & 0x04 != 0, self.id)
    }

    pub open spec fn upto_peer(self) -> Seq<u8> {
        self.upto_id() + present(self.flags & 0x10 != 0, self.peer)
    }

    pub open spec fn upto_channel(self) -> Seq<u8> {
        self.upto_peer() + present(self.flags & 0x40 != 0, sized(self.channel))
    }

    pub open spec fn upto_nickname(self) -> Seq<u8> {
        self.upto_channel() + present(self.flags & 0x08 != 0, sized(self.nickname))
    }

    pub open spec fn upto_mentions(self) -> Seq<u8> {
        self.upto_nickname() + present(
            self.flags & 0x20 != 0,
            seq![self.mentions.len() as u8] + all_sized(self.mentions),
        )
    }

    /// The flags, and the parts that they name, in order.
    pub open spec fn bytes(self) -> Seq<u8> {
        self.upto_mentions() + self.body
    }
}

proof fn mentions_are_skipped(data: Seq<u8>, head: Seq<u8>, list: Seq<Seq<u8>>, tail: Seq<u8>)
    requires
        data == head + all_sized(list) + tail,
        forall|i: int| 0 <= i < list.len() ==> (#[trigger] list[i]).len() <= 255,
    ensures
        after_mentions(data, head.len() as int, list.len()) == Ok::<int, Seq<char>>(
            (head + all_sized(list)).len() as int,
        ),
    decreases list.len(),
{
    if list.len() > 0 {
        let first = list[0];
        let rest = list.skip(1);
        assert(first.len() <= 255);
        assert(data[head.len() as int] == first.len());
        let next = head + sized(first);
        assert(data =~= next + all_sized(rest) + tail);
        assert forall|i: int| 0 <= i < rest.len() implies (#[trigger] rest[i]).len() <= 255 by {
            assert(rest[i] == list[i + 1]);
        }
        mentions_are_skipped(data, next, rest, tail);
        assert(next + all_sized(rest) =~= head + all_sized(list));
        assert(rest.len() == (list.len() - 1) as nat);
    }
}

/// Where the parts of a message end, when what was written goes on after them in any way.
#[verifier::spinoff_prover]
proof fn parts_end(r: RawMessage, data: Seq<u8>, tail: Seq<u8>)
    requires
        r.fits(),
        data == r.upto_nickname() + tail,
    ensures
        data.len() > 0,
        data[0] == r.flags,
        id_end(data) == Ok::<int, Seq<char>>(r.upto_id().len() as int),
        peer_id_end(data) == Ok::<int, Seq<char>>(r.upto_peer().len() as int),
        channel_end(data) == Ok::<int, Seq<char>>(r.upto_channel().len() as int),
        nickname_end(data) == Ok::<int, Seq<char>>(r.upto_nickname().len() as int),
        r.flags & 0x04 != 0 ==> data.subrange(1, 17) == r.id,
        r.flags & 0x40 != 0 ==> data.subrange(r.upto_peer().len() as int + 1, r.upto_channel().len() as int)
            == r.channel,
{
    let channel = present(r.flags & 0x40 != 0, sized(r.channel));
    let nickname = present(r.flags & 0x08 != 0, sized(r.nickname));
    assert(r.upto_id().len() == 1 + present(r.flags & 0x04 != 0, r.id).len());
    if r.flags & 0x04 != 0 {
        assert(data.subrange(1, 17) =~= r.id);
    }
    let p = r.upto_peer().len() as int;
    if r.flags & 0x40 != 0 {
        assert(data[p] == channel[0]);
        assert(data.subrange(p + 1, r.upto_channel().len() as int) =~= r.channel);
    }
    let c = r.upto_channel().len() as int;
    if r.flags & 0x08 != 0 {
        assert(data[c] == nickname[0]);
    }
}

/// A message is read by its parts, whichever of them it has: its identifier, its channel, and as
/// its text, or as what is encrypted, exactly what stands behind all parts. The sender, the
/// nickname of the recipient and the mentions are skipped.
#[verifier::spinoff_prover]
pub proof fn messages_are_read_by_their_parts(r: RawMessage)
    requires
        r.fits(),
    ensures
        mentions_fit(r.bytes()),
        message_of(r.bytes()) == Ok::<MessageView, Seq<char>>(
            MessageView {
                id: if r.flags & 0x04 != 0 {
                    hex_text(r.id)
                } else {
                    Seq::empty()
                },
                content: if r.flags & 0x80 != 0 {
                    "[Encrypted message]"@
                } else {
                    text_of(r.body)
                },
                channel: if r.flags & 0x40 != 0 {
                    Some(text_of(r.channel))
                } else {
                    None
                },
                is_encrypted: r.flags & 0x80 != 0,
                encrypted_content: if r.flags & 0x80 != 0 {
                    Some(r.body)
                } else {
                    None
                },
            },
        ),
{
    let data = r.bytes();
    let mentions = present(r.flags & 0x20 != 0, seq![r.mentions.len() as u8] + all_sized(r.mentions));
    assert(data =~= r.upto_nickname() + (mentions + r.body));
    parts_end(r, data, mentions + r.body);
    let start = r.upto_mentions().len() as int;
    if r.flags & 0x20 != 0 {
        let n = r.upto_nickname().len() as int;
        assert(data[n] == r.mentions.len());
        let head = r.upto_nickname() + seq![r.mentions.len() as u8];
        assert(data =~= head + all_sized(r.mentions) + r.body);
        mentions_are_skipped(data, head, r.mentions, r.body);
        assert(head + all_sized(r.mentions) =~= r.upto_mentions());
    } else {
        assert(r.upto_mentions() =~= r.upto_nickname());
    }
    assert(content_start(data) == Ok::<int, Seq<char>>(start));
    assert(data.skip(start) =~= r.body);
}

/// A message that ends within a part, before its mentions, is refused, and the part is named. One
/// that ends where the number of its mentions should stand is refused too.
#[verifier::spinoff_prover]
pub proof fn cut_messages_are_refused(r: RawMessage, n: int)
    requires
        r.fits(),
        0 <= n < r.upto_nickname().len() || (n == r.upto_nickname().len() && r.flags & 0x20 != 0),
    ensures
        message_of(r.bytes().take(n)) == Err::<MessageView, Seq<char>>(
            if n == 0 {
                "Payload too short for flags"@
            } else if n < r.upto_id().len() {
                "Payload too short for message ID"@
            } else if n < r.upto_peer().len() {
                "Payload too short for sender peer ID"@
            } else if n < r.upto_channel().len() {
                if n == r.upto_peer().len() {
                    "Payload too short for channel len"@
                } else {
                    "Payload too short for channel name"@
                }
            } else if n < r.upto_nickname().len() {
                if n == r.upto_channel().len() {
                    "Payload too short for recipient len"@
                } else {
                    "Payload too short for recipient nickname"@
                }
            } else {
                "Payload too short for mentions count"@
            },
        ),
{
    let data = r.bytes();
    let cut = data.take(n);
    let mentions = present(r.flags & 0x20 != 0, seq![r.mentions.len() as u8] + all_sized(r.mentions));
    assert(data =~= r.upto_nickname() + (mentions + r.body));
    parts_end(r, data, mentions + r.body);
    let p = r.upto_peer().len() as int;
    let c = r.upto_channel().len() as int;
    if n > 0 {
        assert(cut[0] == r.flags);
        if n > p {
            assert(cut[p] == data[p]);
        }
        if n > c {
            assert(cut[c] == data[c]);
        }
        if r.flags & 0x40 != 0 {
            assert(data[p] == sized(r.channel)[0]);
        }
        if r.flags & 0x08 != 0 {
            assert(data[c] == sized(r.nickname)[0]);
        }
        assert(n >= r.upto_id().len() ==> id_end(cut) == id_end(data));
        assert(n >= p ==> peer_id_end(cut) == peer_id_end(data));
        assert(n >= c ==> channel_end(cut) == channel_end(data));
    }
}

proof fn mentions_run_out(data: Seq<u8>, head: Seq<u8>, list: Seq<Seq<u8>>, count: nat)
    requires
        data == head + all_sized(list),
        list.len() < count,
        forall|i: int| 0 <= i < list.len() ==> (#[trigger] list[i]).len() <= 255,
    ensures
        after_mentions(data, head.len() as int, count) == Err::<int, Seq<char>>(
            "Payload too short for mention len"@,
        ),
    decreases list.len(),
{
    if list.len() == 0 {
        assert(data =~= head);
    } else {
        let first = list[0];
        let rest = list.skip(1);
        assert(first.len() <= 255);
        assert(data[head.len() as int] == first.len());
        let next = head + sized(first);
        assert(data =~= next + all_sized(rest));
        assert forall|i: int| 0 <= i < rest.len() implies (#[trigger] rest[i]).len() <= 255 by {
            assert(rest[i] == list[i + 1]);
        }
        mentions_run_out(data, next, rest, (count - 1) as nat);
    }
}

/// A message that ends after fewer mentions than it says that it has is refused.
#[verifier::spinoff_prover]
pub proof fn missing_mentions_are_refused(r: RawMessage, count: u8)
    requires
        r.fits(),
        r.flags & 0x20 != 0,
        r.mentions.len() < count,
    ensures
        message_of(r.upto_nickname() + seq![count] + all_sized(r.mentions)) == Err::<MessageView, Seq<char>>(
            "Payload too short for mention len"@,
        ),
{
    let data = r.upto_nickname() + seq![count] + all_sized(r.mentions);
    assert(data =~= r.upto_nickname() + (seq![count] + all_sized(r.mentions)));
    parts_end(r, data, seq![count] + all_sized(r.mentions));
    let head = r.upto_nickname() + seq![count];
    mentions_run_out(data, head, r.mentions, count as nat);
    assert(data[r.upto_nickname().len() as int] == count);
}

proof fn mentions_overrun(data: Seq<u8>, head: Seq<u8>, list: Seq<Seq<u8>>, size: u8, part: Seq<u8>)
    requires
        data == head + all_sized(list) + (seq![size] + part),
        part.len() < size,
        forall|i: int| 0 <= i < list.len() ==> (#[trigger] list[i]).len() <= 255,
    ensures
        after_mentions(data, head.len() as int, list.len() + 1) matches Ok(end) && end > data.len(),
    decreases list.len(),
{
    if list.len() == 0 {
        assert(data =~= head + (seq![size] + part));
        assert(data[head.len() as int] == size);
        assert(after_mentions(data, head.len() + 1 + size, 0) == Ok::<int, Seq<char>>(head.len() + 1 + size));
    } else {
        let first = list[0];
        let rest = list.skip(1);
        assert(first.len() <= 255);
        assert(data[head.len() as int] == first.len());
        let next = head + sized(first);
        assert(data =~= next + all_sized(rest) + (seq![size] + part));
        assert forall|i: int| 0 <= i < rest.len() implies (#[trigger] rest[i]).len() <= 255 by {
            assert(rest[i] == list[i + 1]);
        }
        mentions_overrun(data, next, rest, size, part);
    }
}

/// A message whose last mention is said to be longer than what is left is recognised.
#[verifier::spinoff_prover]
pub proof fn overrunning_mentions_are_found(r: RawMessage, size: u8, part: Seq<u8>)
    requires
        r.fits(),
        r.flags & 0x20 != 0,
        r.mentions.len() < 255,
        part.len() < size,
    ensures
        !mentions_fit(
            r.upto_nickname() + seq![(r.mentions.len() + 1) as u8] + all_sized(r.mentions) + (seq![size] + part),
        ),
{
    let count = (r.mentions.len() + 1) as u8;
    let tail = seq![size] + part;
    let head = r.upto_nickname() + seq![count];
    let data = head + all_sized(r.mentions) + tail;
    assert(data =~= r.upto_nickname() + (seq![count] + all_sized(r.mentions) + tail));
    parts_end(r, data, seq![count] + all_sized(r.mentions) + tail);
    assert(data[r.upto_nickname().len() as int] == count);
    mentions_overrun(data, head, r.mentions, size, part);
}

/// The parts of a message that is not encrypted. The name of its channel is written behind as many
/// of the bits of its size as fit in a byte, so that its reader takes that many bytes of it for the
/// name and the others for the start of the text.
pub open spec fn plain_parts(
    flags: u8,
    id: Seq<u8>,
    body: Seq<u8>,
    channel: Option<Seq<char>>,
    sender_peer_id: Seq<char>,
) -> RawMessage {
    let name = match channel {
        Some(c) => encode_utf8(c),
        None => Seq::empty(),
    };
    let kept = (name.len() % 256) as int;
    RawMessage {
        flags,
        id,
        peer: sender_field(sender_peer_id),
        channel: name.take(kept),
        nickname: Seq::empty(),
        mentions: Seq::empty(),
        body: name.skip(kept) + body,
    }
}

#[verifier::spinoff_prover]
proof fn bytes_are_parts(
    flags: u8,
    id: Seq<u8>,
    sender_peer_id: Seq<char>,
    channel: Option<Seq<char>>,
    body: Seq<u8>,
)
    requires
        flags & 0x04 != 0,
        flags & 0x10 != 0,
        flags & 0x08 == 0,
        flags & 0x20 == 0,
        (flags & 0x40 != 0) == (channel is Some),
    ensures
        message_bytes(flags, id, sender_peer_id, channel, body) == plain_parts(
            flags,
            id,
            body,
            channel,
            sender_peer_id,
        ).bytes(),
{
    let r = plain_parts(flags, id, body, channel, sender_peer_id);
    match channel {
        Some(c) => {
            let name = encode_utf8(c);
            let kept = (name.len() % 256) as int;
            assert(name =~= name.take(kept) + name.skip(kept));
            assert(channel_field(channel) =~= sized(r.channel) + name.skip(kept));
        },
        None => {
            assert(r.body =~= body);
        },
    }
    assert(r.bytes() =~= message_bytes(flags, id, sender_peer_id, channel, body));
}

/// A message that is not encrypted has an identifier and a sender, a channel where it is for one,
/// neither mentions nor the nickname of a recipient, and says whether it is private.
#[verifier::spinoff_prover]
pub proof fn plain_messages_have_their_parts(
    id: Seq<u8>,
    content: Seq<char>,
    channel: Option<Seq<char>>,
    is_private: bool,
    sender_peer_id: Seq<char>,
) -> (flags: u8)
    ensures
        flags & 0x04 != 0,
        flags & 0x10 != 0,
        flags & 0xA9 == 0,
        (flags & 0x02 != 0) == is_private,
        (flags & 0x40 != 0) == (channel is Some),
        plain_message_bytes(id, content, channel, is_private, sender_peer_id) == plain_parts(
            flags,
            id,
            encode_utf8(content),
            channel,
            sender_peer_id,
        ).bytes(),
{
    let flags = crate::message::message_flags(is_private, channel is Some);
    assert(forall|f: u8|
        #![auto]
        (f == 0x14u8 || f == 0x16u8 || f == 0x54u8 || f == 0x56u8) ==> f & 0x04u8 != 0 && f & 0x10u8 != 0 && f
            & 0xA9u8 == 0 && f & 0x08u8 == 0 && f & 0x20u8 == 0) by (bit_vector);
    assert(0x14u8 & 0x40u8 == 0 && 0x16u8 & 0x40u8 == 0 && 0x54u8 & 0x40u8 != 0 && 0x56u8 & 0x40u8 != 0 && 0x14u8
        & 0x02u8 == 0 && 0x16u8 & 0x02u8 != 0 && 0x54u8 & 0x02u8 == 0 && 0x56u8 & 0x02u8 != 0) by (bit_vector);
    bytes_are_parts(flags, id, sender_peer_id, channel, encode_utf8(content));
    flags
}

/// A message that is encrypted for a channel has an identifier, a sender and that channel, and
/// says that it is encrypted; what could not be encrypted is sent empty.
#[verifier::spinoff_prover]
pub proof fn sealed_messages_have_their_parts(
    id: Seq<u8>,
    channel: Seq<char>,
    sealed: Option<Seq<u8>>,
    sender_peer_id: Seq<char>,
) -> (flags: u8)
    ensures
        flags & 0x04 != 0,
        flags & 0x10 != 0,
        flags & 0x40 != 0,
        flags & 0x80 != 0,
        flags & 0x2B == 0,
        sealed_message_bytes(id, channel, sealed, sender_peer_id) == plain_parts(
            flags,
            id,
            match sealed {
                Some(b) => b,
                None => Seq::empty(),
            },
            Some(channel),
            sender_peer_id,
        ).bytes(),
{
    assert(0xD4u8 & 0x04u8 != 0 && 0xD4u8 & 0x10u8 != 0 && 0xD4u8 & 0x40u8 != 0 && 0xD4u8 & 0x80u8 != 0 && 0xD4u8
        & 0x2Bu8 == 0 && 0xD4u8 & 0x08u8 == 0 && 0xD4u8 & 0x20u8 == 0) by (bit_vector);
    bytes_are_parts(
        0xD4,
        id,
        sender_peer_id,
        Some(channel),
        match sealed {
            Some(b) => b,
            None => Seq::empty(),
        },
    );
    0xD4
}

/// A message that is not encrypted is shown with the text that its sender wrote, whatever its
/// channel, whatever keys there are, and however it arrived.
pub proof fn plain_messages_show_their_text(
    id: Seq<u8>,
    content: Seq<char>,
    channel: Option<Seq<char>>,
    is_private: bool,
    sender_peer_id: Seq<char>,
    keys: Map<Seq<char>, Seq<u8>>,
    is_piece: bool,
)
    requires
        id.len() == 16,
        is_sender(sender_peer_id),
        channel matches Some(c) ==> encode_utf8(c).len() <= 255,
    ensures
        message_of(plain_message_bytes(id, content, channel, is_private, sender_peer_id)) matches Ok(m) && body_of(
            keys,
            m,
            is_piece,
        ) == BodyView::Readable(content),
{
    crate::message::plain_message_round_trip(id, content, channel, is_private, sender_peer_id);
}

/// Only an encrypted message of a channel whose key we have, which arrived in one packet, is
/// opened, and with that key; of all others that arrived so, those that are encrypted for a channel
/// are not shown, and the rest are shown as they were read.
pub proof fn only_what_has_a_key_is_opened(keys: Map<Seq<char>, Seq<u8>>, m: MessageView, is_piece: bool)
    ensures
        !m.is_encrypted || is_piece || m.channel is None ==> body_of(keys, m, is_piece) == BodyView::Readable(m.content),
        m.is_encrypted && !is_piece && m.channel is Some && !keys.contains_key(m.channel->0) ==> body_of(
            keys,
            m,
            is_piece,
        ) == BodyView::Readable("[Encrypted message - join channel with password]"@),
        m.is_encrypted && !is_piece && m.channel is Some && keys.contains_key(m.channel->0) && m.encrypted_content
            is None ==> body_of(keys, m, is_piece) == BodyView::Readable("[Encrypted message - no encrypted data]"@),
        m.is_encrypted && !is_piece && m.channel is Some && keys.contains_key(m.channel->0) && m.encrypted_content
            is Some ==> body_of(keys, m, is_piece) == (BodyView::Sealed {
            bytes: m.encrypted_content->0,
            key: keys[m.channel->0],
        }),
{
}

/// What was encrypted is shown as it was written once it is opened.
pub proof fn opened_text_is_what_was_written(text: Seq<char>)
    ensures
        crate::channels::opened_text(Some(encode_utf8(text))) == text,
        crate::channels::opened_text(None) == "[Encrypted message - decryption failed]"@,
        text_of(encode_utf8(text)) == text,
{
    vstd::utf8::encode_utf8_valid_utf8(text);
    vstd::utf8::encode_utf8_decode_utf8(text);
}

} // verus!
