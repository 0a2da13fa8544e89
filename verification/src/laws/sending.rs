//! How packets are sent, whole or in pieces, and how pieces come together.
use crate::adapters::hex_text;
use crate::ble::{
    announcement_in, announcement_of, announcement_round_trip, announcement_text, carries, step_after, AfterPiece,
    AnnouncementView, Transmission,
};
use crate::client::Client;
use crate::collector::{collect, joined_pieces, parts_with, CollectorView};
use crate::fragmentation::{
    fragment_at, piece, piece_count, piece_type, pieces, pieces_make_the_packet, put_together, Fragment, FragmentType,
};
use crate::laws::text::joining_is_putting_between;
use crate::outbox::{same_but_deliveries, sends_message, transmits};
use crate::packet::{
    header_is_there, is_sender, packet_bytes, packet_of, packet_round_trip, recipient_field, sender_field,
    ttl_is_separate,
};
use crate::protocol::MessageType;
use crate::text::{joined_by, split_on, split_on_first, split_on_none};
use vstd::prelude::*;
use vstd::utf8::encode_utf8;

verus! {

/// The pieces of a packet have 150 bytes each, but for the last, which has what is left and is not
/// empty.
pub proof fn pieces_have_equal_sizes(packet: Seq<u8>, i: int)
    requires
        0 <= i < piece_count(packet.len()),
    ensures
        i < piece_count(packet.len()) - 1 ==> piece(packet, i).len() == 150,
        i == piece_count(packet.len()) - 1 ==> piece(packet, i).len() == packet.len() - 150 * i,
        0 < piece(packet, i).len() <= 150,
{
}

/// The first piece is marked as the start and the last of several as the end, and all between as
/// neither.
pub proof fn pieces_are_marked(i: int, count: nat)
    requires
        0 <= i < count,
    ensures
        piece_type(0, count) == FragmentType::Start,
        count > 1 ==> piece_type(count - 1, count) == FragmentType::End,
        0 < i < count - 1 ==> piece_type(i, count) == FragmentType::Continue,
{
}

/// The pieces of one packet are numbered from zero, and each says how many there are and that they
/// are of a chat message.
pub proof fn pieces_are_numbered(packet: Seq<u8>, fragment_id: Seq<u8>, i: int)
    requires
        0 <= i < piece_count(packet.len()) <= 65535,
    ensures
        fragment_at(packet, fragment_id, i).index == i,
        fragment_at(packet, fragment_id, i).total == piece_count(packet.len()),
        fragment_at(packet, fragment_id, i).fragment_id == fragment_id,
        fragment_at(packet, fragment_id, i).original_type == 4,
        fragment_at(packet, fragment_id, i).data == piece(packet, i),
{
}

/// What the fragments of a transmission carry.
pub open spec fn carried(fragments: Seq<Fragment>) -> Seq<Seq<u8>> {
    fragments.map_values(|f: Fragment| f.data@)
}

/// A packet of at most 500 bytes is sent as it is. A larger one is sent in pieces that make the
/// packet when they are put together in order, of which each is small, and which are marked and
/// numbered.
#[verifier::spinoff_prover]
pub proof fn what_is_sent_is_the_packet(t: Transmission, packet: Seq<u8>)
    requires
        transmits(t, packet),
    ensures
        t is Whole <==> packet.len() <= 500,
        t matches Transmission::Whole { data, mode } ==> data@ == packet,
        t matches Transmission::Pieces { fragments, mode } ==> {
            &&& put_together(carried(fragments@)) == packet
            &&& forall|i: int| 0 <= i < fragments@.len() ==> 0 < (#[trigger] fragments@[i]).data@.len() <= 150
            &&& forall|i: int, j: int|
                #![trigger fragments@[i], fragments@[j]]
                0 <= i < fragments@.len() && 0 <= j < fragments@.len() ==> fragments@[i].fragment_id@
                    == fragments@[j].fragment_id@
            &&& fragments@.len() <= 65535 ==> forall|i: int|
                0 <= i < fragments@.len() ==> {
                    let f = #[trigger] fragments@[i];
                    &&& f.index == i
                    &&& f.total == fragments@.len()
                    &&& f.original_type == 4
                    &&& f.fragment_type == if i == 0 {
                        FragmentType::Start
                    } else if i == fragments@.len() - 1 {
                        FragmentType::End
                    } else {
                        FragmentType::Continue
                    }
                }
        },
{
    let fragment_id = choose|fragment_id: Seq<u8>| fragment_id.len() == 8 && #[trigger] carries(t, packet, fragment_id);
    match t {
        Transmission::Pieces { fragments, mode } => {
            assert forall|i: int| 0 <= i < fragments@.len() implies 0 < (#[trigger] fragments@[i]).data@.len()
                <= 150 by {
                assert(fragments@[i]@ == fragment_at(packet, fragment_id, i));
                pieces_have_equal_sizes(packet, i);
            }
            assert(carried(fragments@) =~= pieces(packet)) by {
                assert forall|i: int| 0 <= i < fragments@.len() implies carried(fragments@)[i]
                    == pieces(packet)[i] by {
                    assert(fragments@[i]@ == fragment_at(packet, fragment_id, i));
                }
            }
            pieces_make_the_packet(packet);
            assert forall|i: int, j: int|
                #![trigger fragments@[i], fragments@[j]]
                0 <= i < fragments@.len() && 0 <= j < fragments@.len() implies fragments@[i].fragment_id@
                == fragments@[j].fragment_id@ by {
                assert(fragments@[i]@ == fragment_at(packet, fragment_id, i));
                assert(fragments@[j]@ == fragment_at(packet, fragment_id, j));
            }
        },
        Transmission::Whole { data, mode } => {},
    }
}

/// Pieces are written one after the other, with a pause after each but the last, until one cannot be
/// written.
pub proof fn pieces_are_written_in_turn(index: int, count: int)
    requires
        0 <= index < count,
    ensures
        step_after(index, count, false) == AfterPiece::GiveUp,
        step_after(count - 1, count, true) == AfterPiece::Done,
        index != count - 1 ==> step_after(index, count, true) == AfterPiece::Pause,
{
}

/// What a transmission brings to its receivers: the packet itself, or its pieces put together.
pub open spec fn brings(t: Transmission) -> Seq<u8> {
    match t {
        Transmission::Whole { data, mode } => data@,
        Transmission::Pieces { fragments, mode } => put_together(carried(fragments@)),
    }
}

/// A chat message that is sent arrives as a chat message from its sender, for whom it was sent to,
/// and with the payload that was sent.
#[verifier::spinoff_prover]
pub proof fn sent_messages_arrive(
    t: Transmission,
    sender: Seq<char>,
    recipient: Option<Seq<char>>,
    payload: Seq<u8>,
    signature: Seq<u8>,
)
    requires
        sends_message(t, sender, recipient, payload, signature),
        is_sender(sender),
        recipient_field(MessageType::Message, recipient).len() == 8,
        signature.len() == 64,
    ensures
        ({
            &&& packet_of(brings(t)) matches Ok(p)
            &&& p.msg_type is Message
            &&& p.sender_id_str == hex_text(sender_field(sender))
            &&& p.recipient_id == Some(recipient_field(MessageType::Message, recipient))
            &&& p.payload == payload
            &&& p.ttl == 7
        }),
{
    let now = choose|now: u64|
        transmits(
            t,
            #[trigger] packet_bytes(now, sender, recipient, MessageType::Message, payload, Some(signature)),
        );
    let packet = packet_bytes(now, sender, recipient, MessageType::Message, payload, Some(signature));
    what_is_sent_is_the_packet(t, packet);
    packet_round_trip(now, sender, recipient, MessageType::Message, payload, Some(signature));
}

/// Two clients that differ in their deliveries alone agree on all else.
pub proof fn all_but_deliveries_is_kept(a: Client, b: Client)
    requires
        same_but_deliveries(a, b),
    ensures
        b.my_peer_id == a.my_peer_id,
        b.nickname == a.nickname,
        b.peers == a.peers,
        b.channels == a.channels,
        b.seen == a.seen,
        b.fragments == a.fragments,
        b.blocked_peers == a.blocked_peers,
{
}

/// An announcement has at least three parts, and is read by them, however many more there are.
pub proof fn announcements_are_read_by_their_parts(parts: Seq<Seq<char>>)
    requires
        parts.len() > 0,
        forall|i: int| 0 <= i < parts.len() ==> !(#[trigger] parts[i]).contains('|'),
    ensures
        announcement_in(joined_by(parts, seq!['|'])) == if parts.len() < 3 {
            None
        } else {
            Some(
                AnnouncementView {
                    channel: parts[0],
                    is_protected: parts[1].len() == 1 && parts[1][0] == '1',
                    creator: parts[2],
                    key_commitment: if parts.len() > 3 {
                        parts[3]
                    } else {
                        Seq::empty()
                    },
                },
            )
        },
{
    splitting_undoes_joining(parts, '|');
    if parts.len() >= 3 {
        if parts[1].len() == 1 && parts[1][0] == '1' {
            assert(parts[1] =~= seq!['1']);
        }
    }
}

proof fn splitting_undoes_joining(parts: Seq<Seq<char>>, c: char)
    requires
        parts.len() > 0,
        forall|i: int| 0 <= i < parts.len() ==> !(#[trigger] parts[i]).contains(c),
    ensures
        split_on(joined_by(parts, seq![c]), c) == parts,
    decreases parts.len(),
{
    assert(!parts[0].contains(c));
    if parts.len() == 1 {
        split_on_none(parts[0], c);
        assert(parts =~= seq![parts[0]]);
    } else {
        let rest = parts.skip(1);
        assert forall|i: int| 0 <= i < rest.len() implies !(#[trigger] rest[i]).contains(c) by {
            assert(rest[i] == parts[i + 1]);
        }
        splitting_undoes_joining(rest, c);
        assert(parts =~= seq![parts[0]] + rest);
        joining_is_putting_between(seq![parts[0]], rest, seq![c], parts[0]);
        split_on_first(parts[0], joined_by(rest, seq![c]), c);
    }
}

/// The announcement of a channel reaches everyone within five hops, who read from it what was
/// announced, and who announced it.
#[verifier::spinoff_prover]
pub proof fn announced_channels_are_read(
    now: u64,
    me: Seq<char>,
    channel: Seq<char>,
    is_protected: bool,
    commitment: Seq<char>,
)
    requires
        is_sender(me),
        !channel.contains('|'),
        !me.contains('|'),
        !commitment.contains('|'),
    ensures
        ({
            let payload = encode_utf8(announcement_text(channel, is_protected, me, commitment));
            let data = packet_bytes(now, me, None, MessageType::ChannelAnnounce, payload, None).update(2, 5);
            &&& packet_of(data) matches Ok(p)
            &&& p.msg_type is ChannelAnnounce
            &&& p.ttl == 5
            &&& announcement_of(p.payload) == Some(
                AnnouncementView { channel, is_protected, creator: me, key_commitment: commitment },
            )
        }),
{
    let payload = encode_utf8(announcement_text(channel, is_protected, me, commitment));
    packet_round_trip(now, me, None, MessageType::ChannelAnnounce, payload, None);
    header_is_there(now, me, None, MessageType::ChannelAnnounce, payload, None);
    ttl_is_separate(packet_bytes(now, me, None, MessageType::ChannelAnnounce, payload, None), 5);
    announcement_round_trip(channel, is_protected, me, commitment);
}

/// The piece with number `i` of a packet, once the piece `index` has arrived.
pub open spec fn piece_after(c: CollectorView, fragment_id: Seq<u8>, index: u16, data: Seq<u8>, i: u16) -> Option<
    Seq<u8>,
> {
    let key = hex_text(fragment_id);
    if i == index {
        Some(data)
    } else if c.fragments.contains_key(key) && c.fragments[key].contains_key(i) {
        Some(c.fragments[key][i])
    } else {
        None
    }
}

/// The pieces of a packet that is complete, in order.
pub open spec fn pieces_after(c: CollectorView, fragment_id: Seq<u8>, index: u16, data: Seq<u8>, total: u16) -> Seq<
    Seq<u8>,
> {
    Seq::new(total as nat, |i: int| piece_after(c, fragment_id, index, data, i as u16)->0)
}

spec fn below(n: nat) -> Set<u16>
    decreases n,
{
    if n == 0 {
        Set::empty()
    } else {
        below((n - 1) as nat).insert((n - 1) as u16)
    }
}

proof fn below_holds(n: nat)
    requires
        n <= 65535,
    ensures
        below(n).finite(),
        below(n).len() == n,
        forall|i: u16| #[trigger] below(n).contains(i) <==> i < n,
    decreases n,
{
    if n > 0 {
        below_holds((n - 1) as nat);
    }
}

proof fn joined_in_order(parts: Map<u16, Seq<u8>>, list: Seq<Seq<u8>>, n: nat)
    requires
        n <= list.len() <= 65535,
        forall|i: u16| i < n ==> parts[i] == #[trigger] list[i as int],
    ensures
        joined_pieces(parts, n) == put_together(list.take(n as int)),
    decreases n,
{
    if n > 0 {
        joined_in_order(parts, list, (n - 1) as nat);
        assert(list.take(n as int).drop_last() =~= list.take(n - 1));
        let last = (n - 1) as u16;
        assert(parts[last] == list[last as int]);
    }
}

/// A fragment completes its packet exactly when the pieces that are there are those numbered below
/// the number of pieces, and no others. Then the packet is the pieces in order, and is forgotten;
/// until then the piece is kept with the others, in place of one that had its number.
#[verifier::spinoff_prover]
pub proof fn packets_are_complete_when_all_pieces_are_there(
    c: CollectorView,
    fragment_id: Seq<u8>,
    index: u16,
    total: u16,
    original_type: u8,
    data: Seq<u8>,
    sender: Seq<char>,
)
    requires
        c.fragments.contains_key(hex_text(fragment_id)) ==> c.fragments[hex_text(fragment_id)].dom().finite(),
    ensures
        ({
            let key = hex_text(fragment_id);
            let (after, done) = collect(c, fragment_id, index, total, original_type, data, sender);
            &&& done is Some <==> forall|i: u16|
                #[trigger] piece_after(c, fragment_id, index, data, i) is Some <==> i < total
            &&& done matches Some((packet, _)) ==> {
                &&& packet == put_together(pieces_after(c, fragment_id, index, data, total))
                &&& !after.fragments.contains_key(key)
                &&& !after.metadata.contains_key(key)
            }
            &&& done is None ==> after.fragments.contains_key(key) && forall|i: u16|
                (#[trigger] piece_after(c, fragment_id, index, data, i)) == if after.fragments[key].contains_key(i) {
                    Some(after.fragments[key][i])
                } else {
                    None
                }
            &&& done is None && !c.fragments.contains_key(key) ==> after.metadata.contains_pair(
                key,
                (total, original_type, sender),
            )
        }),
{
    let key = hex_text(fragment_id);
    let parts = parts_with(c, fragment_id, index, data);
    let (after, done) = collect(c, fragment_id, index, total, original_type, data, sender);
    assert forall|i: u16| (#[trigger] piece_after(c, fragment_id, index, data, i)) == if parts.contains_key(i) {
        Some(parts[i])
    } else {
        None
    } by {}
    assert(parts.dom().finite());
    below_holds(total as nat);
    if done is Some {
        assert(below(total as nat).subset_of(parts.dom()));
        vstd::set_lib::lemma_subset_equality(below(total as nat), parts.dom());
        assert forall|i: u16| #[trigger] piece_after(c, fragment_id, index, data, i) is Some <==> i < total by {
            assert(parts.dom().contains(i) <==> below(total as nat).contains(i));
        }
        let list = pieces_after(c, fragment_id, index, data, total);
        assert forall|i: u16| i < total implies parts[i] == #[trigger] list[i as int] by {
            assert(piece_after(c, fragment_id, index, data, i) is Some);
        }
        joined_in_order(parts, list, total as nat);
        assert(list.take(total as int) =~= list);
    }
    if forall|i: u16| #[trigger] piece_after(c, fragment_id, index, data, i) is Some <==> i < total {
        assert forall|i: u16| parts.dom().contains(i) <==> below(total as nat).contains(i) by {
            assert(piece_after(c, fragment_id, index, data, i) is Some <==> i < total);
        }
        assert(parts.dom() =~= below(total as nat));
        assert forall|i: u16| i < total implies #[trigger] parts.contains_key(i) by {
            assert(below(total as nat).contains(i));
        }
        assert(done is Some);
    }
}

} // verus!
