//! What becomes of what is received.
use crate::adapters::hex_text;
use crate::ble::{announcement_round_trip, announcement_text};
use crate::channels::with_message;
use crate::client::{handles, leads_to, Action, Client, ModeView};
use crate::collector::{collect, CollectorView};
use crate::commands::command_of;
use crate::delivery::{tracks, DeliveryAck};
use crate::fragmentation::{fragment_bytes, fragment_of, FragmentView};
use crate::inbox::{
    ack_key, completed, decrypted_payload, departs, hears_nickname, hears_of_channel, is_delivered, is_shown_as,
    read_ack, sent_ack, settled, takes, takes_piece, AckRoute, Departure, Fate, Intake, Presentation, Settlement,
};
use crate::laws::commands::names_are_what_stands_behind;
use crate::laws::messages::opened_text_is_what_was_written;
use crate::laws::packets::{padded, what_is_not_padded_stays};
use crate::laws::text::{all_space, starting_is_going_on, trimming_takes_white_space_off};
use crate::message::{message_of, plain_message_bytes, plain_message_round_trip, MessageView};
use crate::packet::{is_sender, packet_of, BitchatPacket, PacketView};
use crate::peers::shown_name;
use crate::protocol::{unpad_undoes_pad, COVER_TRAFFIC_PREFIX};
use crate::text::is_space;
use std::time::SystemTime;
use vstd::prelude::*;
use vstd::utf8::encode_utf8;

verus! {

/// A message that was not seen before is taken in as its sender wrote it, under the name that its
/// sender is shown by. Its channel is known from then on, and it counts as seen.
#[verifier::spinoff_prover]
pub proof fn unseen_messages_are_taken_in(
    before: Client,
    sender: Seq<char>,
    id: Seq<u8>,
    content: Seq<char>,
    channel: Option<Seq<char>>,
    is_private: bool,
    sender_peer_id: Seq<char>,
    r: Intake,
    after: Client,
)
    requires
        id.len() == 16,
        is_sender(sender_peer_id),
        channel matches Some(c) ==> encode_utf8(c).len() <= 255,
        !before.seen@.contains(hex_text(id)),
        takes(
            before,
            sender,
            plain_message_bytes(id, content, channel, is_private, sender_peer_id),
            r,
            after,
        ),
    ensures
        r matches Intake::New { message, sender_nick } && message@.id == hex_text(id) && message@.content == content
            && message@.channel == channel && !message@.is_encrypted && sender_nick@ == shown_name(
            before.peers@,
            sender,
        ),
        after.seen@.contains(hex_text(id)),
        channel matches Some(c) ==> after.channels@.discovered.contains(c),
        after.peers == before.peers,
        after.deliveries == before.deliveries,
        after.fragments == before.fragments,
        after.nickname == before.nickname,
        after.my_peer_id == before.my_peer_id,
        after.blocked_peers == before.blocked_peers,
        after.channels@.keys == before.channels@.keys,
{
    plain_message_round_trip(id, content, channel, is_private, sender_peer_id);
}

/// What came of a message says whether it makes sense and whether it was seen before; only one that
/// is new changes anything.
pub proof fn only_new_messages_change_anything(
    before: Client,
    sender: Seq<char>,
    payload: Seq<u8>,
    r: Intake,
    after: Client,
)
    requires
        takes(before, sender, payload, r, after),
    ensures
        r == Intake::Over(Fate::Unreadable) <==> message_of(payload) is Err,
        r == Intake::Over(Fate::Repeated) <==> (message_of(payload) matches Ok(m) && before.seen@.contains(m.id)),
        r is New <==> (message_of(payload) matches Ok(m) && !before.seen@.contains(m.id)),
        r is Over ==> after == before,
        r matches Intake::New { message, sender_nick } ==> {
            &&& message_of(payload) == Ok::<MessageView, Seq<char>>(message@)
            &&& sender_nick@ == shown_name(before.peers@, sender)
            &&& after.channels@ == with_message(before.channels@, message@)
            &&& after.seen@.contains(message@.id)
            &&& before.seen@.subset_of(after.seen@)
            &&& after == (Client { channels: after.channels, seen: after.seen, ..before })
        },
{
}

/// A private message that starts with the mark of cover traffic is not shown, and any other is shown
/// as private. What is not private is shown in its channel, or to everyone, whatever it says.
pub proof fn messages_are_shown_where_they_belong(
    channel: Option<Seq<char>>,
    rest: Seq<char>,
    text: Seq<char>,
    cover: Presentation,
    private: Presentation,
    open: Presentation,
)
    requires
        is_shown_as(true, channel, COVER_TRAFFIC_PREFIX@ + rest, cover),
        is_shown_as(true, channel, text, private),
        is_shown_as(false, channel, text, open),
    ensures
        cover is Discard,
        private is Discard ==> text == COVER_TRAFFIC_PREFIX@ + text.skip(COVER_TRAFFIC_PREFIX@.len() as int),
        private is Discard || private is Private,
        channel is None ==> open is Public,
        channel matches Some(c) ==> (open matches Presentation::Channel(name) && name@ == c),
{
    starting_is_going_on(text, COVER_TRAFFIC_PREFIX@, rest);
}

/// Only chat messages come out of pieces, and only those that can be read.
pub proof fn only_chat_messages_come_out_of_pieces(c: CollectorView, f: FragmentView, sender: Seq<char>)
    ensures
        ({
            let (after, done) = collect(
                c,
                f.fragment_id,
                f.index,
                f.total,
                f.original_type,
                f.data,
                sender,
            );
            let (kept, message) = completed(c, f, sender);
            &&& kept == after
            &&& done is None ==> message is None
            &&& done matches Some((data, _)) ==> (message is Some <==> (packet_of(data) matches Ok(p)
                && p.msg_type is Message))
            &&& done matches Some((data, _)) ==> (message matches Some(p) ==> packet_of(data) == Ok::<PacketView, Seq<char>>(p))
        }),
{
}

/// A fragment has a header of thirteen bytes, and is what was written whatever stands in it.
pub proof fn fragments_are_read_by_their_parts(
    fragment_id: Seq<u8>,
    index: u16,
    total: u16,
    original_type: u8,
    data: Seq<u8>,
    short: Seq<u8>,
)
    requires
        fragment_id.len() == 8,
        short.len() < 13,
    ensures
        ({
            let payload = fragment_id + seq![
                (index / 256) as u8,
                (index % 256) as u8,
                (total / 256) as u8,
                (total % 256) as u8,
                original_type,
            ] + data;
            &&& fragment_of(payload) == Some(FragmentView { fragment_id, index, total, original_type, data })
            &&& fragment_bytes(FragmentView { fragment_id, index, total, original_type, data }) == payload
        }),
        fragment_of(short) is None,
{
    let f = FragmentView { fragment_id, index, total, original_type, data };
    crate::fragmentation::fragment_round_trip(f);
    let payload = fragment_id + seq![
        (index / 256) as u8,
        (index % 256) as u8,
        (total / 256) as u8,
        (total % 256) as u8,
        original_type,
    ] + data;
    assert(fragment_bytes(f) =~= payload);
}

/// A peer that says what it calls itself is known by that from then on, without the white space
/// around it; what other peers are known by, and all else, stays as it was.
pub proof fn peers_become_known_by_what_they_say(
    before: Client,
    p: PacketView,
    a: Seq<char>,
    name: Seq<char>,
    b: Seq<char>,
    nickname: Seq<char>,
    is_new: bool,
    after: Client,
    other: Seq<char>,
)
    requires
        hears_nickname(before, p, nickname, is_new, after),
        p.payload == encode_utf8(a + name + b),
        all_space(a),
        all_space(b),
        name.len() > 0 ==> !is_space(name[0]) && !is_space(name.last()),
        other != p.sender_id_str,
    ensures
        nickname == name,
        shown_name(after.peers@, p.sender_id_str) == name,
        after.peers@.contains_key(p.sender_id_str),
        is_new <==> !before.peers@.contains_key(p.sender_id_str),
        after.peers@.contains_key(other) == before.peers@.contains_key(other),
        shown_name(after.peers@, other) == shown_name(before.peers@, other),
        after == (Client { peers: after.peers, ..before }),
{
    opened_text_is_what_was_written(a + name + b);
    trimming_takes_white_space_off(a, name, b);
}

/// A peer that leaves a channel stays known, and we are told where we are in that channel. A peer
/// that leaves for good is forgotten; the others are not.
pub proof fn peers_leave_channels_or_for_good(
    before: Client,
    p: PacketView,
    a: Seq<char>,
    words: Seq<char>,
    b: Seq<char>,
    mode: ModeView,
    r: Departure,
    after: Client,
    other: Seq<char>,
)
    requires
        departs(before, p, mode, r, after),
        p.payload == encode_utf8(a + words + b),
        all_space(a),
        all_space(b),
        words.len() > 0 ==> !is_space(words[0]) && !is_space(words.last()),
        other != p.sender_id_str,
    ensures
        words.len() > 0 && words[0] == '#' ==> {
            &&& after == before
            &&& r matches Departure::Channel { nickname, channel, is_shown }
            &&& nickname@ == shown_name(before.peers@, p.sender_id_str)
            &&& channel@ == words
            &&& is_shown <==> mode == ModeView::Channel(words)
        },
        words.len() == 0 || words[0] != '#' ==> {
            &&& r matches Departure::Peer(said)
            &&& said@ == words
            &&& !after.peers@.contains_key(p.sender_id_str)
            &&& after.peers@.contains_key(other) == before.peers@.contains_key(other)
            &&& shown_name(after.peers@, other) == shown_name(before.peers@, other)
            &&& after == (Client { peers: after.peers, ..before })
        },
{
    opened_text_is_what_was_written(a + words + b);
    trimming_takes_white_space_off(a, words, b);
}

/// A confirmation of a message that was tracked is reported, by the nickname of whom it reached;
/// the next one of that message is not, and confirmations of other messages never are.
pub proof fn tracked_messages_are_reported_once(
    before: Client,
    sent: Client,
    id: Seq<char>,
    text: Seq<char>,
    is_private: bool,
    ack: DeliveryAck,
    first: Option<String>,
    between: Client,
    again: DeliveryAck,
    second: Option<String>,
    after: Client,
)
    requires
        tracks(before.deliveries, sent.deliveries, id, text, is_private),
        ack.original_message_id@ == id,
        again.original_message_id@ == id,
        is_delivered(sent, ack, first, between),
        is_delivered(between, again, second, after),
    ensures
        first matches Some(nickname) && nickname@ == ack.recipient_nickname@,
        second is None,
        forall|other: Seq<char>|
            other != id ==> (#[trigger] after.deliveries.pending_messages@.contains_key(other)
                <==> before.deliveries.pending_messages@.contains_key(other)),
        after.deliveries.sent_acks@ == before.deliveries.sent_acks@,
        after.peers == sent.peers,
        after.channels == sent.channels,
{
    let entry = choose|entry: (String, SystemTime, bool)|
        entry.0@ == text && entry.2 == is_private && sent.deliveries.pending_messages@
            == #[trigger] before.deliveries.pending_messages@.insert(id, entry);
    assert(sent.deliveries.pending_messages@.contains_key(id));
}

/// A confirmation of a message that is not waited for changes nothing that is waited for.
pub proof fn other_confirmations_are_not_reported(before: Client, ack: DeliveryAck, r: Option<String>, after: Client)
    requires
        is_delivered(before, ack, r, after),
        !before.deliveries.pending_messages@.contains_key(ack.original_message_id@),
    ensures
        r is None,
        after.deliveries.pending_messages@ == before.deliveries.pending_messages@,
{
    assert(before.deliveries.pending_messages@.remove(ack.original_message_id@)
        =~= before.deliveries.pending_messages@);
}

/// A private message is shown and confirmed the first time that it arrives in one packet. Cover
/// traffic is neither, and what arrives in pieces is never confirmed. A message is either shown or
/// discarded.
pub proof fn messages_are_settled_by_what_they_are(
    before: Client,
    m: MessageView,
    text: Seq<char>,
    is_private: bool,
    is_piece: bool,
    r: Settlement,
    after: Client,
)
    requires
        settled(before, m, text, is_private, is_piece, r, after),
    ensures
        r.fate == Fate::Discarded <==> r.presentation is Discard,
        r.fate == Fate::Discarded || r.fate == Fate::Shown,
        r.presentation is Discard <==> is_private && exists|rest: Seq<char>|
            text == #[trigger] (COVER_TRAFFIC_PREFIX@ + rest),
        r.fate == Fate::Discarded || is_piece ==> r.ack is None && after == before,
        is_private && !is_piece && r.fate == Fate::Shown && !before.deliveries.sent_acks@.contains(
            ack_key(m.id, before.my_peer_id@),
        ) ==> (r.ack matches Some(ack) && ack.original_message_id@ == m.id),
        !is_private && m.channel is None ==> r.ack is None && r.presentation is Public,
{
    if r.presentation is Discard {
        starting_is_going_on(text, COVER_TRAFFIC_PREFIX@, Seq::empty());
        assert(text == COVER_TRAFFIC_PREFIX@ + text.skip(COVER_TRAFFIC_PREFIX@.len() as int));
    }
    if is_private && exists|rest: Seq<char>| text == #[trigger] (COVER_TRAFFIC_PREFIX@ + rest) {
        let rest = choose|rest: Seq<char>| text == #[trigger] (COVER_TRAFFIC_PREFIX@ + rest);
        starting_is_going_on(text, COVER_TRAFFIC_PREFIX@, rest);
    }
}

/// A fragment that arrives is kept with its packet, or completes it, and changes nothing else; a
/// packet that is too short for one changes nothing.
pub proof fn fragments_are_kept(before: Client, p: PacketView, f: FragmentView, r: Result<BitchatPacket, Fate>, after: Client)
    requires
        takes_piece(before, p, r, after),
        f.fragment_id.len() == 8,
    ensures
        p.payload.len() < 13 ==> r == Err::<BitchatPacket, Fate>(Fate::Incomplete) && after == before,
        p.payload == fragment_bytes(f) ==> {
            let (kept, done) = collect(
                before.fragments@,
                f.fragment_id,
                f.index,
                f.total,
                f.original_type,
                f.data,
                p.sender_id_str,
            );
            &&& after.fragments@ == kept
            &&& r is Ok <==> (done matches Some((data, _)) && packet_of(data) is Ok && packet_of(data)->Ok_0.msg_type
                is Message)
            &&& r matches Ok(whole) ==> (done matches Some((data, _)) && packet_of(data) == Ok::<
                PacketView,
                Seq<char>,
            >(whole@))
            &&& r matches Err(fate) ==> fate == Fate::Incomplete
        },
        after == (Client { fragments: after.fragments, ..before }),
{
    crate::fragmentation::fragment_round_trip(f);
}

/// An announcement of a channel gives its name and tells of it alone; what makes no sense tells
/// nothing.
pub proof fn channels_become_known(
    before: Client,
    p: PacketView,
    channel: Seq<char>,
    is_protected: bool,
    creator: Seq<char>,
    commitment: Seq<char>,
    r: Option<String>,
    after: Client,
)
    requires
        hears_of_channel(before, p, r, after),
        !channel.contains('|'),
        !creator.contains('|'),
        !commitment.contains('|'),
    ensures
        p.payload == encode_utf8(announcement_text(channel, is_protected, creator, commitment)) ==> {
            &&& r matches Some(name)
            &&& name@ == channel
            &&& after.channels@.protected.contains(channel) <==> is_protected
            &&& creator.len() > 0 ==> after.channels@.creators.contains_pair(channel, creator)
            &&& !is_protected ==> !after.channels@.keys.contains_key(channel)
        },
        r is None ==> after == before,
        after == (Client { channels: after.channels, ..before }),
{
    announcement_round_trip(channel, is_protected, creator, commitment);
}

/// Only a line that asks for a nickname changes ours, and only one that asks for a channel changes
/// those that we know, by that channel; nothing else is changed by what the user types.
pub proof fn lines_change_what_they_ask_for(
    before: Client,
    a: Seq<char>,
    name: Seq<char>,
    b: Seq<char>,
    line: Seq<char>,
    mode: ModeView,
    last: Option<(Seq<char>, Seq<char>)>,
    action: Action,
    after: Client,
)
    requires
        handles(before, line, mode, last, action, after),
        all_space(a),
        all_space(b),
        name.len() > 0,
        !is_space(name[0]) && !is_space(name.last()),
        encode_utf8(name).len() <= 20,
    ensures
        line == "/name "@ + (a + name + b) ==> after.nickname@ == name && action is Renamed && after.channels@
            == before.channels@,
        leads_to(before, command_of(line), mode, last, action),
        !(action is Renamed) ==> after.nickname@ == before.nickname@,
        action matches Action::Joined(channel) ==> after.channels@.discovered == before.channels@.discovered.insert(
            channel@,
        ),
        !(action is Joined) ==> after.channels@ == before.channels@,
        after.channels@.keys == before.channels@.keys,
        after.channels@.protected == before.channels@.protected,
        after.channels@.creators == before.channels@.creators,
        after.channels@.commitments == before.channels@.commitments,
        after.my_peer_id == before.my_peer_id,
        after.peers == before.peers,
        after.seen == before.seen,
        after.fragments == before.fragments,
        after.deliveries == before.deliveries,
        after.blocked_peers == before.blocked_peers,
{
    names_are_what_stands_behind(a, name, b);
}

/// A private message that was padded comes out as it went in once it is decrypted, and one that was
/// not padded too, unless it looks as if it were. One that cannot be decrypted is dropped.
pub proof fn private_payloads_come_out_as_they_went_in(m: Seq<u8>, n: u8)
    requires
        n > 0,
    ensures
        decrypted_payload(Some(m + Seq::new(n as nat, |i: int| n))) == Ok::<Seq<u8>, Fate>(m),
        (forall|head: Seq<u8>, k: u8| k > 0 ==> m != #[trigger] padded(head, k)) ==> decrypted_payload(Some(m)) == Ok::<
            Seq<u8>,
            Fate,
        >(m),
        decrypted_payload(None) == Err::<Seq<u8>, Fate>(Fate::Dropped),
{
    unpad_undoes_pad(m, n);
    if forall|head: Seq<u8>, k: u8| k > 0 ==> m != #[trigger] padded(head, k) {
        what_is_not_padded_stays(m);
    }
}

/// A confirmation is read as it was written: one that was sent encrypted once it is decrypted, and
/// one that was not, or could not be, as it is, also where its reader tries in vain to decrypt it.
pub proof fn confirmations_are_read_as_they_were_written(plain: Seq<u8>, sealed: Seq<u8>, any: Option<Seq<u8>>)
    ensures
        sent_ack(plain, true, Some(sealed)) == sealed,
        sent_ack(plain, true, None) == plain,
        sent_ack(plain, false, any) == plain,
        read_ack(sent_ack(plain, true, Some(sealed)), AckRoute::Decrypt, Some(plain)) == plain,
        read_ack(sent_ack(plain, false, any), AckRoute::Decrypt, None) == plain,
        read_ack(sent_ack(plain, false, any), AckRoute::Read, any) == plain,
{
}

} // verus!
