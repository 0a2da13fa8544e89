//! What the client keeps: channels, peers, deliveries.
use crate::ble::AnnouncementView;
use crate::channels::{with_announcement, with_message, ChannelsView};
use crate::client::{announces, dm_leads_to, is_online_list, leads_to, nobody_is, says, Action, Client, ModeView};
use crate::commands::CommandView;
use crate::delivery::{tracks, DeliveryAck, DeliveryTracker};
use crate::inbox::{ack_key, confirmed};
use crate::laws::text::text_le_is_antisymmetric;
use crate::message::MessageView;
use crate::peers::{called, shown_name};
use crate::protocol::ack_is_due;
use crate::text::{is_sorted, joined_by, text_le, text_le_is_total, text_le_is_transitive};
use vstd::prelude::*;
use vstd::relations::{antisymmetric, reflexive, sorted_by, strongly_connected, total_ordering, transitive};

verus! {

/// What is known of one channel is the same in both.
pub open spec fn agree_on(a: ChannelsView, b: ChannelsView, channel: Seq<char>) -> bool {
    &&& a.discovered.contains(channel) == b.discovered.contains(channel)
    &&& a.protected.contains(channel) == b.protected.contains(channel)
    &&& a.creators.contains_key(channel) == b.creators.contains_key(channel)
    &&& a.creators.contains_key(channel) ==> a.creators[channel] == b.creators[channel]
    &&& a.commitments.contains_key(channel) == b.commitments.contains_key(channel)
    &&& a.commitments.contains_key(channel) ==> a.commitments[channel] == b.commitments[channel]
    &&& a.keys.contains_key(channel) == b.keys.contains_key(channel)
    &&& a.keys.contains_key(channel) ==> a.keys[channel] == b.keys[channel]
}

/// A message tells that its channel exists, and that it has a password where the message is
/// encrypted. It tells nothing else: not of who made the channel, nor of its key, and an open
/// message does not open a channel. Of other channels, and without a channel, it tells nothing.
pub proof fn messages_tell_of_their_channel(c: ChannelsView, m: MessageView, other: Seq<char>)
    requires
        m.channel != Some(other),
    ensures
        agree_on(with_message(c, m), c, other),
        m.channel matches Some(channel) ==> {
            let after = with_message(c, m);
            &&& after.discovered.contains(channel)
            &&& after.protected.contains(channel) == (m.is_encrypted || c.protected.contains(channel))
            &&& after.creators == c.creators
            &&& after.commitments == c.commitments
            &&& after.keys == c.keys
        },
        m.channel is None ==> with_message(c, m) == c,
{
}

/// An announcement tells whether its channel has a password, who made it where it says so, and what
/// its key can be checked against where it says so and the channel has a password. A channel
/// without one has neither a key nor anything to check it against. Of other channels nothing is
/// told, and that the channel exists is not noted.
pub proof fn announcements_tell_of_their_channel(c: ChannelsView, a: AnnouncementView, other: Seq<char>)
    requires
        other != a.channel,
    ensures
        ({
            let after = with_announcement(c, a);
            &&& agree_on(after, c, other)
            &&& after.discovered == c.discovered
            &&& after.protected.contains(a.channel) == a.is_protected
            &&& a.creator.len() > 0 ==> after.creators.contains_pair(a.channel, a.creator)
            &&& a.creator.len() == 0 ==> after.creators == c.creators
            &&& a.is_protected && a.key_commitment.len() > 0 ==> after.commitments.contains_pair(
                a.channel,
                a.key_commitment,
            )
            &&& a.is_protected && a.key_commitment.len() == 0 ==> after.commitments == c.commitments
            &&& a.is_protected ==> after.keys == c.keys
            &&& !a.is_protected ==> !after.commitments.contains_key(a.channel) && !after.keys.contains_key(a.channel)
        }),
{
}

/// A peer is shown by the nickname that it last gave, and by its identifier as long as it gave none
/// or is gone; what other peers do does not matter.
pub proof fn peers_are_shown_by_what_they_last_said(
    peers: Map<Seq<char>, Option<Seq<char>>>,
    id: Seq<char>,
    nickname: Seq<char>,
    other: Seq<char>,
)
    requires
        other != id,
    ensures
        shown_name(peers.insert(id, Some(nickname)), id) == nickname,
        shown_name(peers.insert(id, None), id) == id,
        shown_name(peers.remove(id), id) == id,
        shown_name(peers.insert(id, Some(nickname)), other) == shown_name(peers, other),
        shown_name(peers.remove(id), other) == shown_name(peers, other),
{
}

/// Every peer counts once under its nickname: one more peer of that nickname is one more, and
/// peers with another, or without one, count for nothing there.
pub proof fn peers_are_counted_by_nickname(
    peers: Map<Seq<char>, Option<Seq<char>>>,
    id: Seq<char>,
    nickname: Seq<char>,
    other: Seq<char>,
)
    requires
        !peers.contains_key(id),
        called(peers, nickname).finite(),
        other != nickname,
    ensures
        called(peers.insert(id, Some(nickname)), nickname).len() == called(peers, nickname).len() + 1,
        called(peers.insert(id, Some(other)), nickname) == called(peers, nickname),
        called(peers.insert(id, None), nickname) == called(peers, nickname),
        called(Map::empty(), nickname).len() == 0,
{
    assert(called(peers.insert(id, Some(nickname)), nickname) =~= called(peers, nickname).insert(id));
    assert(!called(peers, nickname).contains(id));
    assert(called(peers.insert(id, Some(other)), nickname) =~= called(peers, nickname));
    assert(called(peers.insert(id, None), nickname) =~= called(peers, nickname));
    assert(called(Map::empty(), nickname) =~= Set::<Seq<char>>::empty());
}

/// Nobody has a nickname exactly where no peer is counted under it.
pub proof fn nobody_is_who_is_not_counted(
    peers: Map<Seq<char>, Option<Seq<char>>>,
    id: Seq<char>,
    nickname: Seq<char>,
)
    ensures
        nobody_is(Map::empty(), nickname),
        !nobody_is(peers.insert(id, Some(nickname)), nickname),
        nobody_is(peers, nickname) <==> called(peers, nickname) == Set::<Seq<char>>::empty(),
        peers.contains_pair(id, Some(nickname)) <==> called(peers, nickname).contains(id),
{
    let more = peers.insert(id, Some(nickname));
    assert(more.contains_pair(id, Some(nickname)));
    if nobody_is(peers, nickname) {
        assert(called(peers, nickname) =~= Set::<Seq<char>>::empty());
    }
    if called(peers, nickname) == Set::<Seq<char>>::empty() {
        assert forall|x: Seq<char>| !#[trigger] peers.contains_pair(x, Some(nickname)) by {
            assert(!called(peers, nickname).contains(x));
        }
    }
}

/// Those online are listed in order, each nickname as often as peers have it, with commas between:
/// there is one such list.
pub proof fn there_is_one_list_of_those_online(
    peers: Map<Seq<char>, Option<Seq<char>>>,
    text: Seq<char>,
    names: Seq<Seq<char>>,
)
    requires
        is_online_list(peers, text),
        is_sorted(names),
        forall|n: Seq<char>| #[trigger] names.to_multiset().count(n) == called(peers, n).len(),
    ensures
        text == joined_by(names, seq![',', ' ']),
{
    reveal_strlit(", ");
    assert(", "@ =~= seq![',', ' ']);
    let others = choose|others: Seq<Seq<char>>|
        is_sorted(others) && (forall|n: Seq<char>|
            #[trigger] others.to_multiset().count(n) == called(peers, n).len()) && text == #[trigger] joined_by(
            others,
            ", "@,
        );
    assert(others.to_multiset() =~= names.to_multiset()) by {
        assert forall|n: Seq<char>| #[trigger] others.to_multiset().count(n) == names.to_multiset().count(n) by {
            assert(others.to_multiset().count(n) == called(peers, n).len());
            assert(names.to_multiset().count(n) == called(peers, n).len());
        }
    }
    let leq = |a: Seq<char>, b: Seq<char>| text_le(a, b);
    assert(total_ordering(leq)) by {
        assert(reflexive(leq)) by {
            assert forall|x: Seq<char>| #[trigger] leq(x, x) by {
                text_le_is_total(x, x);
            }
        }
        assert(antisymmetric(leq)) by {
            assert forall|x: Seq<char>, y: Seq<char>| #[trigger] leq(x, y) && #[trigger] leq(y, x) implies x == y by {
                text_le_is_antisymmetric(x, y);
            }
        }
        assert(transitive(leq)) by {
            assert forall|x: Seq<char>, y: Seq<char>, z: Seq<char>| #[trigger]
                leq(x, y) && #[trigger] leq(y, z) implies leq(x, z) by {
                text_le_is_transitive(x, y, z);
            }
        }
        assert(strongly_connected(leq)) by {
            assert forall|x: Seq<char>, y: Seq<char>| #[trigger] leq(x, y) || #[trigger] leq(y, x) by {
                text_le_is_total(x, y);
            }
        }
    }
    assert(sorted_by(others, leq));
    assert(sorted_by(names, leq));
    vstd::seq_lib::lemma_sorted_unique(others, names, leq);
}

/// A message that is tracked is waited for with its text, as private or not; what else is waited
/// for, and what was confirmed, stays as it was.
pub proof fn tracked_messages_are_waited_for(
    before: DeliveryTracker,
    after: DeliveryTracker,
    id: Seq<char>,
    text: Seq<char>,
    is_private: bool,
    other: Seq<char>,
)
    requires
        tracks(before, after, id, text, is_private),
        other != id,
    ensures
        after.pending_messages@.contains_key(id),
        after.pending_messages@[id].0@ == text,
        after.pending_messages@[id].2 == is_private,
        after.pending_messages@.contains_key(other) == before.pending_messages@.contains_key(other),
        before.pending_messages@.contains_key(other) ==> after.pending_messages@[other]
            == before.pending_messages@[other],
        after.sent_acks@ == before.sent_acks@,
{
}

/// Private messages are confirmed however many are around; messages to everyone never; those of a
/// channel when they name us, and else never in a crowd where they are not in a smaller one.
pub proof fn confirmations_get_fewer_in_a_crowd(is_private: bool, in_channel: bool, mentions_me: bool, few: int, many: int)
    requires
        few <= many,
    ensures
        ack_is_due(true, in_channel, mentions_me, many),
        !ack_is_due(false, false, mentions_me, few),
        ack_is_due(is_private, true, true, many),
        ack_is_due(is_private, in_channel, mentions_me, many) ==> ack_is_due(
            is_private,
            in_channel,
            mentions_me,
            few,
        ),
        ack_is_due(false, true, false, 9),
        !ack_is_due(false, true, false, 10),
{
}

/// Confirmations of different messages by one device are told apart.
pub proof fn confirmations_are_told_apart(a: Seq<char>, b: Seq<char>, me: Seq<char>)
    requires
        a != b,
    ensures
        ack_key(a, me) != ack_key(b, me),
{
    if ack_key(a, me) == ack_key(b, me) {
        assert(ack_key(a, me).len() == a.len() + 1 + me.len());
        assert(ack_key(b, me).len() == b.len() + 1 + me.len());
        assert forall|i: int| 0 <= i < a.len() implies a[i] == b[i] by {
            assert(ack_key(a, me)[i] == a[i]);
            assert(ack_key(b, me)[i] == b[i]);
        }
        assert(a =~= b);
    }
}

/// A private message is confirmed the first time, to say that it has reached us, and never again;
/// a message to everyone is not confirmed. Confirming changes nothing but what was confirmed.
#[verifier::spinoff_prover]
pub proof fn private_messages_are_confirmed_once(
    before: Client,
    m: MessageView,
    first: Option<DeliveryAck>,
    between: Client,
    again: bool,
    second: Option<DeliveryAck>,
    after: Client,
)
    requires
        confirmed(before, m, true, first, between),
        confirmed(between, m, again, second, after),
    ensures
        !before.deliveries.sent_acks@.contains(ack_key(m.id, before.my_peer_id@)) ==> first is Some,
        first matches Some(ack) ==> {
            &&& ack.original_message_id@ == m.id
            &&& ack.recipient_id@ == before.my_peer_id@
            &&& ack.recipient_nickname@ == before.nickname@
            &&& ack.hop_count == 1
        },
        second is None,
        between.deliveries.pending_messages@ == before.deliveries.pending_messages@,
        between == (Client { deliveries: between.deliveries, ..before }),
        between.deliveries.sent_acks@ == before.deliveries.sent_acks@.insert(ack_key(m.id, before.my_peer_id@)),
{
    assert(between.my_peer_id == before.my_peer_id);
    assert(ack_is_due(true, m.channel is Some, false, before.peers@.len() as int));
}

/// A message to everyone is not confirmed, and nothing changes.
pub proof fn public_messages_are_not_confirmed(
    before: Client,
    m: MessageView,
    r: Option<DeliveryAck>,
    after: Client,
)
    requires
        m.channel is None,
        confirmed(before, m, false, r, after),
    ensures
        r is None,
        after == before,
{
}

/// A message of a channel is confirmed the first time while fewer than ten peers are around, and not
/// at all when there are more.
pub proof fn channel_messages_are_confirmed_among_few(
    before: Client,
    m: MessageView,
    r: Option<DeliveryAck>,
    after: Client,
)
    requires
        m.channel is Some,
        !before.deliveries.sent_acks@.contains(ack_key(m.id, before.my_peer_id@)),
        confirmed(before, m, false, r, after),
    ensures
        r is Some <==> before.peers@.len() < 10,
        r matches Some(ack) ==> ack.original_message_id@ == m.id && after.deliveries.sent_acks@.contains(
            ack_key(m.id, before.my_peer_id@),
        ),
        r is None ==> after == before,
{
}

/// What the user says goes to the one peer that they talk to, or to the channel that they are in,
/// encrypted wherever there is a key, or to everyone; and it is what they said.
pub proof fn what_is_said_goes_where_the_user_is(
    keys: Map<Seq<char>, Seq<u8>>,
    mode: ModeView,
    text: Seq<char>,
    action: Action,
)
    requires
        says(keys, mode, text, action),
    ensures
        action is SendPrivate || action is SendSealed || action is SendPlain,
        mode is PrivateDM <==> action is SendPrivate,
        action matches Action::SendPrivate { nickname, peer_id, text: t } ==> mode == (ModeView::PrivateDM {
            nickname: nickname@,
            peer_id: peer_id@,
        }) && t@ == text,
        action matches Action::SendSealed { channel, key, text: t } ==> mode == ModeView::Channel(channel@)
            && keys.contains_pair(channel@, key@) && t@ == text,
        action matches Action::SendPlain { to: Some(channel), text: t } ==> mode == ModeView::Channel(channel@)
            && !keys.contains_key(channel@) && t@ == text,
        action matches Action::SendPlain { to: None, text: t } ==> mode == ModeView::Public && t@ == text,
{
}

/// A private line goes to a peer of the nickname that it names, with the message that it has; where
/// nobody has that nickname, the user is told so.
pub proof fn private_lines_reach_whom_they_name(
    peers: Map<Seq<char>, Option<Seq<char>>>,
    id: Seq<char>,
    nickname: Seq<char>,
    message: Option<Seq<char>>,
    action: Action,
)
    requires
        dm_leads_to(peers, nickname, message, action),
    ensures
        peers.contains_pair(id, Some(nickname)) ==> !(action is UserNotFound),
        action is UserNotFound || action is SendPrivate || action is EnterDm,
        action matches Action::UserNotFound(n) ==> n@ == nickname,
        action matches Action::SendPrivate { nickname: n, peer_id, text } ==> n@ == nickname && message == Some(
            text@,
        ) && peers.contains_pair(peer_id@, Some(nickname)),
        action matches Action::EnterDm { nickname: n, peer_id } ==> n@ == nickname && message is None
            && peers.contains_pair(peer_id@, Some(nickname)),
        (forall|x: Seq<char>| !#[trigger] peers.contains_pair(x, Some(nickname))) ==> action is UserNotFound,
{
}

/// Each command is answered by what it asks for.
pub proof fn commands_are_answered(
    c: Client,
    command: CommandView,
    mode: ModeView,
    last: Option<(Seq<char>, Seq<char>)>,
    action: Action,
)
    requires
        leads_to(c, command, mode, last, action),
    ensures
        command is Nothing ==> action is Nothing,
        command matches CommandView::SwitchTo(n) ==> action == Action::SwitchTo(n),
        command is Help ==> action is ShowHelp,
        command is NameMissing ==> action is NameMissing,
        command is NameTooLong ==> action is NameTooLong,
        command matches CommandView::Rename(name) ==> (action matches Action::Renamed { announcement }
            && announces(announcement@, c.my_peer_id@, name)),
        command is List ==> action is ShowConversations,
        command is Public ==> action is GoPublic,
        command is Reply && last is None ==> action is NothingToReplyTo,
        command is Reply && last is Some ==> (action matches Action::EnterDm { nickname, peer_id } && last == Some(
            (peer_id@, nickname@),
        )),
        command is Online && c.peers@.len() == 0 ==> action is NobodyOnline,
        command is Online && c.peers@.len() > 0 ==> (action matches Action::ShowOnline(list)
            && is_online_list(c.peers@, list@)),
        command is Status ==> action is ShowStatus,
        command is Exit <==> action is Exit,
        command is Clear ==> action is ClearScreen,
        command matches CommandView::Dm { nickname, message } ==> dm_leads_to(c.peers@, nickname, message, action),
        command is ChannelInvalid ==> action is ChannelInvalid,
        command matches CommandView::Join(channel) ==> (action matches Action::Joined(name)
            && name@ == channel),
        command matches CommandView::Unknown(word) ==> (action matches Action::UnknownCommand(
            w,
        ) && w@ == word),
        command matches CommandView::Say(text) ==> says(c.channels@.keys, mode, text, action),
{
}

} // verus!
