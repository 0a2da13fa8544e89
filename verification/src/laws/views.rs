//! What stands for the library's values in its contracts is what is in them.
use crate::ble::{mode_for, text_or_empty, ChannelAnnouncement, WriteMode};
use crate::channels::{Body, BodyView, Channels};
use crate::client::{opt_pair, opt_string, ChatMode, Client, ModeView};
use crate::collector::{FragmentCollector, metadata_of, pieces_of};
use crate::commands::{Command, CommandView};
use crate::fragmentation::Fragment;
use crate::inbox::owned_pair;
use crate::message::BitchatMessage;
use crate::packet::{opt_bytes, opt_text, BitchatPacket};
use crate::peers::{name_of, PeerDirectory};
use crate::protocol::Peer;
use crate::text::{is_sorted, text_le, texts};
use std::collections::HashMap;
use vstd::prelude::*;

verus! {

/// What may be missing stands for itself: for what is there, or for nothing.
pub proof fn what_may_be_missing(a: &str, s: String, b: Vec<u8>, pair: (String, String))
    ensures
        opt_text(Some(a)) == Some(a@),
        opt_text(None) is None,
        opt_string(Some(s)) == Some(s@),
        opt_string(None) is None,
        opt_bytes(Some(b)) == Some(b@),
        opt_bytes(None) is None,
        owned_pair(Some(pair)) == Some((pair.0@, pair.1@)),
        owned_pair(None) is None,
        opt_pair(Some(&pair)) == Some((pair.0@, pair.1@)),
        opt_pair(None) is None,
        text_or_empty(Some(a)) == a@,
        text_or_empty(None) == Seq::<char>::empty(),
{
}

/// A packet and a message stand for their fields.
pub proof fn packets_and_messages(p: BitchatPacket, m: BitchatMessage)
    ensures
        p@.msg_type == p.msg_type,
        p@.sender_id == p._sender_id@,
        p@.sender_id_str == p.sender_id_str@,
        p@.recipient_id == opt_bytes(p.recipient_id),
        p@.recipient_id_str == opt_string(p.recipient_id_str),
        p@.payload == p.payload@,
        p@.ttl == p.ttl,
        m@.id == m.id@,
        m@.content == m.content@,
        m@.channel == opt_string(m.channel),
        m@.is_encrypted == m.is_encrypted,
        m@.encrypted_content == opt_bytes(m.encrypted_content),
{
}

/// A fragment and an announcement stand for their fields.
pub proof fn fragments_and_announcements(f: Fragment, a: ChannelAnnouncement)
    ensures
        f@.fragment_id == f.fragment_id@,
        f@.index == f.index,
        f@.total == f.total,
        f@.original_type == f.original_type,
        f@.data == f.data@,
        a@.channel == a.channel@,
        a@.is_protected == a.is_protected,
        a@.creator == a.creator@,
        a@.key_commitment == a.key_commitment@,
{
}

/// A command stands for itself, with the text that it has.
pub proof fn commands(c: Command)
    ensures
        c is Nothing <==> c@ is Nothing,
        c matches Command::SwitchTo(n) ==> c@ == CommandView::SwitchTo(n),
        c is Help <==> c@ is Help,
        c is NameMissing <==> c@ is NameMissing,
        c is NameTooLong <==> c@ is NameTooLong,
        c matches Command::Rename(t) ==> c@ == CommandView::Rename(t@),
        c is List <==> c@ is List,
        c is Public <==> c@ is Public,
        c is Reply <==> c@ is Reply,
        c is Online <==> c@ is Online,
        c is Status <==> c@ is Status,
        c is Exit <==> c@ is Exit,
        c is Clear <==> c@ is Clear,
        c matches Command::Dm { nickname, message } ==> c@ == (CommandView::Dm {
            nickname: nickname@,
            message: opt_string(message),
        }),
        c is ChannelInvalid <==> c@ is ChannelInvalid,
        c matches Command::Join(t) ==> c@ == CommandView::Join(t@),
        c matches Command::Unknown(t) ==> c@ == CommandView::Unknown(t@),
        c matches Command::Say(t) ==> c@ == CommandView::Say(t@),
{
}

/// Modes and bodies stand for what they hold, and only in a channel is the user in that channel.
pub proof fn modes_and_bodies(mode: ChatMode, body: Body)
    ensures
        mode is Public <==> mode@ is Public,
        mode matches ChatMode::Channel(c) ==> mode@ == ModeView::Channel(c@) && mode@.channel() == Some(c@),
        mode matches ChatMode::PrivateDM { nickname, peer_id } ==> mode@ == (ModeView::PrivateDM {
            nickname: nickname@,
            peer_id: peer_id@,
        }),
        !(mode is Channel) ==> mode@.channel() is None,
        body matches Body::Readable(t) ==> body@ == BodyView::Readable(t@),
        body matches Body::Sealed { bytes, key } ==> body@ == (BodyView::Sealed { bytes: bytes@, key: key@ }),
{
}

/// What is known of channels and peers stands for the entries of the tables that keep it.
pub proof fn channels_and_peers(c: Channels, d: PeerDirectory, key: Seq<char>, peer: Peer)
    ensures
        c@.discovered.contains(key) == c.discovered@.contains_key(key),
        c@.protected.contains(key) == c.protected@.contains_key(key),
        c@.creators.contains_key(key) == c.creators@.contains_key(key),
        c.creators@.contains_key(key) ==> c@.creators[key] == c.creators@[key]@,
        c@.commitments.contains_key(key) == c.commitments@.contains_key(key),
        c.commitments@.contains_key(key) ==> c@.commitments[key] == c.commitments@[key]@,
        c@.keys.contains_key(key) == c.keys@.contains_key(key),
        c.keys@.contains_key(key) ==> c@.keys[key] == c.keys@[key]@,
        d@.contains_key(key) == d.peers@.contains_key(key),
        d.peers@.contains_key(key) ==> d@[key] == opt_string(d.peers@[key].nickname),
        name_of(peer) == opt_string(peer.nickname),
{
}

/// A collector stands for the pieces that it holds, and for what the first of them said.
pub proof fn collectors(
    c: FragmentCollector,
    key: Seq<char>,
    m: HashMap<u16, Vec<u8>>,
    i: u16,
    said: (u16, u8, String),
)
    ensures
        c@.fragments.contains_key(key) == c.fragments@.contains_key(key),
        c.fragments@.contains_key(key) ==> c@.fragments[key] == pieces_of(c.fragments@[key]),
        c@.metadata.contains_key(key) == c.metadata@.contains_key(key),
        c.metadata@.contains_key(key) ==> c@.metadata[key] == metadata_of(c.metadata@[key]),
        pieces_of(m).contains_key(i) == m@.contains_key(i),
        m@.contains_key(i) ==> pieces_of(m)[i] == m@[i]@,
        metadata_of(said) == (said.0, said.1, said.2@),
{
}

/// A peer is blocked where its fingerprint is, and a peer without one is not.
pub proof fn blocked_peers(c: Client, fingerprint: Seq<char>)
    ensures
        c.blocks(Some(fingerprint)) == c.blocked_peers@.contains_key(fingerprint),
        !c.blocks(None),
{
}

/// A list of texts is the texts of the list, and where it is sorted no text comes before one that
/// stands ahead of it.
pub proof fn lists_of_texts(list: Seq<String>, sorted: Seq<Seq<char>>, i: int, j: int)
    ensures
        texts(list).len() == list.len(),
        0 <= i < list.len() ==> texts(list)[i] == list[i]@,
        is_sorted(sorted) && 0 <= i <= j < sorted.len() ==> text_le(sorted[i], sorted[j]),
        is_sorted(Seq::empty()),
{
}

/// Writes of up to 512 bytes are not confirmed, and larger ones are.
pub proof fn large_writes_are_confirmed(small: int, large: int)
    requires
        small < 513 <= large,
    ensures
        mode_for(small) == WriteMode::WithoutResponse,
        mode_for(large) == WriteMode::WithResponse,
{
}

} // verus!
