//! The client: what it keeps, and what it does with what the user types.
use crate::channels::{Channels, ChannelsView};
use crate::collector::FragmentCollector;
use crate::commands::{command_of, parse_command, Command, CommandView};
use crate::delivery::DeliveryTracker;
use crate::packet::{create_bitchat_packet, is_sender, opt_text, packet_bytes};
use crate::peers::{called, PeerDirectory};
use crate::protocol::MessageType;
use crate::seen::SeenMessages;
use crate::table::Table;
use crate::text::{can_be_cut, cut_to, is_sorted, join_texts, joined_by};
use std::time::SystemTime;
use vstd::prelude::*;
use vstd::string::StrSliceExecFns;
use vstd::utf8::encode_utf8;

verus! {

/// Whom the user talks to.
#[derive(Debug)]
pub enum ChatMode {
    Public,
    Channel(String),
    PrivateDM { nickname: String, peer_id: String },
}

pub enum ModeView {
    Public,
    Channel(Seq<char>),
    PrivateDM { nickname: Seq<char>, peer_id: Seq<char> },
}

impl View for ChatMode {
    type V = ModeView;

    open spec fn view(&self) -> ModeView {
        match self {
            ChatMode::Public => ModeView::Public,
            ChatMode::Channel(channel) => ModeView::Channel(channel@),
            ChatMode::PrivateDM { nickname, peer_id } => ModeView::PrivateDM {
                nickname: nickname@,
                peer_id: peer_id@,
            },
        }
    }
}

impl ModeView {
    /// The channel that the user is in.
    pub open spec fn channel(self) -> Option<Seq<char>> {
        match self {
            ModeView::Channel(channel) => Some(channel),
            _ => None,
        }
    }
}

impl ChatMode {
    /// The channel that the user is in.
    pub fn get_channel(&self) -> (r: Option<&str>)
        ensures
            opt_text(r) == self@.channel(),
    {
        match self {
            ChatMode::Channel(channel) => Some(channel.as_str()),
            _ => None,
        }
    }
}

/// The client.
pub struct Client {
    /// The identifier of this device.
    pub my_peer_id: String,
    /// What we call ourselves.
    pub nickname: String,
    pub peers: PeerDirectory,
    pub channels: Channels,
    pub seen: SeenMessages,
    pub fragments: FragmentCollector,
    pub deliveries: DeliveryTracker,
    /// The fingerprints of the peers that we do not listen to.
    pub blocked_peers: Table<()>,
}

/// What is to be done about a line of input.
#[derive(Debug)]
pub enum Action {
    Nothing,
    SwitchTo(usize),
    ShowHelp,
    NameMissing,
    NameTooLong,
    /// We have a new nickname: keep it, and send this packet.
    Renamed { announcement: Vec<u8> },
    ShowConversations,
    GoPublic,
    /// Talk to one peer from now on.
    EnterDm { nickname: String, peer_id: String },
    /// There is no private message to reply to.
    NothingToReplyTo,
    NobodyOnline,
    /// The nicknames of those online, in order, with commas between.
    ShowOnline(String),
    ShowStatus,
    Exit,
    ClearScreen,
    UserNotFound(String),
    ChannelInvalid,
    Joined(String),
    UnknownCommand(String),
    /// A message to one peer.
    SendPrivate { nickname: String, peer_id: String, text: String },
    /// A message to a channel that has to be encrypted with its key.
    SendSealed { channel: String, key: [u8; 32], text: String },
    /// A message to a channel, or to everyone, as it is.
    SendPlain { to: Option<String>, text: String },
}

pub open spec fn opt_string(s: Option<String>) -> Option<Seq<char>> {
    match s {
        Some(t) => Some(t@),
        None => None,
    }
}

/// The list of those online: the nicknames of all peers that have one, in order, as often as
/// there are peers that have it.
pub open spec fn is_online_list(peers: Map<Seq<char>, Option<Seq<char>>>, text: Seq<char>) -> bool {
    exists|names: Seq<Seq<char>>|
        is_sorted(names) && (forall|n: Seq<char>|
            #[trigger] names.to_multiset().count(n) == called(peers, n).len()) && text == #[trigger] joined_by(
            names,
            ", "@,
        )
}

/// A packet tells everyone that the device `id` is called `nickname`.
pub open spec fn announces(packet: Seq<u8>, id: Seq<char>, nickname: Seq<char>) -> bool {
    exists|now: u64|
        packet == #[trigger] packet_bytes(now, id, None, MessageType::Announce, encode_utf8(nickname), None)
}

/// Whether nobody calls itself `nickname`.
pub open spec fn nobody_is(peers: Map<Seq<char>, Option<Seq<char>>>, nickname: Seq<char>) -> bool {
    forall|id: Seq<char>| !#[trigger] peers.contains_pair(id, Some(nickname))
}

/// What a message that the user types leads to.
pub open spec fn says(keys: Map<Seq<char>, Seq<u8>>, mode: ModeView, text: Seq<char>, action: Action) -> bool {
    match mode {
        ModeView::PrivateDM { nickname, peer_id } => {
            &&& action matches Action::SendPrivate { nickname: n, peer_id: p, text: t }
            &&& n@ == nickname
            &&& p@ == peer_id
            &&& t@ == text
        },
        ModeView::Channel(channel) => if keys.contains_key(channel) {
            &&& action matches Action::SendSealed { channel: c, key, text: t }
            &&& c@ == channel
            &&& key@ == keys[channel]
            &&& t@ == text
        } else {
            &&& action matches Action::SendPlain { to: c, text: t }
            &&& opt_string(c) == Some(channel)
            &&& t@ == text
        },
        ModeView::Public => {
            &&& action matches Action::SendPlain { to: c, text: t }
            &&& c is None
            &&& t@ == text
        },
    }
}

/// What `/dm` leads to: a message to a peer of that nickname, or a conversation with it where
/// there is no message.
pub open spec fn dm_leads_to(
    peers: Map<Seq<char>, Option<Seq<char>>>,
    nickname: Seq<char>,
    message: Option<Seq<char>>,
    action: Action,
) -> bool {
    if nobody_is(peers, nickname) {
        action matches Action::UserNotFound(n) && n@ == nickname
    } else {
        match message {
            Some(text) => {
                &&& action matches Action::SendPrivate { nickname: n, peer_id, text: t }
                &&& n@ == nickname
                &&& peers.contains_pair(peer_id@, Some(nickname))
                &&& t@ == text
            },
            None => {
                &&& action matches Action::EnterDm { nickname: n, peer_id }
                &&& n@ == nickname
                &&& peers.contains_pair(peer_id@, Some(nickname))
            },
        }
    }
}

/// What a command leads to, when the user is in `mode`, the last private message came from
/// `last`, an identifier and a nickname, and `c` is what the client keeps.
pub open spec fn leads_to(
    c: Client,
    command: CommandView,
    mode: ModeView,
    last: Option<(Seq<char>, Seq<char>)>,
    action: Action,
) -> bool {
    match command {
        CommandView::Nothing => action is Nothing,
        CommandView::SwitchTo(n) => action == Action::SwitchTo(n),
        CommandView::Help => action is ShowHelp,
        CommandView::NameMissing => action is NameMissing,
        CommandView::NameTooLong => action is NameTooLong,
        CommandView::Rename(name) => {
            &&& action matches Action::Renamed { announcement }
            &&& announces(announcement@, c.my_peer_id@, name)
        },
        CommandView::List => action is ShowConversations,
        CommandView::Public => action is GoPublic,
        CommandView::Reply => match last {
            Some((id, name)) => {
                &&& action matches Action::EnterDm { nickname, peer_id }
                &&& nickname@ == name
                &&& peer_id@ == id
            },
            None => action is NothingToReplyTo,
        },
        CommandView::Online => if c.peers@.len() == 0 {
            action is NobodyOnline
        } else {
            action matches Action::ShowOnline(text) && is_online_list(c.peers@, text@)
        },
        CommandView::Status => action is ShowStatus,
        CommandView::Exit => action is Exit,
        CommandView::Clear => action is ClearScreen,
        CommandView::Dm { nickname, message } => dm_leads_to(c.peers@, nickname, message, action),
        CommandView::ChannelInvalid => action is ChannelInvalid,
        CommandView::Join(channel) => action matches Action::Joined(name) && name@ == channel,
        CommandView::Unknown(word) => action matches Action::UnknownCommand(w) && w@ == word,
        CommandView::Say(text) => says(c.channels@.keys, mode, text, action),
    }
}

pub open spec fn opt_pair(p: Option<&(String, String)>) -> Option<(Seq<char>, Seq<char>)> {
    match p {
        Some((a, b)) => Some((a@, b@)),
        None => None,
    }
}

/// From `before` to `after` a line of input was taken in, which leads to `action`. It changes our
/// nickname, or the channels that we know, or nothing.
pub open spec fn handles(
    before: Client,
    line: Seq<char>,
    mode: ModeView,
    last: Option<(Seq<char>, Seq<char>)>,
    action: Action,
    after: Client,
) -> bool {
    &&& leads_to(before, command_of(line), mode, last, action)
    &&& after.nickname@ == match command_of(line) {
        CommandView::Rename(name) => name,
        _ => before.nickname@,
    }
    &&& after.channels@ == match command_of(line) {
        CommandView::Join(channel) => ChannelsView {
            discovered: before.channels@.discovered.insert(channel),
            ..before.channels@
        },
        _ => before.channels@,
    }
    &&& after.my_peer_id == before.my_peer_id
    &&& after.peers == before.peers
    &&& after.seen == before.seen
    &&& after.fragments == before.fragments
    &&& after.deliveries == before.deliveries
    &&& after.blocked_peers == before.blocked_peers
}

/// The state of the connection, as it is shown to the user.
#[derive(Debug)]
pub struct Status {
    pub peer_count: usize,
    pub nickname: String,
    pub id: String,
}

impl Client {
    /// The identifier of this device can be put in a packet.
    pub open spec fn valid(&self) -> bool {
        is_sender(self.my_peer_id@)
    }

    /// A client that knows nobody. `saved_nickname` is what we called ourselves the last time.
    pub fn new(my_peer_id: String, saved_nickname: Option<String>) -> (c: Self)
        ensures
            c.my_peer_id == my_peer_id,
            c.nickname@ == match saved_nickname {
                Some(n) => n@,
                None => "my-rust-client"@,
            },
            c.peers@ == Map::<Seq<char>, Option<Seq<char>>>::empty(),
            c.channels@ == (ChannelsView {
                discovered: Set::empty(),
                protected: Set::empty(),
                creators: Map::empty(),
                commitments: Map::empty(),
                keys: Map::empty(),
            }),
            c.seen@ == Set::<Seq<char>>::empty(),
            c.seen.bits() == 4800,
            c.seen.rounds() == 7,
            c.fragments@.fragments == Map::<Seq<char>, Map<u16, Seq<u8>>>::empty(),
            c.fragments@.metadata == Map::<Seq<char>, (u16, u8, Seq<char>)>::empty(),
            c.deliveries.pending_messages@ == Map::<Seq<char>, (String, SystemTime, bool)>::empty(),
            c.deliveries.sent_acks@ == Set::<Seq<char>>::empty(),
            c.blocked_peers@ == Map::<Seq<char>, ()>::empty(),
    {
        let nickname = match saved_nickname {
            Some(n) => n,
            None => "my-rust-client".to_owned(),
        };
        Client {
            my_peer_id,
            nickname,
            peers: PeerDirectory::new(),
            channels: Channels::new(),
            seen: SeenMessages::new(),
            fragments: FragmentCollector::new(),
            deliveries: DeliveryTracker::new(),
            blocked_peers: Table::new(),
        }
    }

    /// The packet that tells others what we call ourselves.
    pub fn announcement(&self) -> (packet: Vec<u8>)
        requires
            self.valid(),
        ensures
            announces(packet@, self.my_peer_id@, self.nickname@),
    {
        create_bitchat_packet(
            self.my_peer_id.as_str(),
            MessageType::Announce,
            self.nickname.as_str().as_bytes_vec(),
        )
    }

    /// The list of those online.
    fn online_list(&self) -> (text: String)
        ensures
            is_online_list(self.peers@, text@),
    {
        let names = self.peers.nicknames();
        join_texts(&names, ", ")
    }

    /// What a message that the user types leads to.
    fn say(&self, mode: &ChatMode, text: String) -> (action: Action)
        ensures
            says(self.channels@.keys, mode@, text@, action),
    {
        match mode {
            ChatMode::PrivateDM { nickname, peer_id } => Action::SendPrivate {
                nickname: nickname.clone(),
                peer_id: peer_id.clone(),
                text,
            },
            ChatMode::Channel(channel) => match self.channels.key_of(channel.as_str()) {
                Some(key) => Action::SendSealed { channel: channel.clone(), key, text },
                None => Action::SendPlain { to: Some(channel.clone()), text },
            },
            ChatMode::Public => Action::SendPlain { to: None, text },
        }
    }

    /// What `/dm` leads to.
    fn begin_dm(&self, nickname: String, message: Option<String>) -> (action: Action)
        ensures
            dm_leads_to(self.peers@, nickname@, opt_string(message), action),
    {
        match self.peers.find(nickname.as_str()) {
            Some(peer_id) => match message {
                Some(text) => Action::SendPrivate { nickname, peer_id, text },
                None => Action::EnterDm { nickname, peer_id },
            },
            None => Action::UserNotFound(nickname),
        }
    }

    /// Takes a line of input: says what is to be done about it, and keeps what it changes, which
    /// is our nickname or the channels that we know.
    pub fn handle_command(
        &mut self,
        line: &str,
        mode: &ChatMode,
        last_private_sender: Option<&(String, String)>,
    ) -> (action: Action)
        requires
            old(self).valid(),
        ensures
            handles(*old(self), line@, mode@, opt_pair(last_private_sender), action, *final(self)),
    {
        match parse_command(line) {
            Command::Nothing => Action::Nothing,
            Command::SwitchTo(n) => Action::SwitchTo(n),
            Command::Help => Action::ShowHelp,
            Command::NameMissing => Action::NameMissing,
            Command::NameTooLong => Action::NameTooLong,
            Command::Rename(name) => {
                self.nickname = name;
                Action::Renamed { announcement: self.announcement() }
            },
            Command::List => Action::ShowConversations,
            Command::Public => Action::GoPublic,
            Command::Reply => match last_private_sender {
                Some((peer_id, nickname)) => Action::EnterDm {
                    nickname: nickname.clone(),
                    peer_id: peer_id.clone(),
                },
                None => Action::NothingToReplyTo,
            },
            Command::Online => if self.peers.len() == 0 {
                Action::NobodyOnline
            } else {
                Action::ShowOnline(self.online_list())
            },
            Command::Status => Action::ShowStatus,
            Command::Exit => Action::Exit,
            Command::Clear => Action::ClearScreen,
            Command::Dm { nickname, message } => self.begin_dm(nickname, message),
            Command::ChannelInvalid => Action::ChannelInvalid,
            Command::Join(channel) => {
                self.channels.discover(channel.clone());
                Action::Joined(channel)
            },
            Command::Unknown(word) => Action::UnknownCommand(word),
            Command::Say(text) => self.say(mode, text),
        }
    }

    /// The state of the connection. Only the first nine bytes of our nickname and the first eight
    /// of our identifier are shown, so no character may stand across those places.
    pub fn status(&self) -> (s: Status)
        requires
            can_be_cut(self.nickname@, 9),
            encode_utf8(self.my_peer_id@).len() >= 8,
            can_be_cut(self.my_peer_id@, 8),
        ensures
            s.peer_count == self.peers@.len(),
            encode_utf8(self.nickname@).len() <= 9 ==> s.nickname@ == self.nickname@,
            encode_utf8(self.nickname@).len() > 9 ==> encode_utf8(s.nickname@) == encode_utf8(self.nickname@).take(9),
            encode_utf8(s.id@) == encode_utf8(self.my_peer_id@).take(8),
    {
        let id = cut_to(self.my_peer_id.as_str(), 8);
        assert(encode_utf8(self.my_peer_id@).len() == 8 ==> encode_utf8(self.my_peer_id@).take(8) =~= encode_utf8(
            self.my_peer_id@,
        ));
        Status { peer_count: self.peers.len(), nickname: cut_to(self.nickname.as_str(), 9), id }
    }
}

} // verus!
