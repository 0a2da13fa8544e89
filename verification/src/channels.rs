//! What is known of channels.
use crate::adapters::{lossy_text, text_of};
use crate::ble::{AnnouncementView, ChannelAnnouncement};
use crate::message::{BitchatMessage, MessageView};
use crate::table::Table;
use vstd::prelude::*;

verus! {

/// What is known of channels, by their names.
pub struct Channels {
    /// The channels that were joined, or that a message was seen in.
    pub discovered: Table<()>,
    /// The channels that have a password.
    pub protected: Table<()>,
    /// Who made a channel.
    pub creators: Table<String>,
    /// What a channel's key can be checked against.
    pub commitments: Table<String>,
    /// The keys of the channels that we can read.
    pub keys: Table<[u8; 32]>,
}

#[verifier::ext_equal]
pub struct ChannelsView {
    pub discovered: Set<Seq<char>>,
    pub protected: Set<Seq<char>>,
    pub creators: Map<Seq<char>, Seq<char>>,
    pub commitments: Map<Seq<char>, Seq<char>>,
    pub keys: Map<Seq<char>, Seq<u8>>,
}

impl View for Channels {
    type V = ChannelsView;

    open spec fn view(&self) -> ChannelsView {
        ChannelsView {
            discovered: self.discovered@.dom(),
            protected: self.protected@.dom(),
            creators: self.creators@.map_values(|s: String| s@),
            commitments: self.commitments@.map_values(|s: String| s@),
            keys: self.keys@.map_values(|k: [u8; 32]| k@),
        }
    }
}

/// What is known of channels once a message was seen. Its channel exists, and has a password
/// where the message is encrypted.
pub open spec fn with_message(c: ChannelsView, m: MessageView) -> ChannelsView {
    match m.channel {
        Some(channel) => ChannelsView {
            discovered: c.discovered.insert(channel),
            protected: if m.is_encrypted {
                c.protected.insert(channel)
            } else {
                c.protected
            },
            ..c
        },
        None => c,
    }
}

/// What is known of channels once one was announced. A channel that is announced without
/// protection has no key any more, and nothing to check one against.
pub open spec fn with_announcement(c: ChannelsView, a: AnnouncementView) -> ChannelsView {
    ChannelsView {
        discovered: c.discovered,
        protected: if a.is_protected {
            c.protected.insert(a.channel)
        } else {
            c.protected.remove(a.channel)
        },
        creators: if a.creator.len() > 0 {
            c.creators.insert(a.channel, a.creator)
        } else {
            c.creators
        },
        commitments: if !a.is_protected {
            c.commitments.remove(a.channel)
        } else if a.key_commitment.len() > 0 {
            c.commitments.insert(a.channel, a.key_commitment)
        } else {
            c.commitments
        },
        keys: if a.is_protected {
            c.keys
        } else {
            c.keys.remove(a.channel)
        },
    }
}

/// The text of a message, or what has to be opened to get at it.
#[derive(Debug)]
pub enum Body {
    Readable(String),
    /// Encrypted text, and the key that opens it.
    Sealed { bytes: Vec<u8>, key: [u8; 32] },
}

pub enum BodyView {
    Readable(Seq<char>),
    Sealed { bytes: Seq<u8>, key: Seq<u8> },
}

impl View for Body {
    type V = BodyView;

    open spec fn view(&self) -> BodyView {
        match self {
            Body::Readable(text) => BodyView::Readable(text@),
            Body::Sealed { bytes, key } => BodyView::Sealed { bytes: bytes@, key: key@ },
        }
    }
}

/// How the text of a message is come by. An encrypted channel message takes the key of its
/// channel; where that is missing, or there is nothing to open, a note stands for the text. A
/// message that arrived in pieces is not opened: what its reader made of it stands for its text.
pub open spec fn body_of(keys: Map<Seq<char>, Seq<u8>>, m: MessageView, is_piece: bool) -> BodyView {
    match (m.is_encrypted && !is_piece, m.channel) {
        (true, Some(channel)) => if !keys.contains_key(channel) {
            BodyView::Readable("[Encrypted message - join channel with password]"@)
        } else {
            match m.encrypted_content {
                Some(bytes) => BodyView::Sealed { bytes, key: keys[channel] },
                None => BodyView::Readable("[Encrypted message - no encrypted data]"@),
            }
        },
        _ => BodyView::Readable(m.content),
    }
}

/// The text of an encrypted message. `opened` is what opening it gave, where that succeeded.
pub open spec fn opened_text(opened: Option<Seq<u8>>) -> Seq<char> {
    match opened {
        Some(bytes) => text_of(bytes),
        None => "[Encrypted message - decryption failed]"@,
    }
}

/// The text of an encrypted message. `opened` is what opening it gave, where that succeeded.
pub fn text_of_opened(opened: Option<Vec<u8>>) -> (text: String)
    ensures
        text@ == opened_text(crate::packet::opt_bytes(opened)),
{
    match opened {
        Some(bytes) => lossy_text(bytes.as_slice()),
        None => "[Encrypted message - decryption failed]".to_owned(),
    }
}

impl Channels {
    /// Nothing is known.
    pub fn new() -> (c: Self)
        ensures
            c@ == (ChannelsView {
                discovered: Set::empty(),
                protected: Set::empty(),
                creators: Map::empty(),
                commitments: Map::empty(),
                keys: Map::empty(),
            }),
    {
        let c = Channels {
            discovered: Table::new(),
            protected: Table::new(),
            creators: Table::new(),
            commitments: Table::new(),
            keys: Table::new(),
        };
        assert(c@ =~= ChannelsView {
            discovered: Set::empty(),
            protected: Set::empty(),
            creators: Map::empty(),
            commitments: Map::empty(),
            keys: Map::empty(),
        });
        c
    }

    /// Notes that a channel exists.
    pub fn discover(&mut self, channel: String)
        ensures
            final(self)@ == (ChannelsView {
                discovered: old(self)@.discovered.insert(channel@),
                ..old(self)@
            }),
    {
        let ghost before = self@;
        let ghost name = channel@;
        self.discovered.insert(channel, ());
        assert(self@ =~= ChannelsView { discovered: before.discovered.insert(name), ..before });
    }

    /// Keeps the key of a channel.
    pub fn set_key(&mut self, channel: String, key: [u8; 32])
        ensures
            final(self)@ == (ChannelsView { keys: old(self)@.keys.insert(channel@, key@), ..old(self)@ }),
    {
        let ghost before = self@;
        let ghost name = channel@;
        self.keys.insert(channel, key);
        assert(self@ =~= ChannelsView { keys: before.keys.insert(name, key@), ..before });
    }

    /// Notes what a message tells of its channel.
    pub fn note_message(&mut self, message: &BitchatMessage)
        ensures
            final(self)@ == with_message(old(self)@, message@),
    {
        let ghost before = self@;
        if let Some(channel) = &message.channel {
            self.discovered.insert(channel.clone(), ());
            if message.is_encrypted {
                self.protected.insert(channel.clone(), ());
            }
        }
        assert(self@ =~= with_message(before, message@));
    }

    /// Notes what an announcement tells of its channel.
    pub fn note_announcement(&mut self, a: &ChannelAnnouncement)
        ensures
            final(self)@ == with_announcement(old(self)@, a@),
    {
        let ghost before = self@;
        if !a.creator.as_str().is_empty() {
            self.creators.insert(a.channel.clone(), a.creator.clone());
        }
        if a.is_protected {
            self.protected.insert(a.channel.clone(), ());
            if !a.key_commitment.as_str().is_empty() {
                self.commitments.insert(a.channel.clone(), a.key_commitment.clone());
            }
        } else {
            self.protected.remove(a.channel.as_str());
            self.keys.remove(a.channel.as_str());
            self.commitments.remove(a.channel.as_str());
        }
        assert(self@ =~= with_announcement(before, a@));
    }

    /// The key of a channel.
    pub fn key_of(&self, channel: &str) -> (r: Option<[u8; 32]>)
        ensures
            match r {
                Some(key) => self@.keys.contains_pair(channel@, key@),
                None => !self@.keys.contains_key(channel@),
            },
    {
        match self.keys.get(channel) {
            Some(key) => Some(*key),
            None => None,
        }
    }

    /// How the text of a message is come by, which arrived in pieces where `is_piece` says so.
    pub fn read_body(&self, message: &BitchatMessage, is_piece: bool) -> (body: Body)
        ensures
            body@ == body_of(self@.keys, message@, is_piece),
    {
        if message.is_encrypted && !is_piece {
            if let Some(channel) = &message.channel {
                return match self.key_of(channel.as_str()) {
                    Some(key) => match &message.encrypted_content {
                        Some(bytes) => Body::Sealed { bytes: vstd::slice::slice_to_vec(bytes.as_slice()), key },
                        None => Body::Readable("[Encrypted message - no encrypted data]".to_owned()),
                    },
                    None => Body::Readable("[Encrypted message - join channel with password]".to_owned()),
                };
            }
        }
        Body::Readable(message.content.clone())
    }
}

/// Only channels with a password have something to check a key against: this holds of what
/// is known at first, and neither messages nor announcements change it.
pub proof fn commitments_belong_to_protected_channels(c: ChannelsView, m: MessageView, a: AnnouncementView)
    requires
        c.commitments.dom().subset_of(c.protected),
    ensures
        with_message(c, m).commitments.dom().subset_of(with_message(c, m).protected),
        with_announcement(c, a).commitments.dom().subset_of(with_announcement(c, a).protected),
{
}

/// A channel that is announced without protection loses its key, its password and what its
/// key can be checked against; other channels are left as they are.
pub proof fn unprotected_channels_have_no_key(c: ChannelsView, a: AnnouncementView, other: Seq<char>)
    requires
        !a.is_protected,
        other != a.channel,
    ensures
        !with_announcement(c, a).keys.contains_key(a.channel),
        !with_announcement(c, a).protected.contains(a.channel),
        !with_announcement(c, a).commitments.contains_key(a.channel),
        with_announcement(c, a).keys.contains_key(other) == c.keys.contains_key(other),
        with_announcement(c, a).protected.contains(other) == c.protected.contains(other),
        with_announcement(c, a).commitments.contains_key(other) == c.commitments.contains_key(other),
        with_announcement(c, a).creators.contains_key(other) == c.creators.contains_key(other),
{
}

} // verus!
