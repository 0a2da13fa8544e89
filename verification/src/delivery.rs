//! Delivery: which messages of ours have arrived, and which we have confirmed.
use crate::adapters::{is_random_uuid, random_uuid, uuid_text, uuid_to_text};
use crate::packet::now_ms;
use std::time::SystemTime;
use vstd::hash_map::StringHashMap;
use vstd::hash_set::StringHashSet;
use vstd::prelude::*;

verus! {

/// The confirmation that a message has arrived.
#[derive(Debug, Clone)]
pub struct DeliveryAck {
    pub original_message_id: String,
    pub ack_id: String,
    pub recipient_id: String,
    pub recipient_nickname: String,
    pub timestamp: u64,
    pub hop_count: u8,
}

/// The confirmation with the identifier `id`, made at time `timestamp`, in milliseconds since
/// the start of 1970, that the message `original_message_id` has reached the recipient that is
/// named.
pub fn delivery_ack_with(
    id: [u8; 16],
    timestamp: u64,
    original_message_id: &str,
    recipient_id: &str,
    recipient_nickname: &str,
    hop_count: u8,
) -> (ack: DeliveryAck)
    ensures
        ack.original_message_id@ == original_message_id@,
        ack.ack_id@ == uuid_text(id@),
        ack.recipient_id@ == recipient_id@,
        ack.recipient_nickname@ == recipient_nickname@,
        ack.timestamp == timestamp,
        ack.hop_count == hop_count,
{
    DeliveryAck {
        original_message_id: original_message_id.to_owned(),
        ack_id: uuid_to_text(id),
        recipient_id: recipient_id.to_owned(),
        recipient_nickname: recipient_nickname.to_owned(),
        timestamp,
        hop_count,
    }
}

/// Confirms that the message `original_message_id` has reached the recipient that is named.
/// The confirmation has an identifier of its own and the time that the clock shows. Of the time
/// nothing is stated: it is what the clock shows.
pub fn create_delivery_ack(
    original_message_id: &str,
    recipient_id: &str,
    recipient_nickname: &str,
    hop_count: u8,
) -> (ack: DeliveryAck)
    ensures
        ack.original_message_id@ == original_message_id@,
        exists|id: Seq<u8>| is_random_uuid(id) && ack.ack_id@ == #[trigger] uuid_text(id),
        ack.recipient_id@ == recipient_id@,
        ack.recipient_nickname@ == recipient_nickname@,
        ack.hop_count == hop_count,
{
    delivery_ack_with(random_uuid(), now_ms(), original_message_id, recipient_id, recipient_nickname, hop_count)
}

/// The messages of ours that wait for a confirmation, and the confirmations that we have
/// sent.
pub struct DeliveryTracker {
    /// For each identifier, the text of the message, when it was sent, and whether it is
    /// private.
    pub pending_messages: StringHashMap<(String, SystemTime, bool)>,
    /// The confirmations that were sent, so that none is sent twice.
    pub sent_acks: StringHashSet,
}

/// From `before` to `after`, the message `id` with this text came to be waited for, and
/// nothing else changed.
pub open spec fn tracks(
    before: DeliveryTracker,
    after: DeliveryTracker,
    id: Seq<char>,
    text: Seq<char>,
    is_private: bool,
) -> bool {
    &&& after.sent_acks@ == before.sent_acks@
    &&& exists|entry: (String, SystemTime, bool)|
        entry.0@ == text && entry.2 == is_private && after.pending_messages@
            == #[trigger] before.pending_messages@.insert(id, entry)
}

impl DeliveryTracker {
    pub fn new() -> (t: Self)
        ensures
            t.pending_messages@ == Map::<Seq<char>, (String, SystemTime, bool)>::empty(),
            t.sent_acks@ == Set::<Seq<char>>::empty(),
    {
        DeliveryTracker { pending_messages: StringHashMap::new(), sent_acks: StringHashSet::new() }
    }

    /// Waits for the confirmation of a message that was sent at `sent`.
    pub fn track_message_at(&mut self, message_id: String, content: String, sent: SystemTime, is_private: bool)
        ensures
            final(self).pending_messages@ == old(self).pending_messages@.insert(
                message_id@,
                (content, sent, is_private),
            ),
            final(self).sent_acks@ == old(self).sent_acks@,
    {
        self.pending_messages.insert(message_id, (content, sent, is_private));
    }

    /// Waits for the confirmation of a message that is being sent.
    pub fn track_message(&mut self, message_id: String, content: String, is_private: bool)
        ensures
            tracks(*old(self), *final(self), message_id@, content@, is_private),
    {
        let sent = SystemTime::now();
        let ghost before = self.pending_messages@;
        let ghost id = message_id@;
        let ghost entry = (content, sent, is_private);
        self.track_message_at(message_id, content, sent, is_private);
        assert(self.pending_messages@ == before.insert(id, entry));
    }

    /// Notes that a message has arrived. Says whether it was waited for.
    pub fn mark_delivered(&mut self, message_id: &str) -> (r: bool)
        ensures
            r == old(self).pending_messages@.contains_key(message_id@),
            final(self).pending_messages@ == old(self).pending_messages@.remove(message_id@),
            final(self).sent_acks@ == old(self).sent_acks@,
    {
        let known = self.pending_messages.contains_key(message_id);
        self.pending_messages.remove(message_id);
        known
    }

    /// Whether the confirmation `ack_id` is still to be sent. It counts as sent from now on.
    pub fn should_send_ack(&mut self, ack_id: &str) -> (r: bool)
        ensures
            r == !old(self).sent_acks@.contains(ack_id@),
            final(self).sent_acks@ == old(self).sent_acks@.insert(ack_id@),
            final(self).pending_messages@ == old(self).pending_messages@,
    {
        self.sent_acks.insert(ack_id.to_owned())
    }
}

/// The confirmations that count as sent once each of `ids` was asked about.
pub open spec fn acks_after(sent: Set<Seq<char>>, ids: Seq<Seq<char>>) -> Set<Seq<char>>
    decreases ids.len(),
{
    if ids.len() == 0 {
        sent
    } else {
        acks_after(sent, ids.drop_last()).insert(ids.last())
    }
}

/// However often a confirmation is asked about, it is sent at most once: the answer is yes
/// the first time, unless it was sent before, and no every later time.
pub proof fn each_ack_is_sent_once(sent: Set<Seq<char>>, ids: Seq<Seq<char>>, id: Seq<char>)
    ensures
        acks_after(sent, ids).contains(id) <==> sent.contains(id) || ids.contains(id),
    decreases ids.len(),
{
    if ids.len() > 0 {
        let rest = ids.drop_last();
        each_ack_is_sent_once(sent, rest, id);
        if ids.contains(id) && id != ids.last() {
            let i = ids.index_of(id);
            assert(rest[i] == id);
        }
        if rest.contains(id) {
            let i = rest.index_of(id);
            assert(ids[i] == id);
        }
        assert(ids[ids.len() - 1] == ids.last());
    }
}

/// A message that is waited for is reported as arrived by its first confirmation and by no
/// other, until it is sent again; confirmations of other messages do not touch it.
pub proof fn each_delivery_is_reported_once(
    pending: Map<Seq<char>, (String, SystemTime, bool)>,
    id: Seq<char>,
    entry: (String, SystemTime, bool),
    other: Seq<char>,
)
    ensures
        pending.insert(id, entry).contains_key(id),
        !pending.insert(id, entry).remove(id).contains_key(id),
        other != id ==> pending.insert(id, entry).remove(other).contains_pair(id, entry),
{
}

} // verus!
