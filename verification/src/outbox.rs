//! What the client sends.
use crate::adapters::{is_random_uuid, random_uuid, uuid_text, uuid_to_text};
use crate::ble::{carries, plan_transmission, write_mode, Transmission};
use crate::client::Client;
use crate::delivery::tracks;
use crate::fragmentation::should_fragment;
use crate::message::{
    create_bitchat_message_payload, create_bitchat_message_payload_full, create_encrypted_channel_message_payload,
    plain_message_bytes, sealed_message_bytes,
};
use crate::packet::{
    create_bitchat_packet, create_bitchat_packet_with_recipient_and_signature, create_bitchat_packet_with_signature,
    opt_bytes, opt_text, packet_bytes,
};
use crate::protocol::{generate_keys_and_payload, MessageType, PublicIdentity};
use vstd::prelude::*;

verus! {

/// A packet is sent whole, or in pieces that have eight bytes in common.
pub open spec fn transmits(t: Transmission, packet: Seq<u8>) -> bool {
    exists|fragment_id: Seq<u8>| fragment_id.len() == 8 && #[trigger] carries(t, packet, fragment_id)
}

/// A chat message is sent: the packet that carries it is made at some time.
pub open spec fn sends_message(
    t: Transmission,
    sender: Seq<char>,
    recipient: Option<Seq<char>>,
    payload: Seq<u8>,
    signature: Seq<u8>,
) -> bool {
    exists|now: u64|
        transmits(
            t,
            #[trigger] packet_bytes(now, sender, recipient, MessageType::Message, payload, Some(signature)),
        )
}

/// Two clients differ at most in the messages that they wait for and the confirmations that
/// they have sent.
pub open spec fn same_but_deliveries(a: Client, b: Client) -> bool {
    b == (Client { deliveries: b.deliveries, ..a })
}

/// How a packet is sent: small ones at once, and of the others the largest in pieces.
pub fn dispatch(packet: Vec<u8>) -> (t: Transmission)
    ensures
        transmits(t, packet@),
{
    if should_fragment(packet.as_slice()) {
        plan_transmission(packet)
    } else {
        let mode = write_mode(packet.len());
        let ghost bytes = packet@;
        let t = Transmission::Whole { data: packet, mode };
        assert(carries(t, bytes, Seq::new(8, |i: int| 0u8)));
        t
    }
}

/// The packet that offers our public keys to everyone.
pub fn key_exchange(my_peer_id: &str, identity: &PublicIdentity) -> (packet: Vec<u8>)
    requires
        crate::packet::is_sender(my_peer_id@),
    ensures
        exists|now: u64|
            packet@ == #[trigger] packet_bytes(
                now,
                my_peer_id@,
                None,
                MessageType::KeyExchange,
                identity.combined_public_key@,
                None,
            ),
{
    let (payload, _) = generate_keys_and_payload(identity);
    create_bitchat_packet(my_peer_id, MessageType::KeyExchange, payload)
}

impl Client {
    /// Starts a private message: gives the payload that is still to be encrypted, and waits for
    /// its confirmation.
    pub fn begin_private_message(&mut self, text: &str) -> (payload: Vec<u8>)
        requires
            old(self).valid(),
        ensures
            exists|id: Seq<u8>|
                #![trigger uuid_text(id)]
                is_random_uuid(id) && payload@ == plain_message_bytes(
                    id,
                    text@,
                    None,
                    true,
                    old(self).my_peer_id@,
                ) && tracks(old(self).deliveries, final(self).deliveries, uuid_text(id), text@, true),
            same_but_deliveries(*old(self), *final(self)),
    {
        let (payload, id) = create_bitchat_message_payload_full(
            self.nickname.as_str(),
            text,
            None,
            true,
            self.my_peer_id.as_str(),
        );
        self.deliveries.track_message(id, text.to_owned(), true);
        payload
    }

    /// Sends a private message to the peer that it is for. `sealed` is the message as it was
    /// encrypted, and the signature of that. A message that could not be encrypted is not sent.
    pub fn send_private_message(&self, peer_id: &str, sealed: Option<(Vec<u8>, Vec<u8>)>) -> (t: Option<Transmission>)
        requires
            self.valid(),
        ensures
            match sealed {
                Some((encrypted, signature)) => t matches Some(x) && sends_message(
                    x,
                    self.my_peer_id@,
                    Some(peer_id@),
                    encrypted@,
                    signature@,
                ),
                None => t is None,
            },
    {
        let (encrypted, signature) = match sealed {
            Some(s) => s,
            None => return None,
        };
        let packet = create_bitchat_packet_with_recipient_and_signature(
            self.my_peer_id.as_str(),
            peer_id,
            MessageType::Message,
            encrypted,
            Some(signature),
        );
        Some(plan_transmission(packet))
    }

    /// Starts a message to a channel or to everyone that is not encrypted: gives the payload that
    /// is still to be signed. The message is waited for under an identifier of its own, which is
    /// not the one that the payload has.
    pub fn begin_plain_message(&mut self, channel: Option<&str>, text: &str) -> (payload: Vec<u8>)
        ensures
            exists|id: Seq<u8>|
                is_random_uuid(id) && payload@ == #[trigger] plain_message_bytes(
                    id,
                    text@,
                    opt_text(channel),
                    false,
                    "00000000"@,
                ),
            exists|id: Seq<u8>|
                is_random_uuid(id) && tracks(
                    old(self).deliveries,
                    final(self).deliveries,
                    #[trigger] uuid_text(id),
                    text@,
                    false,
                ),
            same_but_deliveries(*old(self), *final(self)),
    {
        let payload = create_bitchat_message_payload(self.nickname.as_str(), text, channel);
        let id = random_uuid();
        self.deliveries.track_message(uuid_to_text(id), text.to_owned(), false);
        payload
    }

    /// Starts a message to a channel that is encrypted with its key: gives the payload that is
    /// still to be signed. `sealed` is what encrypting the text gave, where that succeeded.
    pub fn begin_sealed_message(&mut self, channel: &str, text: &str, sealed: Option<Vec<u8>>) -> (payload: Vec<u8>)
        requires
            old(self).valid(),
        ensures
            exists|id: Seq<u8>|
                #![trigger uuid_text(id)]
                is_random_uuid(id) && payload@ == sealed_message_bytes(
                    id,
                    channel@,
                    opt_bytes(sealed),
                    old(self).my_peer_id@,
                ) && tracks(old(self).deliveries, final(self).deliveries, uuid_text(id), text@, false),
            same_but_deliveries(*old(self), *final(self)),
    {
        let (payload, id) = create_encrypted_channel_message_payload(
            self.nickname.as_str(),
            channel,
            sealed,
            self.my_peer_id.as_str(),
        );
        self.deliveries.track_message(id, text.to_owned(), false);
        payload
    }

    /// Sends a message that was signed to a channel or to everyone.
    pub fn send_message(&self, payload: Vec<u8>, signature: Vec<u8>) -> (t: Transmission)
        requires
            self.valid(),
        ensures
            sends_message(t, self.my_peer_id@, None, payload@, signature@),
    {
        let packet = create_bitchat_packet_with_signature(
            self.my_peer_id.as_str(),
            MessageType::Message,
            payload,
            Some(signature),
        );
        dispatch(packet)
    }
}

} // verus!
