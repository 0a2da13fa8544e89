//! Fragments: pieces of a packet that is too large to be sent at once.
use crate::bytes::{be_u16, copy_range, join_u16, push_be_u16, u16_of};
use crate::packet::{create_bitchat_packet, is_sender, packet_bytes};
use crate::protocol::MessageType;
use vstd::prelude::*;

verus! {

/// How many bytes of a packet a fragment carries.
pub const FRAGMENT_SIZE: usize = 150;

/// Which piece of a packet a fragment is.
#[derive(Debug, Clone, Copy, PartialEq, Eq, Structural)]
pub enum FragmentType {
    Start,
    Continue,
    End,
}

impl FragmentType {
    /// The type of the packets that carry such fragments.
    pub open spec fn spec_message_type(self) -> MessageType {
        match self {
            FragmentType::Start => MessageType::FragmentStart,
            FragmentType::Continue => MessageType::FragmentContinue,
            FragmentType::End => MessageType::FragmentEnd,
        }
    }

    /// The type of the packets that carry such fragments.
    pub fn message_type(self) -> (t: MessageType)
        ensures
            t == self.spec_message_type(),
    {
        match self {
            FragmentType::Start => MessageType::FragmentStart,
            FragmentType::Continue => MessageType::FragmentContinue,
            FragmentType::End => MessageType::FragmentEnd,
        }
    }
}

/// A piece of a packet.
#[derive(Debug)]
pub struct Fragment {
    pub fragment_type: FragmentType,
    /// What the pieces of one packet have in common.
    pub fragment_id: [u8; 8],
    pub index: u16,
    pub total: u16,
    /// The type of what was cut to pieces.
    pub original_type: u8,
    pub data: Vec<u8>,
}

/// What a fragment says, but for which piece it is.
#[verifier::ext_equal]
pub struct FragmentView {
    pub fragment_id: Seq<u8>,
    pub index: u16,
    pub total: u16,
    pub original_type: u8,
    pub data: Seq<u8>,
}

impl View for Fragment {
    type V = FragmentView;

    open spec fn view(&self) -> FragmentView {
        FragmentView {
            fragment_id: self.fragment_id@,
            index: self.index,
            total: self.total,
            original_type: self.original_type,
            data: self.data@,
        }
    }
}

/// The bytes of a fragment.
pub open spec fn fragment_bytes(f: FragmentView) -> Seq<u8> {
    f.fragment_id + be_u16(f.index) + be_u16(f.total) + seq![f.original_type] + f.data
}

/// What the bytes of a fragment say. There must be room for its header.
pub open spec fn fragment_of(payload: Seq<u8>) -> Option<FragmentView> {
    if payload.len() < 13 {
        None
    } else {
        Some(
            FragmentView {
                fragment_id: payload.subrange(0, 8),
                index: u16_of(payload[8], payload[9]),
                total: u16_of(payload[10], payload[11]),
                original_type: payload[12],
                data: payload.skip(13),
            },
        )
    }
}

impl Fragment {
    /// The bytes of this fragment.
    pub fn serialize(&self) -> (payload: Vec<u8>)
        ensures
            payload@ == fragment_bytes(self@),
    {
        let mut payload: Vec<u8> = Vec::new();
        payload.extend_from_slice(self.fragment_id.as_slice());
        push_be_u16(&mut payload, self.index);
        push_be_u16(&mut payload, self.total);
        payload.push(self.original_type);
        payload.extend_from_slice(self.data.as_slice());
        assert(payload@ =~= fragment_bytes(self@));
        payload
    }
}

/// Reads the payload of a packet that carries a fragment.
pub fn parse_fragment(fragment_type: FragmentType, payload: &[u8]) -> (r: Option<Fragment>)
    ensures
        match r {
            Some(f) => fragment_of(payload@) == Some(f@) && f.fragment_type == fragment_type,
            None => fragment_of(payload@) is None,
        },
{
    let total: usize = payload.len();
    if total < 13 {
        return None;
    }
    let fragment_id: [u8; 8] = [
        payload[0],
        payload[1],
        payload[2],
        payload[3],
        payload[4],
        payload[5],
        payload[6],
        payload[7],
    ];
    assert(fragment_id@ =~= payload@.subrange(0, 8));
    assert(payload@.skip(13) =~= payload@.subrange(13, total as int));
    Some(
        Fragment {
            fragment_type,
            fragment_id,
            index: join_u16(payload[8], payload[9]),
            total: join_u16(payload[10], payload[11]),
            original_type: payload[12],
            data: copy_range(payload, 13, total),
        },
    )
}

/// Whether a packet is so large that it may have to be cut to pieces.
pub fn should_fragment(packet_data: &[u8]) -> (r: bool)
    ensures
        r == (packet_data@.len() > 180),
{
    packet_data.len() > 180
}

/// The packet that carries a fragment.
pub fn create_fragment_packet(sender_id: &str, fragment: Fragment) -> (data: Vec<u8>)
    requires
        is_sender(sender_id@),
    ensures
        exists|now: u64|
            data@ == #[trigger] packet_bytes(
                now,
                sender_id@,
                None,
                fragment.fragment_type.spec_message_type(),
                fragment_bytes(fragment@),
                None,
            ),
{
    create_bitchat_packet(sender_id, fragment.fragment_type.message_type(), fragment.serialize())
}

/// How many pieces a packet of `len` bytes is cut to.
pub open spec fn piece_count(len: nat) -> nat {
    (len + 149) / 150
}

/// The bytes of a packet that its piece `i` carries.
pub open spec fn piece(packet: Seq<u8>, i: int) -> Seq<u8> {
    packet.subrange(
        150 * i,
        if 150 * (i + 1) <= packet.len() {
            150 * (i + 1)
        } else {
            packet.len() as int
        },
    )
}

/// Which piece the one with number `i` of `count` is.
pub open spec fn piece_type(i: int, count: nat) -> FragmentType {
    if i == 0 {
        FragmentType::Start
    } else if i == count - 1 {
        FragmentType::End
    } else {
        FragmentType::Continue
    }
}

/// The piece `i` of a packet. A piece has room for the lowest sixteen bits of its number and
/// of the number of pieces.
pub open spec fn fragment_at(packet: Seq<u8>, fragment_id: Seq<u8>, i: int) -> FragmentView {
    FragmentView {
        fragment_id,
        index: (i % 65536) as u16,
        total: (piece_count(packet.len()) % 65536) as u16,
        original_type: MessageType::Message.spec_code(),
        data: piece(packet, i),
    }
}

/// Cuts a packet to pieces.
pub fn split_packet(packet: &[u8], fragment_id: [u8; 8]) -> (fragments: Vec<Fragment>)
    ensures
        fragments@.len() == piece_count(packet@.len()),
        forall|i: int|
            #![trigger fragments@[i]]
            0 <= i < fragments@.len() ==> fragments@[i]@ == fragment_at(packet@, fragment_id@, i)
                && fragments@[i].fragment_type == piece_type(i, piece_count(packet@.len())),
{
    let len: usize = packet.len();
    let count: usize = if len == 0 {
        0
    } else {
        (len - 1) / FRAGMENT_SIZE + 1
    };
    assert(count == piece_count(len as nat));
    let total: u16 = (count % 65536) as u16;
    let mut fragments: Vec<Fragment> = Vec::new();
    let mut from: usize = 0;
    for i in 0..count
        invariant
            len == packet@.len(),
            count == piece_count(len as nat),
            total == (count % 65536) as u16,
            from == 150 * i || (i == count && from == len),
            from <= len,
            fragments@.len() == i,
            forall|j: int|
                #![trigger fragments@[j]]
                0 <= j < i ==> fragments@[j]@ == fragment_at(packet@, fragment_id@, j)
                    && fragments@[j].fragment_type == piece_type(j, count as nat),
    {
        let to: usize = if len - from < FRAGMENT_SIZE {
            len
        } else {
            from + FRAGMENT_SIZE
        };
        let fragment_type = if i == 0 {
            FragmentType::Start
        } else if i == count - 1 {
            FragmentType::End
        } else {
            FragmentType::Continue
        };
        let data = copy_range(packet, from, to);
        assert(data@ =~= piece(packet@, i as int));
        fragments.push(
            Fragment {
                fragment_type,
                fragment_id,
                index: (i % 65536) as u16,
                total,
                original_type: MessageType::Message.code(),
                data,
            },
        );
        from = to;
    }
    fragments
}

/// The pieces of a packet, in order.
pub open spec fn pieces(packet: Seq<u8>) -> Seq<Seq<u8>> {
    Seq::new(piece_count(packet.len()), |i: int| piece(packet, i))
}

/// Pieces put together.
pub open spec fn put_together(pieces: Seq<Seq<u8>>) -> Seq<u8>
    decreases pieces.len(),
{
    if pieces.len() == 0 {
        Seq::empty()
    } else {
        put_together(pieces.drop_last()) + pieces.last()
    }
}

/// The first `n` pieces of a packet are its first bytes.
proof fn first_pieces(packet: Seq<u8>, n: int)
    requires
        0 <= n <= piece_count(packet.len()),
    ensures
        put_together(pieces(packet).take(n)) == packet.take(
            if 150 * n <= packet.len() {
                150 * n
            } else {
                packet.len() as int
            },
        ),
    decreases n,
{
    let all = pieces(packet);
    if n == 0 {
        assert(all.take(0).len() == 0);
        assert(packet.take(0) =~= Seq::<u8>::empty());
    } else {
        first_pieces(packet, n - 1);
        assert(all.take(n).drop_last() =~= all.take(n - 1));
        assert(all.take(n).last() == piece(packet, n - 1));
        let end = if 150 * n <= packet.len() {
            150 * n
        } else {
            packet.len() as int
        };
        assert(packet.take(150 * (n - 1)) + piece(packet, n - 1) =~= packet.take(end));
    }
}

/// The pieces of a packet, put together in order, are the packet.
pub proof fn pieces_make_the_packet(packet: Seq<u8>)
    ensures
        put_together(pieces(packet)) == packet,
{
    let n = piece_count(packet.len()) as int;
    first_pieces(packet, n);
    assert(pieces(packet).take(n) =~= pieces(packet));
    assert(packet.take(packet.len() as int) =~= packet);
}

/// Reading a fragment gives back what was written.
pub proof fn fragment_round_trip(f: FragmentView)
    requires
        f.fragment_id.len() == 8,
    ensures
        fragment_of(fragment_bytes(f)) == Some(f),
{
    let payload = fragment_bytes(f);
    crate::bytes::be_u16_round_trip(f.index);
    crate::bytes::be_u16_round_trip(f.total);
    assert(payload.subrange(0, 8) =~= f.fragment_id);
    assert(payload.skip(13) =~= f.data);
}

/// A packet that carries a piece of a larger packet never has to be cut to pieces itself.
pub proof fn fragments_are_small(
    packet: Seq<u8>,
    fragment_id: Seq<u8>,
    i: int,
    now: u64,
    sender: Seq<char>,
    t: FragmentType,
)
    requires
        fragment_id.len() == 8,
        0 <= i < piece_count(packet.len()),
        is_sender(sender),
    ensures
        packet_bytes(
            now,
            sender,
            None,
            t.spec_message_type(),
            fragment_bytes(fragment_at(packet, fragment_id, i)),
            None,
        ).len() <= 180,
{
    assert(piece(packet, i).len() <= 150);
}

} // verus!
