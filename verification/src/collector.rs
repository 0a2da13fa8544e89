//! Putting fragments together again.
use crate::adapters::{hex_encode, hex_round_trip, hex_text};
use crate::fragmentation::{piece_count, pieces, pieces_make_the_packet, put_together};
use crate::table::Table;
use std::collections::HashMap;
use vstd::prelude::*;

verus! {

broadcast use vstd::std_specs::hash::group_hash_axioms;

/// The fragments that have arrived of packets that are not complete yet.
pub struct FragmentCollector {
    /// For each fragment identifier, in hexadecimal digits, the pieces by their numbers.
    pub fragments: Table<HashMap<u16, Vec<u8>>>,
    /// For each of them, what its first fragment said: the number of pieces, the type of
    /// the packet, and the sender.
    pub metadata: Table<(u16, u8, String)>,
}

/// What a collector holds.
#[verifier::ext_equal]
pub struct CollectorView {
    pub fragments: Map<Seq<char>, Map<u16, Seq<u8>>>,
    pub metadata: Map<Seq<char>, (u16, u8, Seq<char>)>,
}

/// The pieces of one packet.
pub open spec fn pieces_of(m: HashMap<u16, Vec<u8>>) -> Map<u16, Seq<u8>> {
    m@.map_values(|v: Vec<u8>| v@)
}

pub open spec fn metadata_of(m: (u16, u8, String)) -> (u16, u8, Seq<char>) {
    (m.0, m.1, m.2@)
}

impl View for FragmentCollector {
    type V = CollectorView;

    open spec fn view(&self) -> CollectorView {
        CollectorView {
            fragments: self.fragments@.map_values(|m: HashMap<u16, Vec<u8>>| pieces_of(m)),
            metadata: self.metadata@.map_values(|m: (u16, u8, String)| metadata_of(m)),
        }
    }
}

/// The pieces numbered below `n`, put together.
pub open spec fn joined_pieces(parts: Map<u16, Seq<u8>>, n: nat) -> Seq<u8>
    decreases n,
{
    if n == 0 {
        Seq::empty()
    } else {
        joined_pieces(parts, (n - 1) as nat) + parts[(n - 1) as u16]
    }
}

/// There are `total` pieces, numbered from zero up.
pub open spec fn all_arrived(parts: Map<u16, Seq<u8>>, total: u16) -> bool {
    &&& parts.len() == total
    &&& forall|i: u16| i < total ==> #[trigger] parts.contains_key(i)
}

/// The pieces of a packet once one more has arrived.
pub open spec fn parts_with(
    c: CollectorView,
    fragment_id: Seq<u8>,
    index: u16,
    data: Seq<u8>,
) -> Map<u16, Seq<u8>> {
    let key = hex_text(fragment_id);
    (if c.fragments.contains_key(key) {
        c.fragments[key]
    } else {
        Map::empty()
    }).insert(index, data)
}

/// What the first fragment of a packet said.
pub open spec fn metadata_with(
    c: CollectorView,
    fragment_id: Seq<u8>,
    total: u16,
    original_type: u8,
    sender: Seq<char>,
) -> Map<Seq<char>, (u16, u8, Seq<char>)> {
    let key = hex_text(fragment_id);
    if c.fragments.contains_key(key) {
        c.metadata
    } else {
        c.metadata.insert(key, (total, original_type, sender))
    }
}

/// What a collector holds once a fragment has arrived, and the packet that it completes,
/// with the sender of its first fragment. Until it is complete, the packet is kept.
pub open spec fn collect(
    c: CollectorView,
    fragment_id: Seq<u8>,
    index: u16,
    total: u16,
    original_type: u8,
    data: Seq<u8>,
    sender: Seq<char>,
) -> (CollectorView, Option<(Seq<u8>, Seq<char>)>) {
    let key = hex_text(fragment_id);
    let parts = parts_with(c, fragment_id, index, data);
    let metadata = metadata_with(c, fragment_id, total, original_type, sender);
    if all_arrived(parts, total) {
        (
            CollectorView { fragments: c.fragments.remove(key), metadata: metadata.remove(key) },
            Some(
                (
                    joined_pieces(parts, total as nat),
                    if metadata.contains_key(key) {
                        metadata[key].2
                    } else {
                        "Unknown"@
                    },
                ),
            ),
        )
    } else {
        (CollectorView { fragments: c.fragments.insert(key, parts), metadata }, None)
    }
}

/// Puts the pieces numbered below `total` together, where all are there.
fn join_pieces(parts: &HashMap<u16, Vec<u8>>, total: u16) -> (r: Option<Vec<u8>>)
    ensures
        match r {
            Some(data) => (forall|i: u16| i < total ==> #[trigger] pieces_of(*parts).contains_key(i)) && data@
                == joined_pieces(pieces_of(*parts), total as nat),
            None => exists|i: u16| i < total && !#[trigger] pieces_of(*parts).contains_key(i),
        },
{
    let mut data: Vec<u8> = Vec::new();
    for i in 0..total
        invariant
            forall|j: u16| j < i ==> #[trigger] pieces_of(*parts).contains_key(j),
            data@ == joined_pieces(pieces_of(*parts), i as nat),
    {
        match parts.get(&i) {
            Some(piece) => {
                data.extend_from_slice(piece.as_slice());
                assert(data@ =~= joined_pieces(pieces_of(*parts), (i + 1) as nat));
            },
            None => {
                assert(!pieces_of(*parts).contains_key(i));
                return None;
            },
        }
    }
    Some(data)
}

impl FragmentCollector {
    pub fn new() -> (c: Self)
        ensures
            c@.fragments == Map::<Seq<char>, Map<u16, Seq<u8>>>::empty(),
            c@.metadata == Map::<Seq<char>, (u16, u8, Seq<char>)>::empty(),
    {
        let c = FragmentCollector { fragments: Table::new(), metadata: Table::new() };
        assert(c@.fragments =~= Map::<Seq<char>, Map<u16, Seq<u8>>>::empty());
        assert(c@.metadata =~= Map::<Seq<char>, (u16, u8, Seq<char>)>::empty());
        c
    }

    /// Takes a fragment in. When it is the last that was missing, gives the packet that it
    /// completes, and its sender.
    pub fn add_fragment(
        &mut self,
        fragment_id: [u8; 8],
        index: u16,
        total: u16,
        original_type: u8,
        data: Vec<u8>,
        sender_id: String,
    ) -> (r: Option<(Vec<u8>, String)>)
        ensures
            ({
                let (after, done) = collect(
                    old(self)@,
                    fragment_id@,
                    index,
                    total,
                    original_type,
                    data@,
                    sender_id@,
                );
                &&& final(self)@ == after
                &&& match r {
                    Some((packet, sender)) => done == Some((packet@, sender@)),
                    None => done is None,
                }
            }),
    {
        let ghost before = self@;
        let key = hex_encode(fragment_id.as_slice());
        let known = self.fragments.contains_key(key.as_str());
        if !known {
            self.metadata.insert(key.clone(), (total, original_type, sender_id.clone()));
        }
        let ghost metadata = metadata_with(before, fragment_id@, total, original_type, sender_id@);
        assert(self.metadata@.map_values(|m: (u16, u8, String)| metadata_of(m)) =~= metadata);
        let mut parts: HashMap<u16, Vec<u8>> = match self.fragments.remove(key.as_str()) {
            Some(parts) => parts,
            None => HashMap::new(),
        };
        let ghost held = pieces_of(parts);
        let ghost piece = data;
        parts.insert(index, data);
        let ghost goal = parts_with(before, fragment_id@, index, piece@);
        assert(pieces_of(parts) =~= goal);
        assert(parts@.dom() =~= goal.dom());
        if parts.len() == total as usize {
            if let Some(complete_data) = join_pieces(&parts, total) {
                let sender = match self.metadata.get(key.as_str()) {
                    Some(m) => m.2.clone(),
                    None => "Unknown".to_owned(),
                };
                self.metadata.remove(key.as_str());
                assert(self@.fragments =~= before.fragments.remove(key@));
                assert(self@.metadata =~= metadata.remove(key@));
                return Some((complete_data, sender));
            }
        }
        self.fragments.insert(key, parts);
        assert(self@.fragments =~= before.fragments.insert(hex_text(fragment_id@), goal));
        None
    }
}

/// A collector knows the first fragment of exactly the packets that it holds pieces of.
pub open spec fn is_consistent(c: CollectorView) -> bool {
    c.fragments.dom() == c.metadata.dom()
}

/// What a new collector holds is consistent, and stays so whatever fragment arrives. The
/// sender of a completed packet is then always known.
pub proof fn consistency_is_kept(
    c: CollectorView,
    fragment_id: Seq<u8>,
    index: u16,
    total: u16,
    original_type: u8,
    data: Seq<u8>,
    sender: Seq<char>,
)
    requires
        is_consistent(c),
    ensures
        is_consistent(CollectorView { fragments: Map::empty(), metadata: Map::empty() }),
        is_consistent(collect(c, fragment_id, index, total, original_type, data, sender).0),
        collect(c, fragment_id, index, total, original_type, data, sender).1 matches Some((_, who)) ==> {
            let key = hex_text(fragment_id);
            who == if c.metadata.contains_key(key) {
                c.metadata[key].2
            } else {
                sender
            }
        },
{
    let after = collect(c, fragment_id, index, total, original_type, data, sender).0;
    assert(after.fragments.dom() =~= after.metadata.dom());
    assert(Map::<Seq<char>, Map<u16, Seq<u8>>>::empty().dom() =~= Map::<Seq<char>, (u16, u8, Seq<char>)>::empty().dom());
}

/// Fragments of one packet leave the pieces of every other packet as they are.
pub proof fn packets_do_not_mix(
    c: CollectorView,
    fragment_id: Seq<u8>,
    index: u16,
    total: u16,
    original_type: u8,
    data: Seq<u8>,
    sender: Seq<char>,
    other: Seq<u8>,
)
    requires
        other != fragment_id,
    ensures
        ({
            let after = collect(c, fragment_id, index, total, original_type, data, sender).0;
            let key = hex_text(other);
            &&& after.fragments.contains_key(key) == c.fragments.contains_key(key)
            &&& c.fragments.contains_key(key) ==> after.fragments[key] == c.fragments[key]
            &&& after.metadata.contains_key(key) == c.metadata.contains_key(key)
            &&& c.metadata.contains_key(key) ==> after.metadata[key] == c.metadata[key]
        }),
{
    hex_round_trip(other);
    hex_round_trip(fragment_id);
}

/// What a collector holds, and what it gives last, once pieces of one packet have arrived in
/// the order `order`: the piece `order[0]` first.
pub open spec fn collect_all(
    c: CollectorView,
    fragment_id: Seq<u8>,
    original_type: u8,
    sender: Seq<char>,
    pieces: Seq<Seq<u8>>,
    order: Seq<u16>,
) -> (CollectorView, Option<(Seq<u8>, Seq<char>)>)
    decreases order.len(),
{
    if order.len() == 0 {
        (c, None)
    } else {
        collect(
            collect_all(c, fragment_id, original_type, sender, pieces, order.drop_last()).0,
            fragment_id,
            order.last(),
            pieces.len() as u16,
            original_type,
            pieces[order.last() as int],
            sender,
        )
    }
}

/// Every piece has arrived at least once.
pub open spec fn covers(order: Seq<u16>, count: nat) -> bool {
    forall|i: u16| i < count ==> #[trigger] order.contains(i)
}

/// The pieces that have arrived, by their numbers.
spec fn arrived(pieces: Seq<Seq<u8>>, order: Seq<u16>) -> Map<u16, Seq<u8>> {
    Map::new(|i: u16| order.contains(i), |i: u16| pieces[i as int])
}

/// The numbers below `n`.
spec fn numbers_below(n: nat) -> Set<u16>
    decreases n,
{
    if n == 0 {
        Set::empty()
    } else {
        numbers_below((n - 1) as nat).insert((n - 1) as u16)
    }
}

proof fn numbers_below_holds(n: nat)
    requires
        n <= 65535,
    ensures
        numbers_below(n).finite(),
        numbers_below(n).len() == n,
        forall|i: u16| #[trigger] numbers_below(n).contains(i) <==> i < n,
    decreases n,
{
    if n > 0 {
        numbers_below_holds((n - 1) as nat);
    }
}

proof fn joined_pieces_is(parts: Map<u16, Seq<u8>>, pieces: Seq<Seq<u8>>, n: nat)
    requires
        n <= pieces.len() <= 65535,
        forall|i: u16| i < n ==> parts[i] == #[trigger] pieces[i as int],
    ensures
        joined_pieces(parts, n) == put_together(pieces.take(n as int)),
    decreases n,
{
    if n > 0 {
        joined_pieces_is(parts, pieces, (n - 1) as nat);
        assert(pieces.take(n as int).drop_last() =~= pieces.take(n - 1));
        let last = (n - 1) as u16;
        assert(parts[last] == pieces[last as int]);
    }
}

/// As long as a piece is missing nothing is given, and the collector holds what has arrived.
proof fn pieces_are_kept(
    c: CollectorView,
    fragment_id: Seq<u8>,
    original_type: u8,
    sender: Seq<char>,
    pieces: Seq<Seq<u8>>,
    order: Seq<u16>,
)
    requires
        !c.fragments.contains_key(hex_text(fragment_id)),
        0 < pieces.len() <= 65535,
        forall|i: int| 0 <= i < order.len() ==> #[trigger] order[i] < pieces.len(),
        !covers(order, pieces.len()),
    ensures
        ({
            let key = hex_text(fragment_id);
            let (after, done) = collect_all(c, fragment_id, original_type, sender, pieces, order);
            &&& done is None
            &&& order.len() == 0 ==> after == c
            &&& order.len() > 0 ==> {
                &&& after.fragments == c.fragments.insert(key, arrived(pieces, order))
                &&& after.metadata == c.metadata.insert(key, (pieces.len() as u16, original_type, sender))
            }
        }),
    decreases order.len(),
{
    let key = hex_text(fragment_id);
    if order.len() > 0 {
        let rest = order.drop_last();
        let last = order.last();
        assert(order[order.len() - 1] == last);
        assert forall|i: u16| #[trigger] order.contains(i) <==> rest.contains(i) || i == last by {
            if order.contains(i) && i != last {
                let j = order.index_of(i);
                assert(rest[j] == i);
            }
            if rest.contains(i) {
                let j = rest.index_of(i);
                assert(order[j] == i);
            }
        }
        assert(!covers(rest, pieces.len())) by {
            let gap = choose|i: u16| i < pieces.len() && !#[trigger] order.contains(i);
            assert(!rest.contains(gap));
        }
        assert forall|i: int| 0 <= i < rest.len() implies #[trigger] rest[i] < pieces.len() by {
            assert(rest[i] == order[i]);
        }
        pieces_are_kept(c, fragment_id, original_type, sender, pieces, rest);
        let before = collect_all(c, fragment_id, original_type, sender, pieces, rest).0;
        let parts = parts_with(before, fragment_id, last, pieces[last as int]);
        assert(parts =~= arrived(pieces, order));
        assert(!all_arrived(parts, pieces.len() as u16)) by {
            let gap = choose|i: u16| i < pieces.len() && !#[trigger] order.contains(i);
            assert(!parts.contains_key(gap));
        }
        let after = collect_all(c, fragment_id, original_type, sender, pieces, order).0;
        assert(after.fragments =~= c.fragments.insert(key, arrived(pieces, order)));
        assert(after.metadata =~= c.metadata.insert(key, (pieces.len() as u16, original_type, sender)));
    }
}

/// The pieces of a packet give the packet back in whatever order they arrive, and even when
/// some of them arrive more than once: the collector gives nothing until the last missing
/// piece arrives, and with that one it gives the packet and its sender, and forgets it.
pub proof fn any_order_completes_the_packet(
    c: CollectorView,
    fragment_id: Seq<u8>,
    original_type: u8,
    sender: Seq<char>,
    pieces: Seq<Seq<u8>>,
    order: Seq<u16>,
)
    requires
        !c.fragments.contains_key(hex_text(fragment_id)),
        !c.metadata.contains_key(hex_text(fragment_id)),
        0 < pieces.len() <= 65535,
        forall|i: int| 0 <= i < order.len() ==> #[trigger] order[i] < pieces.len(),
        covers(order, pieces.len()),
        !covers(order.drop_last(), pieces.len()),
    ensures
        collect_all(c, fragment_id, original_type, sender, pieces, order) == (
            c,
            Some((put_together(pieces), sender)),
        ),
        forall|n: int|
            0 <= n < order.len() ==> (#[trigger] collect_all(
                c,
                fragment_id,
                original_type,
                sender,
                pieces,
                order.take(n),
            )).1 is None,
{
    let key = hex_text(fragment_id);
    let count = pieces.len();
    assert(order.contains(0));
    let rest = order.drop_last();
    let last = order.last();
    assert(order[order.len() - 1] == last);
    assert forall|i: int| 0 <= i < rest.len() implies #[trigger] rest[i] < count by {
        assert(rest[i] == order[i]);
    }
    assert forall|n: int| 0 <= n < order.len() implies (#[trigger] collect_all(
        c,
        fragment_id,
        original_type,
        sender,
        pieces,
        order.take(n),
    )).1 is None by {
        let part = order.take(n);
        let gap = choose|i: u16| i < count && !#[trigger] rest.contains(i);
        assert(!part.contains(gap)) by {
            if part.contains(gap) {
                let j = part.index_of(gap);
                assert(rest[j] == gap);
            }
        }
        assert forall|i: int| 0 <= i < part.len() implies #[trigger] part[i] < count by {
            assert(part[i] == order[i]);
        }
        pieces_are_kept(c, fragment_id, original_type, sender, pieces, part);
    }
    pieces_are_kept(c, fragment_id, original_type, sender, pieces, rest);
    let before = collect_all(c, fragment_id, original_type, sender, pieces, rest).0;
    let parts = parts_with(before, fragment_id, last, pieces[last as int]);
    numbers_below_holds(count);
    assert forall|i: u16| #[trigger] parts.contains_key(i) <==> i < count by {
        if i < count {
            assert(order.contains(i));
            let j = order.index_of(i);
            if j < rest.len() {
                assert(rest[j] == i);
            }
        }
        if rest.contains(i) {
            let j = rest.index_of(i);
            assert(rest[j] < count);
        }
    }
    assert(parts.dom() =~= numbers_below(count));
    assert(all_arrived(parts, count as u16));
    assert forall|i: u16| i < count implies parts[i] == #[trigger] pieces[i as int] by {
        assert(parts.contains_key(i));
    }
    joined_pieces_is(parts, pieces, count);
    assert(pieces.take(count as int) =~= pieces);
    let (after, done) = collect_all(c, fragment_id, original_type, sender, pieces, order);
    assert(after.fragments =~= c.fragments);
    assert(after.metadata =~= c.metadata);
}

/// A packet that was cut to pieces comes out of the collector as it went in, in whatever
/// order its pieces arrive. The number of pieces must fit in sixteen bits.
pub proof fn cut_packets_come_out_whole(
    c: CollectorView,
    fragment_id: Seq<u8>,
    original_type: u8,
    sender: Seq<char>,
    packet: Seq<u8>,
    order: Seq<u16>,
)
    requires
        !c.fragments.contains_key(hex_text(fragment_id)),
        !c.metadata.contains_key(hex_text(fragment_id)),
        0 < piece_count(packet.len()) <= 65535,
        forall|i: int| 0 <= i < order.len() ==> #[trigger] order[i] < piece_count(packet.len()),
        covers(order, piece_count(packet.len())),
        !covers(order.drop_last(), piece_count(packet.len())),
    ensures
        collect_all(c, fragment_id, original_type, sender, pieces(packet), order) == (c, Some((packet, sender))),
{
    any_order_completes_the_packet(c, fragment_id, original_type, sender, pieces(packet), order);
    pieces_make_the_packet(packet);
}

} // verus!
