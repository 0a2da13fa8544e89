//! Who is within reach.
use crate::protocol::Peer;
use crate::table::{keys_differ, Table};
use crate::text::{insert_sorted, is_sorted, same_text, texts};
use vstd::prelude::*;

verus! {

/// What a peer calls itself.
pub open spec fn name_of(peer: Peer) -> Option<Seq<char>> {
    match peer.nickname {
        Some(n) => Some(n@),
        None => None,
    }
}

/// The peers that are known, by their identifiers.
pub struct PeerDirectory {
    pub peers: Table<Peer>,
}

impl View for PeerDirectory {
    type V = Map<Seq<char>, Option<Seq<char>>>;

    /// What each peer calls itself.
    open spec fn view(&self) -> Map<Seq<char>, Option<Seq<char>>> {
        self.peers@.map_values(|p: Peer| name_of(p))
    }
}

/// The peers that call themselves `nickname`.
pub open spec fn called(peers: Map<Seq<char>, Option<Seq<char>>>, nickname: Seq<char>) -> Set<Seq<char>> {
    Set::new(|id: Seq<char>| peers.contains_pair(id, Some(nickname)))
}

/// What a peer is shown as: by its nickname, or by its identifier as long as it has none.
pub open spec fn shown_name(peers: Map<Seq<char>, Option<Seq<char>>>, id: Seq<char>) -> Seq<char> {
    if peers.contains_key(id) && peers[id] is Some {
        peers[id]->0
    } else {
        id
    }
}

/// How often `nickname` occurs among the first `n` entries.
spec fn count_called(entries: Seq<(String, Peer)>, n: int, nickname: Seq<char>) -> nat
    decreases n,
{
    if n <= 0 {
        0
    } else {
        count_called(entries, n - 1, nickname) + if name_of(entries[n - 1].1) == Some(nickname) {
            1nat
        } else {
            0
        }
    }
}

/// The peers among the first `n` entries that call themselves `nickname`.
spec fn called_among(entries: Seq<(String, Peer)>, n: int, nickname: Seq<char>) -> Set<Seq<char>>
    decreases n,
{
    if n <= 0 {
        Set::empty()
    } else if name_of(entries[n - 1].1) == Some(nickname) {
        called_among(entries, n - 1, nickname).insert(entries[n - 1].0@)
    } else {
        called_among(entries, n - 1, nickname)
    }
}

proof fn called_among_holds(entries: Seq<(String, Peer)>, n: int, nickname: Seq<char>)
    requires
        0 <= n <= entries.len(),
        keys_differ(entries),
    ensures
        called_among(entries, n, nickname).finite(),
        called_among(entries, n, nickname).len() == count_called(entries, n, nickname),
        forall|id: Seq<char>|
            #[trigger] called_among(entries, n, nickname).contains(id) <==> exists|i: int|
                #![trigger entries[i]]
                0 <= i < n && entries[i].0@ == id && name_of(entries[i].1) == Some(nickname),
    decreases n,
{
    if n > 0 {
        called_among_holds(entries, n - 1, nickname);
        let last = entries[n - 1];
        assert(!called_among(entries, n - 1, nickname).contains(last.0@)) by {
            if called_among(entries, n - 1, nickname).contains(last.0@) {
                let i = choose|i: int|
                    #![trigger entries[i]]
                    0 <= i < n - 1 && entries[i].0@ == last.0@ && name_of(entries[i].1) == Some(nickname);
                assert(entries[i].0@ != entries[n - 1].0@);
            }
        }
        assert forall|id: Seq<char>| #[trigger] called_among(entries, n, nickname).contains(id) implies exists|i: int|
            #![trigger entries[i]]
            0 <= i < n && entries[i].0@ == id && name_of(entries[i].1) == Some(nickname) by {
            if called_among(entries, n - 1, nickname).contains(id) {
                let i = choose|i: int|
                    #![trigger entries[i]]
                    0 <= i < n - 1 && entries[i].0@ == id && name_of(entries[i].1) == Some(nickname);
                assert(entries[i].0@ == id);
            } else {
                assert(entries[n - 1].0@ == id);
            }
        }
    }
}

impl PeerDirectory {
    pub fn new() -> (d: Self)
        ensures
            d@ == Map::<Seq<char>, Option<Seq<char>>>::empty(),
    {
        let d = PeerDirectory { peers: Table::new() };
        assert(d@ =~= Map::<Seq<char>, Option<Seq<char>>>::empty());
        d
    }

    /// How many peers are known.
    pub fn len(&self) -> (n: usize)
        ensures
            n == self@.len(),
    {
        assert(self@.dom() =~= self.peers@.dom());
        self.peers.len()
    }

    /// Whether a peer is known.
    pub fn contains(&self, id: &str) -> (r: bool)
        ensures
            r == self@.contains_key(id@),
    {
        self.peers.contains_key(id)
    }

    /// Notes what a peer calls itself. Says whether the peer was unknown until now.
    pub fn set_nickname(&mut self, id: &str, nickname: String) -> (is_new: bool)
        ensures
            is_new == !old(self)@.contains_key(id@),
            final(self)@ == old(self)@.insert(id@, Some(nickname@)),
    {
        let ghost before = self@;
        let ghost name = nickname@;
        let is_new = !self.peers.contains_key(id);
        self.peers.insert(id.to_owned(), Peer { nickname: Some(nickname) });
        assert(self@ =~= before.insert(id@, Some(name)));
        is_new
    }

    /// Forgets a peer.
    pub fn remove(&mut self, id: &str)
        ensures
            final(self)@ == old(self)@.remove(id@),
    {
        let ghost before = self@;
        self.peers.remove(id);
        assert(self@ =~= before.remove(id@));
    }

    /// What a peer is shown as.
    pub fn display_name(&self, id: &str) -> (name: String)
        ensures
            name@ == shown_name(self@, id@),
    {
        match self.peers.get(id) {
            Some(peer) => {
                assert(self@.contains_pair(id@, name_of(*peer)));
                match &peer.nickname {
                    Some(n) => n.clone(),
                    None => id.to_owned(),
                }
            },
            None => id.to_owned(),
        }
    }

    /// A peer that calls itself `nickname`. Which one is left open where several do.
    pub fn find(&self, nickname: &str) -> (r: Option<String>)
        ensures
            match r {
                Some(id) => self@.contains_pair(id@, Some(nickname@)),
                None => forall|id: Seq<char>| !#[trigger] self@.contains_pair(id, Some(nickname@)),
            },
    {
        let entries = self.peers.entries();
        for i in 0..entries.len()
            invariant
                forall|j: int|
                    #![trigger entries@[j]]
                    0 <= j < entries@.len() ==> self.peers@.contains_pair(entries@[j].0@, entries@[j].1),
                forall|j: int| #![trigger entries@[j]] 0 <= j < i ==> name_of(entries@[j].1) != Some(nickname@),
        {
            if let Some(n) = &entries[i].1.nickname {
                if same_text(n.as_str(), nickname) {
                    let ghost entry = entries@[i as int];
                    assert(self.peers@.contains_pair(entry.0@, entry.1));
                    assert(name_of(entry.1) == Some(nickname@));
                    return Some(entries[i].0.clone());
                }
            }
        }
        assert forall|id: Seq<char>| !#[trigger] self@.contains_pair(id, Some(nickname@)) by {
            if self@.contains_pair(id, Some(nickname@)) {
                assert(self.peers@.contains_key(id));
                let j = choose|j: int| #![trigger entries@[j]] 0 <= j < entries@.len() && entries@[j].0@ == id;
                assert(self.peers@.contains_pair(entries@[j].0@, entries@[j].1));
            }
        }
        None
    }

    /// The nicknames of all peers that have one, in order. A nickname occurs as often as there
    /// are peers that have it.
    pub fn nicknames(&self) -> (list: Vec<String>)
        ensures
            is_sorted(texts(list@)),
            forall|n: Seq<char>| #[trigger] texts(list@).to_multiset().count(n) == called(self@, n).len(),
    {
        let entries = self.peers.entries();
        let mut list: Vec<String> = Vec::new();
        proof {
            broadcast use vstd::seq_lib::group_to_multiset_ensures;
            assert(texts(list@) =~= Seq::<Seq<char>>::empty());
        }
        for i in 0..entries.len()
            invariant
                is_sorted(texts(list@)),
                forall|n: Seq<char>|
                    #[trigger] texts(list@).to_multiset().count(n) == count_called(entries@, i as int, n),
        {
            if let Some(n) = &entries[i].1.nickname {
                insert_sorted(&mut list, n.clone());
            }
        }
        assert forall|n: Seq<char>| #[trigger] texts(list@).to_multiset().count(n) == called(self@, n).len() by {
            called_among_holds(entries@, entries@.len() as int, n);
            assert(called_among(entries@, entries@.len() as int, n) =~= called(self@, n)) by {
                assert forall|id: Seq<char>| #[trigger]
                    called_among(entries@, entries@.len() as int, n).contains(id) <==> called(self@, n).contains(
                    id,
                ) by {
                    if called(self@, n).contains(id) {
                        assert(self.peers@.contains_key(id));
                        let j = choose|j: int|
                            #![trigger entries@[j]]
                            0 <= j < entries@.len() && entries@[j].0@ == id;
                        assert(self.peers@.contains_pair(entries@[j].0@, entries@[j].1));
                    }
                    if called_among(entries@, entries@.len() as int, n).contains(id) {
                        let j = choose|j: int|
                            #![trigger entries@[j]]
                            0 <= j < entries@.len() && entries@[j].0@ == id && name_of(entries@[j].1) == Some(n);
                        assert(self.peers@.contains_pair(entries@[j].0@, entries@[j].1));
                    }
                }
            }
        }
        list
    }
}

} // verus!
