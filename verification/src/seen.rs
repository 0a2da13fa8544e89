//! The messages that were seen before.
use crate::adapters::{
    bits_of, filter_record, filter_reports, intact, is_best_rounds, new_filter, reported_after, reported_by,
    rounds_of,
};
use bloomfilter::Bloom;
use vstd::prelude::*;

verus! {

/// The messages that were seen before, kept in little room. A message that was seen is always
/// recognised; now and then one that was not is taken for one that was.
pub struct SeenMessages {
    filter: Bloom<String>,
}

impl View for SeenMessages {
    type V = Set<Seq<char>>;

    /// The identifiers of the messages that count as seen.
    closed spec fn view(&self) -> Set<Seq<char>> {
        reported_by(self.filter)
    }
}

impl SeenMessages {
    #[verifier::type_invariant]
    spec fn well_formed(self) -> bool {
        intact(self.filter)
    }

    /// The identifiers of the messages that count as seen once the message `id` was noted, and
    /// nothing else. Besides that identifier and those that counted before, these are the ones
    /// that are mistaken for them.
    pub closed spec fn with(&self, id: Seq<char>) -> Set<Seq<char>> {
        reported_after(self.filter, id)
    }

    /// How much room is taken, in bits. It does not change.
    pub closed spec fn bits(&self) -> int {
        bits_of(self.filter)
    }

    /// How many of those bits stand for one message. It does not change.
    pub closed spec fn rounds(&self) -> int {
        rounds_of(self.filter)
    }

    /// No message was seen. There is room for five hundred messages: six hundred bytes, of which
    /// seven bits stand for one message.
    pub fn new() -> (s: Self)
        ensures
            s@ == Set::<Seq<char>>::empty(),
            s.bits() == 4800,
            s.rounds() == 7,
    {
        let filter = new_filter(600, 500);
        proof {
            let rounds = rounds_of(filter);
            assert(rounds == 7) by (nonlinear_arith)
                requires
                    is_best_rounds(rounds, 4800, 500),
            ;
        }
        SeenMessages { filter }
    }

    /// Whether a message counts as seen.
    pub fn contains(&self, id: &String) -> (r: bool)
        ensures
            r == self@.contains(id@),
    {
        proof {
            use_type_invariant(self);
        }
        filter_reports(&self.filter, id)
    }

    /// Notes that a message was seen.
    pub fn insert(&mut self, id: &String)
        ensures
            final(self)@ == old(self).with(id@),
            final(self)@.contains(id@),
            old(self)@.subset_of(final(self)@),
            final(self).bits() == old(self).bits(),
            final(self).rounds() == old(self).rounds(),
    {
        proof {
            use_type_invariant(&*self);
        }
        filter_record(&mut self.filter, id);
    }
}

} // verus!
