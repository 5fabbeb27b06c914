//! A collection of references in which no identity occurs twice.

use crate::repository::{identities, Identity, Repository};
use vstd::prelude::*;

verus! {

/// A sequence of identities after each of `more` has been added in order to
/// `base`, one that is already there being left out.
pub open spec fn insert_all(base: Seq<Identity>, more: Seq<Identity>) -> Seq<Identity>
    decreases more.len(),
{
    if more.len() == 0 {
        base
    } else {
        let before = insert_all(base, more.drop_last());
        if before.contains(more.last()) {
            before
        } else {
            before.push(more.last())
        }
    }
}

/// The first occurrence of each identity of a sequence, in order.
pub open spec fn distinct(all: Seq<Identity>) -> Seq<Identity> {
    insert_all(Seq::empty(), all)
}

/// Adding one identity appends it unless it is there already.
pub proof fn lemma_insert_one(base: Seq<Identity>, identity: Identity)
    ensures
        insert_all(base, seq![identity]) == if base.contains(identity) {
            base
        } else {
            base.push(identity)
        },
{
    let one = seq![identity];
    assert(one.drop_last() == Seq::<Identity>::empty());
    assert(one.last() == identity);
    assert(insert_all(base, one.drop_last()) == base);
}

/// Adding identities keeps what was there in place, adds each new identity
/// and nothing else, and repeats nothing.
pub proof fn lemma_insert_all(base: Seq<Identity>, more: Seq<Identity>)
    ensures
        base.is_prefix_of(insert_all(base, more)),
        forall|identity: Identity|
            insert_all(base, more).contains(identity) <==> base.contains(identity)
                || more.contains(identity),
        base.no_duplicates() ==> insert_all(base, more).no_duplicates(),
    decreases more.len(),
{
    if more.len() > 0 {
        let front = more.drop_last();
        let before = insert_all(base, front);
        lemma_insert_all(base, front);
        assert forall|identity: Identity|
            insert_all(base, more).contains(identity) <==> base.contains(identity)
                || more.contains(identity) by {
            if more.contains(identity) {
                let i = choose|i: int| 0 <= i < more.len() && more[i] == identity;
                if i < front.len() {
                    assert(front[i] == identity);
                }
            }
            if front.contains(identity) {
                let i = choose|i: int| 0 <= i < front.len() && front[i] == identity;
                assert(more[i] == identity);
            }
            assert(more[more.len() - 1] == more.last());
            if !before.contains(more.last()) {
                let after = before.push(more.last());
                assert(after[before.len() as int] == more.last());
                if before.contains(identity) {
                    let i = choose|i: int| 0 <= i < before.len() && before[i] == identity;
                    assert(after[i] == identity);
                }
            }
        }
    }
}

/// A collection of references in which no identity occurs twice. It keeps
/// the order in which the references were first inserted.
pub struct ReferenceSet {
    items: Vec<Repository>,
}

impl View for ReferenceSet {
    type V = Seq<Identity>;

    closed spec fn view(&self) -> Seq<Identity> {
        identities(self.items@)
    }
}

impl ReferenceSet {
    /// What holds of every collection: no identity occurs twice in it.
    #[verifier::type_invariant]
    pub open spec fn well_formed(&self) -> bool {
        self@.no_duplicates()
    }

    /// The empty collection.
    pub fn new() -> (set: ReferenceSet)
        ensures
            set@ == Seq::<Identity>::empty(),
    {
        let set = ReferenceSet { items: Vec::new() };
        assert(identities(set.items@) == Seq::<Identity>::empty());
        set
    }

    /// The number of references.
    pub fn len(&self) -> (count: usize)
        ensures
            count == self@.len(),
    {
        self.items.len()
    }

    /// The reference at a position, counted in order of insertion.
    pub fn get(&self, position: usize) -> (reference: Option<&Repository>)
        ensures
            reference is Some <==> position < self@.len(),
            reference is Some ==> reference->Some_0@ == self@[position as int],
    {
        if position < self.items.len() {
            Some(&self.items[position])
        } else {
            None
        }
    }

    /// Whether a reference with the same owner and name is in the collection.
    pub fn contains(&self, reference: &Repository) -> (found: bool)
        ensures
            found == self@.contains(reference@),
    {
        let mut position: usize = 0;
        while position < self.items.len()
            invariant
                position <= self.items.len(),
                forall|i: int| 0 <= i < position ==> self@[i] != reference@,
            decreases self.items.len() - position,
        {
            if self.items[position] == *reference {
                assert(self@[position as int] == reference@);
                return true;
            }
            position += 1;
        }
        false
    }

    /// Adds a reference unless one with the same owner and name is there.
    /// Returns whether it was added.
    pub fn insert(&mut self, reference: Repository) -> (added: bool)
        ensures
            added == !old(self)@.contains(reference@),
            final(self)@ == insert_all(old(self)@, seq![reference@]),
            final(self)@ == if added {
                old(self)@.push(reference@)
            } else {
                old(self)@
            },
            final(self)@.no_duplicates(),
    {
        proof {
            use_type_invariant(&*self);
            lemma_insert_one(self@, reference@);
        }
        if self.contains(&reference) {
            false
        } else {
            let ghost before = self.items@;
            let mut items: Vec<Repository> = Vec::new();
            std::mem::swap(&mut items, &mut self.items);
            items.push(reference);
            proof {
                assert(identities(items@) == identities(before).push(reference@));
                lemma_insert_all(identities(before), seq![reference@]);
            }
            self.items = items;
            true
        }
    }

    /// The collection of the distinct references of a sequence, each at the
    /// place of its first occurrence.
    pub fn from_sequence(references: Vec<Repository>) -> (set: ReferenceSet)
        ensures
            set@ == distinct(identities(references@)),
            set@.no_duplicates(),
    {
        let ghost all = identities(references@);
        let mut set = ReferenceSet::new();
        let mut position: usize = 0;
        while position < references.len()
            invariant
                position <= references.len(),
                all == identities(references@),
                set@ == distinct(all.take(position as int)),
            decreases references.len() - position,
        {
            proof {
                assert(all.take(position + 1).drop_last() == all.take(position as int));
                lemma_insert_one(set@, all[position as int]);
            }
            set.insert(references[position].clone());
            position += 1;
        }
        proof {
            assert(all.take(position as int) == all);
            lemma_insert_all(Seq::empty(), all);
        }
        set
    }

    /// The references, in order of insertion.
    pub fn into_vec(self) -> (references: Vec<Repository>)
        ensures
            identities(references@) == self@,
            identities(references@).no_duplicates(),
    {
        proof {
            use_type_invariant(&self);
        }
        self.items
    }
}

} // verus!
