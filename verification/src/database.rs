//! The read-only card catalog as the engine consumes it: the creature
//! list and a keyed store of cards. Loading and generating the catalog's
//! on-disk form is the surrounding application's concern; the library
//! receives plain values.

use vstd::prelude::*;

use crate::assoc;
use crate::card::Card;
use crate::card;
use crate::expansion;
use crate::pokemon::Pokemon;
use crate::series;

verus! {

/// A keyed store of cards with pairwise distinct ids, in insertion order.
#[derive(Debug)]
pub struct Cards {
    items: Vec<Card>,
}

impl Cards {
    /// The store as a sequence of (id, card) views.
    pub closed spec fn entries_view(self) -> Seq<(Seq<char>, Card)> {
        Seq::new(self.items@.len(), |i: int| (self.items@[i].id@, self.items@[i]))
    }

    /// Ids are pairwise distinct.
    pub open spec fn wf(self) -> bool {
        assoc::unique_keys(self.entries_view())
    }

    /// The card stored under an id.
    pub open spec fn spec_get(self, id: Seq<char>) -> Option<Card> {
        assoc::lookup(self.entries_view(), id)
    }

    pub fn new() -> (r: Self)
        ensures
            r.wf(),
            r.entries_view() == Seq::<(Seq<char>, Card)>::empty(),
    {
        let r = Cards { items: Vec::new() };
        proof {
            assert(r.entries_view() =~= Seq::<(Seq<char>, Card)>::empty());
        }
        r
    }

    /// Adds a card. A card with the same id is replaced: last write wins,
    /// as when the catalog merges locale directories.
    pub fn insert(&mut self, item: Card)
        requires
            old(self).wf(),
        ensures
            final(self).wf(),
            final(self).spec_get(item.id@) == Some(item),
            forall|k: Seq<char>| k != item.id@ ==> final(self).spec_get(k) == old(self).spec_get(k),
    {
        let ghost s = self.entries_view();
        let n = self.items.len();
        let mut i: usize = 0;
        while i < n
            invariant
                0 <= i <= n,
                n == self.items@.len(),
                *self == *old(self),
                s == self.entries_view(),
                old(self).wf(),
                forall|j: int| 0 <= j < i ==> s[j].0 != item.id@,
            decreases n - i,
        {
            if self.items[i].id.eq(&item.id) {
                self.items.remove(i);
                self.items.insert(i, item);
                proof {
                    let ghost t = self.entries_view();
                    assert forall|j: int| 0 <= j < s.len() && j != i implies t[j] == s[j] by {}
                    assert(t =~= s.update(i as int, (s[i as int].0, t[i as int].1)));
                    assert forall|k: Seq<char>| k != s[i as int].0 implies assoc::lookup(t, k)
                        == assoc::lookup(s, k) by {
                        assoc::lemma_lookup_update(s, i as int, t[i as int].1, k);
                    }
                    assoc::lemma_lookup_update(s, i as int, t[i as int].1, s[i as int].0);
                }
                return ;
            }
            i += 1;
        }
        self.items.push(item);
        proof {
            let ghost t = self.entries_view();
            assoc::lemma_lookup_absent(s, t[s.len() as int].0);
            assert(t =~= s.push((t[s.len() as int].0, t[s.len() as int].1)));
            assert forall|k: Seq<char>| k != t[s.len() as int].0 implies assoc::lookup(t, k)
                == assoc::lookup(s, k) by {
                assoc::lemma_lookup_push(s, t[s.len() as int].0, t[s.len() as int].1, k);
            }
            assoc::lemma_lookup_push(
                s,
                t[s.len() as int].0,
                t[s.len() as int].1,
                t[s.len() as int].0,
            );
        }
    }

    /// The card stored under an id, if any.
    pub fn get(&self, id: &card::Id) -> (r: Option<&Card>)
        ensures
            r is Some <==> self.spec_get(id@) is Some,
            r is Some ==> *r->Some_0 == self.spec_get(id@)->Some_0,
    {
        let ghost s = self.entries_view();
        let n = self.items.len();
        let mut i: usize = 0;
        while i < n
            invariant
                0 <= i <= n,
                n == self.items@.len(),
                s == self.entries_view(),
                forall|j: int| 0 <= j < i ==> s[j].0 != id@,
            decreases n - i,
        {
            if self.items[i].id.eq(id) {
                proof {
                    assoc::lemma_lookup_skip(s, id@, i as int);
                }
                return Some(&self.items[i]);
            }
            i += 1;
        }
        proof {
            assoc::lemma_lookup_absent(s, id@);
        }
        None
    }

    /// Whether an id is in the catalog.
    pub fn contains(&self, id: &card::Id) -> (r: bool)
        ensures
            r == assoc::contains_key(self.entries_view(), id@),
    {
        self.get(id).is_some()
    }

    /// How many cards the store holds.
    pub fn len(&self) -> (r: usize)
        ensures
            r == self.entries_view().len(),
    {
        self.items.len()
    }

    /// Each stored pair's key is its card's own id.
    pub proof fn lemma_keyed(self)
        ensures
            forall|i: int|
                0 <= i < self.entries_view().len() ==> (#[trigger] self.entries_view()[i]).1.id@
                    == self.entries_view()[i].0,
    {
    }

    /// The cards, in insertion order.
    pub fn values(&self) -> (r: &Vec<Card>)
        ensures
            r@.len() == self.entries_view().len(),
            forall|i: int|
                0 <= i < r@.len() ==> #[trigger] r@[i] == self.entries_view()[i].1 && r@[i].id@
                    == self.entries_view()[i].0,
    {
        &self.items
    }
}

/// The catalog: creatures, series, expansions, and cards.
#[derive(Debug)]
pub struct Database {
    pub pokemon: Vec<Pokemon>,
    pub series: Vec<series::Series>,
    pub sets: Vec<expansion::Expansion>,
    pub cards: Cards,
}

} // verus!
