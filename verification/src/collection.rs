//! A user's collection: a named store of owned cards, keyed by card id,
//! with per-variant copy counts.

use vstd::prelude::*;

use crate::assoc;
use crate::card;
use crate::card::{Card, Rarity};
use crate::database::Database;
use crate::pokemon::Pokemon;
use crate::pokemon;
use crate::rank;

verus! {

/// Clamps a mathematical result into the range of `usize`.
pub open spec fn clamp_usize(x: int) -> int {
    if x > usize::MAX {
        usize::MAX as int
    } else {
        x
    }
}

/// A collection's name: any non-empty string.
#[derive(Debug)]
pub struct Name {
    value: String,
}

impl View for Name {
    type V = Seq<char>;

    closed spec fn view(&self) -> Seq<char> {
        self.value@
    }
}

impl Name {
    /// Accepts any non-empty name and rejects the empty one.
    pub fn parse(name: &str) -> (r: Option<Name>)
        ensures
            name@.len() == 0 <==> r is None,
            r is Some ==> r->Some_0@ == name@,
    {
        if name.is_empty() {
            return None;
        }
        Some(Name { value: name.to_owned() })
    }

    pub fn as_str(&self) -> (r: &str)
        ensures
            r@ == self@,
    {
        self.value.as_str()
    }
}

impl Clone for Name {
    fn clone(&self) -> (r: Self)
        ensures
            r@ == self@,
    {
        Name { value: self.value.clone() }
    }
}

impl PartialEq for Name {
    fn eq(&self, other: &Name) -> bool {
        self.value == other.value
    }
}

impl vstd::std_specs::cmp::PartialEqSpecImpl for Name {
    open spec fn obeys_eq_spec() -> bool {
        true
    }

    open spec fn eq_spec(&self, other: &Name) -> bool {
        self@ == other@
    }
}

/// How many physical copies of a card a collection owns, by print style.
/// Holo copies count under `normal` for pricing purposes.
#[derive(Debug, Clone, Copy, PartialEq, Eq, Structural)]
pub struct Amount {
    pub normal: usize,
    pub reverse: usize,
}

impl Amount {
    /// Total copies owned, saturating at the machine word.
    pub fn total(self) -> (r: usize)
        ensures
            r == clamp_usize(self.normal + self.reverse),
    {
        self.normal.saturating_add(self.reverse)
    }
}

/// A physically distinct print style a copy can be bought in.
#[derive(Debug, Clone, Copy, PartialEq, Eq, Structural)]
pub enum Variant {
    Normal,
    Reverse,
}

/// One more copy of the given variant.
pub open spec fn spec_bump(a: Amount, variant: Variant) -> Amount {
    match variant {
        Variant::Normal => Amount { normal: clamp_usize(a.normal + 1) as usize, reverse: a.reverse },
        Variant::Reverse => Amount { normal: a.normal, reverse: clamp_usize(a.reverse + 1) as usize },
    }
}

/// The first copy of the given variant.
pub open spec fn spec_first(variant: Variant) -> Amount {
    match variant {
        Variant::Normal => Amount { normal: 1, reverse: 0 },
        Variant::Reverse => Amount { normal: 0, reverse: 1 },
    }
}

/// Total copies across a card sequence, saturating at each step.
pub open spec fn spec_total_cards(s: Seq<(Seq<char>, Amount)>) -> int
    decreases s.len(),
{
    if s.len() == 0 {
        0
    } else {
        clamp_usize(
            spec_total_cards(s.drop_last()) + clamp_usize(
                s.last().1.normal + s.last().1.reverse,
            ),
        )
    }
}

/// A named set of owned cards. Card ids are pairwise distinct; cards keep
/// the order they were first added in, which is the enumeration order the
/// refresh scheduler and the showcase ranking see.
#[derive(Debug)]
pub struct Collection {
    pub name: Name,
    cards: Vec<(card::Id, Amount)>,
}

impl Collection {
    /// The collection's name.
    pub closed spec fn spec_name(self) -> Seq<char> {
        self.name@
    }

    /// The owned cards as a sequence of (id, amount) views.
    pub closed spec fn cards_view(self) -> Seq<(Seq<char>, Amount)> {
        Seq::new(self.cards@.len(), |i: int| (self.cards@[i].0@, self.cards@[i].1))
    }

    /// Card ids are pairwise distinct.
    pub open spec fn wf(self) -> bool {
        assoc::unique_keys(self.cards_view())
    }

    /// The copies owned of a card.
    pub open spec fn spec_amount(self, id: Seq<char>) -> Option<Amount> {
        assoc::lookup(self.cards_view(), id)
    }

    /// An empty collection.
    pub fn new(name: Name) -> (r: Self)
        ensures
            r.wf(),
            r.spec_name() == name@,
            r.cards_view() == Seq::<(Seq<char>, Amount)>::empty(),
    {
        let c = Collection { name, cards: Vec::new() };
        proof {
            assert(c.cards_view() =~= Seq::<(Seq<char>, Amount)>::empty());
        }
        c
    }

    /// The owned cards, in the order they were first added.
    pub fn cards(&self) -> (r: &Vec<(card::Id, Amount)>)
        ensures
            r@.len() == self.cards_view().len(),
            forall|i: int|
                0 <= i < r@.len() ==> (#[trigger] r@[i].0)@ == self.cards_view()[i].0 && r@[i].1
                    == self.cards_view()[i].1,
    {
        &self.cards
    }

    /// Adds one copy of a card in the given variant: bumps the card's
    /// count if it is already owned, otherwise appends it.
    pub fn add(&mut self, card: card::Id, variant: Variant)
        requires
            old(self).wf(),
        ensures
            final(self).wf(),
            final(self).spec_name() == old(self).spec_name(),
            old(self).spec_amount(card@) is None ==> final(self).cards_view() == old(
                self,
            ).cards_view().push((card@, spec_first(variant))),
            old(self).spec_amount(card@) matches Some(a) ==> exists|i: int|
                0 <= i < old(self).cards_view().len() && old(self).cards_view()[i].0 == card@
                    && final(self).cards_view() == old(self).cards_view().update(
                    i,
                    (card@, spec_bump(a, variant)),
                ),
    {
        let ghost s = self.cards_view();
        let n = self.cards.len();
        let mut i: usize = 0;
        while i < n
            invariant
                0 <= i <= n,
                n == self.cards@.len(),
                *self == *old(self),
                s == self.cards_view(),
                old(self).wf(),
                forall|j: int| 0 <= j < i ==> s[j].0 != card@,
            decreases n - i,
        {
            if self.cards[i].0.eq(&card) {
                let amount = self.cards[i].1;
                let bumped = match variant {
                    Variant::Normal => Amount {
                        normal: amount.normal.saturating_add(1),
                        reverse: amount.reverse,
                    },
                    Variant::Reverse => Amount {
                        normal: amount.normal,
                        reverse: amount.reverse.saturating_add(1),
                    },
                };
                let previous = self.cards.remove(i);
                self.cards.insert(i, (previous.0, bumped));
                proof {
                    assoc::lemma_lookup_skip(s, card@, i as int);
                    assert(self.cards_view() =~= s.update(
                        i as int,
                        (card@, spec_bump(s[i as int].1, variant)),
                    ));
                    assoc::lemma_lookup_update(s, i as int, spec_bump(s[i as int].1, variant), card@);
                }
                return ;
            }
            i += 1;
        }
        self.cards.push((card, match variant {
            Variant::Normal => Amount { normal: 1, reverse: 0 },
            Variant::Reverse => Amount { normal: 0, reverse: 1 },
        }));
        proof {
            assoc::lemma_lookup_absent(s, card@);
            assert(self.cards_view() =~= s.push((card@, spec_first(variant))));
            assoc::lemma_lookup_push(s, card@, spec_first(variant), card@);
        }
    }

    /// How many distinct cards are owned.
    pub fn unique_cards(&self) -> (r: usize)
        ensures
            r == self.cards_view().len(),
    {
        self.cards.len()
    }

    /// How many physical copies are owned, saturating at the machine word.
    pub fn total_cards(&self) -> (r: usize)
        ensures
            r == spec_total_cards(self.cards_view()),
    {
        let n = self.cards.len();
        let mut total: usize = 0;
        let mut i: usize = 0;
        while i < n
            invariant
                0 <= i <= n,
                n == self.cards@.len(),
                total == spec_total_cards(self.cards_view().take(i as int)),
            decreases n - i,
        {
            let amount = self.cards[i].1;
            total = total.saturating_add(amount.total());
            proof {
                assert(self.cards_view().take(i + 1).drop_last() =~= self.cards_view().take(
                    i as int,
                ));
                assert(self.cards_view().take(i + 1).last() == self.cards_view()[i as int]);
            }
            i += 1;
        }
        proof {
            assert(self.cards_view().take(n as int) =~= self.cards_view());
        }
        total
    }
}

/// The first creature a card of the collection resolves to in the catalog:
/// the card at entry `i`, looked up, and its first catalog entry.
pub open spec fn spec_first_pokemon(
    db: Seq<(Seq<char>, Card)>,
    coll: Seq<(Seq<char>, Amount)>,
    i: int,
) -> Option<pokemon::Id> {
    match assoc::lookup(db, coll[i].0) {
        Some(c) => if c.pokedex@.len() > 0 {
            Some(c.pokedex@[0])
        } else {
            None
        },
        None => None,
    }
}

/// How many distinct creatures the first `n` entries depict.
pub open spec fn spec_total_pokemon(
    db: Seq<(Seq<char>, Card)>,
    coll: Seq<(Seq<char>, Amount)>,
    n: int,
) -> int
    decreases n,
{
    if n <= 0 {
        0
    } else {
        spec_total_pokemon(db, coll, n - 1) + (match spec_first_pokemon(db, coll, n - 1) {
            Some(p) => if exists|j: int| 0 <= j < n - 1 && spec_first_pokemon(db, coll, j) == Some(p) {
                0int
            } else {
                1int
            },
            None => 0int,
        })
    }
}

/// Whether some owned card id resolves in the catalog to exactly this card.
pub open spec fn spec_from_collection(
    db: Seq<(Seq<char>, Card)>,
    coll: Seq<(Seq<char>, Amount)>,
    c: Card,
) -> bool {
    exists|w: int| 0 <= w < coll.len() && assoc::lookup(db, #[trigger] coll[w].0) == Some(c)
}

/// Whether some owned card resolves in the catalog to a card that depicts
/// the creature.
pub open spec fn spec_depicts(
    db: Seq<(Seq<char>, Card)>,
    coll: Seq<(Seq<char>, Amount)>,
    pid: pokemon::Id,
    c: Card,
    n: int,
) -> bool {
    exists|i: int|
        0 <= i < n && assoc::lookup(db, #[trigger] coll[i].0) == Some(c) && c.pokedex@.contains(pid)
}

impl Collection {
    /// How many distinct creatures the collection depicts: owned cards are
    /// resolved in the catalog and their first catalog entries counted
    /// without repetition.
    pub fn total_pokemon(&self, database: &Database) -> (r: usize)
        ensures
            r == spec_total_pokemon(
                database.cards.entries_view(),
                self.cards_view(),
                self.cards_view().len() as int,
            ),
    {
        let ghost dv = database.cards.entries_view();
        let ghost cv = self.cards_view();
        let n = self.cards.len();
        let mut seen: Vec<u32> = Vec::new();
        let mut i: usize = 0;
        while i < n
            invariant
                0 <= i <= n,
                n == cv.len(),
                self.cards@.len() == cv.len(),
                dv == database.cards.entries_view(),
                cv == self.cards_view(),
                forall|j: int|
                    0 <= j < n ==> (#[trigger] self.cards@[j].0)@ == cv[j].0,
                seen@.len() == spec_total_pokemon(dv, cv, i as int),
                forall|p: pokemon::Id|
                    seen@.contains(p.0) <==> exists|j: int|
                        0 <= j < i && spec_first_pokemon(dv, cv, j) == Some(p),
            decreases n - i,
        {
            let found: Option<u32> = match database.cards.get(&self.cards[i].0) {
                Some(c) => {
                    if c.pokedex.len() > 0 {
                        Some(c.pokedex[0].0)
                    } else {
                        None
                    }
                },
                None => None,
            };
            proof {
                assert(found == (match spec_first_pokemon(dv, cv, i as int) {
                    Some(p) => Some(p.0),
                    None => None::<u32>,
                }));
            }
            match found {
                Some(number) => {
                    let mut known = false;
                    let m = seen.len();
                    let mut t: usize = 0;
                    while t < m
                        invariant
                            0 <= t <= m,
                            m == seen@.len(),
                            known <==> exists|u: int| 0 <= u < t && seen@[u] == number,
                        decreases m - t,
                    {
                        if seen[t] == number {
                            known = true;
                        }
                        t += 1;
                    }
                    proof {
                        assert(known <==> seen@.contains(number));
                        assert(seen@.contains(number) <==> exists|j: int|
                            0 <= j < i && spec_first_pokemon(dv, cv, j) == Some(
                                pokemon::Id(number),
                            ));
                    }
                    if !known {
                        let ghost prev = seen@;
                        seen.push(number);
                        proof {
                            assert forall|p: pokemon::Id| seen@.contains(p.0) implies exists|j: int|
                                0 <= j < i + 1 && spec_first_pokemon(dv, cv, j) == Some(p) by {
                                if p.0 == number {
                                    assert(spec_first_pokemon(dv, cv, i as int) == Some(p));
                                } else {
                                    let u = choose|u: int|
                                        0 <= u < seen@.len() && seen@[u] == p.0;
                                    assert(u < prev.len());
                                    assert(prev[u] == p.0);
                                    assert(prev.contains(p.0));
                                }
                            }
                            assert forall|p: pokemon::Id| (exists|j: int|
                                0 <= j < i + 1 && spec_first_pokemon(dv, cv, j) == Some(
                                    p,
                                )) implies seen@.contains(p.0) by {
                                let j = choose|j: int|
                                    0 <= j < i + 1 && spec_first_pokemon(dv, cv, j) == Some(p);
                                if j < i {
                                    assert(prev.contains(p.0));
                                    let u = choose|u: int| 0 <= u < prev.len() && prev[u] == p.0;
                                    assert(seen@[u] == p.0);
                                } else {
                                    assert(p.0 == number);
                                    assert(seen@[prev.len() as int] == p.0);
                                }
                            }
                        }
                    } else {
                        proof {
                            assert forall|p: pokemon::Id| (exists|j: int|
                                0 <= j < i + 1 && spec_first_pokemon(dv, cv, j) == Some(
                                    p,
                                )) implies seen@.contains(p.0) by {
                                let j = choose|j: int|
                                    0 <= j < i + 1 && spec_first_pokemon(dv, cv, j) == Some(p);
                                if j == i {
                                    assert(p.0 == number);
                                }
                            }
                        }
                    }
                },
                None => {},
            }
            i += 1;
        }
        seen.len()
    }

    /// The rarest owned card that depicts the creature, when any does. The
    /// result depicts the creature and no owned card depicting it is rarer.
    #[verifier::loop_isolation(false)]
    pub fn rarest_card_for<'a>(&self, pokemon: &Pokemon, database: &'a Database) -> (r: Option<
        &'a Card,
    >)
        ensures
            ({
                let dv = database.cards.entries_view();
                let cv = self.cards_view();
                let n = cv.len() as int;
                &&& (r matches Some(c) ==> spec_depicts(dv, cv, pokemon.id, *c, n) && forall|
                    d: Card,
                |
                    spec_depicts(dv, cv, pokemon.id, d, n) ==> d.rarity.spec_rank()
                        <= c.rarity.spec_rank())
                &&& (r is None ==> forall|d: Card| !spec_depicts(dv, cv, pokemon.id, d, n))
            }),
    {
        let ghost dv = database.cards.entries_view();
        let ghost cv = self.cards_view();
        let n = self.cards.len();
        let mut best: Option<&'a Card> = None;
        let mut best_rank: u8 = 0;
        let mut i: usize = 0;
        while i < n
            invariant
                0 <= i <= n,
                n == cv.len(),
                self.cards@.len() == cv.len(),
                dv == database.cards.entries_view(),
                cv == self.cards_view(),
                forall|j: int|
                    0 <= j < n ==> (#[trigger] self.cards@[j].0)@ == cv[j].0,
                best matches Some(c) ==> spec_depicts(dv, cv, pokemon.id, *c, n as int)
                    && best_rank == c.rarity.spec_rank(),
                best is None ==> forall|d: Card| !spec_depicts(dv, cv, pokemon.id, d, i as int),
                forall|d: Card|
                    spec_depicts(dv, cv, pokemon.id, d, i as int) ==> d.rarity.spec_rank()
                        <= best_rank,
            decreases n - i,
        {
            let ghost old_rank = best_rank;
            match database.cards.get(&self.cards[i].0) {
                Some(c) => {
                    let mut depicts = false;
                    let m = c.pokedex.len();
                    let mut t: usize = 0;
                    while t < m
                        invariant
                            0 <= t <= m,
                            m == c.pokedex@.len(),
                            depicts <==> exists|u: int| 0 <= u < t && c.pokedex@[u] == pokemon.id,
                        decreases m - t,
                    {
                        if c.pokedex[t].0 == pokemon.id.0 {
                            depicts = true;
                        }
                        t += 1;
                    }
                    proof {
                        assert(depicts <==> c.pokedex@.contains(pokemon.id));
                    }
                    if depicts {
                        proof {
                            assert(spec_depicts(dv, cv, pokemon.id, *c, n as int));
                        }
                        let rank = c.rarity.rank();
                        if best.is_none() || rank > best_rank {
                            best = Some(c);
                            best_rank = rank;
                        }
                        proof {
                            assert forall|d: Card| #![trigger spec_depicts(dv, cv, pokemon.id, d, i + 1)]
                                spec_depicts(dv, cv, pokemon.id, d, i + 1) implies d.rarity
                                .spec_rank() <= best_rank by {
                                let w = choose|w: int|
                                    0 <= w < i + 1 && assoc::lookup(dv, #[trigger] cv[w].0)
                                        == Some(d) && d.pokedex@.contains(pokemon.id);
                                if w < i {
                                    assert(spec_depicts(dv, cv, pokemon.id, d, i as int));
                                    assert(d.rarity.spec_rank() <= old_rank);
                                } else {
                                    assert(d == *c);
                                }
                            }
                        }
                    } else {
                        proof {
                            assert forall|d: Card| #![trigger spec_depicts(dv, cv, pokemon.id, d, i + 1)]
                                spec_depicts(dv, cv, pokemon.id, d, i + 1) implies spec_depicts(
                                dv,
                                cv,
                                pokemon.id,
                                d,
                                i as int,
                            ) by {
                                let w = choose|w: int|
                                    0 <= w < i + 1 && assoc::lookup(dv, #[trigger] cv[w].0)
                                        == Some(d) && d.pokedex@.contains(pokemon.id);
                                if w == i {
                                    assert(d == *c);
                                    assert(false);
                                }
                            }
                        }
                    }
                },
                None => {
                    proof {
                        assert forall|d: Card| #![trigger spec_depicts(dv, cv, pokemon.id, d, i + 1)]
                            spec_depicts(dv, cv, pokemon.id, d, i + 1) implies spec_depicts(
                            dv,
                            cv,
                            pokemon.id,
                            d,
                            i as int,
                        ) by {
                            let w = choose|w: int|
                                0 <= w < i + 1 && assoc::lookup(dv, #[trigger] cv[w].0) == Some(d)
                                    && d.pokedex@.contains(pokemon.id);
                            if w == i {
                                assert(false);
                            }
                        }
                    }
                },
            }
            i += 1;
        }
        best
    }

    /// The owned cards of at least holo rarity, rarest first. Every such
    /// card appears; rarities never increase along the result.
    #[verifier::loop_isolation(false)]
    pub fn rarest_cards<'a>(&self, database: &'a Database) -> (r: Vec<&'a Card>)
        ensures
            ({
                let dv = database.cards.entries_view();
                let cv = self.cards_view();
                &&& forall|m: int|
                    0 <= m < r@.len() ==> (#[trigger] r@[m]).rarity.spec_rank()
                        >= Rarity::HoloRare.spec_rank()
                &&& forall|m: int|
                    0 <= m < r@.len() ==> spec_from_collection(dv, cv, *#[trigger] r@[m])
                &&& forall|i: int, j: int|
                    0 <= i < j < r@.len() ==> (#[trigger] r@[i]).rarity.spec_rank()
                        >= (#[trigger] r@[j]).rarity.spec_rank()
            }),
    {
        let ghost dv = database.cards.entries_view();
        let ghost cv = self.cards_view();
        let n = self.cards.len();
        let mut rares: Vec<&'a Card> = Vec::new();
        let mut i: usize = 0;
        while i < n
            invariant
                0 <= i <= n,
                n == cv.len(),
                self.cards@.len() == cv.len(),
                dv == database.cards.entries_view(),
                cv == self.cards_view(),
                forall|j: int|
                    0 <= j < n ==> (#[trigger] self.cards@[j].0)@ == cv[j].0,
                forall|m: int|
                    0 <= m < rares@.len() ==> (#[trigger] rares@[m]).rarity.spec_rank()
                        >= Rarity::HoloRare.spec_rank(),
                forall|m: int|
                    0 <= m < rares@.len() ==> spec_from_collection(dv, cv, *#[trigger] rares@[m]),
            decreases n - i,
        {
            match database.cards.get(&self.cards[i].0) {
                Some(c) => {
                    if c.rarity.rank() >= Rarity::HoloRare.rank() {
                        rares.push(c);
                        proof {
                            assert(assoc::lookup(dv, cv[i as int].0) == Some(*c));
                            assert(spec_from_collection(dv, cv, *c));
                        }
                    }
                },
                None => {},
            }
            i += 1;
        }
        // Rank by rarity, keeping discovery order among equals.
        let m = rares.len();
        let mut pairs: Vec<(u64, usize)> = Vec::new();
        let mut k: usize = 0;
        while k < m
            invariant
                0 <= k <= m,
                m == rares@.len(),
                pairs@.len() == k,
                forall|t: int|
                    0 <= t < k ==> #[trigger] pairs@[t] == (
                        (rares@[t]).rarity.spec_rank() as u64,
                        t as usize,
                    ),
            decreases m - k,
        {
            pairs.push((c_rank(rares[k]) as u64, k));
            k += 1;
        }
        let sorted = rank::sort_ranked(&pairs);
        let mut out: Vec<&'a Card> = Vec::new();
        let mut s: usize = 0;
        while s < m
            invariant
                0 <= s <= m,
                m == rares@.len(),
                sorted@.len() == m,
                pairs@.len() == m,
                dv == database.cards.entries_view(),
                cv == self.cards_view(),
                forall|t: int|
                    0 <= t < m ==> #[trigger] pairs@[t] == (
                        (rares@[t]).rarity.spec_rank() as u64,
                        t as usize,
                    ),
                forall|a: int, b: int|
                    0 <= a < b < m ==> rank::ranked_before(sorted@[a], sorted@[b]),
                forall|t: int| 0 <= t < m ==> pairs@.contains(#[trigger] sorted@[t]),
                out@.len() == s,
                forall|t: int|
                    0 <= t < s ==> #[trigger] out@[t] == rares@[sorted@[t].1 as int]
                        && sorted@[t].0 == (rares@[sorted@[t].1 as int]).rarity.spec_rank() as u64,
            decreases m - s,
        {
            proof {
                assert(pairs@.contains(sorted@[s as int]));
                let t = choose|t: int| 0 <= t < m && pairs@[t] == sorted@[s as int];
                assert(sorted@[s as int].1 == t as usize);
            }
            let idx = sorted[s].1;
            out.push(rares[idx]);
            s += 1;
        }
        proof {
            assert forall|a: int, b: int| 0 <= a < b < out@.len() implies (#[trigger] out@[a])
                .rarity.spec_rank() >= (#[trigger] out@[b]).rarity.spec_rank() by {
                assert(rank::ranked_before(sorted@[a], sorted@[b]));
            }
            assert forall|w: int| 0 <= w < out@.len() implies (#[trigger] out@[w]).rarity
                .spec_rank() >= Rarity::HoloRare.spec_rank() by {
                assert(out@[w] == rares@[sorted@[w].1 as int]);
            }
            assert forall|w: int| 0 <= w < out@.len() implies spec_from_collection(
                dv,
                cv,
                *#[trigger] out@[w],
            ) by {
                assert(out@[w] == rares@[sorted@[w].1 as int]);
            }
        }
        out
    }
}

/// The rank of a card's rarity.
fn c_rank(c: &Card) -> (r: u8)
    ensures
        r == c.rarity.spec_rank(),
{
    c.rarity.rank()
}

} // verus!
