//! The live, queryable snapshot of per-card prices: a keyed store of
//! `card id -> Pricing` with aggregate queries over a collection. Created
//! empty or loaded from cache at startup, mutated by the refresh scheduler,
//! dropped with the session.

use vstd::prelude::*;

use crate::assoc;
use crate::card;
use crate::card::Card;
use crate::collection::{Amount, Collection};
use crate::database::Database;
use crate::money::{clamp64, Dollars, Euros, ExchangeRate, Value};
use crate::pricing::Pricing;
use crate::rank;

verus! {

/// Cents a single card contributes to a collection's dollar total: its
/// per-copy prices times the owned copies, or nothing when the card was
/// never priced.
pub open spec fn spec_card_dollars(
    prices: Seq<(Seq<char>, Pricing)>,
    entry: (Seq<char>, Amount),
    milli: int,
) -> int {
    match assoc::lookup(prices, entry.0) {
        Some(p) => p.spec_value_in_dollars(entry.1.normal as int, entry.1.reverse as int, milli),
        None => 0,
    }
}

/// Cents a single card contributes to a collection's euro total.
pub open spec fn spec_card_euros(
    prices: Seq<(Seq<char>, Pricing)>,
    entry: (Seq<char>, Amount),
    milli: int,
) -> int {
    match assoc::lookup(prices, entry.0) {
        Some(p) => p.spec_value_in_euros(entry.1.normal as int, entry.1.reverse as int, milli),
        None => 0,
    }
}

/// The exact dollar total of a card sequence, as an unbounded integer.
pub open spec fn spec_total_dollars(
    prices: Seq<(Seq<char>, Pricing)>,
    cards: Seq<(Seq<char>, Amount)>,
    milli: int,
) -> int
    decreases cards.len(),
{
    if cards.len() == 0 {
        0
    } else {
        spec_total_dollars(prices, cards.drop_last(), milli) + spec_card_dollars(
            prices,
            cards.last(),
            milli,
        )
    }
}

/// The exact euro total of a card sequence, as an unbounded integer.
pub open spec fn spec_total_euros(
    prices: Seq<(Seq<char>, Pricing)>,
    cards: Seq<(Seq<char>, Amount)>,
    milli: int,
) -> int
    decreases cards.len(),
{
    if cards.len() == 0 {
        0
    } else {
        spec_total_euros(prices, cards.drop_last(), milli) + spec_card_euros(
            prices,
            cards.last(),
            milli,
        )
    }
}

/// A per-copy effective price is never negative.
proof fn lemma_price_nonneg(p: Pricing, milli: int)
    requires
        milli >= 1,
    ensures
        0 <= p.spec_normal_dollars(milli) <= u64::MAX,
        0 <= p.spec_reverse_dollars(milli) <= u64::MAX,
        0 <= p.spec_normal_euros(milli) <= u64::MAX,
        0 <= p.spec_reverse_euros(milli) <= u64::MAX,
{
    let en = p.europe.spec_normal() as int;
    let er = p.europe.spec_reverse() as int;
    let an = p.america.spec_normal() as int;
    let ar = p.america.spec_reverse() as int;
    assert((en * 1000 + milli / 2) / milli >= 0 && (er * 1000 + milli / 2) / milli >= 0) by (
    nonlinear_arith)
        requires
            en >= 0,
            er >= 0,
            milli >= 1,
    ;
    assert((an * milli + 500) / 1000 >= 0 && (ar * milli + 500) / 1000 >= 0) by (nonlinear_arith)
        requires
            an >= 0,
            ar >= 0,
            milli >= 1,
    ;
}

/// A card's contribution lies between zero and the largest amount.
proof fn lemma_card_value_bounds(p: Pricing, normal: int, reverse: int, milli: int)
    requires
        normal >= 0,
        reverse >= 0,
        milli >= 1,
    ensures
        0 <= p.spec_value_in_dollars(normal, reverse, milli) <= u64::MAX,
        0 <= p.spec_value_in_euros(normal, reverse, milli) <= u64::MAX,
{
    lemma_price_nonneg(p, milli);
    assert(p.spec_normal_dollars(milli) * normal >= 0) by (nonlinear_arith)
        requires
            p.spec_normal_dollars(milli) >= 0,
            normal >= 0,
    ;
    assert(p.spec_reverse_dollars(milli) * reverse >= 0) by (nonlinear_arith)
        requires
            p.spec_reverse_dollars(milli) >= 0,
            reverse >= 0,
    ;
    assert(p.spec_normal_euros(milli) * normal >= 0) by (nonlinear_arith)
        requires
            p.spec_normal_euros(milli) >= 0,
            normal >= 0,
    ;
    assert(p.spec_reverse_euros(milli) * reverse >= 0) by (nonlinear_arith)
        requires
            p.spec_reverse_euros(milli) >= 0,
            reverse >= 0,
    ;
}

/// Totals are never negative.
proof fn lemma_total_nonneg(
    prices: Seq<(Seq<char>, Pricing)>,
    cards: Seq<(Seq<char>, Amount)>,
    milli: int,
)
    requires
        milli >= 1,
    ensures
        spec_total_dollars(prices, cards, milli) >= 0,
        spec_total_euros(prices, cards, milli) >= 0,
    decreases cards.len(),
{
    if cards.len() > 0 {
        lemma_total_nonneg(prices, cards.drop_last(), milli);
        match assoc::lookup(prices, cards.last().0) {
            Some(p) => {
                lemma_card_value_bounds(
                    p,
                    cards.last().1.normal as int,
                    cards.last().1.reverse as int,
                    milli,
                );
            },
            None => {},
        }
    }
}

/// Law: valuation is additive. Two collections with no card in common
/// value, together, to the sum of their values: the union of disjoint
/// collections is their concatenated card list, and the exact totals add.
pub proof fn lemma_total_value_additive(
    prices: Seq<(Seq<char>, Pricing)>,
    a: Seq<(Seq<char>, Amount)>,
    b: Seq<(Seq<char>, Amount)>,
    milli: int,
)
    requires
        assoc::unique_keys(a),
        assoc::unique_keys(b),
        forall|i: int, j: int|
            0 <= i < a.len() && 0 <= j < b.len() ==> a[i].0 != b[j].0,
    ensures
        assoc::unique_keys(a + b),
        spec_total_dollars(prices, a + b, milli) == spec_total_dollars(prices, a, milli)
            + spec_total_dollars(prices, b, milli),
        spec_total_euros(prices, a + b, milli) == spec_total_euros(prices, a, milli)
            + spec_total_euros(prices, b, milli),
    decreases b.len(),
{
    if b.len() == 0 {
        assert(a + b =~= a);
    } else {
        lemma_total_value_additive(prices, a, b.drop_last(), milli);
        assert((a + b).drop_last() =~= a + b.drop_last());
        assert((a + b).last() == b.last());
    }
}

/// The in-memory keyed store of `card id -> Pricing`, with pairwise
/// distinct ids.
#[derive(Debug)]
pub struct Prices {
    entries: Vec<(card::Id, Pricing)>,
}

impl Prices {
    /// The store as a sequence of (id, pricing) views.
    pub closed spec fn entries_view(self) -> Seq<(Seq<char>, Pricing)> {
        Seq::new(self.entries@.len(), |i: int| (self.entries@[i].0@, self.entries@[i].1))
    }

    /// Ids are pairwise distinct.
    pub open spec fn wf(self) -> bool {
        assoc::unique_keys(self.entries_view())
    }

    /// The pricing stored for a card.
    pub open spec fn spec_get(self, id: Seq<char>) -> Option<Pricing> {
        assoc::lookup(self.entries_view(), id)
    }

    /// An empty store.
    pub fn new() -> (r: Self)
        ensures
            r.wf(),
            r.entries_view() == Seq::<(Seq<char>, Pricing)>::empty(),
    {
        let r = Prices { entries: Vec::new() };
        proof {
            assert(r.entries_view() =~= Seq::<(Seq<char>, Pricing)>::empty());
        }
        r
    }

    /// The pricing stored for a card, if any.
    pub fn get(&self, id: &card::Id) -> (r: Option<Pricing>)
        ensures
            r == self.spec_get(id@),
    {
        let ghost s = self.entries_view();
        let n = self.entries.len();
        let mut i: usize = 0;
        while i < n
            invariant
                0 <= i <= n,
                n == self.entries@.len(),
                s == self.entries_view(),
                forall|j: int| 0 <= j < i ==> s[j].0 != id@,
            decreases n - i,
        {
            if self.entries[i].0.eq(id) {
                proof {
                    assoc::lemma_lookup_skip(s, id@, i as int);
                }
                return Some(self.entries[i].1);
            }
            i += 1;
        }
        proof {
            assoc::lemma_lookup_absent(s, id@);
        }
        None
    }

    /// Whether a card has a stored pricing.
    pub fn contains(&self, id: &card::Id) -> (r: bool)
        ensures
            r == assoc::contains_key(self.entries_view(), id@),
    {
        self.get(id).is_some()
    }

    /// Stores a pricing for a card, returning what the card had before:
    /// last write wins.
    pub fn insert(&mut self, id: card::Id, pricing: Pricing) -> (r: Option<Pricing>)
        requires
            old(self).wf(),
        ensures
            final(self).wf(),
            final(self).spec_get(id@) == Some(pricing),
            forall|k: Seq<char>| k != id@ ==> final(self).spec_get(k) == old(self).spec_get(k),
            r == old(self).spec_get(id@),
    {
        let ghost s = self.entries_view();
        let n = self.entries.len();
        let mut i: usize = 0;
        while i < n
            invariant
                0 <= i <= n,
                n == self.entries@.len(),
                *self == *old(self),
                s == self.entries_view(),
                old(self).wf(),
                forall|j: int| 0 <= j < i ==> s[j].0 != id@,
            decreases n - i,
        {
            if self.entries[i].0.eq(&id) {
                let previous = self.entries.remove(i);
                self.entries.insert(i, (id, pricing));
                proof {
                    assoc::lemma_lookup_skip(s, s[i as int].0, i as int);
                    assert(self.entries_view() =~= s.update(i as int, (s[i as int].0, pricing)));
                    assert forall|k: Seq<char>| k != s[i as int].0 implies assoc::lookup(
                        self.entries_view(),
                        k,
                    ) == assoc::lookup(s, k) by {
                        assoc::lemma_lookup_update(s, i as int, pricing, k);
                    }
                    assoc::lemma_lookup_update(s, i as int, pricing, s[i as int].0);
                }
                return Some(previous.1);
            }
            i += 1;
        }
        self.entries.push((id, pricing));
        proof {
            assoc::lemma_lookup_absent(s, id@);
            assert(self.entries_view() =~= s.push((id@, pricing)));
            assert forall|k: Seq<char>| k != id@ implies assoc::lookup(self.entries_view(), k)
                == assoc::lookup(s, k) by {
                assoc::lemma_lookup_push(s, id@, pricing, k);
            }
            assoc::lemma_lookup_push(s, id@, pricing, id@);
        }
        None
    }

    /// How many cards have a stored pricing.
    pub fn len(&self) -> (r: usize)
        ensures
            r == self.entries_view().len(),
    {
        self.entries.len()
    }

    /// Values a collection in both currencies: normal copies at the normal
    /// price and reverse copies at the reverse price, with the
    /// convert-from-the-other-currency fallback per card, summed over every
    /// owned card. Cards never priced contribute nothing. Each currency
    /// total is the exact sum, saturating at the largest amount.
    pub fn total_value(&self, collection: &Collection, rate: ExchangeRate) -> (r: Value)
        requires
            rate.wf(),
        ensures
            r.america.cents == clamp64(
                spec_total_dollars(
                    self.entries_view(),
                    collection.cards_view(),
                    rate.milli() as int,
                ),
            ),
            r.europe.cents == clamp64(
                spec_total_euros(
                    self.entries_view(),
                    collection.cards_view(),
                    rate.milli() as int,
                ),
            ),
    {
        let ghost pv = self.entries_view();
        let ghost cv = collection.cards_view();
        let ghost milli = rate.milli() as int;
        let items = collection.cards();
        let n = items.len();
        let mut america = Dollars::zero();
        let mut europe = Euros::zero();
        let mut i: usize = 0;
        while i < n
            invariant
                0 <= i <= n,
                rate.wf(),
                milli == rate.milli() as int,
                pv == self.entries_view(),
                n == cv.len(),
                items@.len() == cv.len(),
                forall|j: int|
                    0 <= j < n ==> (#[trigger] items@[j].0)@ == cv[j].0 && items@[j].1 == cv[j].1,
                america.cents == clamp64(spec_total_dollars(pv, cv.take(i as int), milli)),
                europe.cents == clamp64(spec_total_euros(pv, cv.take(i as int), milli)),
            decreases n - i,
        {
            let ghost prefix = cv.take(i as int);
            let ghost next = cv.take(i + 1);
            proof {
                assert(next.drop_last() =~= prefix);
                assert(next.last() == cv[i as int]);
                lemma_total_nonneg(pv, prefix, milli);
                match assoc::lookup(pv, cv[i as int].0) {
                    Some(p) => lemma_card_value_bounds(
                        p,
                        cv[i as int].1.normal as int,
                        cv[i as int].1.reverse as int,
                        milli,
                    ),
                    None => {},
                }
            }
            match self.get(&items[i].0) {
                Some(pricing) => {
                    let amount = items[i].1;
                    america = america.add(
                        pricing.value_in_dollars(amount.normal, amount.reverse, rate),
                    );
                    europe = europe.add(pricing.value_in_euros(amount.normal, amount.reverse, rate));
                },
                None => {},
            }
            i += 1;
        }
        proof {
            assert(cv.take(n as int) =~= cv);
        }
        Value { america, europe }
    }
}

/// The owned cards that the catalog knows, in enumeration (discovery)
/// order: the candidates for a showcase ranking.
pub open spec fn spec_showcase(
    db: Seq<(Seq<char>, Card)>,
    coll: Seq<(Seq<char>, Amount)>,
) -> Seq<Card>
    decreases coll.len(),
{
    if coll.len() == 0 {
        Seq::empty()
    } else {
        spec_showcase(db, coll.drop_last()) + (match assoc::lookup(db, coll.last().0) {
            Some(c) => seq![c],
            None => Seq::empty(),
        })
    }
}

/// The first position a card occupies in a sequence.
pub open spec fn spec_first_index(s: Seq<Card>, c: Card) -> int
    decreases s.len(),
{
    if s.len() == 0 {
        0
    } else if s[0] == c {
        0
    } else {
        1 + spec_first_index(s.subrange(1, s.len() as int), c)
    }
}

/// In a duplicate-free sequence, an element's first position is its own.
proof fn lemma_first_index_at(s: Seq<Card>, t: int)
    requires
        0 <= t < s.len(),
        forall|a: int, b: int| 0 <= a < b < s.len() ==> s[a] != s[b],
    ensures
        spec_first_index(s, s[t]) == t,
    decreases t,
{
    if t > 0 {
        let rest = s.subrange(1, s.len() as int);
        assert(forall|a: int, b: int| 0 <= a < b < rest.len() ==> rest[a] != rest[b]);
        lemma_first_index_at(rest, t - 1);
        assert(rest[t - 1] == s[t]);
    }
}

/// A looked-up card carries the key it was found under, in a store whose
/// pairs are keyed by their card's id.
proof fn lemma_lookup_id(dv: Seq<(Seq<char>, Card)>, k: Seq<char>)
    requires
        forall|i: int| 0 <= i < dv.len() ==> (#[trigger] dv[i]).1.id@ == dv[i].0,
        assoc::lookup(dv, k) is Some,
    ensures
        assoc::lookup(dv, k)->Some_0.id@ == k,
{
    assoc::lemma_lookup_some_index(dv, k);
}

/// A well-formed collection's showcase candidates are pairwise distinct,
/// and each carries one of the owned card ids.
proof fn lemma_showcase_distinct(dv: Seq<(Seq<char>, Card)>, cv: Seq<(Seq<char>, Amount)>)
    requires
        assoc::unique_keys(cv),
        forall|i: int| 0 <= i < dv.len() ==> (#[trigger] dv[i]).1.id@ == dv[i].0,
    ensures
        forall|a: int, b: int|
            0 <= a < b < spec_showcase(dv, cv).len() ==> spec_showcase(dv, cv)[a]
                != spec_showcase(dv, cv)[b],
        forall|a: int|
            0 <= a < spec_showcase(dv, cv).len() ==> exists|t: int|
                0 <= t < cv.len() && (#[trigger] spec_showcase(dv, cv)[a]).id@ == cv[t].0,
    decreases cv.len(),
{
    if cv.len() > 0 {
        let prev = cv.drop_last();
        assert(forall|i: int, j: int| 0 <= i < j < prev.len() ==> prev[i] != prev[j]);
        lemma_showcase_distinct(dv, prev);
        let sc0 = spec_showcase(dv, prev);
        let sc = spec_showcase(dv, cv);
        match assoc::lookup(dv, cv.last().0) {
            Some(c) => {
                lemma_lookup_id(dv, cv.last().0);
                assert(c.id@ == cv.last().0);
                assert(sc == sc0 + seq![c]);
                assert forall|a: int, b: int| 0 <= a < b < sc.len() implies sc[a] != sc[b] by {
                    if b < sc0.len() {
                        assert(sc[a] == sc0[a] && sc[b] == sc0[b]);
                    } else {
                        assert(sc[b] == c);
                        assert(sc[a] == sc0[a]);
                        let t = choose|t: int|
                            0 <= t < prev.len() && (#[trigger] sc0[a]).id@ == prev[t].0;
                        assert(cv[t].0 != cv.last().0);
                        assert(sc[a].id@ != c.id@);
                    }
                }
                assert forall|a: int| 0 <= a < sc.len() implies exists|t: int|
                    0 <= t < cv.len() && (#[trigger] sc[a]).id@ == cv[t].0 by {
                    if a < sc0.len() {
                        assert(sc[a] == sc0[a]);
                        let t = choose|t: int|
                            0 <= t < prev.len() && (#[trigger] sc0[a]).id@ == prev[t].0;
                        assert(sc[a].id@ == cv[t].0);
                    } else {
                        assert(sc[a].id@ == cv[cv.len() - 1].0);
                    }
                }
            },
            None => {
                assert(sc =~= sc0);
            },
        }
    }
}

/// Whether a card value appears somewhere in a ranking.
pub open spec fn spec_appears(r: Seq<&Card>, c: Card) -> bool {
    exists|m: int| 0 <= m < r.len() && *#[trigger] r[m] == c
}

/// The cents a card is ranked by: the canonical dollar average, zero when
/// the card was never priced.
pub open spec fn spec_average_key(prices: Seq<(Seq<char>, Pricing)>, c: Card) -> u64 {
    match assoc::lookup(prices, c.id@) {
        Some(p) => p.america.spec_normal(),
        None => 0,
    }
}

impl Prices {
    /// The owned cards the catalog knows, ordered by descending canonical
    /// dollar average; cards with no price rank as zero and land last.
    /// Every candidate appears exactly once: the result has the candidates'
    /// length, holds only candidates, and its keys never increase. The sort
    /// is stable: equally priced cards keep their discovery order.
    pub fn most_expensive<'a>(&self, collection: &Collection, database: &'a Database) -> (r: Vec<
        &'a Card,
    >)
        requires
            collection.wf(),
        ensures
            ({
                let cands = spec_showcase(database.cards.entries_view(), collection.cards_view());
                &&& r@.len() == cands.len()
                &&& forall|t: int| 0 <= t < cands.len() ==> spec_appears(r@, #[trigger] cands[t])
                &&& forall|m: int| 0 <= m < r@.len() ==> cands.contains(*#[trigger] r@[m])
                &&& forall|i: int, j: int|
                    0 <= i < j < r@.len() ==> spec_average_key(self.entries_view(), *r@[i])
                        >= spec_average_key(self.entries_view(), *r@[j])
                &&& forall|i: int, j: int|
                    0 <= i < j < r@.len() && spec_average_key(self.entries_view(), *r@[i])
                        == spec_average_key(self.entries_view(), *r@[j]) ==> spec_first_index(
                        cands,
                        *r@[i],
                    ) < spec_first_index(cands, *r@[j])
            }),
    {
        let ghost pv = self.entries_view();
        let ghost dv = database.cards.entries_view();
        let ghost cv = collection.cards_view();
        let ghost cands = spec_showcase(dv, cv);

        // Candidates, in discovery order.
        let items = collection.cards();
        let n = items.len();
        let mut cards: Vec<&'a Card> = Vec::new();
        let mut i: usize = 0;
        while i < n
            invariant
                0 <= i <= n,
                n == cv.len(),
                items@.len() == cv.len(),
                dv == database.cards.entries_view(),
                forall|j: int|
                    0 <= j < n ==> (#[trigger] items@[j].0)@ == cv[j].0 && items@[j].1 == cv[j].1,
                cards@.len() == spec_showcase(dv, cv.take(i as int)).len(),
                forall|t: int|
                    0 <= t < cards@.len() ==> *(#[trigger] cards@[t]) == spec_showcase(
                        dv,
                        cv.take(i as int),
                    )[t],
            decreases n - i,
        {
            proof {
                assert(cv.take(i + 1).drop_last() =~= cv.take(i as int));
                assert(cv.take(i + 1).last() == cv[i as int]);
            }
            match database.cards.get(&items[i].0) {
                Some(c) => {
                    cards.push(c);
                },
                None => {},
            }
            i += 1;
        }
        proof {
            assert(cv.take(n as int) =~= cv);
        }

        // Rank keys, tagged with discovery positions.
        let m = cards.len();
        let mut pairs: Vec<(u64, usize)> = Vec::new();
        let mut k: usize = 0;
        while k < m
            invariant
                0 <= k <= m,
                m == cards@.len(),
                pv == self.entries_view(),
                m == cands.len(),
                forall|t: int| 0 <= t < m ==> *(#[trigger] cards@[t]) == cands[t],
                pairs@.len() == k,
                forall|t: int|
                    0 <= t < k ==> #[trigger] pairs@[t] == (spec_average_key(pv, cands[t]), t as usize),
            decreases m - k,
        {
            let key = match self.get(&cards[k].id) {
                Some(p) => p.america.normal().cents,
                None => 0,
            };
            pairs.push((key, k));
            k += 1;
        }

        let sorted = rank::sort_ranked(&pairs);

        // Read the ranking back as cards.
        let mut out: Vec<&'a Card> = Vec::new();
        let mut s: usize = 0;
        while s < m
            invariant
                0 <= s <= m,
                m == cards@.len(),
                m == cands.len(),
                sorted@.len() == m,
                pairs@.len() == m,
                forall|t: int| 0 <= t < m ==> *(#[trigger] cards@[t]) == cands[t],
                forall|t: int|
                    0 <= t < m ==> #[trigger] pairs@[t] == (spec_average_key(pv, cands[t]), t as usize),
                forall|a: int, b: int|
                    0 <= a < b < m ==> rank::ranked_before(sorted@[a], sorted@[b]),
                forall|t: int| 0 <= t < m ==> sorted@.contains(#[trigger] pairs@[t]),
                forall|t: int| 0 <= t < m ==> pairs@.contains(#[trigger] sorted@[t]),
                out@.len() == s,
                forall|t: int|
                    0 <= t < s ==> *(#[trigger] out@[t]) == cands[sorted@[t].1 as int]
                        && sorted@[t].0 == spec_average_key(pv, cands[sorted@[t].1 as int]),
            decreases m - s,
        {
            proof {
                assert(pairs@.contains(sorted@[s as int]));
                let t = choose|t: int| 0 <= t < m && pairs@[t] == sorted@[s as int];
                assert(sorted@[s as int].1 == t as usize);
            }
            let idx = sorted[s].1;
            out.push(cards[idx]);
            s += 1;
        }
        proof {
            assert forall|t: int| 0 <= t < cands.len() implies spec_appears(
                out@,
                #[trigger] cands[t],
            ) by {
                assert(sorted@.contains(pairs@[t]));
                let w = choose|w: int| 0 <= w < m && sorted@[w] == pairs@[t];
                assert(*out@[w] == cands[t]);
            }
            assert forall|w: int| 0 <= w < out@.len() implies cands.contains(
                *#[trigger] out@[w],
            ) by {
                assert(cands[sorted@[w].1 as int] == *out@[w]);
            }
            assert forall|a: int, b: int| 0 <= a < b < out@.len() implies spec_average_key(
                pv,
                *out@[a],
            ) >= spec_average_key(pv, *out@[b]) by {
                assert(rank::ranked_before(sorted@[a], sorted@[b]));
            }
            database.cards.lemma_keyed();
            lemma_showcase_distinct(dv, cv);
            assert forall|a: int, b: int|
                0 <= a < b < out@.len() && spec_average_key(pv, *out@[a]) == spec_average_key(
                    pv,
                    *out@[b],
                ) implies spec_first_index(cands, *out@[a]) < spec_first_index(
                cands,
                *out@[b],
            ) by {
                let ia = sorted@[a].1 as int;
                let ib = sorted@[b].1 as int;
                assert(*out@[a] == cands[ia] && *out@[b] == cands[ib]);
                assert(sorted@[a].0 == spec_average_key(pv, cands[ia]));
                assert(sorted@[b].0 == spec_average_key(pv, cands[ib]));
                assert(rank::ranked_before(sorted@[a], sorted@[b]));
                assert(sorted@[a] != sorted@[b]);
                assert(ia < ib);
                lemma_first_index_at(cands, ia);
                lemma_first_index_at(cands, ib);
            }
        }
        out
    }
}

} // verus!
