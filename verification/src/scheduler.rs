//! The background refresh loop as a state machine. The surrounding
//! application performs the outside work each action names — enumerating
//! collections, reading and writing cache records, issuing fetches,
//! sleeping — and hands the result back; every decision about what to do
//! next is made and verified here.
//!
//! States: bootstrapping (load the cache for every owned card), scanning
//! (find stale entries), fetching (work through the stale queue in
//! enumeration order), throttling (pause between batches and between scan
//! cycles). The loop never terminates on its own and recovers locally from
//! every error.

use vstd::prelude::*;

use crate::assoc;
use crate::cache;
use crate::card;
use crate::collection::Collection;
use crate::database::Database;
use crate::money::clamp64;
use crate::prices::Prices;
use crate::pricing::{spec_normalize, Pricing};
use crate::provider;

verus! {

/// Stale cards processed between two throttling pauses.
pub const BATCH_SIZE: u64 = 10;

/// Seconds to wait before retrying a failed enumeration.
pub const RETRY_SECONDS: u64 = 60;

/// Seconds of the brief pause after each batch.
pub const SHORT_SLEEP_SECONDS: u64 = 1;

/// Seconds of the rest between two scan cycles.
pub const LONG_SLEEP_SECONDS: u64 = 30;

/// Where the refresh loop stands.
#[derive(Debug)]
pub enum State {
    /// Loading the pricing cache for every card any collection owns.
    Bootstrapping,
    /// Enumerating collections to find stale entries.
    Scanning,
    /// Working through the stale queue; the front card is being fetched.
    Fetching { queue: Vec<card::Id>, processed: u64 },
    /// Pausing: briefly between batches, longer after a full scan.
    Throttling { queue: Vec<card::Id>, processed: u64 },
}

/// The outside work the loop asks its surroundings to perform next.
#[derive(Debug)]
pub enum Action {
    /// Enumerate collections and read each owned card's cache record.
    LoadCache,
    /// Enumerate collections for a scan.
    Enumerate,
    /// Fetch one card's raw payload from the provider.
    Fetch(card::Id),
    /// Wait before retrying a failed enumeration.
    SleepRetry,
    /// Pause briefly between batches.
    SleepShort,
    /// Rest before the next scan cycle.
    SleepLong,
}

/// What one fetch settled into, retries included.
#[derive(Debug)]
pub enum Outcome {
    /// The provider returned a payload: both currency halves.
    Fetched(crate::tcgplayer::Pricing, crate::cardmarket::Pricing),
    /// The provider cannot price this card, now or ever: no localized name
    /// in the required locale, or no such card.
    Unpriceable,
    /// Transport kept failing after the retries; worth trying next scan.
    Failed,
}

/// The side effects of one processed card.
#[derive(Debug)]
pub struct Effects {
    /// A cache record to persist, best-effort.
    pub write: Option<(card::Id, Vec<u8>)>,
    /// An update event to deliver to the consumer.
    pub emit: Option<(card::Id, Pricing)>,
    /// The next outside work.
    pub action: Action,
}

/// The zero-valued placeholder payload, stamped at the given moment: what
/// gets cached for a permanently unpriceable card.
pub open spec fn spec_placeholder(now: u64) -> provider::Pricing {
    provider::Pricing {
        tcgplayer: crate::tcgplayer::Pricing {
            prices: crate::tcgplayer::Prices {
                normal: None,
                holofoil: None,
                reverse_holofoil: None,
            },
        },
        cardmarket: crate::cardmarket::Pricing { prices: crate::cardmarket::zero_prices() },
        updated_at: now,
    }
}

/// The id views of a queue.
pub open spec fn queue_ids(q: Seq<card::Id>) -> Seq<Seq<char>> {
    Seq::new(q.len(), |i: int| q[i]@)
}

/// What bootstrapping leaves under a key: the re-normalized pricing of the
/// last readable record loaded for that key, if any.
pub open spec fn spec_loaded(
    entries: Seq<(Seq<char>, Option<Seq<u8>>)>,
    k: Seq<char>,
) -> Option<Pricing>
    decreases entries.len(),
{
    if entries.len() == 0 {
        None
    } else if entries.last().0 == k && cache::spec_read(entries.last().1) is Some {
        cache::spec_read(entries.last().1)
    } else {
        spec_loaded(entries.drop_last(), k)
    }
}

/// Whether a card must be fetched: it is in the catalog, and its pricing
/// is absent or stale.
pub open spec fn spec_needs_fetch(
    prices: Seq<(Seq<char>, Pricing)>,
    db: Seq<(Seq<char>, card::Card)>,
    id: Seq<char>,
    now: u64,
) -> bool {
    assoc::contains_key(db, id) && match assoc::lookup(prices, id) {
        Some(p) => !cache::spec_is_fresh(p.updated_at, now),
        None => true,
    }
}

/// The ids a scan queues: the owned ids, in enumeration order, that need a
/// fetch.
pub open spec fn spec_stale(
    prices: Seq<(Seq<char>, Pricing)>,
    db: Seq<(Seq<char>, card::Card)>,
    ids: Seq<Seq<char>>,
    now: u64,
) -> Seq<Seq<char>>
    decreases ids.len(),
{
    if ids.len() == 0 {
        Seq::empty()
    } else {
        spec_stale(prices, db, ids.drop_last(), now) + (if spec_needs_fetch(
            prices,
            db,
            ids.last(),
            now,
        ) {
            seq![ids.last()]
        } else {
            Seq::empty()
        })
    }
}

/// Every owned card id, collection by collection, in enumeration order.
pub open spec fn spec_owned_ids(cols: Seq<Collection>) -> Seq<Seq<char>>
    decreases cols.len(),
{
    if cols.len() == 0 {
        Seq::empty()
    } else {
        spec_owned_ids(cols.drop_last()) + Seq::new(
            cols.last().cards_view().len(),
            |i: int| cols.last().cards_view()[i].0,
        )
    }
}

/// The refresh loop: its state and its working snapshot of prices.
#[derive(Debug)]
pub struct Scheduler {
    pub state: State,
    pub prices: Prices,
}

impl Scheduler {
    /// The store is well-formed, and a fetch in flight has a card to fetch.
    pub open spec fn wf(self) -> bool {
        &&& self.prices.wf()
        &&& match self.state {
            State::Fetching { queue, .. } => queue@.len() > 0,
            _ => true,
        }
    }

    /// A fresh loop: bootstrapping, with no prices yet.
    pub fn new() -> (r: Self)
        ensures
            r.wf(),
            r.state is Bootstrapping,
            r.prices.entries_view() == Seq::<(Seq<char>, Pricing)>::empty(),
    {
        Scheduler { state: State::Bootstrapping, prices: Prices::new() }
    }

    /// The outside work the loop is waiting for in its current state.
    pub fn next_action(&self) -> (r: Action)
        requires
            self.wf(),
        ensures
            self.state is Bootstrapping ==> r is LoadCache,
            self.state is Scanning ==> r is Enumerate,
            self.state matches State::Fetching { queue, .. } ==> (r matches Action::Fetch(id)
                && id@ == queue@[0]@),
            self.state matches State::Throttling { queue, .. } && queue@.len() == 0 ==> r
                is SleepLong,
            self.state matches State::Throttling { queue, .. } && queue@.len() > 0 ==> r
                is SleepShort,
    {
        match &self.state {
            State::Bootstrapping => Action::LoadCache,
            State::Scanning => Action::Enumerate,
            State::Fetching { queue, .. } => Action::Fetch(queue[0].clone()),
            State::Throttling { queue, .. } => {
                if queue.len() == 0 {
                    Action::SleepLong
                } else {
                    Action::SleepShort
                }
            },
        }
    }

    /// Takes the result of loading the cache. A failed enumeration keeps
    /// the loop bootstrapping, to retry after a pause; a successful one
    /// fills the price snapshot with every record that decodes — a record
    /// that fails to load is simply absent, never fatal — and moves on to
    /// scanning.
    pub fn on_bootstrap(&mut self, loads: Option<Vec<(card::Id, Option<Vec<u8>>)>>) -> (r: Action)
        requires
            old(self).wf(),
            old(self).state is Bootstrapping,
        ensures
            final(self).wf(),
            loads is None ==> final(self).state is Bootstrapping && r is SleepRetry
                && final(self).prices == old(self).prices,
            loads matches Some(entries) ==> final(self).state is Scanning && r is Enumerate
                && forall|k: Seq<char>|
                final(self).prices.spec_get(k) == spec_loaded(load_views(entries@), k),
    {
        match loads {
            None => Action::SleepRetry,
            Some(entries) => {
                self.prices = Prices::load(entries);
                self.state = State::Scanning;
                Action::Enumerate
            },
        }
    }

    /// Takes the result of enumerating collections for a scan. A failed
    /// enumeration pauses and rescans; a successful one queues, in
    /// enumeration order, every owned card that is in the catalog and whose
    /// pricing is absent or stale, then starts fetching — or rests long
    /// when nothing is stale.
    pub fn on_scan(&mut self, collections: Option<&Vec<Collection>>, database: &Database, now: u64)
        -> (r: Action)
        requires
            old(self).wf(),
            old(self).state is Scanning,
        ensures
            final(self).wf(),
            final(self).prices == old(self).prices,
            collections is None ==> final(self).state is Scanning && r is SleepRetry,
            collections matches Some(cols) ==> ({
                let stale = spec_stale(
                    old(self).prices.entries_view(),
                    database.cards.entries_view(),
                    spec_owned_ids(cols@),
                    now,
                );
                &&& (stale.len() == 0 ==> (final(self).state matches State::Throttling {
                    queue,
                    processed,
                } && queue@.len() == 0 && processed == 0 && r is SleepLong))
                &&& (stale.len() > 0 ==> (final(self).state matches State::Fetching {
                    queue,
                    processed,
                } && queue_ids(queue@) == stale && processed == 0 && (r matches Action::Fetch(id)
                    && id@ == stale[0])))
            }),
    {
        match collections {
            None => Action::SleepRetry,
            Some(cols) => {
                let owned = owned_ids(cols);
                let queue = stale_ids(&self.prices, database, &owned, now);
                if queue.len() == 0 {
                    self.state = State::Throttling { queue, processed: 0 };
                    Action::SleepLong
                } else {
                    let first = queue[0].clone();
                    self.state = State::Fetching { queue, processed: 0 };
                    Action::Fetch(first)
                }
            },
        }
    }

    /// Takes the settled outcome of fetching the card at the front of the
    /// queue. A payload is cached and entered into the snapshot and an
    /// update event is emitted; a permanently unpriceable card gets a
    /// zero-valued placeholder, cached and emitted all the same, so the
    /// next scans leave it alone; a transport failure changes nothing, so
    /// the card stays stale and is retried next scan. Then the loop moves
    /// to the next card, pausing after every full batch and resting long
    /// when the queue is done.
    pub fn on_fetch(&mut self, outcome: Outcome, now: u64) -> (e: Effects)
        requires
            old(self).wf(),
            old(self).state is Fetching,
        ensures
            final(self).wf(),
            old(self).state matches State::Fetching { queue: q0, processed: p0 } ==> (({
                let id = q0@[0]@;
                let rest = queue_ids(q0@).subrange(1, q0@.len() as int);
                let done = clamp64(p0 + 1);
                // what was written, entered, and emitted
                &&& (outcome matches Outcome::Fetched(tp, cm) ==> ({
                    let raw = provider::Pricing { tcgplayer: tp, cardmarket: cm, updated_at: now };
                    let pricing = spec_normalize(raw);
                    &&& e.write matches Some((wid, bytes)) && wid@ == id && bytes@
                        == cache::spec_encode(raw)
                    &&& e.emit matches Some((eid, p)) && eid@ == id && p == pricing
                    &&& final(self).prices.spec_get(id) == Some(pricing)
                    &&& forall|k: Seq<char>|
                        k != id ==> final(self).prices.spec_get(k) == old(self).prices.spec_get(k)
                }))
                &&& (outcome is Unpriceable ==> ({
                    let raw = spec_placeholder(now);
                    let pricing = spec_normalize(raw);
                    &&& e.write matches Some((wid, bytes)) && wid@ == id && bytes@
                        == cache::spec_encode(raw)
                    &&& e.emit matches Some((eid, p)) && eid@ == id && p == pricing
                    &&& final(self).prices.spec_get(id) == Some(pricing)
                    &&& forall|k: Seq<char>|
                        k != id ==> final(self).prices.spec_get(k) == old(self).prices.spec_get(k)
                }))
                &&& (outcome is Failed ==> e.write is None && e.emit is None && final(self).prices
                    == old(self).prices)
                // where the loop goes next
                &&& (rest.len() == 0 ==> (final(self).state matches State::Throttling {
                    queue,
                    processed,
                } && queue@.len() == 0 && processed == done && e.action is SleepLong))
                &&& (rest.len() > 0 && done % (BATCH_SIZE as int) == 0 ==> (final(self).state
                    matches State::Throttling { queue, processed } && queue_ids(queue@) == rest
                    && processed == done && e.action is SleepShort))
                &&& (rest.len() > 0 && done % (BATCH_SIZE as int) != 0 ==> (final(self).state
                    matches State::Fetching { queue, processed } && queue_ids(queue@) == rest
                    && processed == done && (e.action matches Action::Fetch(id2) && id2@ == rest[0])))
            })),
    {
        let mut taken = State::Bootstrapping;
        core::mem::swap(&mut taken, &mut self.state);
        let (mut queue, processed) = match taken {
            State::Fetching { queue, processed } => (queue, processed),
            _ => (Vec::new(), 0),
        };
        let id = queue.remove(0);
        let (write, emit) = match outcome {
            Outcome::Fetched(tp, cm) => {
                let raw = provider::Pricing { tcgplayer: tp, cardmarket: cm, updated_at: now };
                let bytes = cache::encode(&raw);
                let pricing = Pricing::from_raw(raw);
                self.prices.insert(id.clone(), pricing);
                (Some((id.clone(), bytes)), Some((id, pricing)))
            },
            Outcome::Unpriceable => {
                let raw = provider::Pricing::empty(now);
                let bytes = cache::encode(&raw);
                let pricing = Pricing::from_raw(raw);
                self.prices.insert(id.clone(), pricing);
                (Some((id.clone(), bytes)), Some((id, pricing)))
            },
            Outcome::Failed => (None, None),
        };
        let done = processed.saturating_add(1);
        let action = if queue.len() == 0 {
            self.state = State::Throttling { queue, processed: done };
            Action::SleepLong
        } else if done % BATCH_SIZE == 0 {
            let next = Action::SleepShort;
            self.state = State::Throttling { queue, processed: done };
            next
        } else {
            let next = Action::Fetch(queue[0].clone());
            self.state = State::Fetching { queue, processed: done };
            next
        };
        Effects { write, emit, action }
    }

    /// Wakes from a pause: a retry pause repeats the pending enumeration or
    /// load, a batch pause resumes the queue, and the rest after a full
    /// scan starts the next one.
    pub fn on_sleep(&mut self) -> (r: Action)
        requires
            old(self).wf(),
        ensures
            final(self).wf(),
            final(self).prices == old(self).prices,
            old(self).state is Bootstrapping ==> final(self).state is Bootstrapping && r
                is LoadCache,
            old(self).state is Scanning ==> final(self).state is Scanning && r is Enumerate,
            old(self).state matches State::Fetching { queue, processed } ==> (final(self).state
                == old(self).state && (r matches Action::Fetch(id) && id@ == queue@[0]@)),
            old(self).state matches State::Throttling { queue, processed } ==> ({
                &&& queue@.len() == 0 ==> final(self).state is Scanning && r is Enumerate
                &&& queue@.len() > 0 ==> (final(self).state matches State::Fetching {
                    queue: q2,
                    processed: p2,
                } && q2@ == queue@ && p2 == processed && (r matches Action::Fetch(id) && id@
                    == queue@[0]@))
            }),
    {
        let mut taken = State::Bootstrapping;
        core::mem::swap(&mut taken, &mut self.state);
        match taken {
            State::Bootstrapping => {
                self.state = State::Bootstrapping;
                Action::LoadCache
            },
            State::Scanning => {
                self.state = State::Scanning;
                Action::Enumerate
            },
            State::Fetching { queue, processed } => {
                let next = Action::Fetch(queue[0].clone());
                self.state = State::Fetching { queue, processed };
                next
            },
            State::Throttling { queue, processed } => {
                if queue.len() == 0 {
                    self.state = State::Scanning;
                    Action::Enumerate
                } else {
                    let next = Action::Fetch(queue[0].clone());
                    self.state = State::Fetching { queue, processed };
                    next
                }
            },
        }
    }
}

/// What an on-demand fetch yields once its outcome has settled: the record
/// to cache, best-effort, and the pricing to hand back. A payload is
/// normalized and stamped with the present moment; a permanently
/// unpriceable card yields the zero-valued placeholder; a transport
/// failure yields nothing, which the caller surfaces as "price
/// unavailable".
pub fn settle(outcome: Outcome, now: u64) -> (r: Option<(Vec<u8>, Pricing)>)
    ensures
        outcome matches Outcome::Fetched(tp, cm) ==> ({
            let raw = provider::Pricing { tcgplayer: tp, cardmarket: cm, updated_at: now };
            r matches Some((bytes, p)) && bytes@ == cache::spec_encode(raw) && p == spec_normalize(
                raw,
            )
        }),
        outcome is Unpriceable ==> ({
            let raw = spec_placeholder(now);
            r matches Some((bytes, p)) && bytes@ == cache::spec_encode(raw) && p == spec_normalize(
                raw,
            )
        }),
        outcome is Failed ==> r is None,
{
    match outcome {
        Outcome::Fetched(tp, cm) => {
            let raw = provider::Pricing { tcgplayer: tp, cardmarket: cm, updated_at: now };
            Some((cache::encode(&raw), Pricing::from_raw(raw)))
        },
        Outcome::Unpriceable => {
            let raw = provider::Pricing::empty(now);
            Some((cache::encode(&raw), Pricing::from_raw(raw)))
        },
        Outcome::Failed => None,
    }
}

/// The (id, record) views of loaded cache entries.
pub open spec fn load_views(
    entries: Seq<(card::Id, Option<Vec<u8>>)>,
) -> Seq<(Seq<char>, Option<Seq<u8>>)> {
    Seq::new(
        entries.len(),
        |i: int|
            (
                entries[i].0@,
                match entries[i].1 {
                    Some(b) => Some(b@),
                    None => None,
                },
            ),
    )
}

impl Prices {
    /// Builds the snapshot from per-card cache loads: each readable record
    /// is re-normalized and entered; unreadable or absent ones are skipped.
    pub fn load(entries: Vec<(card::Id, Option<Vec<u8>>)>) -> (r: Prices)
        ensures
            r.wf(),
            forall|k: Seq<char>| r.spec_get(k) == spec_loaded(load_views(entries@), k),
    {
        let ghost ev = load_views(entries@);
        let n = entries.len();
        let mut prices = Prices::new();
        let mut i: usize = 0;
        while i < n
            invariant
                0 <= i <= n,
                n == entries@.len(),
                ev == load_views(entries@),
                prices.wf(),
                forall|k: Seq<char>|
                    prices.spec_get(k) == spec_loaded(#[trigger] ev.take(i as int), k),
            decreases n - i,
        {
            proof {
                assert(ev.take(i + 1).drop_last() =~= ev.take(i as int));
                assert(ev.take(i + 1).last() == ev[i as int]);
            }
            match cache::read(&entries[i].1) {
                Some(pricing) => {
                    prices.insert(entries[i].0.clone(), pricing);
                },
                None => {},
            }
            i += 1;
        }
        proof {
            assert(ev.take(n as int) =~= ev);
        }
        prices
    }
}

/// Every owned card id, collection by collection, in enumeration order.
fn owned_ids(collections: &Vec<Collection>) -> (r: Vec<card::Id>)
    ensures
        queue_ids(r@) == spec_owned_ids(collections@),
{
    let mut out: Vec<card::Id> = Vec::new();
    let n = collections.len();
    let mut i: usize = 0;
    while i < n
        invariant
            0 <= i <= n,
            n == collections@.len(),
            queue_ids(out@) == spec_owned_ids(collections@.take(i as int)),
        decreases n - i,
    {
        let cards = collections[i].cards();
        let m = cards.len();
        let mut j: usize = 0;
        while j < m
            invariant
                0 <= j <= m,
                0 <= i < n,
                n == collections@.len(),
                m == collections@[i as int].cards_view().len(),
                cards@.len() == m,
                forall|t: int|
                    0 <= t < m ==> (#[trigger] cards@[t].0)@ == collections@[i as int].cards_view()[t].0,
                queue_ids(out@) == spec_owned_ids(collections@.take(i as int)) + Seq::new(
                    j as nat,
                    |t: int| collections@[i as int].cards_view()[t].0,
                ),
            decreases m - j,
        {
            let ghost prev = out@;
            let id = cards[j].0.clone();
            proof {
                assert(cards@[j as int].0@ == collections@[i as int].cards_view()[j as int].0);
            }
            out.push(id);
            proof {
                assert(queue_ids(out@) =~= queue_ids(prev).push(
                    collections@[i as int].cards_view()[j as int].0,
                ));
                assert(queue_ids(out@) =~= spec_owned_ids(collections@.take(i as int)) + Seq::new(
                    (j + 1) as nat,
                    |t: int| collections@[i as int].cards_view()[t].0,
                ));
            }
            j += 1;
        }
        proof {
            assert(collections@.take(i + 1).drop_last() =~= collections@.take(i as int));
            assert(collections@.take(i + 1).last() == collections@[i as int]);
            assert(queue_ids(out@) =~= spec_owned_ids(collections@.take(i + 1)));
        }
        i += 1;
    }
    proof {
        assert(collections@.take(n as int) =~= collections@);
    }
    out
}

/// The owned ids that need a fetch, in enumeration order.
fn stale_ids(prices: &Prices, database: &Database, owned: &Vec<card::Id>, now: u64) -> (r: Vec<
    card::Id,
>)
    ensures
        queue_ids(r@) == spec_stale(
            prices.entries_view(),
            database.cards.entries_view(),
            queue_ids(owned@),
            now,
        ),
{
    let ghost pv = prices.entries_view();
    let ghost dv = database.cards.entries_view();
    let ghost ids = queue_ids(owned@);
    let mut out: Vec<card::Id> = Vec::new();
    let n = owned.len();
    let mut i: usize = 0;
    while i < n
        invariant
            0 <= i <= n,
            n == owned@.len(),
            pv == prices.entries_view(),
            dv == database.cards.entries_view(),
            ids == queue_ids(owned@),
            queue_ids(out@) == spec_stale(pv, dv, ids.take(i as int), now),
        decreases n - i,
    {
        proof {
            assert(ids.take(i + 1).drop_last() =~= ids.take(i as int));
            assert(ids.take(i + 1).last() == ids[i as int]);
        }
        let in_catalog = database.cards.contains(&owned[i]);
        let needs = in_catalog && match prices.get(&owned[i]) {
            Some(p) => cache::is_outdated(p.updated_at, now),
            None => true,
        };
        if needs {
            out.push(owned[i].clone());
            proof {
                assert(queue_ids(out@) =~= spec_stale(pv, dv, ids.take(i as int), now) + seq![
                    ids[i as int],
                ]);
            }
        }
        i += 1;
    }
    proof {
        assert(ids.take(n as int) =~= ids);
    }
    out
}

} // verus!
