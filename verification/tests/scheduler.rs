use holodeck::cache;
use holodeck::card::{Card, Id, Rarity};
use holodeck::cardmarket;
use holodeck::collection::{Collection, Name, Variant};
use holodeck::database::{Cards, Database};
use holodeck::expansion;
use holodeck::locale::{Locale, Table};
use holodeck::pricing::Pricing;
use holodeck::provider;
use holodeck::scheduler::{Action, Outcome, Scheduler, State};
use holodeck::tcgplayer;

const DAY: u64 = 60 * 60 * 24;

fn named(name: &str) -> Table {
    let mut t = Table::new();
    t.insert(Locale::new("en".to_string()), name.to_string());
    t
}

fn card(id: &str) -> Card {
    Card {
        id: Id::new(id.to_string()),
        name: named(id),
        set: expansion::Id::new("base1".to_string()),
        rarity: Rarity::Common,
        pokedex: Vec::new(),
    }
}

fn database_with(ids: &[&str]) -> Database {
    let mut cards = Cards::new();
    for id in ids {
        cards.insert(card(id));
    }
    Database { pokemon: Vec::new(), series: Vec::new(), sets: Vec::new(), cards }
}

fn collection_with(ids: &[&str]) -> Collection {
    let mut c = Collection::new(Name::parse("mine").unwrap());
    for id in ids {
        c.add(Id::new(id.to_string()), Variant::Normal);
    }
    c
}

fn payload() -> (tcgplayer::Pricing, cardmarket::Pricing) {
    (
        tcgplayer::Pricing {
            prices: tcgplayer::Prices {
                normal: Some(tcgplayer::Spread { low: 100, mid: 200, high: 300, market: 250 }),
                holofoil: None,
                reverse_holofoil: None,
            },
        },
        cardmarket::Pricing::empty(),
    )
}

#[test]
fn bootstrap_retries_on_enumeration_failure() {
    let mut s = Scheduler::new();
    assert!(matches!(s.next_action(), Action::LoadCache));
    let r = s.on_bootstrap(None);
    assert!(matches!(r, Action::SleepRetry));
    assert!(matches!(s.state, State::Bootstrapping));
    // Waking from the retry pause repeats the load.
    assert!(matches!(s.on_sleep(), Action::LoadCache));
}

#[test]
fn bootstrap_loads_readable_records_and_skips_corrupt_ones() {
    let now = 100 * DAY;
    let (tp, cm) = payload();
    let raw = provider::Pricing { tcgplayer: tp, cardmarket: cm, updated_at: now };
    let good = cache::encode(&raw);
    let mut s = Scheduler::new();
    let r = s.on_bootstrap(Some(vec![
        (Id::new("base1-4".to_string()), Some(good)),
        (Id::new("sm1-1".to_string()), Some(vec![1, 2, 3])),
        (Id::new("xy1-9".to_string()), None),
    ]));
    assert!(matches!(r, Action::Enumerate));
    assert!(matches!(s.state, State::Scanning));
    assert_eq!(s.prices.len(), 1);
    assert_eq!(s.prices.get(&Id::new("base1-4".to_string())), Some(Pricing::from_raw(raw)));
    assert!(s.prices.get(&Id::new("sm1-1".to_string())).is_none());
}

#[test]
fn scan_failure_pauses_and_rescans() {
    let db = database_with(&[]);
    let mut s = Scheduler::new();
    s.on_bootstrap(Some(Vec::new()));
    let r = s.on_scan(None, &db, 0);
    assert!(matches!(r, Action::SleepRetry));
    assert!(matches!(s.state, State::Scanning));
    assert!(matches!(s.on_sleep(), Action::Enumerate));
}

#[test]
fn scan_with_nothing_stale_rests_long() {
    let now = 100 * DAY;
    let ids = ["a-1", "a-2"];
    let db = database_with(&ids);
    let collection = collection_with(&ids);
    let mut s = Scheduler::new();
    // Load both cards fresh from cache.
    let (tp, cm) = payload();
    let raw = provider::Pricing { tcgplayer: tp, cardmarket: cm, updated_at: now - DAY };
    s.on_bootstrap(Some(vec![
        (Id::new("a-1".to_string()), Some(cache::encode(&raw))),
        (Id::new("a-2".to_string()), Some(cache::encode(&raw))),
    ]));
    let r = s.on_scan(Some(&vec![collection]), &db, now);
    assert!(matches!(r, Action::SleepLong));
    // After the rest, the loop scans again.
    assert!(matches!(s.on_sleep(), Action::Enumerate));
}

#[test]
fn scan_skips_cards_missing_from_the_catalog() {
    let db = database_with(&["a-1"]);
    let collection = collection_with(&["a-1", "ghost-9"]);
    let mut s = Scheduler::new();
    s.on_bootstrap(Some(Vec::new()));
    let r = s.on_scan(Some(&vec![collection]), &db, 0);
    match r {
        Action::Fetch(id) => assert_eq!(id.as_str(), "a-1"),
        other => panic!("expected a fetch, got {:?}", other),
    }
    match &s.state {
        State::Fetching { queue, .. } => assert_eq!(queue.len(), 1),
        other => panic!("expected fetching, got {:?}", other),
    }
}

#[test]
fn twelve_stale_cards_take_one_throttling_sleep_after_the_first_ten() {
    let now = 100 * DAY;
    let ids: Vec<String> = (0..12).map(|i| format!("set-{}", i)).collect();
    let id_refs: Vec<&str> = ids.iter().map(|s| s.as_str()).collect();
    let db = database_with(&id_refs);
    let collection = collection_with(&id_refs);

    let mut s = Scheduler::new();
    s.on_bootstrap(Some(Vec::new()));
    let first = s.on_scan(Some(&vec![collection]), &db, now);
    assert!(matches!(first, Action::Fetch(_)));

    let mut short_sleeps = 0;
    let mut fetched = 0;
    let mut action = first;
    loop {
        match action {
            Action::Fetch(_) => {
                let (tp, cm) = payload();
                let effects = s.on_fetch(Outcome::Fetched(tp, cm), now);
                fetched += 1;
                action = effects.action;
            }
            Action::SleepShort => {
                short_sleeps += 1;
                // A short sleep lands exactly after the tenth card.
                assert_eq!(fetched, 10);
                action = s.on_sleep();
            }
            Action::SleepLong => break,
            other => panic!("unexpected action {:?}", other),
        }
    }
    assert_eq!(fetched, 12);
    assert_eq!(short_sleeps, 1);
    assert_eq!(s.prices.len(), 12);
}

#[test]
fn not_found_writes_a_zero_placeholder_and_is_not_refetched() {
    let now = 100 * DAY;
    let db = database_with(&["xy1-999"]);
    let collection = collection_with(&["xy1-999"]);

    let mut s = Scheduler::new();
    s.on_bootstrap(Some(Vec::new()));
    let r = s.on_scan(Some(&vec![collection_with(&["xy1-999"])]), &db, now);
    assert!(matches!(r, Action::Fetch(_)));

    // The provider answers that no such card exists.
    let effects = s.on_fetch(Outcome::Unpriceable, now);
    // The cache is written with a zero-valued pricing stamped now...
    let (id, bytes) = effects.write.expect("a placeholder record is written");
    assert_eq!(id.as_str(), "xy1-999");
    let stored = cache::decode(&bytes).unwrap();
    assert_eq!(stored, provider::Pricing::empty(now));
    // ...and the update event still goes out.
    let (eid, pricing) = effects.emit.expect("an update event is emitted");
    assert_eq!(eid.as_str(), "xy1-999");
    assert!(pricing.america.normal.is_none());
    assert_eq!(pricing.updated_at, now);
    assert!(matches!(effects.action, Action::SleepLong));

    // A scan within seven days does not queue the card again.
    s.on_sleep();
    let r2 = s.on_scan(Some(&vec![collection]), &db, now + 6 * DAY);
    assert!(matches!(r2, Action::SleepLong));
}

#[test]
fn transport_failure_skips_the_card_so_it_stays_stale() {
    let now = 100 * DAY;
    let db = database_with(&["a-1"]);

    let mut s = Scheduler::new();
    s.on_bootstrap(Some(Vec::new()));
    s.on_scan(Some(&vec![collection_with(&["a-1"])]), &db, now);
    let effects = s.on_fetch(Outcome::Failed, now);
    assert!(effects.write.is_none());
    assert!(effects.emit.is_none());
    assert_eq!(s.prices.len(), 0);

    // The card is queued again on the next scan.
    s.on_sleep();
    let r = s.on_scan(Some(&vec![collection_with(&["a-1"])]), &db, now);
    assert!(matches!(r, Action::Fetch(_)));
}

#[test]
fn corrupt_cache_record_is_treated_as_stale_and_refetched() {
    let now = 100 * DAY;
    let db = database_with(&["sm1-1"]);

    let mut s = Scheduler::new();
    // The cache record for the card is malformed: the load misses...
    s.on_bootstrap(Some(vec![(Id::new("sm1-1".to_string()), Some(vec![0xFF; 7]))]));
    assert_eq!(s.prices.len(), 0);
    // ...so the next scan queues the card for a refetch.
    let r = s.on_scan(Some(&vec![collection_with(&["sm1-1"])]), &db, now);
    match r {
        Action::Fetch(id) => assert_eq!(id.as_str(), "sm1-1"),
        other => panic!("expected a fetch, got {:?}", other),
    }
}

#[test]
fn settle_produces_record_and_pricing_or_nothing() {
    let now = 55_000;
    let (tp, cm) = payload();
    let raw = provider::Pricing { tcgplayer: tp, cardmarket: cm, updated_at: now };
    let (bytes, pricing) = holodeck::scheduler::settle(Outcome::Fetched(tp, cm), now).unwrap();
    assert_eq!(cache::decode(&bytes).unwrap(), raw);
    assert_eq!(pricing, Pricing::from_raw(raw));

    let (bytes2, pricing2) = holodeck::scheduler::settle(Outcome::Unpriceable, now).unwrap();
    assert_eq!(cache::decode(&bytes2).unwrap(), provider::Pricing::empty(now));
    assert!(pricing2.america.normal.is_none());

    assert!(holodeck::scheduler::settle(Outcome::Failed, now).is_none());
}
