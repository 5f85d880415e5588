use holodeck::card::{Card, Id, Rarity};
use holodeck::cardmarket;
use holodeck::collection::{Collection, Name, Variant};
use holodeck::database::{Cards, Database};
use holodeck::expansion;
use holodeck::locale::{Locale, Table};
use holodeck::money::{Dollars, Euros, ExchangeRate};
use holodeck::prices::Prices;
use holodeck::pricing::Pricing;
use holodeck::provider;
use holodeck::tcgplayer;

fn named(name: &str) -> Table {
    let mut t = Table::new();
    t.insert(Locale::new("en".to_string()), name.to_string());
    t
}

fn card(id: &str) -> Card {
    Card {
        id: Id::new(id.to_string()),
        name: named(id),
        set: expansion::Id::new("base1".to_string()),
        rarity: Rarity::Rare,
        pokedex: Vec::new(),
    }
}

fn priced(average_cents: u64) -> Pricing {
    Pricing::from_raw(provider::Pricing {
        tcgplayer: tcgplayer::Pricing {
            prices: tcgplayer::Prices {
                normal: Some(
                    tcgplayer::Spread {
                        low: average_cents / 2,
                        mid: average_cents,
                        high: average_cents * 2,
                        market: average_cents,
                    },
                ),
                holofoil: None,
                reverse_holofoil: None,
            },
        },
        cardmarket: cardmarket::Pricing::empty(),
        updated_at: 0,
    })
}

#[test]
fn map_operations_behave_like_a_keyed_store() {
    let mut prices = Prices::new();
    assert_eq!(prices.len(), 0);
    assert!(!prices.contains(&Id::new("a-1".to_string())));

    assert!(prices.insert(Id::new("a-1".to_string()), priced(100)).is_none());
    assert_eq!(prices.len(), 1);
    assert!(prices.contains(&Id::new("a-1".to_string())));
    assert_eq!(prices.get(&Id::new("a-1".to_string())), Some(priced(100)));

    // Last write wins, and the previous value comes back.
    let previous = prices.insert(Id::new("a-1".to_string()), priced(300));
    assert_eq!(previous, Some(priced(100)));
    assert_eq!(prices.len(), 1);
    assert_eq!(prices.get(&Id::new("a-1".to_string())), Some(priced(300)));
}

#[test]
fn total_value_sums_owned_copies_in_both_currencies() {
    let mut prices = Prices::new();
    prices.insert(Id::new("a-1".to_string()), priced(200));
    prices.insert(Id::new("a-2".to_string()), priced(50));

    let mut collection = Collection::new(Name::parse("mine").unwrap());
    collection.add(Id::new("a-1".to_string()), Variant::Normal);
    collection.add(Id::new("a-1".to_string()), Variant::Normal);
    collection.add(Id::new("a-2".to_string()), Variant::Normal);
    // A card never priced contributes nothing, not an error.
    collection.add(Id::new("unpriced-7".to_string()), Variant::Normal);

    let rate = ExchangeRate::new(900);
    let value = prices.total_value(&collection, rate);
    // 2 x $2.00 + 1 x $0.50.
    assert_eq!(value.america, Dollars::new(450));
    // Euro side falls back through the rate: 2 x 1.80 + 1 x 0.45.
    assert_eq!(value.europe, Euros::new(405));
}

#[test]
fn total_value_of_empty_collection_is_zero() {
    let prices = Prices::new();
    let collection = Collection::new(Name::parse("empty").unwrap());
    let value = prices.total_value(&collection, ExchangeRate::default());
    assert_eq!(value.america, Dollars::zero());
    assert_eq!(value.europe, Euros::zero());
}

#[test]
fn showcase_card_values_at_four_dollars() {
    // Card "base1-4" with an America normal spread of low $1.00, high
    // $3.00, average $2.00, market $2.50, no reverse variant, owned as
    // 2 normal + 0 reverse copies.
    let raw = provider::Pricing {
        tcgplayer: tcgplayer::Pricing {
            prices: tcgplayer::Prices {
                normal: Some(tcgplayer::Spread { low: 100, mid: 200, high: 300, market: 250 }),
                holofoil: None,
                reverse_holofoil: None,
            },
        },
        cardmarket: cardmarket::Pricing::empty(),
        updated_at: 0,
    };
    let pricing = Pricing::from_raw(raw);

    let mut prices = Prices::new();
    prices.insert(Id::new("base1-4".to_string()), pricing);

    let mut collection = Collection::new(Name::parse("mine").unwrap());
    collection.add(Id::new("base1-4".to_string()), Variant::Normal);
    collection.add(Id::new("base1-4".to_string()), Variant::Normal);

    let mut cards = Cards::new();
    cards.insert(card("base1-4"));
    let database = Database { pokemon: Vec::new(), series: Vec::new(), sets: Vec::new(), cards };

    // The collection values at $4.00.
    let value = prices.total_value(&collection, ExchangeRate::default());
    assert_eq!(value.america, Dollars::new(400));

    // And the showcase ranking puts the card first.
    let ranked = prices.most_expensive(&collection, &database);
    assert_eq!(ranked.len(), 1);
    assert_eq!(ranked[0].id.as_str(), "base1-4");
}

#[test]
fn most_expensive_sorts_descending_with_unpriced_last() {
    let mut prices = Prices::new();
    prices.insert(Id::new("a-1".to_string()), priced(100));
    prices.insert(Id::new("a-2".to_string()), priced(900));
    prices.insert(Id::new("a-3".to_string()), priced(500));

    let mut collection = Collection::new(Name::parse("mine").unwrap());
    for id in ["a-1", "a-2", "a-3", "a-4"] {
        collection.add(Id::new(id.to_string()), Variant::Normal);
    }

    let mut cards = Cards::new();
    for id in ["a-1", "a-2", "a-3", "a-4"] {
        cards.insert(card(id));
    }
    let database = Database { pokemon: Vec::new(), series: Vec::new(), sets: Vec::new(), cards };

    let ranked = prices.most_expensive(&collection, &database);
    let ids: Vec<&str> = ranked.iter().map(|c| c.id.as_str()).collect();
    // a-4 was never priced: it ranks as zero and lands last.
    assert_eq!(ids, vec!["a-2", "a-3", "a-1", "a-4"]);
}

#[test]
fn most_expensive_keeps_discovery_order_on_ties() {
    let mut prices = Prices::new();
    prices.insert(Id::new("b-1".to_string()), priced(300));
    prices.insert(Id::new("b-2".to_string()), priced(300));
    prices.insert(Id::new("b-3".to_string()), priced(300));

    let mut collection = Collection::new(Name::parse("mine").unwrap());
    for id in ["b-1", "b-2", "b-3"] {
        collection.add(Id::new(id.to_string()), Variant::Normal);
    }
    let mut cards = Cards::new();
    for id in ["b-1", "b-2", "b-3"] {
        cards.insert(card(id));
    }
    let database = Database { pokemon: Vec::new(), series: Vec::new(), sets: Vec::new(), cards };

    let ranked = prices.most_expensive(&collection, &database);
    let ids: Vec<&str> = ranked.iter().map(|c| c.id.as_str()).collect();
    assert_eq!(ids, vec!["b-1", "b-2", "b-3"]);
}
