use holodeck::card::{Card, Id, Rarity};
use holodeck::collection::{Collection, Name, Variant};
use holodeck::database::{Cards, Database};
use holodeck::expansion;
use holodeck::locale::{Locale, Table};
use holodeck::pokemon::{self, Pokemon};

fn named(name: &str) -> Table {
    let mut t = Table::new();
    t.insert(Locale::new("en".to_string()), name.to_string());
    t
}

fn card_for(id: &str, rarity: Rarity, pokedex: Vec<u32>) -> Card {
    Card {
        id: Id::new(id.to_string()),
        name: named(id),
        set: expansion::Id::new("base1".to_string()),
        rarity,
        pokedex: pokedex.into_iter().map(pokemon::Id).collect(),
    }
}

fn database_of(cards_list: Vec<Card>) -> Database {
    let mut cards = Cards::new();
    for c in cards_list {
        cards.insert(c);
    }
    Database { pokemon: Vec::new(), series: Vec::new(), sets: Vec::new(), cards }
}

#[test]
fn name_rejects_only_the_empty_string() {
    assert!(Name::parse("").is_none());
    let name = Name::parse("Binder One").unwrap();
    assert_eq!(name.as_str(), "Binder One");
}

#[test]
fn adding_copies_tracks_amounts_per_variant() {
    let mut c = Collection::new(Name::parse("mine").unwrap());
    assert_eq!(c.unique_cards(), 0);
    assert_eq!(c.total_cards(), 0);

    c.add(Id::new("a-1".to_string()), Variant::Normal);
    c.add(Id::new("a-1".to_string()), Variant::Normal);
    c.add(Id::new("a-1".to_string()), Variant::Reverse);
    c.add(Id::new("a-2".to_string()), Variant::Reverse);

    assert_eq!(c.unique_cards(), 2);
    assert_eq!(c.total_cards(), 4);

    let cards = c.cards();
    assert_eq!(cards[0].0.as_str(), "a-1");
    assert_eq!(cards[0].1.normal, 2);
    assert_eq!(cards[0].1.reverse, 1);
    assert_eq!(cards[0].1.total(), 3);
    assert_eq!(cards[1].0.as_str(), "a-2");
    assert_eq!(cards[1].1.normal, 0);
    assert_eq!(cards[1].1.reverse, 1);
}

#[test]
fn total_pokemon_counts_distinct_first_entries() {
    let db = database_of(vec![
        card_for("a-1", Rarity::Common, vec![25]),
        card_for("a-2", Rarity::Common, vec![25, 26]),
        card_for("a-3", Rarity::Common, vec![7]),
        card_for("a-4", Rarity::Common, vec![]),
    ]);
    let mut c = Collection::new(Name::parse("mine").unwrap());
    for id in ["a-1", "a-2", "a-3", "a-4", "ghost-1"] {
        c.add(Id::new(id.to_string()), Variant::Normal);
    }
    // a-1 and a-2 both lead with 25; a-3 brings 7; a-4 has no entry;
    // ghost-1 is not in the catalog.
    assert_eq!(c.total_pokemon(&db), 2);
}

#[test]
fn rarest_card_for_picks_the_highest_rarity_depicting_the_creature() {
    let db = database_of(vec![
        card_for("a-1", Rarity::Common, vec![25]),
        card_for("a-2", Rarity::HoloRare, vec![25]),
        card_for("a-3", Rarity::SecretRare, vec![7]),
    ]);
    let mut c = Collection::new(Name::parse("mine").unwrap());
    for id in ["a-1", "a-2", "a-3"] {
        c.add(Id::new(id.to_string()), Variant::Normal);
    }
    let pikachu = Pokemon { id: pokemon::Id(25), name: named("Pikachu") };
    let found = c.rarest_card_for(&pikachu, &db).expect("an owned card depicts it");
    assert_eq!(found.id.as_str(), "a-2");

    let absent = Pokemon { id: pokemon::Id(150), name: named("Mewtwo") };
    assert!(c.rarest_card_for(&absent, &db).is_none());
}

#[test]
fn rarest_cards_filters_below_holo_and_sorts_descending() {
    let db = database_of(vec![
        card_for("a-1", Rarity::Common, vec![]),
        card_for("a-2", Rarity::HoloRare, vec![]),
        card_for("a-3", Rarity::HyperRare, vec![]),
        card_for("a-4", Rarity::UltraRare, vec![]),
    ]);
    let mut c = Collection::new(Name::parse("mine").unwrap());
    for id in ["a-1", "a-2", "a-3", "a-4"] {
        c.add(Id::new(id.to_string()), Variant::Normal);
    }
    let rares = c.rarest_cards(&db);
    let ids: Vec<&str> = rares.iter().map(|card| card.id.as_str()).collect();
    assert_eq!(ids, vec!["a-3", "a-4", "a-2"]);
}
