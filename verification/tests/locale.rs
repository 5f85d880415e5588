use holodeck::card::{Card, Id, Rarity, Search};
use holodeck::expansion;
use holodeck::locale::{Locale, Table};
use holodeck::pokemon::load_pokemon;

#[test]
fn locale_codes_round_trip() {
    let en = Locale::new("en".to_string());
    assert_eq!(en.as_str(), "en");
    assert_eq!(en, Locale::new("en".to_string()));
    assert_ne!(en, Locale::new("ja".to_string()));
}

#[test]
fn table_stores_one_name_per_locale() {
    let mut t = Table::new();
    assert!(t.insert(Locale::new("en".to_string()), "Charizard".to_string()).is_none());
    assert!(t.insert(Locale::new("fr".to_string()), "Dracaufeu".to_string()).is_none());
    // A second insert for the same locale replaces and returns the old name.
    let old = t.insert(Locale::new("en".to_string()), "Charizard ex".to_string());
    assert_eq!(old, Some("Charizard".to_string()));
    assert_eq!(
        t.get(&Locale::new("en".to_string())),
        Some(&"Charizard ex".to_string()),
    );
    assert!(t.get(&Locale::new("ja".to_string())).is_none());
}

#[test]
fn locale_availability_gates_support() {
    let mut en_only = Table::new();
    en_only.insert(Locale::new("en".to_string()), "Mew".to_string());
    assert!(en_only.has_english());
    assert!(!en_only.has_japanese());
    assert!(en_only.is_supported());

    let mut fr_only = Table::new();
    fr_only.insert(Locale::new("fr".to_string()), "Mew".to_string());
    assert!(!fr_only.has_english());
    assert!(!fr_only.is_supported());
}

#[test]
fn display_name_prefers_english_then_japanese_then_anything() {
    let mut t = Table::new();
    t.insert(Locale::new("fr".to_string()), "Dracaufeu".to_string());
    assert_eq!(t.as_str(), "Dracaufeu");
    t.insert(Locale::new("ja".to_string()), "Lizardon".to_string());
    assert_eq!(t.as_str(), "Lizardon");
    t.insert(Locale::new("en".to_string()), "Charizard".to_string());
    assert_eq!(t.as_str(), "Charizard");
    assert_eq!(Table::new().as_str(), "Unknown");
}

#[test]
fn load_pokemon_numbers_from_one() {
    let list = load_pokemon(vec![
        "Bulbasaur".to_string(),
        "Ivysaur".to_string(),
        "Venusaur".to_string(),
    ]);
    assert_eq!(list.len(), 3);
    assert_eq!(list[0].id.0, 1);
    assert_eq!(list[2].id.0, 3);
    assert_eq!(list[0].name(), "Bulbasaur");
    assert_eq!(list[2].name(), "Venusaur");
}

#[test]
fn search_keeps_matches_in_order() {
    let matches = vec![
        Card {
            id: Id::new("a-1".to_string()),
            name: {
                let mut t = Table::new();
                t.insert(Locale::new("en".to_string()), "Mew".to_string());
                t
            },
            set: expansion::Id::new("base1".to_string()),
            rarity: Rarity::Rare,
            pokedex: Vec::new(),
        },
    ];
    let search = Search::new(matches);
    assert_eq!(search.matches().len(), 1);
    assert_eq!(search.matches()[0].id.as_str(), "a-1");
}
