use holodeck::binder::{to_roman, Binder, Mode, Page, Shelf, Spread, Surface};
use holodeck::card::{Card, Id, Rarity};
use holodeck::collection::{Collection, Name, Variant};
use holodeck::database::{Cards, Database};
use holodeck::expansion;
use holodeck::locale::{Locale, Table};
use holodeck::pokemon::{self, Pokemon};

#[test]
fn grid_dimensions_give_capacity() {
    let b = Binder { columns: 4, rows: 3, pages: 52 };
    assert_eq!(b.cards_per_page(), 12);
    assert_eq!(b.capacity(), 624);
}

#[test]
fn total_pages_fills_front_binders_first() {
    let shelf = Shelf::new();
    // Even an empty collection needs one page.
    assert_eq!(shelf.total_pages(0), Page(1));
    assert_eq!(shelf.total_pages(11), Page(1));
    assert_eq!(shelf.total_pages(12), Page(1));
    assert_eq!(shelf.total_pages(13), Page(1));
    assert_eq!(shelf.total_pages(24), Page(2));
    assert_eq!(shelf.total_pages(623), Page(51));
    // A full first binder (624 cards over 52 pages) opens the second.
    assert_eq!(shelf.total_pages(624), Page(53));
    assert_eq!(shelf.total_pages(636), Page(53));
}

#[test]
fn place_maps_positions_to_pages() {
    let shelf = Shelf::new();
    assert_eq!(shelf.place(0), Page(0));
    assert_eq!(shelf.place(11), Page(0));
    assert_eq!(shelf.place(12), Page(1));
    assert_eq!(shelf.place(623), Page(51));
    // The first position of the second binder starts after 52 pages.
    assert_eq!(shelf.place(624), Page(52));
}

#[test]
fn spread_accounts_for_covers() {
    let shelf = Shelf::new();
    // Page 0 sits on spread (0 + 1 front cover) / 2.
    assert_eq!(shelf.spread(Page(0)), Spread(0));
    assert_eq!(shelf.spread(Page(1)), Spread(1));
    assert_eq!(shelf.spread(Page(2)), Spread(1));
    assert_eq!(shelf.spread(Page(3)), Spread(2));
}

#[test]
fn open_first_spread_shows_cover_and_first_page() {
    let shelf = Shelf::new();
    let pair = shelf.open(Spread(0)).expect("the shelf has a first spread");
    assert_eq!(pair.binder_number, 0);
    assert!(matches!(pair.left, Surface::Cover));
    match pair.right {
        Surface::Content(content) => {
            assert_eq!(content.page, Page(0));
            assert_eq!(content.range, 0..12);
        }
        Surface::Cover => panic!("the right surface of the first spread shows cards"),
    }
}

#[test]
fn open_middle_spread_shows_two_content_pages() {
    let shelf = Shelf::new();
    let pair = shelf.open(Spread(1)).expect("spread one exists");
    match pair.left {
        Surface::Content(content) => {
            assert_eq!(content.page, Page(1));
            assert_eq!(content.range, 12..24);
        }
        Surface::Cover => panic!("spread one has a left page"),
    }
    match pair.right {
        Surface::Content(content) => {
            assert_eq!(content.page, Page(2));
            assert_eq!(content.range, 24..36);
        }
        Surface::Cover => panic!("spread one has a right page"),
    }
}

#[test]
fn open_past_the_last_binder_is_none() {
    let shelf = Shelf::new();
    // Two binders of 52 pages plus covers span a bounded spread range.
    assert!(shelf.open(Spread(1000)).is_none());
    assert_eq!(shelf.len(), 2);
}

#[test]
fn spread_navigation_steps_by_one() {
    assert_eq!(Spread(3).increment(), Spread(4));
    assert_eq!(Spread(4).decrement(), Some(Spread(3)));
    assert_eq!(Spread(0).decrement(), None);
}

#[test]
fn roman_numerals_cover_one_to_ten() {
    assert_eq!(to_roman(1), "I");
    assert_eq!(to_roman(4), "IV");
    assert_eq!(to_roman(8), "VIII");
    assert_eq!(to_roman(9), "IX");
    assert_eq!(to_roman(10), "X");
    assert_eq!(to_roman(11), "#11");
    assert_eq!(to_roman(124), "#124");
}

fn named(name: &str) -> Table {
    let mut t = Table::new();
    t.insert(Locale::new("en".to_string()), name.to_string());
    t
}

#[test]
fn completion_mode_addresses_by_creature() {
    let mut cards = Cards::new();
    cards.insert(Card {
        id: Id::new("a-1".to_string()),
        name: named("a-1"),
        set: expansion::Id::new("base1".to_string()),
        rarity: Rarity::HoloRare,
        pokedex: vec![pokemon::Id(1)],
    });
    let database = Database {
        pokemon: vec![
            Pokemon { id: pokemon::Id(1), name: named("Bulbasaur") },
            Pokemon { id: pokemon::Id(2), name: named("Ivysaur") },
        ],
        series: Vec::new(),
        sets: Vec::new(),
        cards,
    };
    let mode = Mode::GottaCatchEmAll;
    assert_eq!(mode.total_cards(&database), 2);

    let mut collection = Collection::new(Name::parse("mine").unwrap());
    collection.add(Id::new("a-1".to_string()), Variant::Normal);

    // Slot 0 shows the owned card depicting creature 1; slot 1 is empty.
    let shown = mode.card(0, &collection, &database).expect("slot 0 is filled");
    assert_eq!(shown.id.as_str(), "a-1");
    assert!(mode.card(1, &collection, &database).is_none());
    assert!(mode.card(99, &collection, &database).is_none());

    // The card's slot is its first creature's position.
    assert_eq!(mode.position(&Id::new("a-1".to_string()), &database), Some(0));
    assert_eq!(mode.position(&Id::new("ghost-1".to_string()), &database), None);
}
