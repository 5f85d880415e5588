use holodeck::card::{Card, Id, Rarity};
use holodeck::expansion;
use holodeck::locale::{Locale, Table};
use holodeck::provider::{
    card_number, catalog_id, classify_failure, set_name, should_retry, Error, TRANSPORT_RETRIES,
};

fn named(name: &str) -> Table {
    let mut t = Table::new();
    t.insert(Locale::new("en".to_string()), name.to_string());
    t
}

fn card_in(set: &str, id: &str) -> Card {
    Card {
        id: Id::new(id.to_string()),
        name: named(id),
        set: expansion::Id::new(set.to_string()),
        rarity: Rarity::Common,
        pokedex: Vec::new(),
    }
}

#[test]
fn card_number_takes_the_tail_and_trims_zeros() {
    assert_eq!(card_number(&card_in("base1", "base1-4")), "4");
    assert_eq!(card_number(&card_in("base1", "base1-047")), "47");
    // Without a dash the whole id is the number.
    assert_eq!(card_number(&card_in("base1", "4")), "4");
    // Trainer-gallery numbers keep their letters.
    assert_eq!(card_number(&card_in("swsh12tg", "swsh12tg-TG12")), "TG12");
}

#[test]
fn set_name_passes_plain_sets_through() {
    assert_eq!(set_name(&card_in("base1", "base1-4")), "base1");
    assert_eq!(set_name(&card_in("xy7", "xy7-9")), "xy7");
}

#[test]
fn set_name_strips_leading_zeros_of_the_number() {
    assert_eq!(set_name(&card_in("sm01", "sm01-3")), "sm1");
}

#[test]
fn set_name_writes_half_sets_with_pt_where_the_provider_does() {
    // Sword & Shield 12.5 becomes 12pt5.
    assert_eq!(set_name(&card_in("swsh12.5", "swsh12.5-1")), "swsh12pt5");
    // Scarlet & Violet half-sets use pt too.
    assert_eq!(set_name(&card_in("sv03.5", "sv03.5-7")), "sv3pt5");
    // Other generations drop the dot.
    assert_eq!(set_name(&card_in("xy4.5", "xy4.5-2")), "xy45");
}

#[test]
fn set_name_marks_trainer_galleries() {
    assert_eq!(set_name(&card_in("swsh12", "swsh12-TG05")), "swsh12tg");
}

#[test]
fn catalog_id_joins_set_and_number() {
    assert_eq!(catalog_id(&card_in("base1", "base1-4")), "base1-4");
    assert_eq!(catalog_id(&card_in("sm01", "sm01-012")), "sm1-12");
}

#[test]
fn only_transport_failures_retry_while_retries_remain() {
    assert!(should_retry(Error::TransportFailure, TRANSPORT_RETRIES));
    assert!(should_retry(Error::TransportFailure, 1));
    assert!(!should_retry(Error::TransportFailure, 0));
    assert!(!should_retry(Error::NotFound, TRANSPORT_RETRIES));
    assert!(!should_retry(Error::LocaleUnavailable, TRANSPORT_RETRIES));
}

#[test]
fn http_failures_classify_by_status() {
    assert_eq!(classify_failure(Some(404)), Error::NotFound);
    assert_eq!(classify_failure(Some(500)), Error::TransportFailure);
    assert_eq!(classify_failure(Some(429)), Error::TransportFailure);
    assert_eq!(classify_failure(None), Error::TransportFailure);
}
