use holodeck::cache;
use holodeck::cardmarket;
use holodeck::pricing::Pricing;
use holodeck::provider;
use holodeck::tcgplayer;

const DAY: u64 = 60 * 60 * 24;

fn sample_raw() -> provider::Pricing {
    provider::Pricing {
        tcgplayer: tcgplayer::Pricing {
            prices: tcgplayer::Prices {
                normal: Some(tcgplayer::Spread { low: 100, mid: 200, high: 300, market: 250 }),
                holofoil: None,
                reverse_holofoil: Some(
                    tcgplayer::Spread { low: 10, mid: 20, high: 30, market: 25 },
                ),
            },
        },
        cardmarket: cardmarket::Pricing {
            prices: cardmarket::Prices {
                average_sell_price: 150,
                low_price: 90,
                trend_price: 160,
                avg1: 170,
                avg7: 140,
                avg30: 130,
                reverse_holo_sell: 250,
                reverse_holo_low: 200,
                reverse_holo_trend: 260,
                reverse_holo_avg1: 240,
                reverse_holo_avg7: 280,
                reverse_holo_avg30: 230,
            },
        },
        updated_at: 1_700_000_000,
    }
}

#[test]
fn freshness_boundary_is_seven_days() {
    let now = 100 * DAY;
    assert!(cache::is_fresh(now - 6 * DAY, now));
    assert!(!cache::is_fresh(now - 8 * DAY, now));
    // At exactly seven days the record is already stale.
    assert!(!cache::is_fresh(now - 7 * DAY, now));
    assert!(cache::is_fresh(now - 7 * DAY + 1, now));
    // Future timestamps count as fresh.
    assert!(cache::is_fresh(now + DAY, now));
}

#[test]
fn outdated_is_the_negation_of_fresh() {
    let now = 100 * DAY;
    assert!(!cache::is_outdated(now - 6 * DAY, now));
    assert!(cache::is_outdated(now - 8 * DAY, now));
}

#[test]
fn record_round_trips_exactly() {
    let raw = sample_raw();
    let bytes = cache::encode(&raw);
    assert_eq!(bytes.len(), cache::RECORD_LEN);
    let back = cache::decode(&bytes).expect("a fresh record decodes");
    assert_eq!(back, raw);
}

#[test]
fn read_renormalizes_the_stored_payload() {
    let raw = sample_raw();
    let bytes = cache::encode(&raw);
    let read = cache::read(&Some(bytes)).expect("a stored record reads back");
    assert_eq!(read, Pricing::from_raw(raw));
}

#[test]
fn malformed_data_is_a_miss_not_an_error() {
    assert!(cache::read(&None).is_none());
    assert!(cache::read(&Some(Vec::new())).is_none());
    assert!(cache::read(&Some(vec![7u8; 10])).is_none());
    // Right length, invalid presence flags.
    assert!(cache::read(&Some(vec![9u8; cache::RECORD_LEN])).is_none());
    // A truncated record misses too.
    let mut bytes = cache::encode(&sample_raw());
    bytes.pop();
    assert!(cache::read(&Some(bytes)).is_none());
}

#[test]
fn read_fresh_rejects_stale_records() {
    let raw = sample_raw();
    let bytes = cache::encode(&raw);
    let now_fresh = raw.updated_at + DAY;
    let now_stale = raw.updated_at + 8 * DAY;
    assert!(cache::read_fresh(&Some(bytes.clone()), now_fresh).is_some());
    assert!(cache::read_fresh(&Some(bytes), now_stale).is_none());
}
