use holodeck::cardmarket;
use holodeck::money::{Dollars, Euros, ExchangeRate};
use holodeck::pricing::Pricing;
use holodeck::provider;
use holodeck::tcgplayer;

fn dollar_spread(low: u64, mid: u64, high: u64, market: u64) -> tcgplayer::Spread {
    tcgplayer::Spread { low, mid, high, market }
}

fn euro_prices() -> cardmarket::Prices {
    cardmarket::Prices {
        average_sell_price: 150,
        low_price: 90,
        trend_price: 160,
        avg1: 170,
        avg7: 140,
        avg30: 130,
        reverse_holo_sell: 250,
        reverse_holo_low: 200,
        reverse_holo_trend: 260,
        reverse_holo_avg1: 240,
        reverse_holo_avg7: 280,
        reverse_holo_avg30: 230,
    }
}

fn raw_with_normal() -> provider::Pricing {
    provider::Pricing {
        tcgplayer: tcgplayer::Pricing {
            prices: tcgplayer::Prices {
                normal: Some(dollar_spread(100, 200, 300, 250)),
                holofoil: None,
                reverse_holofoil: None,
            },
        },
        cardmarket: cardmarket::Pricing { prices: euro_prices() },
        updated_at: 777,
    }
}

#[test]
fn normalize_carries_dollar_spreads_over() {
    let p = Pricing::from_raw(raw_with_normal());
    let normal = p.america.normal;
    assert!(normal.is_some());
    let s = normal.unwrap();
    assert_eq!(s.low, Dollars::new(100));
    assert_eq!(s.average, Dollars::new(200));
    assert_eq!(s.high, Dollars::new(300));
    assert_eq!(s.market, Dollars::new(250));
    assert!(p.america.holofoil.is_none());
    assert!(p.america.reverse.is_none());
    assert_eq!(p.updated_at, 777);
}

#[test]
fn normalize_synthesizes_euros_only_for_present_variants() {
    let p = Pricing::from_raw(raw_with_normal());
    // The dollar side sells "normal", so the euro side gets a normal spread.
    let normal = p.europe.normal.unwrap();
    assert_eq!(normal.low, Euros::new(90));
    // The high bound is the widest of the five trend statistics.
    assert_eq!(normal.high, Euros::new(170));
    assert_eq!(normal.average, Euros::new(150));
    assert_eq!(normal.market, Euros::new(160));
    // Variants the dollar side does not sell are never fabricated.
    assert!(p.europe.holofoil.is_none());
    assert!(p.europe.reverse.is_none());
}

#[test]
fn normalize_reverse_uses_reverse_statistics() {
    let mut raw = raw_with_normal();
    raw.tcgplayer.prices.reverse_holofoil = Some(dollar_spread(50, 60, 70, 65));
    let p = Pricing::from_raw(raw);
    let reverse = p.europe.reverse.unwrap();
    assert_eq!(reverse.low, Euros::new(200));
    assert_eq!(reverse.high, Euros::new(280));
    assert_eq!(reverse.average, Euros::new(250));
    assert_eq!(reverse.market, Euros::new(260));
}

#[test]
fn empty_payload_normalizes_to_no_prices() {
    let raw = provider::Pricing::empty(42);
    let p = Pricing::from_raw(raw);
    assert!(p.america.normal.is_none());
    assert!(p.europe.normal.is_none());
    assert_eq!(p.updated_at, 42);
    let rate = ExchangeRate::default();
    assert_eq!(p.value_in_dollars(3, 2, rate), Dollars::zero());
}

#[test]
fn valuation_multiplies_copies_by_prices() {
    let p = Pricing::from_raw(raw_with_normal());
    let rate = ExchangeRate::new(900);
    // 2 normal copies at $2.00 average, no reverse copies.
    assert_eq!(p.value_in_dollars(2, 0, rate), Dollars::new(400));
    // Reverse copies fall back to the canonical price when no reverse
    // variant exists.
    assert_eq!(p.value_in_dollars(0, 1, rate), Dollars::new(200));
}

#[test]
fn currency_fallback_converts_only_absent_sides() {
    let rate = ExchangeRate::new(900);

    // Only the dollar side is populated: euros fall back to conversion.
    let mut raw = raw_with_normal();
    raw.cardmarket = cardmarket::Pricing::empty();
    let p = Pricing::from_raw(raw);
    // $2.00 average at 0.9 is 1.80 euros per copy.
    assert_eq!(p.value_in_euros(1, 0, rate), Euros::new(180));

    // The euro side has a native price: it stands untouched.
    let p2 = Pricing::from_raw(raw_with_normal());
    assert_eq!(p2.value_in_euros(1, 0, rate), Euros::new(150));
}
