use holodeck::money::{Dollars, Euros, ExchangeRate};

#[test]
fn dollars_construct_and_compare() {
    assert_eq!(Dollars::new(250), Dollars::new(250));
    assert_ne!(Dollars::new(250), Dollars::new(251));
    assert_eq!(Dollars::zero(), Dollars::new(0));
}

#[test]
fn addition_is_exact_until_saturation() {
    assert_eq!(Dollars::new(100).add(Dollars::new(250)), Dollars::new(350));
    assert_eq!(Dollars::new(u64::MAX).add(Dollars::new(1)), Dollars::new(u64::MAX));
    assert_eq!(Euros::new(100).add(Euros::new(250)), Euros::new(350));
    assert_eq!(Euros::new(u64::MAX).add(Euros::new(5)), Euros::new(u64::MAX));
}

#[test]
fn multiplication_is_exact_until_saturation() {
    assert_eq!(Dollars::new(200).mul(2), Dollars::new(400));
    assert_eq!(Dollars::new(u64::MAX / 2 + 1).mul(2), Dollars::new(u64::MAX));
    assert_eq!(Euros::new(199).mul(3), Euros::new(597));
    assert_eq!(Dollars::new(123).mul(0), Dollars::zero());
}

#[test]
fn or_else_treats_zero_as_absent() {
    assert_eq!(Dollars::new(0).or_else(|| Dollars::new(90)), Dollars::new(90));
    assert_eq!(Dollars::new(70).or_else(|| Dollars::new(90)), Dollars::new(70));
    assert_eq!(Euros::new(0).or_else(|| Euros::new(15)), Euros::new(15));
    assert_eq!(Euros::new(20).or_else(|| Euros::new(15)), Euros::new(20));
}

#[test]
fn conversion_uses_the_rate_and_rounds_half_up() {
    let rate = ExchangeRate::new(900);
    // $2.00 at 0.9 is 1.80 euros.
    assert_eq!(Dollars::new(200).to_euros(rate), Euros::new(180));
    // 1.80 euros back at 0.9 is $2.00.
    assert_eq!(Euros::new(180).to_dollars(rate), Dollars::new(200));
    // 1 cent at 0.9: 0.9 euro cents rounds up to 1.
    assert_eq!(Dollars::new(1).to_euros(rate), Euros::new(1));
}

#[test]
fn default_rate_is_parity() {
    let rate = ExchangeRate::default();
    assert_eq!(Dollars::new(123).to_euros(rate), Euros::new(123));
    assert_eq!(Euros::new(321).to_dollars(rate), Dollars::new(321));
}

#[test]
fn display_renders_two_cent_digits() {
    assert_eq!(Dollars::new(1240).display(), "$12.40");
    assert_eq!(Dollars::new(5).display(), "$0.05");
    assert_eq!(Dollars::new(0).display(), "$0.00");
    assert_eq!(Euros::new(399).display(), "3.99\u{20ac}");
    assert_eq!(Euros::new(100000).display(), "1000.00\u{20ac}");
}
