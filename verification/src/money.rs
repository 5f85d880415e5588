//! Fixed-point money types: integer cents in two currencies, per-variant
//! price spreads, and the USD -> EUR exchange rate used for fallback
//! conversion. All operations are total; sums and products that would
//! exceed the machine word saturate at the maximum representable amount.

use vstd::prelude::*;

use crate::text::{append_decimal, append_digit, digit_char, spec_decimal};

verus! {

/// Clamps a mathematical result into the range of `u64`.
pub open spec fn clamp64(x: int) -> int {
    if x > u64::MAX { u64::MAX as int } else { x }
}

/// Euro cents obtained from dollar cents at `milli` thousandths of a euro
/// per dollar, rounded half up.
pub open spec fn eur_of_usd(cents: int, milli: int) -> int {
    (cents * milli + 500) / 1000
}

/// Dollar cents obtained from euro cents at `milli` thousandths of a euro
/// per dollar, rounded half up.
pub open spec fn usd_of_eur(cents: int, milli: int) -> int
    recommends
        milli >= 1,
{
    (cents * 1000 + milli / 2) / milli
}

/// USD -> EUR conversion rate, stored as thousandths of a euro per dollar
/// (`1000` is parity). Refreshed on demand by the caller; parity if never
/// fetched.
#[derive(Debug, Clone, Copy)]
pub struct ExchangeRate {
    usd_to_eur_milli: u64,
}

impl ExchangeRate {
    /// Thousandths of a euro bought by one dollar.
    pub closed spec fn milli(self) -> u64 {
        self.usd_to_eur_milli
    }

    /// A rate is usable when it is positive.
    pub open spec fn wf(self) -> bool {
        self.milli() >= 1
    }

    pub fn new(usd_to_eur_milli: u64) -> (r: Self)
        requires
            usd_to_eur_milli >= 1,
        ensures
            r.milli() == usd_to_eur_milli,
            r.wf(),
    {
        ExchangeRate { usd_to_eur_milli }
    }
}

impl Default for ExchangeRate {
    /// The default rate is parity: one dollar buys one euro.
    fn default() -> (r: Self)
        ensures
            r.milli() == 1000,
            r.wf(),
    {
        ExchangeRate { usd_to_eur_milli: 1000 }
    }
}

/// A dollar amount in whole cents. Never negative.
#[derive(Debug, Clone, Copy, PartialEq, Eq, Structural)]
pub struct Dollars {
    pub cents: u64,
}

/// A euro amount in whole cents. Never negative.
#[derive(Debug, Clone, Copy, PartialEq, Eq, Structural)]
pub struct Euros {
    pub cents: u64,
}

impl Dollars {
    pub fn new(cents: u64) -> (r: Self)
        ensures
            r.cents == cents,
    {
        Dollars { cents }
    }

    pub fn zero() -> (r: Self)
        ensures
            r.cents == 0,
    {
        Dollars { cents: 0 }
    }

    /// Saturating addition: the exact sum where it fits in `u64`.
    pub fn add(self, rhs: Self) -> (r: Self)
        ensures
            r.cents == clamp64(self.cents + rhs.cents),
    {
        Dollars { cents: self.cents.saturating_add(rhs.cents) }
    }

    /// Saturating multiplication by an owned-copy count.
    pub fn mul(self, rhs: u64) -> (r: Self)
        ensures
            r.cents == clamp64(self.cents * rhs),
    {
        match self.cents.checked_mul(rhs) {
            Some(cents) => Dollars { cents },
            None => Dollars { cents: u64::MAX },
        }
    }

    /// This amount unless it is zero, in which case the alternative.
    /// A price of exactly zero stands for "absent", not for a real price.
    pub fn or_else<F: FnOnce() -> Dollars>(self, f: F) -> (r: Dollars)
        requires
            self.cents == 0 ==> call_requires(f, ()),
        ensures
            self.cents != 0 ==> r == self,
            self.cents == 0 ==> call_ensures(f, (), r),
    {
        if self.cents == 0 {
            f()
        } else {
            self
        }
    }

    /// Renders the amount with the currency symbol and two cent digits,
    /// as in "$12.40".
    pub fn display(self) -> (r: String)
        ensures
            r@ == seq!['$'] + spec_decimal((self.cents / 100) as int) + seq!['.'] + seq![
                digit_char(((self.cents / 10) % 10) as int),
                digit_char((self.cents % 10) as int),
            ],
    {
        proof {
            reveal_strlit("$");
            reveal_strlit(".");
        }
        let mut out = String::from_str("$");
        append_decimal(&mut out, self.cents / 100);
        out.append(".");
        append_digit(&mut out, (self.cents / 10) % 10);
        append_digit(&mut out, self.cents % 10);
        proof {
            assert(out@ =~= seq!['$'] + spec_decimal((self.cents / 100) as int) + seq!['.'] + seq![
                digit_char(((self.cents / 10) % 10) as int),
                digit_char((self.cents % 10) as int),
            ]);
        }
        out
    }

    /// Converts to euros at the given rate, rounding half up.
    pub fn to_euros(self, rate: ExchangeRate) -> (r: Euros)
        ensures
            r.cents == clamp64(eur_of_usd(self.cents as int, rate.milli() as int)),
    {
        let amount: u128 = self.cents as u128;
        let milli: u128 = rate.usd_to_eur_milli as u128;
        proof {
            assert(amount * milli + 500 < u128::MAX) by (nonlinear_arith)
                requires
                    amount <= u64::MAX,
                    milli <= u64::MAX,
            ;
        }
        let scaled: u128 = (amount * milli + 500) / 1000;
        if scaled > u64::MAX as u128 {
            Euros { cents: u64::MAX }
        } else {
            Euros { cents: scaled as u64 }
        }
    }
}

impl Euros {
    pub fn new(cents: u64) -> (r: Self)
        ensures
            r.cents == cents,
    {
        Euros { cents }
    }

    pub fn zero() -> (r: Self)
        ensures
            r.cents == 0,
    {
        Euros { cents: 0 }
    }

    /// Saturating addition: the exact sum where it fits in `u64`.
    pub fn add(self, rhs: Self) -> (r: Self)
        ensures
            r.cents == clamp64(self.cents + rhs.cents),
    {
        Euros { cents: self.cents.saturating_add(rhs.cents) }
    }

    /// Saturating multiplication by an owned-copy count.
    pub fn mul(self, rhs: u64) -> (r: Self)
        ensures
            r.cents == clamp64(self.cents * rhs),
    {
        match self.cents.checked_mul(rhs) {
            Some(cents) => Euros { cents },
            None => Euros { cents: u64::MAX },
        }
    }

    /// This amount unless it is zero, in which case the alternative.
    pub fn or_else<F: FnOnce() -> Euros>(self, f: F) -> (r: Euros)
        requires
            self.cents == 0 ==> call_requires(f, ()),
        ensures
            self.cents != 0 ==> r == self,
            self.cents == 0 ==> call_ensures(f, (), r),
    {
        if self.cents == 0 {
            f()
        } else {
            self
        }
    }

    /// Renders the amount with two cent digits and the currency symbol,
    /// as in "3.99€".
    pub fn display(self) -> (r: String)
        ensures
            r@ == spec_decimal((self.cents / 100) as int) + seq!['.'] + seq![
                digit_char(((self.cents / 10) % 10) as int),
                digit_char((self.cents % 10) as int),
            ] + "\u{20ac}"@,
    {
        proof {
            reveal_strlit(".");
        }
        let mut out = String::new();
        append_decimal(&mut out, self.cents / 100);
        out.append(".");
        append_digit(&mut out, (self.cents / 10) % 10);
        append_digit(&mut out, self.cents % 10);
        out.append("\u{20ac}");
        proof {
            assert(out@ =~= spec_decimal((self.cents / 100) as int) + seq!['.'] + seq![
                digit_char(((self.cents / 10) % 10) as int),
                digit_char((self.cents % 10) as int),
            ] + "\u{20ac}"@);
        }
        out
    }

    /// Converts to dollars at the given rate, rounding half up.
    pub fn to_dollars(self, rate: ExchangeRate) -> (r: Dollars)
        requires
            rate.wf(),
        ensures
            r.cents == clamp64(usd_of_eur(self.cents as int, rate.milli() as int)),
    {
        let amount: u128 = self.cents as u128;
        let milli: u128 = rate.usd_to_eur_milli as u128;
        proof {
            assert(amount * 1000 + milli / 2 < u128::MAX) by (nonlinear_arith)
                requires
                    amount <= u64::MAX,
                    milli <= u64::MAX,
            ;
        }
        let scaled: u128 = (amount * 1000 + milli / 2) / milli;
        if scaled > u64::MAX as u128 {
            Dollars { cents: u64::MAX }
        } else {
            Dollars { cents: scaled as u64 }
        }
    }
}

/// Four price points for one (card, variant, currency) combination.
/// `average` is the authoritative single price used for valuation and
/// ranking.
#[derive(Debug, Clone, Copy, PartialEq, Eq)]
pub struct Spread<T> {
    pub low: T,
    pub high: T,
    pub average: T,
    pub market: T,
}

/// Optional price spread for each sellable print style of a card. Any
/// subset may be populated; promo cards often carry only `normal`.
#[derive(Debug, Clone, Copy, PartialEq, Eq)]
pub struct Variants<T> {
    pub normal: Option<Spread<T>>,
    pub reverse: Option<Spread<T>>,
    pub holofoil: Option<Spread<T>>,
}

impl<T: Copy> Variants<T> {
    /// The canonical spread: normal preferred, then holofoil, then reverse.
    pub open spec fn spec_spread(self) -> Option<Spread<T>> {
        if self.normal is Some {
            self.normal
        } else if self.holofoil is Some {
            self.holofoil
        } else {
            self.reverse
        }
    }

    pub fn spread(self) -> (r: Option<Spread<T>>)
        ensures
            r == self.spec_spread(),
    {
        if self.normal.is_some() {
            self.normal
        } else if self.holofoil.is_some() {
            self.holofoil
        } else {
            self.reverse
        }
    }
}

impl Variants<Dollars> {
    /// Cents of the canonical average price; zero when no variant has one.
    pub open spec fn spec_normal(self) -> u64 {
        match self.spec_spread() {
            Some(s) => s.average.cents,
            None => 0,
        }
    }

    /// Cents of the reverse-holo average, falling back to the canonical
    /// average; zero when no variant has a price.
    pub open spec fn spec_reverse(self) -> u64 {
        match if self.reverse is Some {
            self.reverse
        } else {
            self.spec_spread()
        } {
            Some(s) => s.average.cents,
            None => 0,
        }
    }

    pub fn normal(self) -> (r: Dollars)
        ensures
            r.cents == self.spec_normal(),
    {
        match self.spread() {
            Some(s) => s.average,
            None => Dollars::zero(),
        }
    }

    pub fn reverse(self) -> (r: Dollars)
        ensures
            r.cents == self.spec_reverse(),
    {
        let chosen = if self.reverse.is_some() {
            self.reverse
        } else {
            self.spread()
        };
        match chosen {
            Some(s) => s.average,
            None => Dollars::zero(),
        }
    }
}

impl Variants<Euros> {
    /// Cents of the canonical average price; zero when no variant has one.
    pub open spec fn spec_normal(self) -> u64 {
        match self.spec_spread() {
            Some(s) => s.average.cents,
            None => 0,
        }
    }

    /// Cents of the reverse-holo average, falling back to the canonical
    /// average; zero when no variant has a price.
    pub open spec fn spec_reverse(self) -> u64 {
        match if self.reverse is Some {
            self.reverse
        } else {
            self.spec_spread()
        } {
            Some(s) => s.average.cents,
            None => 0,
        }
    }

    pub fn normal(self) -> (r: Euros)
        ensures
            r.cents == self.spec_normal(),
    {
        match self.spread() {
            Some(s) => s.average,
            None => Euros::zero(),
        }
    }

    pub fn reverse(self) -> (r: Euros)
        ensures
            r.cents == self.spec_reverse(),
    {
        let chosen = if self.reverse.is_some() {
            self.reverse
        } else {
            self.spread()
        };
        match chosen {
            Some(s) => s.average,
            None => Euros::zero(),
        }
    }
}

/// A collection's worth in both currencies.
#[derive(Debug, Clone, Copy, PartialEq, Eq, Structural)]
pub struct Value {
    pub america: Dollars,
    pub europe: Euros,
}

} // verus!
