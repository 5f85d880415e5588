//! The currency-agnostic pricing record and the normalizer that produces
//! it from a raw provider payload. A variant priced in dollars gates the
//! synthesis of its euro spread: the euro side never fabricates a variant
//! the dollar side does not sell.

use vstd::prelude::*;

use crate::cardmarket;
use crate::money::{clamp64, usd_of_eur, eur_of_usd, Dollars, Euros, ExchangeRate, Spread, Variants};
use crate::provider;
use crate::tcgplayer;

verus! {

/// Normalized per-card prices: per-variant spreads in both currencies and
/// the moment they were computed. The unit of caching and of refresh
/// events.
#[derive(Debug, Clone, Copy, PartialEq, Eq)]
pub struct Pricing {
    pub america: Variants<Dollars>,
    pub europe: Variants<Euros>,
    pub updated_at: u64,
}

/// The larger of two spec-level integers.
pub open spec fn spec_max(a: int, b: int) -> int {
    if a > b {
        a
    } else {
        b
    }
}

/// A raw dollar spread carried over field by field; the provider's `mid`
/// is the authoritative average.
pub open spec fn dollar_spread(s: tcgplayer::Spread) -> Spread<Dollars> {
    Spread {
        low: Dollars { cents: s.low },
        high: Dollars { cents: s.high },
        average: Dollars { cents: s.mid },
        market: Dollars { cents: s.market },
    }
}

/// The widest of the euro statistics for the plain printing: the provider
/// reports several time-windowed averages and the widest bounds the spread
/// from above.
pub open spec fn euro_high(p: cardmarket::Prices) -> int {
    spec_max(
        spec_max(spec_max(p.trend_price as int, p.avg1 as int), p.avg7 as int),
        spec_max(p.avg30 as int, p.average_sell_price as int),
    )
}

/// The widest of the euro statistics for the reverse-holo printing.
pub open spec fn euro_reverse_high(p: cardmarket::Prices) -> int {
    spec_max(
        spec_max(spec_max(p.reverse_holo_trend as int, p.reverse_holo_avg1 as int), p.reverse_holo_avg7 as int),
        spec_max(p.reverse_holo_avg30 as int, p.reverse_holo_sell as int),
    )
}

/// The euro spread synthesized for the plain (or holofoil) printing.
pub open spec fn euro_main_spread(p: cardmarket::Prices) -> Spread<Euros> {
    Spread {
        low: Euros { cents: p.low_price },
        high: Euros { cents: euro_high(p) as u64 },
        average: Euros { cents: p.average_sell_price },
        market: Euros { cents: p.trend_price },
    }
}

/// The euro spread synthesized for the reverse-holo printing.
pub open spec fn euro_reverse_spread(p: cardmarket::Prices) -> Spread<Euros> {
    Spread {
        low: Euros { cents: p.reverse_holo_low },
        high: Euros { cents: euro_reverse_high(p) as u64 },
        average: Euros { cents: p.reverse_holo_sell },
        market: Euros { cents: p.reverse_holo_trend },
    }
}

/// What normalization returns for a raw payload: dollar spreads carried
/// over per variant, euro spreads synthesized only for the variants the
/// dollar side prices, and the payload's timestamp kept.
pub open spec fn spec_normalize(raw: provider::Pricing) -> Pricing {
    Pricing {
        america: Variants {
            normal: match raw.tcgplayer.prices.normal {
                Some(s) => Some(dollar_spread(s)),
                None => None,
            },
            reverse: match raw.tcgplayer.prices.reverse_holofoil {
                Some(s) => Some(dollar_spread(s)),
                None => None,
            },
            holofoil: match raw.tcgplayer.prices.holofoil {
                Some(s) => Some(dollar_spread(s)),
                None => None,
            },
        },
        europe: Variants {
            normal: if raw.tcgplayer.prices.normal is Some {
                Some(euro_main_spread(raw.cardmarket.prices))
            } else {
                None
            },
            reverse: if raw.tcgplayer.prices.reverse_holofoil is Some {
                Some(euro_reverse_spread(raw.cardmarket.prices))
            } else {
                None
            },
            holofoil: if raw.tcgplayer.prices.holofoil is Some {
                Some(euro_main_spread(raw.cardmarket.prices))
            } else {
                None
            },
        },
        updated_at: raw.updated_at,
    }
}

/// Law: the currency fallback. When a card's native euro price is zero or
/// absent, its effective euro price is the dollar price converted at the
/// exchange rate; when the native euro price is present and non-zero, it
/// stands untouched. Symmetrically for dollars.
pub proof fn lemma_currency_fallback(p: Pricing, milli: int)
    ensures
        p.europe.spec_normal() == 0 ==> p.spec_normal_euros(milli) == clamp64(
            eur_of_usd(p.america.spec_normal() as int, milli),
        ),
        p.europe.spec_normal() != 0 ==> p.spec_normal_euros(milli) == p.europe.spec_normal(),
        p.america.spec_normal() == 0 ==> p.spec_normal_dollars(milli) == clamp64(
            usd_of_eur(p.europe.spec_normal() as int, milli),
        ),
        p.america.spec_normal() != 0 ==> p.spec_normal_dollars(milli) == p.america.spec_normal(),
{
}

/// The larger of two amounts in cents.
fn max64(a: u64, b: u64) -> (r: u64)
    ensures
        r == spec_max(a as int, b as int),
{
    if a > b {
        a
    } else {
        b
    }
}

impl Pricing {
    /// Normalizes a raw provider payload. Pure: the result is exactly
    /// `spec_normalize(raw)`.
    pub fn from_raw(raw: provider::Pricing) -> (r: Pricing)
        ensures
            r == spec_normalize(raw),
    {
        let tp = raw.tcgplayer.prices;
        let cp = raw.cardmarket.prices;

        let america = Variants {
            normal: match tp.normal {
                Some(s) => Some(
                    Spread {
                        low: Dollars::new(s.low),
                        high: Dollars::new(s.high),
                        average: Dollars::new(s.mid),
                        market: Dollars::new(s.market),
                    },
                ),
                None => None,
            },
            reverse: match tp.reverse_holofoil {
                Some(s) => Some(
                    Spread {
                        low: Dollars::new(s.low),
                        high: Dollars::new(s.high),
                        average: Dollars::new(s.mid),
                        market: Dollars::new(s.market),
                    },
                ),
                None => None,
            },
            holofoil: match tp.holofoil {
                Some(s) => Some(
                    Spread {
                        low: Dollars::new(s.low),
                        high: Dollars::new(s.high),
                        average: Dollars::new(s.mid),
                        market: Dollars::new(s.market),
                    },
                ),
                None => None,
            },
        };

        let main_high = max64(
            max64(max64(cp.trend_price, cp.avg1), cp.avg7),
            max64(cp.avg30, cp.average_sell_price),
        );
        let normal_or_holofoil = Spread {
            low: Euros::new(cp.low_price),
            high: Euros::new(main_high),
            average: Euros::new(cp.average_sell_price),
            market: Euros::new(cp.trend_price),
        };

        let reverse_high = max64(
            max64(max64(cp.reverse_holo_trend, cp.reverse_holo_avg1), cp.reverse_holo_avg7),
            max64(cp.reverse_holo_avg30, cp.reverse_holo_sell),
        );
        let reverse_holofoil = Spread {
            low: Euros::new(cp.reverse_holo_low),
            high: Euros::new(reverse_high),
            average: Euros::new(cp.reverse_holo_sell),
            market: Euros::new(cp.reverse_holo_trend),
        };

        let europe = Variants {
            normal: if tp.normal.is_some() {
                Some(normal_or_holofoil)
            } else {
                None
            },
            reverse: if tp.reverse_holofoil.is_some() {
                Some(reverse_holofoil)
            } else {
                None
            },
            holofoil: if tp.holofoil.is_some() {
                Some(normal_or_holofoil)
            } else {
                None
            },
        };

        Pricing { america, europe, updated_at: raw.updated_at }
    }

    /// Cents of the effective per-copy normal price in dollars: the native
    /// dollar price, or the converted euro price when the native one is
    /// zero or absent.
    pub open spec fn spec_normal_dollars(self, milli: int) -> int {
        let native = self.america.spec_normal() as int;
        if native != 0 {
            native
        } else {
            clamp64(usd_of_eur(self.europe.spec_normal() as int, milli))
        }
    }

    /// Cents of the effective per-copy reverse-holo price in dollars.
    pub open spec fn spec_reverse_dollars(self, milli: int) -> int {
        let native = self.america.spec_reverse() as int;
        if native != 0 {
            native
        } else {
            clamp64(usd_of_eur(self.europe.spec_reverse() as int, milli))
        }
    }

    /// Cents of the effective per-copy normal price in euros: the native
    /// euro price, or the converted dollar price when the native one is
    /// zero or absent.
    pub open spec fn spec_normal_euros(self, milli: int) -> int {
        let native = self.europe.spec_normal() as int;
        if native != 0 {
            native
        } else {
            clamp64(eur_of_usd(self.america.spec_normal() as int, milli))
        }
    }

    /// Cents of the effective per-copy reverse-holo price in euros.
    pub open spec fn spec_reverse_euros(self, milli: int) -> int {
        let native = self.europe.spec_reverse() as int;
        if native != 0 {
            native
        } else {
            clamp64(eur_of_usd(self.america.spec_reverse() as int, milli))
        }
    }

    /// Cents this card contributes to a dollar valuation when `normal` and
    /// `reverse` copies are owned, saturating at `u64::MAX`.
    pub open spec fn spec_value_in_dollars(self, normal: int, reverse: int, milli: int) -> int {
        clamp64(
            clamp64(self.spec_normal_dollars(milli) * normal)
                + clamp64(self.spec_reverse_dollars(milli) * reverse),
        )
    }

    /// Cents this card contributes to a euro valuation.
    pub open spec fn spec_value_in_euros(self, normal: int, reverse: int, milli: int) -> int {
        clamp64(
            clamp64(self.spec_normal_euros(milli) * normal)
                + clamp64(self.spec_reverse_euros(milli) * reverse),
        )
    }

    /// Values the owned copies of this card in dollars: normal copies at
    /// the normal price, reverse copies at the reverse price, each price
    /// falling back to the converted euro price when the native dollar
    /// price is zero or absent.
    pub fn value_in_dollars(self, normal: usize, reverse: usize, rate: ExchangeRate) -> (r: Dollars)
        requires
            rate.wf(),
        ensures
            r.cents == self.spec_value_in_dollars(normal as int, reverse as int, rate.milli() as int),
    {
        let native_normal = self.america.normal();
        let normal_price = if native_normal.cents != 0 {
            native_normal
        } else {
            self.europe.normal().to_dollars(rate)
        };

        let native_reverse = self.america.reverse();
        let reverse_price = if native_reverse.cents != 0 {
            native_reverse
        } else {
            self.europe.reverse().to_dollars(rate)
        };

        normal_price.mul(normal as u64).add(reverse_price.mul(reverse as u64))
    }

    /// Values the owned copies of this card in euros, with the symmetric
    /// fallback to the converted dollar price.
    pub fn value_in_euros(self, normal: usize, reverse: usize, rate: ExchangeRate) -> (r: Euros)
        requires
            rate.wf(),
        ensures
            r.cents == self.spec_value_in_euros(normal as int, reverse as int, rate.milli() as int),
    {
        let native_normal = self.europe.normal();
        let normal_price = if native_normal.cents != 0 {
            native_normal
        } else {
            self.america.normal().to_euros(rate)
        };

        let native_reverse = self.europe.reverse();
        let reverse_price = if native_reverse.cents != 0 {
            native_reverse
        } else {
            self.america.reverse().to_euros(rate)
        };

        normal_price.mul(normal as u64).add(reverse_price.mul(reverse as u64))
    }
}

} // verus!
