//! Raw price fields reported by the euro-denominated provider, kept in
//! provider shape. Amounts are whole cents; a field the provider omitted
//! defaults to zero, which the normalizer treats as "absent".

use vstd::prelude::*;

verus! {

/// Raw euro-denominated statistics: several time-windowed averages for the
/// plain printing and for the reverse-holo printing.
#[derive(Debug, Clone, Copy, PartialEq, Eq, Structural)]
pub struct Prices {
    pub average_sell_price: u64,
    pub low_price: u64,
    pub trend_price: u64,
    pub avg1: u64,
    pub avg7: u64,
    pub avg30: u64,
    pub reverse_holo_sell: u64,
    pub reverse_holo_low: u64,
    pub reverse_holo_trend: u64,
    pub reverse_holo_avg1: u64,
    pub reverse_holo_avg7: u64,
    pub reverse_holo_avg30: u64,
}

/// The euro-denominated half of a raw pricing payload.
#[derive(Debug, Clone, Copy, PartialEq, Eq, Structural)]
pub struct Pricing {
    pub prices: Prices,
}

/// The all-zero statistics record.
pub open spec fn zero_prices() -> Prices {
    Prices {
        average_sell_price: 0,
        low_price: 0,
        trend_price: 0,
        avg1: 0,
        avg7: 0,
        avg30: 0,
        reverse_holo_sell: 0,
        reverse_holo_low: 0,
        reverse_holo_trend: 0,
        reverse_holo_avg1: 0,
        reverse_holo_avg7: 0,
        reverse_holo_avg30: 0,
    }
}

impl Prices {
    pub fn empty() -> (r: Self)
        ensures
            r == zero_prices(),
    {
        Prices {
            average_sell_price: 0,
            low_price: 0,
            trend_price: 0,
            avg1: 0,
            avg7: 0,
            avg30: 0,
            reverse_holo_sell: 0,
            reverse_holo_low: 0,
            reverse_holo_trend: 0,
            reverse_holo_avg1: 0,
            reverse_holo_avg7: 0,
            reverse_holo_avg30: 0,
        }
    }
}

impl Pricing {
    /// A payload with every statistic zero.
    pub fn empty() -> (r: Self)
        ensures
            r.prices == zero_prices(),
    {
        Pricing { prices: Prices::empty() }
    }
}

} // verus!
