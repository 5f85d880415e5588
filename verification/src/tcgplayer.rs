//! Raw price fields reported by the dollar-denominated provider, kept in
//! provider shape. Amounts are whole cents; an absent variant means the
//! provider does not sell that print style of the card.

use vstd::prelude::*;

verus! {

/// One raw dollar-denominated price spread, in cents.
#[derive(Debug, Clone, Copy, PartialEq, Eq, Structural)]
pub struct Spread {
    pub low: u64,
    pub mid: u64,
    pub high: u64,
    pub market: u64,
}

/// Per-variant raw prices. Any subset of the variants may be populated.
#[derive(Debug, Clone, Copy, PartialEq, Eq)]
pub struct Prices {
    pub normal: Option<Spread>,
    pub holofoil: Option<Spread>,
    pub reverse_holofoil: Option<Spread>,
}

/// The dollar-denominated half of a raw pricing payload.
#[derive(Debug, Clone, Copy, PartialEq, Eq)]
pub struct Pricing {
    pub prices: Prices,
}

impl Prices {
    pub fn empty() -> (r: Self)
        ensures
            r.normal is None,
            r.holofoil is None,
            r.reverse_holofoil is None,
    {
        Prices { normal: None, holofoil: None, reverse_holofoil: None }
    }
}

impl Pricing {
    /// A payload with no variant populated, used as the cached placeholder
    /// for cards the provider cannot price.
    pub fn empty() -> (r: Self)
        ensures
            r.prices.normal is None,
            r.prices.holofoil is None,
            r.prices.reverse_holofoil is None,
    {
        Pricing { prices: Prices::empty() }
    }
}

} // verus!
