//! Card expansions: the sets cards are printed in. An expansion's
//! identifier feeds the provider's catalog-number derivation.

use vstd::prelude::*;

use crate::locale;
use crate::series;

verus! {

/// An expansion identifier, such as "base1" or "swsh12pt5".
#[derive(Debug)]
pub struct Id {
    code: String,
}

impl View for Id {
    type V = Seq<char>;

    closed spec fn view(&self) -> Seq<char> {
        self.code@
    }
}

impl Id {
    pub fn new(code: String) -> (r: Self)
        ensures
            r@ == code@,
    {
        Id { code }
    }

    pub fn as_str(&self) -> (r: &str)
        ensures
            r@ == self@,
    {
        self.code.as_str()
    }
}

impl Clone for Id {
    fn clone(&self) -> (r: Self)
        ensures
            r@ == self@,
    {
        Id { code: self.code.clone() }
    }
}

/// An expansion: identifier, localized names, owning series, release date,
/// and how many cards it contains.
#[derive(Debug)]
pub struct Expansion {
    pub id: Id,
    pub name: locale::Table,
    pub series: series::Id,
    pub release_date: String,
    pub total_cards: usize,
}

} // verus!
