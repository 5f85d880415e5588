//! Cards as the pricing engine sees them: identifier, localized names, the
//! expansion they belong to, rarity, and the creatures they depict.

use vstd::prelude::*;

use crate::expansion;
use crate::locale;
use crate::pokemon;

verus! {

/// A card identifier, such as "base1-4".
#[derive(Debug)]
pub struct Id {
    code: String,
}

impl View for Id {
    type V = Seq<char>;

    closed spec fn view(&self) -> Seq<char> {
        self.code@
    }
}

impl Id {
    pub fn new(code: String) -> (r: Self)
        ensures
            r@ == code@,
    {
        Id { code }
    }

    pub fn as_str(&self) -> (r: &str)
        ensures
            r@ == self@,
    {
        self.code.as_str()
    }
}

impl Clone for Id {
    fn clone(&self) -> (r: Self)
        ensures
            r@ == self@,
    {
        Id { code: self.code.clone() }
    }
}

impl PartialEq for Id {
    fn eq(&self, other: &Id) -> bool {
        self.code == other.code
    }
}

impl vstd::std_specs::cmp::PartialEqSpecImpl for Id {
    open spec fn obeys_eq_spec() -> bool {
        true
    }

    open spec fn eq_spec(&self, other: &Id) -> bool {
        self@ == other@
    }
}

/// How rare a printing is, in ascending order of rarity.
#[derive(Debug, Clone, Copy, PartialEq, Eq, PartialOrd, Ord, Structural)]
pub enum Rarity {
    Unknown,
    Common,
    Uncommon,
    Rare,
    HoloRare,
    HoloRareLvx,
    HoloRareV,
    HoloRareVmax,
    HoloRareVstar,
    ShinyRare,
    ShinyRareV,
    ShinyRareVmax,
    DoubleRare,
    AceSpecRare,
    AmazingRare,
    RadiantRare,
    RarePrime,
    Legend,
    ClassicCollection,
    UltraRare,
    ShinyUltraRare,
    SecretRare,
    FullArtTrainer,
    IllustrationRare,
    SpecialIllustrationRare,
    HyperRare,
}

impl Rarity {
    /// The rank of this rarity: its position in ascending order. Verified
    /// comparisons go through the rank.
    pub open spec fn spec_rank(self) -> u8 {
        match self {
            Rarity::Unknown => 0,
            Rarity::Common => 1,
            Rarity::Uncommon => 2,
            Rarity::Rare => 3,
            Rarity::HoloRare => 4,
            Rarity::HoloRareLvx => 5,
            Rarity::HoloRareV => 6,
            Rarity::HoloRareVmax => 7,
            Rarity::HoloRareVstar => 8,
            Rarity::ShinyRare => 9,
            Rarity::ShinyRareV => 10,
            Rarity::ShinyRareVmax => 11,
            Rarity::DoubleRare => 12,
            Rarity::AceSpecRare => 13,
            Rarity::AmazingRare => 14,
            Rarity::RadiantRare => 15,
            Rarity::RarePrime => 16,
            Rarity::Legend => 17,
            Rarity::ClassicCollection => 18,
            Rarity::UltraRare => 19,
            Rarity::ShinyUltraRare => 20,
            Rarity::SecretRare => 21,
            Rarity::FullArtTrainer => 22,
            Rarity::IllustrationRare => 23,
            Rarity::SpecialIllustrationRare => 24,
            Rarity::HyperRare => 25,
        }
    }

    pub fn rank(self) -> (r: u8)
        ensures
            r == self.spec_rank(),
    {
        match self {
            Rarity::Unknown => 0,
            Rarity::Common => 1,
            Rarity::Uncommon => 2,
            Rarity::Rare => 3,
            Rarity::HoloRare => 4,
            Rarity::HoloRareLvx => 5,
            Rarity::HoloRareV => 6,
            Rarity::HoloRareVmax => 7,
            Rarity::HoloRareVstar => 8,
            Rarity::ShinyRare => 9,
            Rarity::ShinyRareV => 10,
            Rarity::ShinyRareVmax => 11,
            Rarity::DoubleRare => 12,
            Rarity::AceSpecRare => 13,
            Rarity::AmazingRare => 14,
            Rarity::RadiantRare => 15,
            Rarity::RarePrime => 16,
            Rarity::Legend => 17,
            Rarity::ClassicCollection => 18,
            Rarity::UltraRare => 19,
            Rarity::ShinyUltraRare => 20,
            Rarity::SecretRare => 21,
            Rarity::FullArtTrainer => 22,
            Rarity::IllustrationRare => 23,
            Rarity::SpecialIllustrationRare => 24,
            Rarity::HyperRare => 25,
        }
    }
}

/// A card: what the catalog knows about one printing.
#[derive(Debug)]
pub struct Card {
    pub id: Id,
    pub name: locale::Table,
    pub set: expansion::Id,
    pub rarity: Rarity,
    pub pokedex: Vec<pokemon::Id>,
}

/// The outcome of a card search: the matching cards, in match order.
#[derive(Debug)]
pub struct Search {
    matches: Vec<Card>,
}

impl Search {
    /// The cards the search matched, in match order.
    pub closed spec fn spec_matches(self) -> Seq<Card> {
        self.matches@
    }

    pub fn new(matches: Vec<Card>) -> (r: Self)
        ensures
            r.spec_matches() == matches@,
    {
        Search { matches }
    }

    pub fn matches(&self) -> (r: &Vec<Card>)
        ensures
            r@ == self.spec_matches(),
    {
        &self.matches
    }
}

} // verus!
