//! Binder-page geometry: a shelf of binders, each a grid of card slots
//! over a number of pages, and the pure addressing that maps cards to
//! pages, pages to spreads, and an open spread to its two visible
//! surfaces. Stateless: every function is a total map over its inputs.

use vstd::prelude::*;

use crate::collection::Collection;
use crate::database::Database;
use crate::card::Card;
use crate::card;
use crate::text::{append_decimal, spec_decimal};

verus! {

/// One physical binder: a grid of slots per page, over so many pages.
#[derive(Debug, Clone, Copy, PartialEq, Eq, Structural)]
pub struct Binder {
    pub columns: usize,
    pub rows: usize,
    pub pages: usize,
}

/// Bounds under which every page computation fits comfortably in a
/// machine word.
pub open spec fn binder_wf(b: Binder) -> bool {
    &&& 1 <= b.columns * b.rows <= 4096
    &&& b.pages <= 4096
}

impl Binder {
    /// How many cards one page holds.
    pub fn cards_per_page(self) -> (r: usize)
        requires
            self.columns * self.rows <= usize::MAX,
        ensures
            r == self.columns * self.rows,
    {
        self.columns * self.rows
    }

    /// How many cards the whole binder holds.
    pub fn capacity(self) -> (r: usize)
        requires
            self.columns * self.rows <= usize::MAX,
            self.columns * self.rows * self.pages <= usize::MAX,
    ensures
            r == self.columns * self.rows * self.pages,
    {
        proof {
            assert((self.columns * self.rows) * self.pages == self.columns * self.rows
                * self.pages) by (nonlinear_arith);
        }
        self.cards_per_page() * self.pages
    }
}

/// A page number, starting at zero.
#[derive(Debug, Clone, Copy, PartialEq, Eq, PartialOrd, Ord, Structural)]
pub struct Page(pub usize);

/// A spread number: the pair of pages visible at once, starting at zero.
#[derive(Debug, Clone, Copy, PartialEq, Eq, PartialOrd, Ord, Structural)]
pub struct Spread(pub usize);

impl Spread {
    /// The next spread.
    pub fn increment(self) -> (r: Self)
        requires
            self.0 < usize::MAX,
        ensures
            r.0 == self.0 + 1,
    {
        Spread(self.0 + 1)
    }

    /// The previous spread, if there is one.
    pub fn decrement(self) -> (r: Option<Self>)
        ensures
            self.0 == 0 <==> r is None,
            self.0 > 0 ==> r == Some(Spread((self.0 - 1) as usize)),
    {
        if self.0 == 0 {
            return None;
        }
        Some(Spread(self.0 - 1))
    }
}

/// One visible surface of an open spread.
#[derive(Debug, PartialEq, Eq)]
pub enum Surface {
    /// A binder cover or back: no cards.
    Cover,
    /// A content page and the slot range it shows.
    Content(Content),
}

/// A content page and the card positions it shows.
#[derive(Debug, PartialEq, Eq)]
pub struct Content {
    pub page: Page,
    pub range: core::ops::Range<usize>,
}

/// What an open spread shows: the binder it lands in and its two surfaces.
#[derive(Debug, PartialEq, Eq)]
pub struct Pair {
    pub binder: Binder,
    pub binder_number: usize,
    pub left: Surface,
    pub right: Surface,
}

/// A shelf of binders, filled left to right.
#[derive(Debug)]
pub struct Shelf {
    binders: Vec<Binder>,
}

/// Pages needed for so many cards: full binders first, then the pages the
/// remainder needs in the next binder (at least one).
pub open spec fn spec_total_pages(bs: Seq<Binder>, cards: int) -> int
    decreases bs.len(),
{
    if bs.len() == 0 {
        0
    } else {
        let b = bs[0];
        let cpp = b.columns * b.rows;
        let needed = cards / (cpp as int);
        if needed < b.pages {
            if needed < 1 {
                1
            } else {
                needed
            }
        } else {
            b.pages + spec_total_pages(bs.subrange(1, bs.len() as int), cards - cpp * b.pages)
        }
    }
}

/// The page a card position lands on.
pub open spec fn spec_place(bs: Seq<Binder>, position: int) -> int
    decreases bs.len(),
{
    if bs.len() == 0 {
        0
    } else {
        let b = bs[0];
        let cpp = b.columns * b.rows;
        if position < cpp * b.pages {
            position / (cpp as int)
        } else {
            b.pages + spec_place(bs.subrange(1, bs.len() as int), position - cpp * b.pages)
        }
    }
}

/// How many covers and backs precede a page: one front cover, plus two
/// surfaces for every binder entirely before the page.
pub open spec fn spec_covers(bs: Seq<Binder>, page: int) -> int
    decreases bs.len(),
{
    if bs.len() > 0 && bs[0].pages < page {
        2 + spec_covers(bs.subrange(1, bs.len() as int), page - bs[0].pages)
    } else {
        1
    }
}

/// The spread a page is shown on, covers included.
pub open spec fn spec_spread(bs: Seq<Binder>, page: int) -> int {
    (page + spec_covers(bs, page)) / 2
}

/// What opening a spread shows. `page` counts surfaces into the current
/// binder; `offset` is the first card position of that binder.
pub open spec fn spec_open(bs: Seq<Binder>, number: int, page: int, offset: int) -> Option<Pair>
    decreases bs.len(),
{
    if bs.len() == 0 {
        None
    } else {
        let b = bs[0];
        let cpp = b.columns * b.rows;
        let p = if page >= 1 {
            page - 1
        } else {
            0
        };
        if p < b.pages {
            let off = offset + p * cpp;
            Some(
                Pair {
                    binder: b,
                    binder_number: number as usize,
                    left: if p == 0 {
                        Surface::Cover
                    } else {
                        Surface::Content(
                            Content {
                                page: Page(p as usize),
                                range: (off as usize)..((off + cpp) as usize),
                            },
                        )
                    },
                    right: if p + 1 == b.pages {
                        Surface::Cover
                    } else if p == 0 {
                        Surface::Content(
                            Content {
                                page: Page(p as usize),
                                range: (off as usize)..((off + cpp) as usize),
                            },
                        )
                    } else {
                        Surface::Content(
                            Content {
                                page: Page((p + 1) as usize),
                                range: ((off + cpp) as usize)..((off + 2 * cpp) as usize),
                            },
                        )
                    },
                },
            )
        } else {
            spec_open(
                bs.subrange(1, bs.len() as int),
                number + 1,
                if p >= b.pages + 1 {
                    p - b.pages - 1
                } else {
                    0
                },
                offset + cpp * b.pages,
            )
        }
    }
}

impl Shelf {
    /// The binders, left to right.
    pub closed spec fn binders_view(self) -> Seq<Binder> {
        self.binders@
    }

    /// Every binder is within bounds and the shelf is short enough for
    /// all position arithmetic to fit.
    pub open spec fn wf(self) -> bool {
        &&& forall|i: int| 0 <= i < self.binders_view().len() ==> binder_wf(
            #[trigger] self.binders_view()[i],
        )
        &&& self.binders_view().len() <= 64
    }

    /// The standard shelf: two twelve-pocket binders of 52 pages each.
    pub fn new() -> (r: Self)
        ensures
            r.wf(),
            r.binders_view() == seq![
                Binder { columns: 4, rows: 3, pages: 52 },
                Binder { columns: 4, rows: 3, pages: 52 },
            ],
    {
        let mut binders: Vec<Binder> = Vec::new();
        binders.push(Binder { columns: 4, rows: 3, pages: 52 });
        binders.push(Binder { columns: 4, rows: 3, pages: 52 });
        let r = Shelf { binders };
        proof {
            assert(r.binders_view() =~= seq![
                Binder { columns: 4, rows: 3, pages: 52 },
                Binder { columns: 4, rows: 3, pages: 52 },
            ]);
            assert(binder_wf(Binder { columns: 4, rows: 3, pages: 52 })) by (nonlinear_arith);
            assert forall|i: int| 0 <= i < r.binders_view().len() implies binder_wf(
                #[trigger] r.binders_view()[i],
            ) by {
                assert(r.binders_view()[i] == (Binder { columns: 4, rows: 3, pages: 52 }));
            }
        }
        r
    }

    /// How many binders the shelf holds.
    pub fn len(&self) -> (r: usize)
        ensures
            r == self.binders_view().len(),
    {
        self.binders.len()
    }

    /// The pages that so many cards fill, front binders first.
    pub fn total_pages(&self, total_cards: usize) -> (r: Page)
        requires
            self.wf(),
        ensures
            r.0 == spec_total_pages(self.binders_view(), total_cards as int),
    {
        proof {
            assert(self.binders@.subrange(0, self.binders@.len() as int) =~= self.binders@);
        }
        Page(total_pages_from(&self.binders, 0, total_cards))
    }

    /// The page a card position lands on.
    pub fn place(&self, position: usize) -> (r: Page)
        requires
            self.wf(),
        ensures
            r.0 == spec_place(self.binders_view(), position as int),
    {
        proof {
            assert(self.binders@.subrange(0, self.binders@.len() as int) =~= self.binders@);
        }
        Page(place_from(&self.binders, 0, position))
    }

    /// The spread a page is shown on.
    pub fn spread(&self, page: Page) -> (r: Spread)
        requires
            self.wf(),
            page.0 + 129 <= usize::MAX,
        ensures
            r.0 == spec_spread(self.binders_view(), page.0 as int),
    {
        proof {
            assert(self.binders@.subrange(0, self.binders@.len() as int) =~= self.binders@);
        }
        let covers = covers_from(&self.binders, 0, page.0);
        Spread((page.0 + covers) / 2)
    }

    /// What opening a spread shows, or nothing past the last binder.
    pub fn open(&self, spread: Spread) -> (r: Option<Pair>)
        requires
            self.wf(),
            spread.0 * 2 <= usize::MAX,
        ensures
            r == spec_open(self.binders_view(), 0, spread.0 * 2, 0),
    {
        proof {
            assert(self.binders@.subrange(0, self.binders@.len() as int) =~= self.binders@);
        }
        open_from(&self.binders, 0, spread.0 * 2, 0)
    }
}

/// The total pages over the binders from `i` on never exceed the page
/// bound times their count.
proof fn lemma_total_pages_bound(bs: Seq<Binder>, cards: int)
    requires
        forall|i: int| 0 <= i < bs.len() ==> binder_wf(#[trigger] bs[i]),
    ensures
        spec_total_pages(bs, cards) <= 4096 * bs.len(),
        spec_total_pages(bs, cards) >= 0,
    decreases bs.len(),
{
    if bs.len() > 0 {
        let rest = bs.subrange(1, bs.len() as int);
        let b = bs[0];
        let cpp = b.columns * b.rows;
        lemma_total_pages_bound(rest, cards - cpp * b.pages);
        if cards / (cpp as int) >= b.pages {
        } else {
            assert(cards / (cpp as int) <= 4096) by (nonlinear_arith)
                requires
                    cards / (cpp as int) < b.pages,
                    b.pages <= 4096,
            ;
        }
    }
}

/// Pages needed, counting from binder `i`.
fn total_pages_from(binders: &Vec<Binder>, i: usize, cards: usize) -> (r: usize)
    requires
        i <= binders@.len() <= 64,
        forall|j: int| 0 <= j < binders@.len() ==> binder_wf(#[trigger] binders@[j]),
    ensures
        r == spec_total_pages(binders@.subrange(i as int, binders@.len() as int), cards as int),
    decreases binders@.len() - i,
{
    let ghost tail = binders@.subrange(i as int, binders@.len() as int);
    if i == binders.len() {
        return 0;
    }
    let b = binders[i];
    let cpp = b.cards_per_page();
    let needed = cards / cpp;
    proof {
        assert(tail[0] == binders@[i as int]);
        assert(tail.subrange(1, tail.len() as int) =~= binders@.subrange(
            i + 1,
            binders@.len() as int,
        ));
    }
    if needed < b.pages {
        if needed < 1 {
            1
        } else {
            needed
        }
    } else {
        proof {
            assert(b.columns * b.rows * b.pages <= 16777216) by (nonlinear_arith)
                requires
                    b.columns * b.rows <= 4096,
                    b.pages <= 4096,
            ;
        }
        let used = b.capacity();
        proof {
            assert(cards >= cpp * b.pages) by (nonlinear_arith)
                requires
                    (cards as int) / (cpp as int) >= b.pages,
                    cpp >= 1,
                    cards >= 0,
                    cpp == b.columns * b.rows,
            ;
            lemma_total_pages_bound(
                binders@.subrange(i + 1, binders@.len() as int),
                cards - cpp * b.pages,
            );
        }
        let rest = total_pages_from(binders, i + 1, cards - used);
        b.pages + rest
    }
}

/// The landing page, counting from binder `i`.
fn place_from(binders: &Vec<Binder>, i: usize, position: usize) -> (r: usize)
    requires
        i <= binders@.len() <= 64,
        forall|j: int| 0 <= j < binders@.len() ==> binder_wf(#[trigger] binders@[j]),
    ensures
        r == spec_place(binders@.subrange(i as int, binders@.len() as int), position as int),
        r <= 4096 * (binders@.len() - i),
    decreases binders@.len() - i,
{
    let ghost tail = binders@.subrange(i as int, binders@.len() as int);
    if i == binders.len() {
        return 0;
    }
    let b = binders[i];
    let cpp = b.cards_per_page();
    proof {
        assert(tail[0] == binders@[i as int]);
        assert(tail.subrange(1, tail.len() as int) =~= binders@.subrange(
            i + 1,
            binders@.len() as int,
        ));
    }
    proof {
        assert(b.columns * b.rows * b.pages <= 16777216) by (nonlinear_arith)
            requires
                b.columns * b.rows <= 4096,
                b.pages <= 4096,
        ;
    }
    if position < b.capacity() {
        let landing = position / cpp;
        proof {
            assert((position as int) / (cpp as int) <= 4096) by (nonlinear_arith)
                requires
                    (position as int) < cpp * b.pages,
                    1 <= cpp,
                    b.pages <= 4096,
                    cpp == b.columns * b.rows,
            ;
        }
        landing
    } else {
        let rest = place_from(binders, i + 1, position - b.capacity());
        b.pages + rest
    }
}

/// Covers and backs before a page, counting from binder `i`.
fn covers_from(binders: &Vec<Binder>, i: usize, page: usize) -> (r: usize)
    requires
        i <= binders@.len() <= 64,
        forall|j: int| 0 <= j < binders@.len() ==> binder_wf(#[trigger] binders@[j]),
    ensures
        r == spec_covers(binders@.subrange(i as int, binders@.len() as int), page as int),
        1 <= r <= 1 + 2 * (binders@.len() - i),
    decreases binders@.len() - i,
{
    let ghost tail = binders@.subrange(i as int, binders@.len() as int);
    if i == binders.len() {
        return 1;
    }
    let b = binders[i];
    proof {
        assert(tail[0] == binders@[i as int]);
        assert(tail.subrange(1, tail.len() as int) =~= binders@.subrange(
            i + 1,
            binders@.len() as int,
        ));
    }
    if b.pages < page {
        2 + covers_from(binders, i + 1, page - b.pages)
    } else {
        1
    }
}

/// The opened pair, counting from binder `i`.
fn open_from(binders: &Vec<Binder>, number: usize, page: usize, offset: usize) -> (r: Option<Pair>)
    requires
        number <= binders@.len() <= 64,
        offset + 16800000 * (binders@.len() - number) <= usize::MAX,
        forall|j: int| 0 <= j < binders@.len() ==> binder_wf(#[trigger] binders@[j]),
    ensures
        r == spec_open(
            binders@.subrange(number as int, binders@.len() as int),
            number as int,
            page as int,
            offset as int,
        ),
    decreases binders@.len() - number,
{
    let ghost tail = binders@.subrange(number as int, binders@.len() as int);
    if number == binders.len() {
        return None;
    }
    let b = binders[number];
    let cpp = b.cards_per_page();
    let p = if page >= 1 {
        page - 1
    } else {
        0
    };
    proof {
        assert(tail[0] == binders@[number as int]);
        assert(tail.subrange(1, tail.len() as int) =~= binders@.subrange(
            number + 1,
            binders@.len() as int,
        ));
    }
    if p < b.pages {
        proof {
            assert(p * cpp + 2 * cpp <= 16800000) by (nonlinear_arith)
                requires
                    (p as int) < b.pages,
                    b.pages <= 4096,
                    1 <= cpp <= 4096,
                    cpp == b.columns * b.rows,
            ;
        }
        let off = offset + p * cpp;
        let left = if p == 0 {
            Surface::Cover
        } else {
            Surface::Content(Content { page: Page(p), range: off..(off + cpp) })
        };
        let right = if p + 1 == b.pages {
            Surface::Cover
        } else if p == 0 {
            Surface::Content(Content { page: Page(p), range: off..(off + cpp) })
        } else {
            Surface::Content(Content { page: Page(p + 1), range: (off + cpp)..(off + 2 * cpp) })
        };
        Some(Pair { binder: b, binder_number: number, left, right })
    } else {
        proof {
            assert(cpp * b.pages <= 16800000) by (nonlinear_arith)
                requires
                    1 <= cpp <= 4096,
                    b.pages <= 4096,
                    cpp == b.columns * b.rows,
            ;
        }
        let next_page = if p >= b.pages + 1 {
            p - (b.pages + 1)
        } else {
            0
        };
        open_from(binders, number + 1, next_page, offset + b.capacity())
    }
}

/// What the completion binder lays out: one slot per creature, in catalog
/// order.
#[derive(Debug, Clone, Copy, PartialEq, Eq, Structural)]
pub enum Mode {
    GottaCatchEmAll,
}

impl Mode {
    /// How many slots the mode needs: one per creature in the catalog.
    pub fn total_cards(self, database: &Database) -> (r: usize)
        ensures
            r == database.pokemon@.len(),
    {
        match self {
            Mode::GottaCatchEmAll => database.pokemon.len(),
        }
    }

    /// The card shown in a slot: the rarest owned card depicting the
    /// creature at that position, when one is owned.
    pub fn card<'a>(self, index: usize, collection: &Collection, database: &'a Database) -> (r:
        Option<&'a Card>)
        ensures
            index >= database.pokemon@.len() ==> r is None,
            index < database.pokemon@.len() ==> ({
                let pid = database.pokemon@[index as int].id;
                let dv = database.cards.entries_view();
                let cv = collection.cards_view();
                let n = cv.len() as int;
                &&& (r matches Some(c) ==> crate::collection::spec_depicts(dv, cv, pid, *c, n)
                    && forall|d: Card|
                    crate::collection::spec_depicts(dv, cv, pid, d, n) ==> d.rarity.spec_rank()
                        <= c.rarity.spec_rank())
                &&& (r is None ==> forall|d: Card|
                    !crate::collection::spec_depicts(dv, cv, pid, d, n))
            }),
    {
        match self {
            Mode::GottaCatchEmAll => {
                if index >= database.pokemon.len() {
                    return None;
                }
                collection.rarest_card_for(&database.pokemon[index], database)
            },
        }
    }

    /// The slot a card belongs in: the position of the first creature it
    /// depicts, or nothing when the card is unknown or depicts none.
    pub fn position(self, id: &card::Id, database: &Database) -> (r: Option<usize>)
        ensures
            (match crate::assoc::lookup(database.cards.entries_view(), id@) {
                Some(c) => if c.pokedex@.len() > 0 {
                    r == Some(
                        (if c.pokedex@[0].0 >= 1 {
                            c.pokedex@[0].0 - 1
                        } else {
                            0
                        }) as usize,
                    )
                } else {
                    r is None
                },
                None => r is None,
            }),
    {
        match self {
            Mode::GottaCatchEmAll => {
                match database.cards.get(id) {
                    Some(c) => {
                        if c.pokedex.len() > 0 {
                            Some(c.pokedex[0].0.saturating_sub(1) as usize)
                        } else {
                            None
                        }
                    },
                    None => None,
                }
            },
        }
    }
}

/// The roman numeral of a small binder number, or "#" and the number
/// itself past ten.
pub open spec fn spec_roman(n: int) -> Seq<char> {
    if n == 1 {
        "I"@
    } else if n == 2 {
        "II"@
    } else if n == 3 {
        "III"@
    } else if n == 4 {
        "IV"@
    } else if n == 5 {
        "V"@
    } else if n == 6 {
        "VI"@
    } else if n == 7 {
        "VII"@
    } else if n == 8 {
        "VIII"@
    } else if n == 9 {
        "IX"@
    } else if n == 10 {
        "X"@
    } else {
        seq!['#'] + spec_decimal(n)
    }
}

/// Writes a binder number as a roman numeral, up to ten; beyond that, as
/// "#" and the number.
pub fn to_roman(number: usize) -> (r: String)
    ensures
        r@ == spec_roman(number as int),
{
    if number == 1 {
        String::from_str("I")
    } else if number == 2 {
        String::from_str("II")
    } else if number == 3 {
        String::from_str("III")
    } else if number == 4 {
        String::from_str("IV")
    } else if number == 5 {
        String::from_str("V")
    } else if number == 6 {
        String::from_str("VI")
    } else if number == 7 {
        String::from_str("VII")
    } else if number == 8 {
        String::from_str("VIII")
    } else if number == 9 {
        String::from_str("IX")
    } else if number == 10 {
        String::from_str("X")
    } else {
        proof {
            reveal_strlit("#");
        }
        let mut out = String::from_str("#");
        append_decimal(&mut out, number as u64);
        proof {
            assert(out@ =~= seq!['#'] + spec_decimal(number as int));
        }
        out
    }
}

} // verus!
