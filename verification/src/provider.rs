//! Raw pricing payloads as the remote provider ships them, the error
//! taxonomy of the pricing client, and its retry policy. The network call
//! itself lives outside the library; the functions here decide what to do
//! with what came back.

use vstd::prelude::*;

use crate::card::Card;
use crate::cardmarket;
use crate::tcgplayer;
use crate::text::{
    spec_after_last_dash, spec_is_digit, spec_replace_dots, spec_starts_with, spec_trim_zeros,
    after_last_dash, append_replacing_dots, starts_with, trim_leading_zeros,
};

verus! {

/// A raw provider payload: both currency halves plus the moment the
/// payload was obtained (seconds since the epoch).
#[derive(Debug, Clone, Copy, PartialEq, Eq)]
pub struct Pricing {
    pub tcgplayer: tcgplayer::Pricing,
    pub cardmarket: cardmarket::Pricing,
    pub updated_at: u64,
}

impl Pricing {
    /// The zero-valued placeholder payload, stamped with the given time.
    /// Cached for cards the provider cannot price, so that they are not
    /// refetched on every scan.
    pub fn empty(now: u64) -> (r: Self)
        ensures
            r.tcgplayer.prices.normal is None,
            r.tcgplayer.prices.holofoil is None,
            r.tcgplayer.prices.reverse_holofoil is None,
            r.cardmarket.prices == cardmarket::zero_prices(),
            r.updated_at == now,
    {
        Pricing {
            tcgplayer: tcgplayer::Pricing::empty(),
            cardmarket: cardmarket::Pricing::empty(),
            updated_at: now,
        }
    }
}

/// Why a price could not be fetched.
#[derive(Debug, Clone, Copy, PartialEq, Eq, Structural)]
pub enum Error {
    /// The card has no localized name in the locale the provider requires;
    /// no request is attempted. Permanent and expected.
    LocaleUnavailable,
    /// The provider answered that no such card exists. Permanent and
    /// expected.
    NotFound,
    /// The request itself failed (network, timeout, server error).
    /// Transient: worth retrying.
    TransportFailure,
}

/// How many extra attempts a transport failure is granted.
pub const TRANSPORT_RETRIES: u64 = 2;

/// Whether a failed attempt should be repeated. Only transport failures
/// are retried, and only while retries remain; the two permanent outcomes
/// are terminal however many retries are left.
pub fn should_retry(error: Error, retries_left: u64) -> (r: bool)
    ensures
        r == (error is TransportFailure && retries_left > 0),
{
    match error {
        Error::TransportFailure => retries_left > 0,
        Error::LocaleUnavailable => false,
        Error::NotFound => false,
    }
}

/// Classifies a failed HTTP exchange by its status code, when one was
/// received: a 404 means the provider has no such card; anything else is
/// a transport failure.
pub fn classify_failure(status: Option<u16>) -> (e: Error)
    ensures
        e == (if status == Some(404u16) {
            Error::NotFound
        } else {
            Error::TransportFailure
        }),
{
    match status {
        Some(code) => {
            if code == 404 {
                Error::NotFound
            } else {
                Error::TransportFailure
            }
        },
        None => Error::TransportFailure,
    }
}

/// How many leading non-digit characters a set id has: the length of its
/// alphabetic prefix.
pub open spec fn spec_prefix_len(s: Seq<char>) -> int
    decreases s.len(),
{
    if s.len() == 0 || spec_is_digit(s[0]) {
        0
    } else {
        1 + spec_prefix_len(s.subrange(1, s.len() as int))
    }
}

/// Scanning to the first digit finds the prefix length.
proof fn lemma_prefix_len(s: Seq<char>, k: int)
    requires
        0 <= k <= s.len(),
        forall|j: int| 0 <= j < k ==> !spec_is_digit(s[j]),
        k < s.len() ==> spec_is_digit(s[k]),
    ensures
        spec_prefix_len(s) == k,
    decreases k,
{
    if k == 0 {
    } else {
        let rest = s.subrange(1, s.len() as int);
        lemma_prefix_len(rest, k - 1);
    }
}

/// The provider's number for a card within its set: what follows the last
/// '-' of the card id, without leading zeros.
pub open spec fn spec_card_number(id: Seq<char>) -> Seq<char> {
    spec_trim_zeros(spec_after_last_dash(id))
}

/// The provider's name for a card's set, derived from the set id alone —
/// except that cards numbered "TG…" (trainer galleries) get a "tg" suffix.
/// The set id splits into an alphabetic prefix and a number; the number
/// loses its leading zeros; a '.' (as in half-sets) becomes "pt" for the
/// generations that the provider names that way and disappears for the
/// others.
pub open spec fn spec_set_name(set_id: Seq<char>, card_id: Seq<char>) -> Seq<char> {
    let k = spec_prefix_len(set_id);
    let prefix = set_id.take(k);
    let number = set_id.skip(k);
    let repl = if (spec_starts_with(prefix, "swsh"@) && spec_starts_with(number, "12"@))
        || spec_starts_with(prefix, "sv"@) {
        "pt"@
    } else {
        ""@
    };
    let base = spec_replace_dots(prefix, repl) + spec_replace_dots(spec_trim_zeros(number), repl);
    if spec_starts_with(spec_card_number(card_id), "TG"@) {
        base + "tg"@
    } else {
        base
    }
}

/// The card's number within its set, as the provider writes it.
pub fn card_number<'a>(card: &'a Card) -> (r: &'a str)
    ensures
        r@ == spec_card_number(card.id@),
{
    trim_leading_zeros(after_last_dash(card.id.as_str()))
}

/// The provider's name for the card's set. A pure function of the card's
/// set id and card id; no request is involved.
pub fn set_name(card: &Card) -> (r: String)
    ensures
        r@ == spec_set_name(card.set@, card.id@),
{
    let set_str = card.set.as_str();
    let n = set_str.unicode_len();
    let mut k: usize = 0;
    while k < n && !is_digit(set_str.get_char(k))
        invariant
            0 <= k <= n,
            n == set_str@.len(),
            forall|j: int| 0 <= j < k ==> !spec_is_digit(set_str@[j]),
        decreases n - k,
    {
        k += 1;
    }
    proof {
        lemma_prefix_len(set_str@, k as int);
    }
    let prefix = set_str.substring_char(0, k);
    let number = set_str.substring_char(k, n);
    let repl: &str = if (starts_with(prefix, "swsh") && starts_with(number, "12")) || starts_with(
        prefix,
        "sv",
    ) {
        "pt"
    } else {
        ""
    };
    let mut name = String::new();
    append_replacing_dots(&mut name, prefix, repl);
    let trimmed = trim_leading_zeros(number);
    append_replacing_dots(&mut name, trimmed, repl);
    if starts_with(card_number(card), "TG") {
        name.append("tg");
    }
    name
}

/// The provider's catalog identifier for a card: the transformed set name,
/// a '-', and the card's number within the set.
pub fn catalog_id(card: &Card) -> (r: String)
    ensures
        r@ == spec_set_name(card.set@, card.id@) + seq!['-'] + spec_card_number(card.id@),
{
    proof {
        reveal_strlit("-");
    }
    let mut out = set_name(card);
    out.append("-");
    out.append(card_number(card));
    proof {
        assert(out@ =~= spec_set_name(card.set@, card.id@) + seq!['-'] + spec_card_number(
            card.id@,
        ));
    }
    out
}

/// Whether a character is an ASCII digit.
fn is_digit(c: char) -> (r: bool)
    ensures
        r == spec_is_digit(c),
{
    let u = c as u32;
    48 <= u && u <= 57
}

} // verus!
