//! Per-card on-disk pricing records. A record holds the raw provider
//! payload (not the normalized form) plus its timestamp, so that provider
//! format evolution only ever needs new field defaults, and normalization
//! is re-applied on every read. Corruption never propagates: an
//! undecodable record is a cache miss.
//!
//! Record layout, 203 bytes: three presence flags (normal, holofoil,
//! reverse-holo), the three dollar spreads (zero-filled when absent), the
//! twelve euro statistics, and the timestamp, all integers little-endian.

use vstd::prelude::*;

use crate::cardmarket;
use crate::pricing::{spec_normalize, Pricing};
use crate::provider;
use crate::tcgplayer;

verus! {

/// The freshness window: a record older than this is stale.
pub const WEEK_SECONDS: u64 = 60 * 60 * 24 * 7;

/// Total size of an encoded record.
pub const RECORD_LEN: usize = 203;

/// A timestamp is fresh when strictly less than seven days have elapsed;
/// at exactly seven days a record is already stale. Timestamps in the
/// future count as fresh.
pub open spec fn spec_is_fresh(updated_at: u64, now: u64) -> bool {
    now <= updated_at || now - updated_at < WEEK_SECONDS
}

/// Whether a record written at `updated_at` is still usable at `now`.
/// The same predicate gates both the passive "usable without refetch"
/// check and the scheduler's "needs refreshing" check.
pub fn is_fresh(updated_at: u64, now: u64) -> (r: bool)
    ensures
        r == spec_is_fresh(updated_at, now),
{
    now.saturating_sub(updated_at) < WEEK_SECONDS
}

/// The negation of [`is_fresh`], under the name the refresh loop uses.
pub fn is_outdated(updated_at: u64, now: u64) -> (r: bool)
    ensures
        r == !spec_is_fresh(updated_at, now),
{
    !is_fresh(updated_at, now)
}

/// The eight little-endian bytes of a 64-bit value.
pub open spec fn le_bytes(x: u64) -> Seq<u8> {
    seq![
        (x & 0xff) as u8,
        ((x >> 8) & 0xff) as u8,
        ((x >> 16) & 0xff) as u8,
        ((x >> 24) & 0xff) as u8,
        ((x >> 32) & 0xff) as u8,
        ((x >> 40) & 0xff) as u8,
        ((x >> 48) & 0xff) as u8,
        ((x >> 56) & 0xff) as u8,
    ]
}

/// The 64-bit value read from eight little-endian bytes.
pub open spec fn le_value(b: Seq<u8>) -> u64
    recommends
        b.len() == 8,
{
    (b[0] as u64) | ((b[1] as u64) << 8) | ((b[2] as u64) << 16) | ((b[3] as u64) << 24)
        | ((b[4] as u64) << 32) | ((b[5] as u64) << 40) | ((b[6] as u64) << 48)
        | ((b[7] as u64) << 56)
}

/// Reading back the eight little-endian bytes of a value yields the value.
pub proof fn lemma_le_roundtrip(x: u64)
    ensures
        le_value(le_bytes(x)) == x,
{
    assert(((x & 0xff) as u8 as u64) | ((((x >> 8) & 0xff) as u8 as u64) << 8)
        | ((((x >> 16) & 0xff) as u8 as u64) << 16) | ((((x >> 24) & 0xff) as u8 as u64) << 24)
        | ((((x >> 32) & 0xff) as u8 as u64) << 32) | ((((x >> 40) & 0xff) as u8 as u64) << 40)
        | ((((x >> 48) & 0xff) as u8 as u64) << 48) | ((((x >> 56) & 0xff) as u8 as u64) << 56)
        == x) by (bit_vector);
}

/// The presence flag of an optional dollar spread.
pub open spec fn spec_flag(s: Option<tcgplayer::Spread>) -> u8 {
    if s is Some {
        1
    } else {
        0
    }
}

/// The 32 bytes of an optional dollar spread: its four statistics in
/// order, or zeros when the variant is absent.
pub open spec fn spec_spread_bytes(s: Option<tcgplayer::Spread>) -> Seq<u8> {
    match s {
        Some(sp) => le_bytes(sp.low) + le_bytes(sp.mid) + le_bytes(sp.high) + le_bytes(sp.market),
        None => le_bytes(0) + le_bytes(0) + le_bytes(0) + le_bytes(0),
    }
}

/// The 96 bytes of the euro statistics, in declaration order.
pub open spec fn spec_cardmarket_bytes(p: cardmarket::Prices) -> Seq<u8> {
    le_bytes(p.average_sell_price) + le_bytes(p.low_price) + le_bytes(p.trend_price)
        + le_bytes(p.avg1) + le_bytes(p.avg7) + le_bytes(p.avg30)
        + le_bytes(p.reverse_holo_sell) + le_bytes(p.reverse_holo_low)
        + le_bytes(p.reverse_holo_trend) + le_bytes(p.reverse_holo_avg1)
        + le_bytes(p.reverse_holo_avg7) + le_bytes(p.reverse_holo_avg30)
}

/// The full encoded record of a raw payload.
pub open spec fn spec_encode(raw: provider::Pricing) -> Seq<u8> {
    seq![
        spec_flag(raw.tcgplayer.prices.normal),
        spec_flag(raw.tcgplayer.prices.holofoil),
        spec_flag(raw.tcgplayer.prices.reverse_holofoil),
    ] + spec_spread_bytes(raw.tcgplayer.prices.normal)
        + spec_spread_bytes(raw.tcgplayer.prices.holofoil)
        + spec_spread_bytes(raw.tcgplayer.prices.reverse_holofoil)
        + spec_cardmarket_bytes(raw.cardmarket.prices) + le_bytes(raw.updated_at)
}

/// The optional dollar spread recovered from presence flag `flag` and the
/// 32 bytes at offset `o`.
pub open spec fn spec_decode_spread(b: Seq<u8>, flag: u8, o: int) -> Option<tcgplayer::Spread> {
    if flag == 1 {
        Some(
            tcgplayer::Spread {
                low: le_value(b.subrange(o, o + 8)),
                mid: le_value(b.subrange(o + 8, o + 16)),
                high: le_value(b.subrange(o + 16, o + 24)),
                market: le_value(b.subrange(o + 24, o + 32)),
            },
        )
    } else {
        None
    }
}

/// The euro statistics recovered from the 96 bytes at offset `o`.
pub open spec fn spec_decode_cardmarket(b: Seq<u8>, o: int) -> cardmarket::Prices {
    cardmarket::Prices {
        average_sell_price: le_value(b.subrange(o, o + 8)),
        low_price: le_value(b.subrange(o + 8, o + 16)),
        trend_price: le_value(b.subrange(o + 16, o + 24)),
        avg1: le_value(b.subrange(o + 24, o + 32)),
        avg7: le_value(b.subrange(o + 32, o + 40)),
        avg30: le_value(b.subrange(o + 40, o + 48)),
        reverse_holo_sell: le_value(b.subrange(o + 48, o + 56)),
        reverse_holo_low: le_value(b.subrange(o + 56, o + 64)),
        reverse_holo_trend: le_value(b.subrange(o + 64, o + 72)),
        reverse_holo_avg1: le_value(b.subrange(o + 72, o + 80)),
        reverse_holo_avg7: le_value(b.subrange(o + 80, o + 88)),
        reverse_holo_avg30: le_value(b.subrange(o + 88, o + 96)),
    }
}

/// What a byte sequence decodes to: `None` for anything but a well-formed
/// 203-byte record with valid presence flags.
pub open spec fn spec_decode(b: Seq<u8>) -> Option<provider::Pricing> {
    if b.len() != RECORD_LEN {
        None
    } else if !((b[0] == 0 || b[0] == 1) && (b[1] == 0 || b[1] == 1) && (b[2] == 0 || b[2] == 1)) {
        None
    } else {
        Some(
            provider::Pricing {
                tcgplayer: tcgplayer::Pricing {
                    prices: tcgplayer::Prices {
                        normal: spec_decode_spread(b, b[0], 3),
                        holofoil: spec_decode_spread(b, b[1], 35),
                        reverse_holofoil: spec_decode_spread(b, b[2], 67),
                    },
                },
                cardmarket: cardmarket::Pricing { prices: spec_decode_cardmarket(b, 99) },
                updated_at: le_value(b.subrange(195, 203)),
            },
        )
    }
}

/// Appends the eight little-endian bytes of `x`.
fn push_u64(out: &mut Vec<u8>, x: u64)
    ensures
        final(out)@ == old(out)@ + le_bytes(x),
{
    proof {
        assert(x & 0xff < 256 && (x >> 8) & 0xff < 256 && (x >> 16) & 0xff < 256
            && (x >> 24) & 0xff < 256 && (x >> 32) & 0xff < 256 && (x >> 40) & 0xff < 256
            && (x >> 48) & 0xff < 256 && (x >> 56) & 0xff < 256) by (bit_vector);
    }
    out.push((x & 0xff) as u8);
    out.push(((x >> 8) & 0xff) as u8);
    out.push(((x >> 16) & 0xff) as u8);
    out.push(((x >> 24) & 0xff) as u8);
    out.push(((x >> 32) & 0xff) as u8);
    out.push(((x >> 40) & 0xff) as u8);
    out.push(((x >> 48) & 0xff) as u8);
    out.push(((x >> 56) & 0xff) as u8);
    proof {
        assert(out@ =~= old(out)@ + le_bytes(x));
    }
}

/// Reads the 64-bit value stored little-endian at `offset`.
fn read_u64(data: &Vec<u8>, offset: usize) -> (r: u64)
    requires
        offset + 8 <= data.len(),
    ensures
        r == le_value(data@.subrange(offset as int, offset as int + 8)),
{
    let b0 = data[offset] as u64;
    let b1 = data[offset + 1] as u64;
    let b2 = data[offset + 2] as u64;
    let b3 = data[offset + 3] as u64;
    let b4 = data[offset + 4] as u64;
    let b5 = data[offset + 5] as u64;
    let b6 = data[offset + 6] as u64;
    let b7 = data[offset + 7] as u64;
    b0 | (b1 << 8) | (b2 << 16) | (b3 << 24) | (b4 << 32) | (b5 << 40) | (b6 << 48) | (b7 << 56)
}

/// Appends the 32 bytes of an optional dollar spread.
fn push_spread(out: &mut Vec<u8>, s: &Option<tcgplayer::Spread>)
    ensures
        final(out)@ == old(out)@ + spec_spread_bytes(*s),
{
    match s {
        Some(sp) => {
            push_u64(out, sp.low);
            push_u64(out, sp.mid);
            push_u64(out, sp.high);
            push_u64(out, sp.market);
        },
        None => {
            push_u64(out, 0);
            push_u64(out, 0);
            push_u64(out, 0);
            push_u64(out, 0);
        },
    }
    proof {
        assert(out@ =~= old(out)@ + spec_spread_bytes(*s));
    }
}

/// Encodes a raw payload as a cache record. The record decodes back to
/// exactly this payload (see [`lemma_record_roundtrip`]).
pub fn encode(raw: &provider::Pricing) -> (r: Vec<u8>)
    ensures
        r@ == spec_encode(*raw),
{
    let tp = raw.tcgplayer.prices;
    let cp = raw.cardmarket.prices;
    let mut out: Vec<u8> = Vec::new();
    out.push(if tp.normal.is_some() { 1 } else { 0 });
    out.push(if tp.holofoil.is_some() { 1 } else { 0 });
    out.push(if tp.reverse_holofoil.is_some() { 1 } else { 0 });
    push_spread(&mut out, &tp.normal);
    push_spread(&mut out, &tp.holofoil);
    push_spread(&mut out, &tp.reverse_holofoil);
    push_u64(&mut out, cp.average_sell_price);
    push_u64(&mut out, cp.low_price);
    push_u64(&mut out, cp.trend_price);
    push_u64(&mut out, cp.avg1);
    push_u64(&mut out, cp.avg7);
    push_u64(&mut out, cp.avg30);
    push_u64(&mut out, cp.reverse_holo_sell);
    push_u64(&mut out, cp.reverse_holo_low);
    push_u64(&mut out, cp.reverse_holo_trend);
    push_u64(&mut out, cp.reverse_holo_avg1);
    push_u64(&mut out, cp.reverse_holo_avg7);
    push_u64(&mut out, cp.reverse_holo_avg30);
    push_u64(&mut out, raw.updated_at);
    proof {
        assert(out@ =~= spec_encode(*raw));
    }
    out
}

/// Reads the optional dollar spread stored at `offset` under `flag`.
fn read_spread(data: &Vec<u8>, flag: u8, offset: usize) -> (r: Option<tcgplayer::Spread>)
    requires
        offset + 32 <= data.len(),
    ensures
        r == spec_decode_spread(data@, flag, offset as int),
{
    if flag == 1 {
        Some(
            tcgplayer::Spread {
                low: read_u64(data, offset),
                mid: read_u64(data, offset + 8),
                high: read_u64(data, offset + 16),
                market: read_u64(data, offset + 24),
            },
        )
    } else {
        None
    }
}

/// Decodes a cache record. Anything but a well-formed record yields
/// `None`: corruption is a miss, never an error.
pub fn decode(data: &Vec<u8>) -> (r: Option<provider::Pricing>)
    ensures
        r == spec_decode(data@),
{
    if data.len() != RECORD_LEN {
        return None;
    }
    let f0 = data[0];
    let f1 = data[1];
    let f2 = data[2];
    if !((f0 == 0 || f0 == 1) && (f1 == 0 || f1 == 1) && (f2 == 0 || f2 == 1)) {
        return None;
    }
    Some(
        provider::Pricing {
            tcgplayer: tcgplayer::Pricing {
                prices: tcgplayer::Prices {
                    normal: read_spread(data, f0, 3),
                    holofoil: read_spread(data, f1, 35),
                    reverse_holofoil: read_spread(data, f2, 67),
                },
            },
            cardmarket: cardmarket::Pricing {
                prices: cardmarket::Prices {
                    average_sell_price: read_u64(data, 99),
                    low_price: read_u64(data, 107),
                    trend_price: read_u64(data, 115),
                    avg1: read_u64(data, 123),
                    avg7: read_u64(data, 131),
                    avg30: read_u64(data, 139),
                    reverse_holo_sell: read_u64(data, 147),
                    reverse_holo_low: read_u64(data, 155),
                    reverse_holo_trend: read_u64(data, 163),
                    reverse_holo_avg1: read_u64(data, 171),
                    reverse_holo_avg7: read_u64(data, 179),
                    reverse_holo_avg30: read_u64(data, 187),
                },
            },
            updated_at: read_u64(data, 195),
        },
    )
}

/// What reading a cache record yields: the re-normalized pricing, or a
/// miss when the record is absent or does not decode.
pub open spec fn spec_read(data: Option<Seq<u8>>) -> Option<Pricing> {
    match data {
        Some(b) => match spec_decode(b) {
            Some(raw) => Some(spec_normalize(raw)),
            None => None,
        },
        None => None,
    }
}

/// Reads a cached record: re-normalizes the stored raw payload. An absent,
/// truncated or corrupt record is a miss (`None`), never an error.
pub fn read(data: &Option<Vec<u8>>) -> (r: Option<Pricing>)
    ensures
        r == spec_read(match *data {
            Some(ref b) => Some(b@),
            None => None,
        }),
{
    match data {
        Some(bytes) => match decode(bytes) {
            Some(raw) => Some(Pricing::from_raw(raw)),
            None => None,
        },
        None => None,
    }
}

/// The cached pricing when a record is present, decodes, and is still
/// fresh: what an on-demand fetch may use without asking the provider.
pub fn read_fresh(data: &Option<Vec<u8>>, now: u64) -> (r: Option<Pricing>)
    ensures
        r == (match spec_read(match *data {
            Some(ref b) => Some(b@),
            None => None,
        }) {
            Some(p) => if spec_is_fresh(p.updated_at, now) {
                Some(p)
            } else {
                None
            },
            None => None,
        }),
{
    match read(data) {
        Some(pricing) => {
            if is_fresh(pricing.updated_at, now) {
                Some(pricing)
            } else {
                None
            }
        },
        None => None,
    }
}

/// A spread's 32 bytes decode back to the spread, under its own flag.
proof fn lemma_spread_roundtrip(e: Seq<u8>, s: Option<tcgplayer::Spread>, o: int)
    requires
        0 <= o,
        o + 32 <= e.len(),
        e.subrange(o, o + 32) =~= spec_spread_bytes(s),
    ensures
        spec_decode_spread(e, spec_flag(s), o) == s,
{
    match s {
        Some(sp) => {
            let sb = e.subrange(o, o + 32);
            let c1 = le_bytes(sp.low) + le_bytes(sp.mid);
            let c2 = c1 + le_bytes(sp.high);
            assert(c1.len() == 16);
            assert(c2.len() == 24);
            assert(sb.len() == 32);
            assert(sb.subrange(0, 24) =~= c2);
            assert(c2.subrange(0, 16) =~= c1);
            assert(c1.subrange(0, 8) =~= le_bytes(sp.low));
            assert(c1.subrange(8, 16) =~= le_bytes(sp.mid));
            assert(c2.subrange(16, 24) =~= le_bytes(sp.high));
            assert(sb.subrange(24, 32) =~= le_bytes(sp.market));
            assert(e.subrange(o, o + 8) =~= c1.subrange(0, 8));
            assert(e.subrange(o + 8, o + 16) =~= c1.subrange(8, 16));
            assert(e.subrange(o + 16, o + 24) =~= c2.subrange(16, 24));
            assert(e.subrange(o + 24, o + 32) =~= sb.subrange(24, 32));
            lemma_le_roundtrip(sp.low);
            lemma_le_roundtrip(sp.mid);
            lemma_le_roundtrip(sp.high);
            lemma_le_roundtrip(sp.market);
        },
        None => {},
    }
}

/// The euro statistics' 96 bytes decode back to the statistics.
proof fn lemma_cardmarket_roundtrip(e: Seq<u8>, p: cardmarket::Prices, o: int)
    requires
        0 <= o,
        o + 96 <= e.len(),
        e.subrange(o, o + 96) =~= spec_cardmarket_bytes(p),
    ensures
        spec_decode_cardmarket(e, o) == p,
{
    let cm = e.subrange(o, o + 96);
    let c1 = le_bytes(p.average_sell_price) + le_bytes(p.low_price);
    let c2 = c1 + le_bytes(p.trend_price);
    let c3 = c2 + le_bytes(p.avg1);
    let c4 = c3 + le_bytes(p.avg7);
    let c5 = c4 + le_bytes(p.avg30);
    let c6 = c5 + le_bytes(p.reverse_holo_sell);
    let c7 = c6 + le_bytes(p.reverse_holo_low);
    let c8 = c7 + le_bytes(p.reverse_holo_trend);
    let c9 = c8 + le_bytes(p.reverse_holo_avg1);
    let c10 = c9 + le_bytes(p.reverse_holo_avg7);
    assert(c1.len() == 16);
    assert(c2.len() == 24);
    assert(c3.len() == 32);
    assert(c4.len() == 40);
    assert(c5.len() == 48);
    assert(c6.len() == 56);
    assert(c7.len() == 64);
    assert(c8.len() == 72);
    assert(c9.len() == 80);
    assert(c10.len() == 88);
    assert(cm.len() == 96);
    assert(cm.subrange(0, 88) =~= c10);
    assert(c10.subrange(0, 80) =~= c9);
    assert(c9.subrange(0, 72) =~= c8);
    assert(c8.subrange(0, 64) =~= c7);
    assert(c7.subrange(0, 56) =~= c6);
    assert(c6.subrange(0, 48) =~= c5);
    assert(c5.subrange(0, 40) =~= c4);
    assert(c4.subrange(0, 32) =~= c3);
    assert(c3.subrange(0, 24) =~= c2);
    assert(c2.subrange(0, 16) =~= c1);
    assert(c1.subrange(0, 8) =~= le_bytes(p.average_sell_price));
    assert(c1.subrange(8, 16) =~= le_bytes(p.low_price));
    assert(c2.subrange(16, 24) =~= le_bytes(p.trend_price));
    assert(c3.subrange(24, 32) =~= le_bytes(p.avg1));
    assert(c4.subrange(32, 40) =~= le_bytes(p.avg7));
    assert(c5.subrange(40, 48) =~= le_bytes(p.avg30));
    assert(c6.subrange(48, 56) =~= le_bytes(p.reverse_holo_sell));
    assert(c7.subrange(56, 64) =~= le_bytes(p.reverse_holo_low));
    assert(c8.subrange(64, 72) =~= le_bytes(p.reverse_holo_trend));
    assert(c9.subrange(72, 80) =~= le_bytes(p.reverse_holo_avg1));
    assert(c10.subrange(80, 88) =~= le_bytes(p.reverse_holo_avg7));
    assert(cm.subrange(88, 96) =~= le_bytes(p.reverse_holo_avg30));
    assert(e.subrange(o, o + 8) =~= c1.subrange(0, 8));
    assert(e.subrange(o + 8, o + 16) =~= c1.subrange(8, 16));
    assert(e.subrange(o + 16, o + 24) =~= c2.subrange(16, 24));
    assert(e.subrange(o + 24, o + 32) =~= c3.subrange(24, 32));
    assert(e.subrange(o + 32, o + 40) =~= c4.subrange(32, 40));
    assert(e.subrange(o + 40, o + 48) =~= c5.subrange(40, 48));
    assert(e.subrange(o + 48, o + 56) =~= c6.subrange(48, 56));
    assert(e.subrange(o + 56, o + 64) =~= c7.subrange(56, 64));
    assert(e.subrange(o + 64, o + 72) =~= c8.subrange(64, 72));
    assert(e.subrange(o + 72, o + 80) =~= c9.subrange(72, 80));
    assert(e.subrange(o + 80, o + 88) =~= c10.subrange(80, 88));
    assert(e.subrange(o + 88, o + 96) =~= cm.subrange(88, 96));
    lemma_le_roundtrip(p.average_sell_price);
    lemma_le_roundtrip(p.low_price);
    lemma_le_roundtrip(p.trend_price);
    lemma_le_roundtrip(p.avg1);
    lemma_le_roundtrip(p.avg7);
    lemma_le_roundtrip(p.avg30);
    lemma_le_roundtrip(p.reverse_holo_sell);
    lemma_le_roundtrip(p.reverse_holo_low);
    lemma_le_roundtrip(p.reverse_holo_trend);
    lemma_le_roundtrip(p.reverse_holo_avg1);
    lemma_le_roundtrip(p.reverse_holo_avg7);
    lemma_le_roundtrip(p.reverse_holo_avg30);
}

/// The encoded record splits at fixed offsets into its five regions.
proof fn lemma_encode_parts(raw: provider::Pricing)
    ensures
        spec_encode(raw).len() == 203,
        spec_encode(raw)[0] == spec_flag(raw.tcgplayer.prices.normal),
        spec_encode(raw)[1] == spec_flag(raw.tcgplayer.prices.holofoil),
        spec_encode(raw)[2] == spec_flag(raw.tcgplayer.prices.reverse_holofoil),
        spec_encode(raw).subrange(3, 35) == spec_spread_bytes(raw.tcgplayer.prices.normal),
        spec_encode(raw).subrange(35, 67) == spec_spread_bytes(raw.tcgplayer.prices.holofoil),
        spec_encode(raw).subrange(67, 99) == spec_spread_bytes(
            raw.tcgplayer.prices.reverse_holofoil,
        ),
        spec_encode(raw).subrange(99, 195) == spec_cardmarket_bytes(raw.cardmarket.prices),
        spec_encode(raw).subrange(195, 203) == le_bytes(raw.updated_at),
{
    let tp = raw.tcgplayer.prices;
    let cp = raw.cardmarket.prices;
    let flags = seq![spec_flag(tp.normal), spec_flag(tp.holofoil), spec_flag(tp.reverse_holofoil)];
    let p1 = flags + spec_spread_bytes(tp.normal);
    let p2 = p1 + spec_spread_bytes(tp.holofoil);
    let p3 = p2 + spec_spread_bytes(tp.reverse_holofoil);
    let p4 = p3 + spec_cardmarket_bytes(cp);
    let e = p4 + le_bytes(raw.updated_at);
    assert(e == spec_encode(raw));
    assert(spec_spread_bytes(tp.normal).len() == 32);
    assert(spec_spread_bytes(tp.holofoil).len() == 32);
    assert(spec_spread_bytes(tp.reverse_holofoil).len() == 32);
    assert(spec_cardmarket_bytes(cp).len() == 96);
    assert(p1.len() == 35);
    assert(p2.len() == 67);
    assert(p3.len() == 99);
    assert(p4.len() == 195);
    assert(e.len() == 203);
    assert(e.subrange(0, 195) =~= p4);
    assert(p4.subrange(0, 99) =~= p3);
    assert(p3.subrange(0, 67) =~= p2);
    assert(p2.subrange(0, 35) =~= p1);
    assert(e[0] == spec_flag(tp.normal));
    assert(e[1] == spec_flag(tp.holofoil));
    assert(e[2] == spec_flag(tp.reverse_holofoil));
    assert(p1.subrange(3, 35) =~= spec_spread_bytes(tp.normal));
    assert(p2.subrange(35, 67) =~= spec_spread_bytes(tp.holofoil));
    assert(p3.subrange(67, 99) =~= spec_spread_bytes(tp.reverse_holofoil));
    assert(p4.subrange(99, 195) =~= spec_cardmarket_bytes(cp));
    assert(e.subrange(3, 35) =~= p1.subrange(3, 35));
    assert(e.subrange(35, 67) =~= p2.subrange(35, 67));
    assert(e.subrange(67, 99) =~= p3.subrange(67, 99));
    assert(e.subrange(99, 195) =~= p4.subrange(99, 195));
    assert(e.subrange(195, 203) =~= le_bytes(raw.updated_at));
}

/// Law: a cache record decodes back to exactly the raw payload it was
/// written for, timestamp included.
pub proof fn lemma_record_roundtrip(raw: provider::Pricing)
    ensures
        spec_decode(spec_encode(raw)) == Some(raw),
{
    let e = spec_encode(raw);
    let tp = raw.tcgplayer.prices;
    lemma_encode_parts(raw);
    lemma_spread_roundtrip(e, tp.normal, 3);
    lemma_spread_roundtrip(e, tp.holofoil, 35);
    lemma_spread_roundtrip(e, tp.reverse_holofoil, 67);
    lemma_cardmarket_roundtrip(e, raw.cardmarket.prices, 99);
    lemma_le_roundtrip(raw.updated_at);
}

/// Law: the cache round-trips through normalization. Writing the record
/// for a raw payload and reading it back yields exactly the pricing that
/// payload normalizes to, every price field and the timestamp alike.
pub proof fn lemma_cache_roundtrip(raw: provider::Pricing)
    ensures
        spec_read(Some(spec_encode(raw))) == Some(spec_normalize(raw)),
{
    lemma_record_roundtrip(raw);
}

} // verus!
