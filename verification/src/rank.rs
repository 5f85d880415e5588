//! Ranking: a verified descending sort of `(key, position)` pairs, used to
//! order cards by price and by rarity. Higher keys come first; equal keys
//! keep their original position order, which makes the sort stable.

use vstd::prelude::*;

verus! {

/// `a` may stand before `b`: a larger key, or an equal key and a position
/// no later.
pub open spec fn ranked_before(a: (u64, usize), b: (u64, usize)) -> bool {
    a.0 > b.0 || (a.0 == b.0 && a.1 <= b.1)
}

/// Whether `a` may stand before `b`.
fn before(a: (u64, usize), b: (u64, usize)) -> (r: bool)
    ensures
        r == ranked_before(a, b),
{
    a.0 > b.0 || (a.0 == b.0 && a.1 <= b.1)
}

/// Sorts pairs so that keys descend and equal keys keep position order.
/// The output holds exactly the input pairs: with pairwise distinct input
/// pairs the output is a duplicate-free rearrangement of them.
pub fn sort_ranked(v: &Vec<(u64, usize)>) -> (r: Vec<(u64, usize)>)
    requires
        forall|i: int, j: int| 0 <= i < j < v@.len() ==> v@[i] != v@[j],
    ensures
        r@.len() == v@.len(),
        forall|i: int, j: int| 0 <= i < j < r@.len() ==> ranked_before(r@[i], r@[j]),
        forall|k: int| 0 <= k < v@.len() ==> r@.contains(#[trigger] v@[k]),
        forall|m: int| 0 <= m < r@.len() ==> v@.contains(#[trigger] r@[m]),
        forall|i: int, j: int| 0 <= i < j < r@.len() ==> r@[i] != r@[j],
{
    let n = v.len();
    let mut out: Vec<(u64, usize)> = Vec::new();
    let mut k: usize = 0;
    while k < n
        invariant
            0 <= k <= n,
            n == v@.len(),
            forall|i: int, j: int| 0 <= i < j < v@.len() ==> v@[i] != v@[j],
            out@.len() == k,
            forall|i: int, j: int| 0 <= i < j < out@.len() ==> ranked_before(out@[i], out@[j]),
            forall|t: int| 0 <= t < k ==> out@.contains(#[trigger] v@[t]),
            forall|m: int| 0 <= m < out@.len() ==> exists|t: int|
                0 <= t < k && v@[t] == #[trigger] out@[m],
            forall|i: int, j: int| 0 <= i < j < out@.len() ==> out@[i] != out@[j],
        decreases n - k,
    {
        let x = v[k];
        let mut pos: usize = 0;
        while pos < out.len() && before(out[pos], x)
            invariant
                0 <= pos <= out@.len(),
                forall|j: int| 0 <= j < pos ==> ranked_before(#[trigger] out@[j], x),
            decreases out@.len() - pos,
        {
            pos += 1;
        }
        let ghost prev = out@;
        proof {
            if pos < prev.len() {
                assert(!ranked_before(prev[pos as int], x));
                assert(ranked_before(x, prev[pos as int]));
            }
            assert forall|m: int| 0 <= m < prev.len() implies prev[m] != x by {
                let t = choose|t: int| 0 <= t < k && v@[t] == prev[m];
                assert(v@[t] != v@[k as int]);
            }
        }
        out.insert(pos, x);
        proof {
            assert forall|i: int, j: int| 0 <= i < j < out@.len() implies ranked_before(
                out@[i],
                out@[j],
            ) by {
                if j < pos {
                } else if i < pos && j == pos {
                    assert(ranked_before(prev[i], x));
                } else if i == pos && j > pos {
                    assert(ranked_before(x, prev[pos as int]));
                    if j - 1 > pos {
                        assert(ranked_before(prev[pos as int], prev[j - 1]));
                    }
                    assert(ranked_before(x, prev[j - 1]));
                } else if i < pos && j > pos {
                    assert(ranked_before(prev[i], prev[j - 1]));
                } else {
                    assert(ranked_before(prev[i - 1], prev[j - 1]));
                }
            }
            assert forall|t: int| 0 <= t < k + 1 implies out@.contains(#[trigger] v@[t]) by {
                if t < k {
                    let idx = choose|idx: int| 0 <= idx < prev.len() && prev[idx] == v@[t];
                    if idx < pos {
                        assert(out@[idx] == v@[t]);
                    } else {
                        assert(out@[idx + 1] == v@[t]);
                    }
                } else {
                    assert(out@[pos as int] == v@[t]);
                }
            }
            assert forall|m: int| 0 <= m < out@.len() implies exists|t: int|
                0 <= t < k + 1 && v@[t] == #[trigger] out@[m] by {
                if m < pos {
                    assert(out@[m] == prev[m]);
                    let t = choose|t: int| 0 <= t < k && v@[t] == prev[m];
                    assert(v@[t] == out@[m]);
                } else if m == pos {
                    assert(out@[m] == v@[k as int]);
                } else {
                    assert(out@[m] == prev[m - 1]);
                    let t = choose|t: int| 0 <= t < k && v@[t] == prev[m - 1];
                    assert(v@[t] == out@[m]);
                }
            }
            assert forall|i: int, j: int| 0 <= i < j < out@.len() implies out@[i] != out@[j] by {
                let a = if i < pos {
                    prev[i]
                } else if i == pos {
                    x
                } else {
                    prev[i - 1]
                };
                let b = if j < pos {
                    prev[j]
                } else if j == pos {
                    x
                } else {
                    prev[j - 1]
                };
                assert(out@[i] == a && out@[j] == b);
            }
        }
        k += 1;
    }
    proof {
        assert forall|m: int| 0 <= m < out@.len() implies v@.contains(#[trigger] out@[m]) by {
            let t = choose|t: int| 0 <= t < n && v@[t] == out@[m];
            assert(v@[t] == out@[m]);
        }
    }
    out
}

} // verus!
