//! Small verified string helpers: decimal rendering and the character
//! transforms the provider's naming scheme is built from.

use vstd::prelude::*;

verus! {

/// Whether a character is an ASCII digit.
pub open spec fn spec_is_digit(c: char) -> bool {
    48 <= c as u32 <= 57
}

/// The digit character of a value below ten.
pub open spec fn digit_char(d: int) -> char {
    if d == 0 {
        '0'
    } else if d == 1 {
        '1'
    } else if d == 2 {
        '2'
    } else if d == 3 {
        '3'
    } else if d == 4 {
        '4'
    } else if d == 5 {
        '5'
    } else if d == 6 {
        '6'
    } else if d == 7 {
        '7'
    } else if d == 8 {
        '8'
    } else {
        '9'
    }
}

/// The decimal rendering of a value, most significant digit first.
pub open spec fn spec_decimal(n: int) -> Seq<char>
    recommends
        n >= 0,
    decreases n,
{
    if n < 10 {
        seq![digit_char(n)]
    } else {
        spec_decimal(n / 10).push(digit_char(n % 10))
    }
}

/// Appends one digit character.
pub fn append_digit(out: &mut String, d: u64)
    requires
        d < 10,
    ensures
        final(out)@ == old(out)@ + seq![digit_char(d as int)],
{
    proof {
        reveal_strlit("0");
        reveal_strlit("1");
        reveal_strlit("2");
        reveal_strlit("3");
        reveal_strlit("4");
        reveal_strlit("5");
        reveal_strlit("6");
        reveal_strlit("7");
        reveal_strlit("8");
        reveal_strlit("9");
    }
    if d == 0 {
        out.append("0");
    } else if d == 1 {
        out.append("1");
    } else if d == 2 {
        out.append("2");
    } else if d == 3 {
        out.append("3");
    } else if d == 4 {
        out.append("4");
    } else if d == 5 {
        out.append("5");
    } else if d == 6 {
        out.append("6");
    } else if d == 7 {
        out.append("7");
    } else if d == 8 {
        out.append("8");
    } else {
        out.append("9");
    }
    proof {
        assert(out@ =~= old(out)@ + seq![digit_char(d as int)]);
    }
}

/// Appends the decimal rendering of a value.
pub fn append_decimal(out: &mut String, n: u64)
    ensures
        final(out)@ == old(out)@ + spec_decimal(n as int),
    decreases n,
{
    if n < 10 {
        append_digit(out, n);
    } else {
        append_decimal(out, n / 10);
        append_digit(out, n % 10);
        proof {
            assert(out@ =~= old(out)@ + spec_decimal(n as int));
        }
    }
}

/// Whether `s` starts with `p`.
pub open spec fn spec_starts_with(s: Seq<char>, p: Seq<char>) -> bool {
    s.len() >= p.len() && s.subrange(0, p.len() as int) == p
}

/// Whether the string starts with the given prefix.
pub fn starts_with(s: &str, p: &str) -> (r: bool)
    ensures
        r == spec_starts_with(s@, p@),
{
    let n = s.unicode_len();
    let m = p.unicode_len();
    if n < m {
        proof {
            assert(!spec_starts_with(s@, p@));
        }
        return false;
    }
    let mut i: usize = 0;
    while i < m
        invariant
            0 <= i <= m,
            m == p@.len(),
            n == s@.len(),
            m <= n,
            forall|j: int| 0 <= j < i ==> s@[j] == p@[j],
        decreases m - i,
    {
        if s.get_char(i) != p.get_char(i) {
            proof {
                assert(s@.subrange(0, m as int)[i as int] != p@[i as int]);
            }
            return false;
        }
        i += 1;
    }
    proof {
        assert(s@.subrange(0, m as int) =~= p@);
    }
    true
}

/// `s` with each '.' replaced by `r`.
pub open spec fn spec_replace_dots(s: Seq<char>, r: Seq<char>) -> Seq<char>
    decreases s.len(),
{
    if s.len() == 0 {
        Seq::empty()
    } else {
        spec_replace_dots(s.drop_last(), r) + (if s.last() == '.' {
            r
        } else {
            seq![s.last()]
        })
    }
}

/// Appends `s` with each '.' replaced by `r`.
pub fn append_replacing_dots(out: &mut String, s: &str, r: &str)
    ensures
        final(out)@ == old(out)@ + spec_replace_dots(s@, r@),
{
    let n = s.unicode_len();
    let mut i: usize = 0;
    while i < n
        invariant
            0 <= i <= n,
            n == s@.len(),
            out@ == old(out)@ + spec_replace_dots(s@.take(i as int), r@),
        decreases n - i,
    {
        proof {
            assert(s@.take(i + 1).drop_last() =~= s@.take(i as int));
            assert(s@.take(i + 1).last() == s@[i as int]);
        }
        if s.get_char(i) == '.' {
            out.append(r);
        } else {
            let piece = s.substring_char(i, i + 1);
            out.append(piece);
            proof {
                assert(piece@ =~= seq![s@[i as int]]);
            }
        }
        proof {
            assert(out@ =~= old(out)@ + spec_replace_dots(s@.take(i + 1), r@));
        }
        i += 1;
    }
    proof {
        assert(s@.take(n as int) =~= s@);
    }
}

/// `s` without its leading '0' characters.
pub open spec fn spec_trim_zeros(s: Seq<char>) -> Seq<char>
    decreases s.len(),
{
    if s.len() > 0 && s[0] == '0' {
        spec_trim_zeros(s.subrange(1, s.len() as int))
    } else {
        s
    }
}

/// Dropping `i` leading zeros reaches the trimmed remainder.
proof fn lemma_trim_zeros(s: Seq<char>, i: int)
    requires
        0 <= i <= s.len(),
        forall|j: int| 0 <= j < i ==> s[j] == '0',
        i < s.len() ==> s[i] != '0',
    ensures
        spec_trim_zeros(s) == s.subrange(i, s.len() as int),
    decreases i,
{
    if i == 0 {
        if s.len() > 0 && s[0] == '0' {
            assert(false);
        }
        assert(s.subrange(0, s.len() as int) =~= s);
    } else {
        let rest = s.subrange(1, s.len() as int);
        lemma_trim_zeros(rest, i - 1);
        assert(rest.subrange(i - 1, rest.len() as int) =~= s.subrange(i, s.len() as int));
    }
}

/// The trimmed tail of the string: everything after the leading zeros.
pub fn trim_leading_zeros<'a>(s: &'a str) -> (r: &'a str)
    ensures
        r@ == spec_trim_zeros(s@),
{
    let n = s.unicode_len();
    let mut i: usize = 0;
    while i < n && s.get_char(i) == '0'
        invariant
            0 <= i <= n,
            n == s@.len(),
            forall|j: int| 0 <= j < i ==> s@[j] == '0',
        decreases n - i,
    {
        i += 1;
    }
    proof {
        lemma_trim_zeros(s@, i as int);
    }
    s.substring_char(i, n)
}

/// Everything after the last '-': the whole string when there is none,
/// and the empty string when '-' is the last character.
pub open spec fn spec_after_last_dash(s: Seq<char>) -> Seq<char>
    decreases s.len(),
{
    if s.len() == 0 {
        Seq::empty()
    } else if s.last() == '-' {
        Seq::empty()
    } else {
        spec_after_last_dash(s.drop_last()).push(s.last())
    }
}

/// The suffix that follows position `d` is the after-last-dash remainder,
/// when `d` sits right after the last dash.
proof fn lemma_after_last_dash(s: Seq<char>, d: int)
    requires
        0 <= d <= s.len(),
        forall|j: int| d <= j < s.len() ==> s[j] != '-',
        d > 0 ==> s[d - 1] == '-',
    ensures
        spec_after_last_dash(s) == s.subrange(d, s.len() as int),
    decreases s.len(),
{
    if s.len() == 0 {
        assert(s.subrange(0, 0) =~= Seq::<char>::empty());
    } else if d == s.len() {
        if d > 0 {
            assert(s.last() == '-');
            assert(s.subrange(d, s.len() as int) =~= Seq::<char>::empty());
        } else {
            assert(s.subrange(0, 0) =~= Seq::<char>::empty());
        }
    } else {
        assert(s.last() != '-');
        lemma_after_last_dash(s.drop_last(), d);
        assert(s.drop_last().subrange(d, s.drop_last().len() as int).push(s.last()) =~= s.subrange(
            d,
            s.len() as int,
        ));
    }
}

/// The substring after the last '-', or the whole string when there is no
/// '-' at all.
pub fn after_last_dash<'a>(s: &'a str) -> (r: &'a str)
    ensures
        r@ == spec_after_last_dash(s@),
{
    let n = s.unicode_len();
    let mut d: usize = n;
    while d > 0 && s.get_char(d - 1) != '-'
        invariant
            0 <= d <= n,
            n == s@.len(),
            forall|j: int| d <= j < n ==> s@[j] != '-',
        decreases d,
    {
        d -= 1;
    }
    proof {
        lemma_after_last_dash(s@, d as int);
    }
    s.substring_char(d, n)
}

} // verus!
