//! Fixed-width text fields: whitespace trimming and fixed-point decimals.
//!
//! A decimal is read as a whole number of thousandths, so `"-1.5"` is `-1500`.
//! At most three digits may follow the decimal point.
use vstd::prelude::*;

verus! {

/// ASCII whitespace: space, tab, line feed, vertical tab, form feed, carriage
/// return.
pub open spec fn is_space(b: u8) -> bool {
    b == 32 || (9 <= b && b <= 13)
}

pub open spec fn is_digit(b: u8) -> bool {
    48 <= b && b <= 57
}

pub open spec fn all_digits(s: Seq<u8>) -> bool {
    forall|i: int| 0 <= i < s.len() ==> is_digit(#[trigger] s[i])
}

/// `s` without its leading whitespace.
pub open spec fn trim_start(s: Seq<u8>) -> Seq<u8>
    decreases s.len(),
{
    if s.len() > 0 && is_space(s[0]) {
        trim_start(s.drop_first())
    } else {
        s
    }
}

/// `s` without its trailing whitespace.
pub open spec fn trim_end(s: Seq<u8>) -> Seq<u8>
    decreases s.len(),
{
    if s.len() > 0 && is_space(s.last()) {
        trim_end(s.drop_last())
    } else {
        s
    }
}

/// `s` without leading or trailing whitespace.
pub open spec fn trim(s: Seq<u8>) -> Seq<u8> {
    trim_end(trim_start(s))
}

pub open spec fn pow10(n: nat) -> int
    decreases n,
{
    if n == 0 {
        1
    } else {
        10 * pow10((n - 1) as nat)
    }
}

/// The number that the decimal digits `s` spell, most significant first.
pub open spec fn digits_value(s: Seq<u8>) -> int
    decreases s.len(),
{
    if s.len() == 0 {
        0
    } else {
        digits_value(s.drop_last()) * 10 + (s.last() - 48)
    }
}

/// How many decimal digits `s` starts with.
pub open spec fn digit_run(s: Seq<u8>) -> nat
    decreases s.len(),
{
    if s.len() > 0 && is_digit(s[0]) {
        1 + digit_run(s.drop_first())
    } else {
        0
    }
}

/// The value in thousandths of an unsigned decimal: digits, optionally
/// followed by a point and at most three more digits, with at least one digit
/// in all.
pub open spec fn unsigned_milli(b: Seq<u8>) -> Option<int> {
    let k = digit_run(b);
    let whole = digits_value(b.subrange(0, k as int));
    if k == b.len() {
        if k > 0 {
            Some(whole * 1000)
        } else {
            None
        }
    } else {
        let frac = b.subrange(k as int + 1, b.len() as int);
        if b[k as int] == 46 && all_digits(frac) && frac.len() <= 3 && b.len() >= 2 {
            Some(whole * 1000 + digits_value(frac) * pow10((3 - frac.len()) as nat))
        } else {
            None
        }
    }
}

/// The value in thousandths of a decimal with an optional leading `+` or `-`.
pub open spec fn milli_of(s: Seq<u8>) -> Option<int> {
    if s.len() > 0 && s[0] == 45 {
        match unsigned_milli(s.drop_first()) {
            Some(v) => Some(-v),
            None => None,
        }
    } else if s.len() > 0 && s[0] == 43 {
        unsigned_milli(s.drop_first())
    } else {
        unsigned_milli(s)
    }
}

pub proof fn lemma_pow10_positive(n: nat)
    ensures
        pow10(n) > 0,
    decreases n,
{
    if n > 0 {
        lemma_pow10_positive((n - 1) as nat);
    }
}

pub proof fn lemma_pow10_monotone(a: nat, b: nat)
    requires
        a <= b,
    ensures
        pow10(a) <= pow10(b),
    decreases b,
{
    if a < b {
        lemma_pow10_monotone(a, (b - 1) as nat);
        lemma_pow10_positive((b - 1) as nat);
    }
}

/// Finds the bounds of `s[start..end]` once whitespace is trimmed from both
/// ends.
pub fn trimmed_bounds(s: &[u8], start: usize, end: usize) -> (r: (usize, usize))
    requires
        start <= end <= s@.len(),
    ensures
        start <= r.0 <= r.1 <= end,
        s@.subrange(r.0 as int, r.1 as int) == trim(s@.subrange(start as int, end as int)),
{
    let mut lo: usize = start;
    while lo < end && (s[lo] == 32 || (9 <= s[lo] && s[lo] <= 13))
        invariant
            start <= lo <= end <= s@.len(),
            trim_start(s@.subrange(lo as int, end as int)) == trim_start(
                s@.subrange(start as int, end as int),
            ),
        decreases end - lo,
    {
        assert(s@.subrange(lo as int, end as int).drop_first() =~= s@.subrange(
            lo + 1,
            end as int,
        ));
        lo = lo + 1;
    }
    let mut hi: usize = end;
    while lo < hi && (s[hi - 1] == 32 || (9 <= s[hi - 1] && s[hi - 1] <= 13))
        invariant
            start <= lo <= hi <= end <= s@.len(),
            trim_end(s@.subrange(lo as int, hi as int)) == trim_end(
                s@.subrange(lo as int, end as int),
            ),
        decreases hi - lo,
    {
        assert(s@.subrange(lo as int, hi as int).drop_last() =~= s@.subrange(
            lo as int,
            hi - 1,
        ));
        hi = hi - 1;
    }
    (lo, hi)
}

proof fn lemma_pow10_values()
    ensures
        pow10(0) == 1,
        pow10(1) == 10,
        pow10(2) == 100,
        pow10(3) == 1000,
        pow10(15) == 1_000_000_000_000_000,
{
    reveal_with_fuel(pow10, 16);
}

/// Reads `s[lo..hi]` as an unsigned decimal, in thousandths.
fn unsigned_milli_in(s: &[u8], lo: usize, hi: usize) -> (r: Option<i64>)
    requires
        lo <= hi <= s@.len(),
        hi - lo <= 15,
    ensures
        match r {
            Some(v) => unsigned_milli(s@.subrange(lo as int, hi as int)) == Some(v as int) && 0
                <= v < pow10((hi - lo) as nat) * 1000,
            None => unsigned_milli(s@.subrange(lo as int, hi as int)) is None,
        },
{
    let ghost b = s@.subrange(lo as int, hi as int);
    proof {
        lemma_pow10_values();
    }
    let mut k: usize = lo;
    let mut whole: i64 = 0;
    while k < hi && 48 <= s[k] && s[k] <= 57
        invariant
            lo <= k <= hi <= s@.len(),
            hi - lo <= 15,
            b == s@.subrange(lo as int, hi as int),
            pow10(15) == 1_000_000_000_000_000,
            digit_run(b) == (k - lo) + digit_run(s@.subrange(k as int, hi as int)),
            whole == digits_value(s@.subrange(lo as int, k as int)),
            0 <= whole < pow10((k - lo) as nat),
        decreases hi - k,
    {
        proof {
            assert(s@.subrange(k as int, hi as int).drop_first() =~= s@.subrange(
                k + 1,
                hi as int,
            ));
            assert(s@.subrange(lo as int, k + 1).drop_last() =~= s@.subrange(lo as int, k as int));
            lemma_pow10_monotone((k + 1 - lo) as nat, 15);
        }
        whole = whole * 10 + (s[k] - 48) as i64;
        k = k + 1;
    }
    proof {
        assert(b.subrange(0, (k - lo) as int) =~= s@.subrange(lo as int, k as int));
        if k < hi {
            assert(s@.subrange(k as int, hi as int)[0] == s@[k as int]);
        }
        assert(digit_run(b) == k - lo);
        lemma_pow10_monotone((k - lo) as nat, (hi - lo) as nat);
        lemma_pow10_monotone((k - lo) as nat, 15);
        assert(whole * 1000 < 1_000_000_000_000_000_000) by (nonlinear_arith)
            requires
                0 <= whole < pow10((k - lo) as nat),
                pow10((k - lo) as nat) <= 1_000_000_000_000_000,
        ;
    }
    if k == hi {
        if k > lo {
            return Some(whole * 1000);
        } else {
            return None;
        }
    }
    assert(b[(k - lo) as int] == s@[k as int]);
    if s[k] != 46 || hi - k - 1 > 3 || hi - lo < 2 {
        return None;
    }
    let ghost frac = b.subrange((k - lo) as int + 1, b.len() as int);
    assert(frac =~= s@.subrange(k + 1, hi as int));
    let mut j: usize = k + 1;
    let mut part: i64 = 0;
    while j < hi
        invariant
            lo <= k < j <= hi <= s@.len(),
            hi - k - 1 <= 3,
            frac == s@.subrange(k + 1, hi as int),
            b == s@.subrange(lo as int, hi as int),
            digit_run(b) == k - lo,
            frac == b.subrange((k - lo) as int + 1, b.len() as int),
            pow10(3) == 1000,
            all_digits(s@.subrange(k + 1, j as int)),
            part == digits_value(s@.subrange(k + 1, j as int)),
            0 <= part < pow10((j - k - 1) as nat),
        decreases hi - j,
    {
        if s[j] < 48 || s[j] > 57 {
            assert(!is_digit(frac[(j - k - 1) as int]));
            return None;
        }
        proof {
            assert(s@.subrange(k + 1, j + 1).drop_last() =~= s@.subrange(k + 1, j as int));
            lemma_pow10_monotone((j + 1 - k - 1) as nat, 3);
        }
        part = part * 10 + (s[j] - 48) as i64;
        j = j + 1;
    }
    let n: usize = hi - k - 1;
    let scale: i64 = if n == 0 {
        1000
    } else if n == 1 {
        100
    } else if n == 2 {
        10
    } else {
        1
    };
    assert(scale == pow10((3 - n) as nat));
    assert(part * scale < 1000) by (nonlinear_arith)
        requires
            0 <= part < pow10(n as nat),
            n <= 3,
            scale == pow10((3 - n) as nat),
            pow10(0) == 1,
            pow10(1) == 10,
            pow10(2) == 100,
            pow10(3) == 1000,
    ;
    assert(whole * 1000 + part * scale < pow10((hi - lo) as nat) * 1000) by (nonlinear_arith)
        requires
            0 <= whole < pow10((k - lo) as nat),
            pow10((k - lo) as nat) <= pow10((hi - lo) as nat),
            0 <= part * scale < 1000,
    ;
    Some(whole * 1000 + part * scale)
}

/// Reads `s[lo..hi]` as a decimal with an optional sign, in thousandths.
pub fn decimal_milli(s: &[u8], lo: usize, hi: usize) -> (r: Option<i64>)
    requires
        lo <= hi <= s@.len(),
        hi - lo <= 15,
    ensures
        match r {
            Some(v) => milli_of(s@.subrange(lo as int, hi as int)) == Some(v as int) && -pow10(
                (hi - lo) as nat,
            ) * 1000 < v < pow10((hi - lo) as nat) * 1000,
            None => milli_of(s@.subrange(lo as int, hi as int)) is None,
        },
{
    if lo < hi && (s[lo] == 45 || s[lo] == 43) {
        proof {
            assert(s@.subrange(lo as int, hi as int).drop_first() =~= s@.subrange(
                lo + 1,
                hi as int,
            ));
            lemma_pow10_monotone((hi - lo - 1) as nat, (hi - lo) as nat);
        }
        match unsigned_milli_in(s, lo + 1, hi) {
            Some(v) => {
                if s[lo] == 45 {
                    Some(-v)
                } else {
                    Some(v)
                }
            },
            None => None,
        }
    } else {
        unsigned_milli_in(s, lo, hi)
    }
}

} // verus!
