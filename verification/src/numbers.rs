//! Numeric interpretation of strings.
//!
//! Rule conditions compare attribute values numerically. Numbers are carried
//! as fixed-point values: a count of millionths (micros), so that comparisons
//! are exact and total. A condition operand may also be a semantic version
//! `X.Y.Z`; when both sides parse as semver they are compared component-wise
//! instead. The parsers here accept the decimal forms `[-]digits[.digits]`
//! and versions made of dot-separated unsigned integer components.

use vstd::arithmetic::div_mod::lemma_fundamental_div_mod;
use vstd::prelude::*;

verus! {

/// Scale of the fixed-point numbers: one unit is a millionth.
pub const MICROS_PER_UNIT: i64 = 1_000_000;

pub open spec fn is_digit(c: char) -> bool {
    '0' <= c && c <= '9'
}

pub open spec fn digit_val(c: char) -> int {
    c as int - '0' as int
}

pub open spec fn all_digits(s: Seq<char>) -> bool {
    forall|i: int| 0 <= i < s.len() ==> is_digit(#[trigger] s[i])
}

/// The integer denoted by a sequence of decimal digits, most significant
/// first.
pub open spec fn digits_val(s: Seq<char>) -> int
    decreases s.len(),
{
    if s.len() == 0 {
        0
    } else {
        digits_val(s.drop_last()) * 10 + digit_val(s.last())
    }
}

/// A string denotes a `u64` when it is non-empty, all digits, and in range.
pub open spec fn u64_string(s: Seq<char>) -> bool {
    s.len() > 0 && all_digits(s) && digits_val(s) <= u64::MAX
}

proof fn lemma_digits_val_nonneg(s: Seq<char>)
    requires
        all_digits(s),
    ensures
        digits_val(s) >= 0,
    decreases s.len(),
{
    if s.len() > 0 {
        assert(all_digits(s.drop_last()));
        lemma_digits_val_nonneg(s.drop_last());
    }
}

proof fn lemma_digits_val_prefix_le(s: Seq<char>, i: int)
    requires
        all_digits(s),
        0 <= i <= s.len(),
    ensures
        digits_val(s.take(i)) <= digits_val(s),
    decreases s.len() - i,
{
    if i < s.len() {
        assert(s.take(i + 1).drop_last() == s.take(i));
        assert(all_digits(s.take(i)));
        lemma_digits_val_nonneg(s.take(i));
        lemma_digits_val_prefix_le(s, i + 1);
    } else {
        assert(s.take(i) == s);
    }
}

/// Parses a non-empty all-digit string as a `u64`.
///
/// Returns `Some` exactly on strings that denote a `u64`; values beyond
/// `u64::MAX`, empty strings and non-digit characters give `None`.
pub fn parse_u64(s: &str) -> (r: Option<u64>)
    ensures
        r is Some <==> u64_string(s@),
        u64_string(s@) ==> r == Some(digits_val(s@) as u64),
{
    let n = s.unicode_len();
    if n == 0 {
        return None;
    }
    let mut acc: u64 = 0;
    let mut i: usize = 0;
    while i < n
        invariant
            0 < n == s@.len(),
            0 <= i <= n,
            all_digits(s@.take(i as int)),
            acc == digits_val(s@.take(i as int)),
        decreases n - i,
    {
        let c = s.get_char(i);
        if !(c >= '0' && c <= '9') {
            assert(!all_digits(s@));
            return None;
        }
        let d: u64 = (c as u32 - '0' as u32) as u64;
        if acc > (u64::MAX - d) / 10 {
            proof {
                let q = (u64::MAX - d) / 10;
                lemma_fundamental_div_mod((u64::MAX - d) as int, 10);
                assert(s@.take(i + 1).drop_last() == s@.take(i as int));
                assert(digits_val(s@.take(i + 1)) > u64::MAX);
                if all_digits(s@) {
                    lemma_digits_val_prefix_le(s@, i + 1);
                }
            }
            return None;
        }
        proof {
            let q = (u64::MAX - d) / 10;
            lemma_fundamental_div_mod((u64::MAX - d) as int, 10);
            assert(s@.take(i + 1).drop_last() == s@.take(i as int));
        }
        acc = acc * 10 + d;
        i = i + 1;
    }
    proof {
        assert(s@.take(n as int) == s@);
    }
    Some(acc)
}

/// `i` and `j` are the positions of the only two dots of `s`, and the three
/// parts around them each denote a `u64`.
pub open spec fn semver_split_valid(s: Seq<char>, i: int, j: int) -> bool {
    &&& 0 <= i < j < s.len()
    &&& s[i] == '.'
    &&& s[j] == '.'
    &&& (forall|k: int| 0 <= k < s.len() && s[k] == '.' ==> k == i || k == j)
    &&& u64_string(s.subrange(0, i))
    &&& u64_string(s.subrange(i + 1, j))
    &&& u64_string(s.subrange(j + 1, s.len() as int))
}

/// A semantic version: three dot-separated unsigned integer components.
pub open spec fn is_semver(s: Seq<char>) -> bool {
    exists|i: int, j: int| semver_split_valid(s, i, j)
}

/// The three components of a semantic version string.
pub open spec fn semver_val(s: Seq<char>) -> (int, int, int) {
    let (i, j) = choose|i: int, j: int| semver_split_valid(s, i, j);
    (
        digits_val(s.subrange(0, i)),
        digits_val(s.subrange(i + 1, j)),
        digits_val(s.subrange(j + 1, s.len() as int)),
    )
}

proof fn lemma_semver_split_unique(s: Seq<char>, i1: int, j1: int, i2: int, j2: int)
    requires
        semver_split_valid(s, i1, j1),
        semver_split_valid(s, i2, j2),
    ensures
        i1 == i2,
        j1 == j2,
{
}

/// The components of a version are non-negative and fit a `u64`.
pub proof fn lemma_semver_val_bounds(s: Seq<char>)
    requires
        is_semver(s),
    ensures
        0 <= semver_val(s).0 <= u64::MAX,
        0 <= semver_val(s).1 <= u64::MAX,
        0 <= semver_val(s).2 <= u64::MAX,
{
    let (i, j) = choose|i: int, j: int| semver_split_valid(s, i, j);
    lemma_digits_val_nonneg(s.subrange(0, i));
    lemma_digits_val_nonneg(s.subrange(i + 1, j));
    lemma_digits_val_nonneg(s.subrange(j + 1, s.len() as int));
}

/// A version string is not a decimal: it has two dots.
pub proof fn lemma_semver_not_decimal(s: Seq<char>)
    requires
        is_semver(s),
    ensures
        !is_decimal(s),
{
    let (i, j) = choose|i: int, j: int| semver_split_valid(s, i, j);
    assert(s.subrange(0, i).len() > 0 ==> is_digit(s.subrange(0, i)[0]));
    if i > 0 {
        assert(s[0] == s.subrange(0, i)[0]);
    }
    assert(s[0] != '-');
    assert(!all_digits(s)) by {
        assert(s[i] == '.');
        assert(!is_digit('.'));
    }
    assert forall|dot: int| !dec_split_valid(s, dot) by {
        if dec_split_valid(s, dot) {
            assert(i == dot);
            assert(j == dot);
        }
    }
}

/// Parses `X.Y.Z` into its three integer components.
///
/// Returns `Some` exactly on strings with two dots whose three parts each
/// denote a `u64`.
pub fn parse_semver(s: &str) -> (r: Option<(u64, u64, u64)>)
    ensures
        r is Some <==> is_semver(s@),
        is_semver(s@) ==> r == Some(
            (
                (semver_val(s@).0 as u64),
                (semver_val(s@).1 as u64),
                (semver_val(s@).2 as u64),
            ),
        ),
{
    let n = s.unicode_len();
    let mut dots: usize = 0;
    let mut d0: usize = 0;
    let mut d1: usize = 0;
    let mut i: usize = 0;
    while i < n
        invariant
            0 <= i <= n == s@.len(),
            dots <= 2,
            dots >= 1 ==> 0 <= d0 < i && s@[d0 as int] == '.',
            dots >= 2 ==> d0 < d1 < i && s@[d1 as int] == '.',
            forall|k: int|
                0 <= k < i && s@[k] == '.' ==> ((dots >= 1 && k == d0) || (dots >= 2 && k
                    == d1)),
        decreases n - i,
    {
        if s.get_char(i) == '.' {
            if dots == 0 {
                d0 = i;
            } else if dots == 1 {
                d1 = i;
            } else {
                // a third dot: no two positions can cover all dots
                proof {
                    assert forall|a: int, b: int| !semver_split_valid(s@, a, b) by {
                        if semver_split_valid(s@, a, b) {
                            assert(d0 == a || d0 == b);
                            assert(d1 == a || d1 == b);
                            assert(i == a || i == b);
                        }
                    }
                }
                return None;
            }
            dots = dots + 1;
        }
        i = i + 1;
    }
    if dots < 2 {
        proof {
            assert forall|a: int, b: int| !semver_split_valid(s@, a, b) by {
                if semver_split_valid(s@, a, b) {
                    assert(s@[a] == '.');
                    assert(s@[b] == '.');
                }
            }
        }
        return None;
    }
    let part0 = s.substring_char(0, d0);
    let part1 = s.substring_char(d0 + 1, d1);
    let part2 = s.substring_char(d1 + 1, n);
    let r0 = parse_u64(part0);
    let r1 = parse_u64(part1);
    let r2 = parse_u64(part2);
    match (r0, r1, r2) {
        (Some(a), Some(b), Some(c)) => {
            proof {
                assert(semver_split_valid(s@, d0 as int, d1 as int));
                let (ci, cj) = choose|i: int, j: int| semver_split_valid(s@, i, j);
                lemma_semver_split_unique(s@, d0 as int, d1 as int, ci, cj);
            }
            Some((a, b, c))
        },
        _ => {
            proof {
                assert forall|a: int, b: int| !semver_split_valid(s@, a, b) by {
                    if semver_split_valid(s@, a, b) {
                        assert(s@[a] == '.');
                        assert(s@[b] == '.');
                        assert(a == d0 && b == d1);
                    }
                }
            }
            None
        },
    }
}

pub open spec fn pow10(n: nat) -> int
    decreases n,
{
    if n == 0 {
        1
    } else {
        10 * pow10((n - 1) as nat)
    }
}

/// Micros denoted by a fraction part: its first six digits, scaled up when
/// fewer than six are present. Digits beyond the sixth are truncated.
pub open spec fn frac_micros(f: Seq<char>) -> int {
    if f.len() >= 6 {
        digits_val(f.take(6))
    } else {
        digits_val(f) * pow10((6 - f.len()) as nat)
    }
}

/// `dot` is the position of the only dot of `s`; the integer part before it
/// is non-empty and all parts are digits.
pub open spec fn dec_split_valid(s: Seq<char>, dot: int) -> bool {
    &&& 0 < dot < s.len()
    &&& s[dot] == '.'
    &&& (forall|k: int| 0 <= k < s.len() && s[k] == '.' ==> k == dot)
    &&& all_digits(s.subrange(0, dot))
    &&& all_digits(s.subrange(dot + 1, s.len() as int))
}

/// The micros denoted by an unsigned decimal string, or `None` when the
/// string is not of the form `digits[.digits]`.
pub open spec fn unsigned_micros(s: Seq<char>) -> Option<int> {
    if s.len() > 0 && all_digits(s) {
        Some(digits_val(s) * (MICROS_PER_UNIT as int))
    } else if exists|dot: int| dec_split_valid(s, dot) {
        let dot = choose|dot: int| dec_split_valid(s, dot);
        Some(
            digits_val(s.subrange(0, dot)) * (MICROS_PER_UNIT as int) + frac_micros(
                s.subrange(dot + 1, s.len() as int),
            ),
        )
    } else {
        None
    }
}

/// The micros denoted by a decimal string `[-]digits[.digits]`, or `None`
/// when it is not of that form.
pub open spec fn signed_micros(s: Seq<char>) -> Option<int> {
    if s.len() > 0 && s[0] == '-' {
        match unsigned_micros(s.subrange(1, s.len() as int)) {
            Some(v) => Some(-v),
            None => None,
        }
    } else {
        unsigned_micros(s)
    }
}

/// A decimal string whose value fits the fixed-point range.
pub open spec fn is_decimal(s: Seq<char>) -> bool {
    match signed_micros(s) {
        Some(v) => -(i64::MAX as int) <= v <= i64::MAX,
        None => false,
    }
}

/// The fixed-point value of a decimal string.
pub open spec fn dec_micros(s: Seq<char>) -> int {
    signed_micros(s)->Some_0
}

/// Parses an unsigned decimal body `digits[.digits]` into micros.
#[verifier::loop_isolation(false)]
fn parse_unsigned_micros(s: &str) -> (r: Option<i64>)
    ensures
        r is Some <==> (unsigned_micros(s@) is Some && unsigned_micros(s@)->Some_0
            <= i64::MAX),
        r is Some ==> r == Some(unsigned_micros(s@)->Some_0 as i64),
{
    proof {
        assert(pow10(5) == 100_000) by {
            reveal_with_fuel(pow10, 6);
        }
        assert(pow10(6) == 1_000_000) by {
            reveal_with_fuel(pow10, 7);
        }
    }
    let n = s.unicode_len();
    let mut dots: usize = 0;
    let mut d0: usize = n;
    let mut i: usize = 0;
    while i < n
        invariant
            0 <= i <= n,
            dots <= 1,
            dots == 0 ==> d0 == n,
            dots == 1 ==> 0 <= d0 < i && s@[d0 as int] == '.',
            forall|k: int| 0 <= k < i && s@[k] == '.' ==> (dots == 1 && k == d0),
        decreases n - i,
    {
        if s.get_char(i) == '.' {
            if dots == 1 {
                proof {
                    assert(!(s@.len() > 0 && all_digits(s@)));
                    assert forall|dot: int| !dec_split_valid(s@, dot) by {
                        if dec_split_valid(s@, dot) {
                            assert(d0 == dot);
                            assert(i == dot);
                        }
                    }
                }
                return None;
            }
            d0 = i;
            dots = dots + 1;
        }
        i = i + 1;
    }
    if dots == 0 {
        // plain integer
        proof {
            assert forall|dot: int| !dec_split_valid(s@, dot) by {
                if dec_split_valid(s@, dot) {
                    assert(s@[dot] == '.');
                }
            }
            lemma_fundamental_div_mod(i64::MAX as int, MICROS_PER_UNIT as int);
        }
        let whole = parse_u64(s);
        match whole {
            Some(v) => {
                if v <= (i64::MAX / MICROS_PER_UNIT) as u64 {
                    proof {
                        lemma_digits_val_nonneg(s@);
                    }
                    Some((v as i64) * MICROS_PER_UNIT)
                } else {
                    proof {
                        lemma_digits_val_nonneg(s@);
                    }
                    None
                }
            },
            None => {
                proof {
                    if s@.len() > 0 && all_digits(s@) {
                        // overflowed u64, so certainly over the micros bound
                        lemma_digits_val_nonneg(s@);
                    }
                }
                None
            },
        }
    } else {
        if d0 == 0 {
            // empty integer part
            proof {
                assert(s@[0] == '.');
                assert(!(s@.len() > 0 && all_digits(s@)));
                assert forall|dot: int| !dec_split_valid(s@, dot) by {
                    if dec_split_valid(s@, dot) {
                        assert(dot == d0);
                    }
                }
            }
            return None;
        }
        let int_part = s.substring_char(0, d0);
        let whole = parse_u64(int_part);
        // validate the fraction digits and read the first six
        let flen = n - d0 - 1;
        let ghost fview = s@.subrange(d0 + 1, n as int);
        let mut frac: i64 = 0;
        let mut k: usize = 0;
        while k < flen
            invariant
                0 <= k <= flen,
                all_digits(fview.take(k as int)),
                k < 6 ==> frac == digits_val(fview.take(k as int)),
                k >= 6 ==> frac == digits_val(fview.take(6)),
                0 <= frac < 1_000_000,
            decreases flen - k,
        {
            let c = s.get_char(d0 + 1 + k);
            proof {
                assert(fview[k as int] == s@[d0 + 1 + k]);
            }
            if !(c >= '0' && c <= '9') {
                proof {
                    assert(!(s@.len() > 0 && all_digits(s@)));
                    assert forall|dot: int| !dec_split_valid(s@, dot) by {
                        if dec_split_valid(s@, dot) {
                            assert(dot == d0);
                            assert(s@.subrange(dot + 1, s@.len() as int)[k as int] == s@[d0 + 1
                                + k]);
                        }
                    }
                }
                return None;
            }
            if k < 6 {
                let d: i64 = (c as u32 - '0' as u32) as i64;
                proof {
                    assert(fview.take(k + 1).drop_last() == fview.take(k as int));
                    assert(fview.take(k + 1).last() == fview[k as int]);
                    lemma_digits_val_bound(fview.take(k + 1));
                    lemma_pow10_le((k + 1) as nat, 6);
                }
                frac = frac * 10 + d;
            } else {
                proof {
                    assert(fview.take(k + 1).take(6) == fview.take(6));
                }
            }
            proof {
                assert(all_digits(fview.take(k + 1)));
            }
            k = k + 1;
        }
        proof {
            assert(fview.take(flen as int) == fview);
        }
        // scale short fractions up to six digits
        if flen < 6 {
            let mut scale: i64 = 1;
            let mut t: usize = flen;
            while t < 6
                invariant
                    flen <= t <= 6,
                    scale == pow10((t - flen) as nat),
                    1 <= scale <= 1_000_000,
                decreases 6 - t,
            {
                proof {
                    lemma_pow10_le((t - flen) as nat, 5);
                    assert(pow10((t + 1 - flen) as nat) == 10 * pow10((t - flen) as nat));
                }
                scale = scale * 10;
                t = t + 1;
            }
            proof {
                lemma_digits_val_bound(fview);
                lemma_pow10_le(fview.len(), 5);
                vstd::arithmetic::mul::lemma_mul_inequality(
                    frac as int,
                    pow10(fview.len()) - 1,
                    scale as int,
                );
                vstd::arithmetic::mul::lemma_mul_is_distributive_sub_other_way(
                    scale as int,
                    pow10(fview.len()),
                    1,
                );
                lemma_pow10_add(fview.len(), (6 - flen) as nat);
                vstd::arithmetic::mul::lemma_mul_nonnegative(frac as int, scale as int);
            }
            frac = frac * scale;
        }
        proof {
            assert(frac == frac_micros(fview));
            assert(0 <= frac < 1_000_000);
        }
        match whole {
            Some(v) => {
                if v <= ((i64::MAX - frac) / MICROS_PER_UNIT) as u64 {
                    proof {
                        lemma_digits_val_nonneg(int_part@);
                        lemma_fundamental_div_mod((i64::MAX - frac) as int, MICROS_PER_UNIT as int);
                        assert(dec_split_valid(s@, d0 as int));
                        let c = choose|dot: int| dec_split_valid(s@, dot);
                        assert(c == d0 as int);
                    }
                    Some((v as i64) * MICROS_PER_UNIT + frac)
                } else {
                    proof {
                        lemma_digits_val_nonneg(int_part@);
                        lemma_fundamental_div_mod((i64::MAX - frac) as int, MICROS_PER_UNIT as int);
                        assert(dec_split_valid(s@, d0 as int));
                        let c = choose|dot: int| dec_split_valid(s@, dot);
                        assert(c == d0 as int);
                        lemma_digits_val_nonneg(s@.subrange(0, d0 as int));
                    }
                    None
                }
            },
            None => {
                proof {
                    if int_part@.len() > 0 && all_digits(int_part@) {
                        lemma_digits_val_nonneg(int_part@);
                        if exists|dot: int| dec_split_valid(s@, dot) {
                            let c = choose|dot: int| dec_split_valid(s@, dot);
                            assert(dec_split_valid(s@, d0 as int));
                            assert(c == d0 as int);
                        }
                    } else {
                        assert(!(s@.len() > 0 && all_digits(s@)));
                        assert forall|dot: int| !dec_split_valid(s@, dot) by {
                            if dec_split_valid(s@, dot) {
                                assert(dot == d0);
                            }
                        }
                    }
                }
                None
            },
        }
    }
}

proof fn lemma_digits_val_bound(s: Seq<char>)
    requires
        all_digits(s),
    ensures
        0 <= digits_val(s) < pow10(s.len()),
    decreases s.len(),
{
    if s.len() > 0 {
        assert(all_digits(s.drop_last()));
        lemma_digits_val_bound(s.drop_last());
    }
}

proof fn lemma_pow10_le(a: nat, b: nat)
    requires
        a <= b,
    ensures
        1 <= pow10(a) <= pow10(b),
    decreases b,
{
    if a < b {
        lemma_pow10_le(a, (b - 1) as nat);
    } else if b > 0 {
        lemma_pow10_le((a - 1) as nat, (b - 1) as nat);
    }
}

proof fn lemma_pow10_add(a: nat, b: nat)
    ensures
        pow10(a) * pow10(b) == pow10((a + b) as nat),
    decreases a,
{
    if a == 0 {
        assert(pow10(0) == 1);
    } else {
        lemma_pow10_add((a - 1) as nat, b);
        assert(pow10(a) * pow10(b) == (10 * pow10((a - 1) as nat)) * pow10(b));
        vstd::arithmetic::mul::lemma_mul_is_associative(10, pow10((a - 1) as nat), pow10(b));
    }
}

/// Parses a decimal string `[-]digits[.digits]` as a fixed-point number of
/// micros. The fraction is read to six digits; further digits are truncated.
pub fn parse_decimal_micros(s: &str) -> (r: Option<i64>)
    ensures
        r is Some <==> is_decimal(s@),
        is_decimal(s@) ==> r == Some(dec_micros(s@) as i64),
{
    let n = s.unicode_len();
    if n > 0 && s.get_char(0) == '-' {
        let body = s.substring_char(1, n);
        proof {
            lemma_unsigned_micros_nonneg(body@);
            assert(body@ == s@.subrange(1, s@.len() as int));
        }
        match parse_unsigned_micros(body) {
            Some(v) => Some(-v),
            None => None,
        }
    } else {
        proof {
            lemma_unsigned_micros_nonneg(s@);
        }
        parse_unsigned_micros(s)
    }
}

proof fn lemma_unsigned_micros_nonneg(s: Seq<char>)
    ensures
        unsigned_micros(s) is Some ==> unsigned_micros(s)->Some_0 >= 0,
{
    if s.len() > 0 && all_digits(s) {
        lemma_digits_val_nonneg(s);
    } else if exists|dot: int| dec_split_valid(s, dot) {
        let dot = choose|dot: int| dec_split_valid(s, dot);
        lemma_digits_val_nonneg(s.subrange(0, dot));
        let f = s.subrange(dot + 1, s.len() as int);
        if f.len() >= 6 {
            lemma_digits_val_nonneg(f.take(6));
            assert(all_digits(f.take(6)));
        } else {
            lemma_digits_val_nonneg(f);
            lemma_pow10_le(0, (6 - f.len()) as nat);
        }
    }
}

/// The decimal digit character of a value below ten.
pub open spec fn digit_char(d: int) -> char {
    (48 + d) as char
}

/// The decimal rendering of a natural number, most significant digit
/// first.
pub open spec fn nat_string(n: int) -> Seq<char>
    decreases n,
{
    if n < 10 {
        seq![digit_char(n)]
    } else {
        nat_string(n / 10) + seq![digit_char(n % 10)]
    }
}

/// The decimal rendering of an integer.
pub open spec fn int_string(v: int) -> Seq<char> {
    if v < 0 {
        seq!['-'] + nat_string(-v)
    } else {
        nat_string(v)
    }
}

fn render_digit(d: u64) -> (r: &'static str)
    requires
        d < 10,
    ensures
        r@ == seq![digit_char(d as int)],
{
    proof {
        reveal_strlit("0");
        reveal_strlit("1");
        reveal_strlit("2");
        reveal_strlit("3");
        reveal_strlit("4");
        reveal_strlit("5");
        reveal_strlit("6");
        reveal_strlit("7");
        reveal_strlit("8");
        reveal_strlit("9");
    }
    let r = match d {
        0 => "0",
        1 => "1",
        2 => "2",
        3 => "3",
        4 => "4",
        5 => "5",
        6 => "6",
        7 => "7",
        8 => "8",
        _ => "9",
    };
    proof {
        assert(r@ =~= seq![digit_char(d as int)]);
    }
    r
}

fn render_u64(v: u64) -> (r: String)
    ensures
        r@ == nat_string(v as int),
    decreases v,
{
    if v < 10 {
        String::from_str(render_digit(v))
    } else {
        proof {
            lemma_fundamental_div_mod(v as int, 10);
        }
        let mut s = render_u64(v / 10);
        s.append(render_digit(v % 10));
        s
    }
}

/// Renders an integer as its decimal string.
pub fn render_i64(v: i64) -> (r: String)
    ensures
        r@ == int_string(v as int),
{
    if v >= 0 {
        render_u64(v as u64)
    } else {
        let magnitude: u64 = (-(v as i128)) as u64;
        let mut s = String::from_str("-");
        s.append(render_u64(magnitude).as_str());
        proof {
            reveal_strlit("-");
            assert(s@ =~= int_string(v as int));
        }
        s
    }
}

/// A zero-padded decimal rendering of `f`, exactly `width` digits (the
/// low `width` digits of `f`).
pub open spec fn pad_string(f: int, width: nat) -> Seq<char>
    decreases width,
{
    if width == 0 {
        Seq::empty()
    } else {
        pad_string(f / 10, (width - 1) as nat).push(digit_char(f % 10))
    }
}

/// The sequence without its trailing zero characters.
pub open spec fn trim_zeros(s: Seq<char>) -> Seq<char>
    decreases s.len(),
{
    if s.len() > 0 && s.last() == '0' {
        trim_zeros(s.drop_last())
    } else {
        s
    }
}

/// The decimal rendering of a fixed-point micros value, as a plain
/// decimal: sign, whole units, and — when the value is fractional — a
/// dot and the fraction digits with trailing zeros trimmed.
pub open spec fn micros_string(m: int) -> Seq<char> {
    let a = vstd::math::abs(m) as int;
    let sign: Seq<char> = if m < 0 {
        seq!['-']
    } else {
        Seq::empty()
    };
    let units = a / 1_000_000;
    let frac = a % 1_000_000;
    if frac == 0 {
        sign + nat_string(units)
    } else {
        sign + nat_string(units) + seq!['.'] + trim_zeros(pad_string(frac, 6))
    }
}

fn pad_render(f: u64, width: usize) -> (r: String)
    ensures
        r@ == pad_string(f as int, width as nat),
    decreases width,
{
    if width == 0 {
        String::new()
    } else {
        proof {
            lemma_fundamental_div_mod(f as int, 10);
        }
        let mut s = pad_render(f / 10, width - 1);
        s.append(render_digit(f % 10));
        proof {
            assert(s@ =~= pad_string(f as int, width as nat));
        }
        s
    }
}

proof fn lemma_digit_char_nonzero(d: int)
    requires
        1 <= d <= 9,
    ensures
        digit_char(d) != '0',
{
    assert((48 + 1) as char != '0');
    assert((48 + 2) as char != '0');
    assert((48 + 3) as char != '0');
    assert((48 + 4) as char != '0');
    assert((48 + 5) as char != '0');
    assert((48 + 6) as char != '0');
    assert((48 + 7) as char != '0');
    assert((48 + 8) as char != '0');
    assert((48 + 9) as char != '0');
}

/// Renders a fixed-point micros value as its decimal string.
#[verifier::loop_isolation(false)]
pub fn render_micros(m: i64) -> (r: String)
    ensures
        r@ == micros_string(m as int),
{
    proof {
        assert(pow10(6) == 1_000_000) by {
            reveal_with_fuel(pow10, 7);
        }
    }
    let magnitude: u64 = if m >= 0 {
        m as u64
    } else {
        (-(m as i128)) as u64
    };
    proof {
        assert(magnitude == vstd::math::abs(m as int));
    }
    let units = magnitude / 1_000_000;
    let frac = magnitude % 1_000_000;
    let mut s = if m < 0 {
        String::from_str("-")
    } else {
        String::new()
    };
    proof {
        reveal_strlit("-");
    }
    s.append(render_u64(units).as_str());
    if frac != 0 {
        s.append(".");
        proof {
            reveal_strlit(".");
        }
        // strip the trailing zeros of the six fraction digits
        let ghost frac0 = frac as int;
        let mut f = frac;
        let mut width: usize = 6;
        while f % 10 == 0
            invariant
                1 <= width <= 6,
                1 <= f < pow10(width as nat),
                trim_zeros(pad_string(frac0, 6)) == trim_zeros(pad_string(f as int, width as nat)),
            decreases f,
        {
            proof {
                lemma_fundamental_div_mod(f as int, 10);
                assert(f >= 10);
                assert(pow10(1) == 10) by {
                    reveal_with_fuel(pow10, 2);
                }
                assert(width >= 2) by {
                    if width == 1 {
                        assert(pow10(width as nat) == 10);
                    }
                }
                assert(pow10(width as nat) == 10 * pow10((width - 1) as nat));
                assert(10 * (f as int / 10) < 10 * pow10((width - 1) as nat));
                assert(pad_string(f as int, width as nat).last() == '0');
                assert(pad_string(f as int, width as nat).drop_last() == pad_string(
                    (f / 10) as int,
                    (width - 1) as nat,
                ));
            }
            f = f / 10;
            width = width - 1;
        }
        proof {
            lemma_digit_char_nonzero((f % 10) as int);
            assert(pad_string(f as int, width as nat).last() != '0');
            assert(trim_zeros(pad_string(f as int, width as nat)) == pad_string(
                f as int,
                width as nat,
            ));
        }
        s.append(pad_render(f, width).as_str());
        proof {
            assert(s@ =~= micros_string(m as int));
        }
    } else {
        proof {
            assert(s@ =~= micros_string(m as int));
        }
    }
    s
}

} // verus!

