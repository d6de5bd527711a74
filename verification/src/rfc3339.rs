//! The RFC 3339 date-time grammar, as a specification over character
//! sequences, together with a verified validator.
//!
//! The grammar accepted here is RFC 3339's `date-time` production, extended
//! with ISO 8601 expanded years: a year outside 0000..=9999 carries an
//! explicit sign and up to six digits.  Dates are checked for calendar
//! validity (month range, day range within the month, proleptic Gregorian
//! leap years); a second of 60 is allowed for leap seconds.

use vstd::prelude::*;

verus! {

/// A decimal digit character.
pub open spec fn is_digit(c: char) -> bool {
    '0' <= c && c <= '9'
}

/// The numeric value of a decimal digit character.
pub open spec fn digit_val(c: char) -> int {
    c as int - '0' as int
}

/// How many consecutive digit characters stand in `s` from position `i` on.
pub open spec fn leading_digits(s: Seq<char>, i: int) -> int
    decreases s.len() - i,
{
    if i < 0 || i >= s.len() || !is_digit(s[i]) {
        0
    } else {
        1 + leading_digits(s, i + 1)
    }
}

/// The number denoted by the digit characters of `s` in positions
/// `from..to`, most significant first.
pub open spec fn digits_val(s: Seq<char>, from: int, to: int) -> int
    decreases to - from,
{
    if to <= from {
        0
    } else {
        digits_val(s, from, to - 1) * 10 + digit_val(s[to - 1])
    }
}

/// The number denoted by the two digit characters at positions `i`, `i + 1`.
pub open spec fn two_val(s: Seq<char>, i: int) -> int {
    digit_val(s[i]) * 10 + digit_val(s[i + 1])
}

/// Proleptic Gregorian leap year.
pub open spec fn leap_year(y: int) -> bool {
    (y % 4 == 0 && y % 100 != 0) || y % 400 == 0
}

/// Number of days of month `m` (1-based) in year `y`.
pub open spec fn days_in_month(y: int, m: int) -> int {
    if m == 2 {
        if leap_year(y) {
            29
        } else {
            28
        }
    } else if m == 4 || m == 6 || m == 9 || m == 11 {
        30
    } else {
        31
    }
}

/// Length of the sign that opens the year field: 1 for an expanded year,
/// 0 for a plain four-digit year.
pub open spec fn year_sign_len(s: Seq<char>) -> int {
    if s.len() > 0 && (s[0] == '+' || s[0] == '-') {
        1
    } else {
        0
    }
}

/// Number of digit characters of the year field.
pub open spec fn year_digits(s: Seq<char>) -> int {
    leading_digits(s, year_sign_len(s))
}

/// Total length of the year field, sign included.
pub open spec fn year_len(s: Seq<char>) -> int {
    year_sign_len(s) + year_digits(s)
}

/// The year field is well-formed: exactly four digits, or a sign followed
/// by four to six digits (ISO 8601 expanded year).
pub open spec fn year_ok(s: Seq<char>) -> bool {
    if year_sign_len(s) == 0 {
        year_digits(s) == 4
    } else {
        4 <= year_digits(s) && year_digits(s) <= 6
    }
}

/// The signed numeric value of the year field.
pub open spec fn year_val(s: Seq<char>) -> int {
    let v = digits_val(s, year_sign_len(s), year_len(s));
    if s.len() > 0 && s[0] == '-' {
        -v
    } else {
        v
    }
}

/// The rest of the date, `-MM-DD`, standing at position `p`, with a valid
/// month and a day that exists in that month of the year.
pub open spec fn date_tail_ok(s: Seq<char>, p: int) -> bool {
    &&& s[p] == '-'
    &&& is_digit(s[p + 1])
    &&& is_digit(s[p + 2])
    &&& s[p + 3] == '-'
    &&& is_digit(s[p + 4])
    &&& is_digit(s[p + 5])
    &&& 1 <= two_val(s, p + 1) && two_val(s, p + 1) <= 12
    &&& 1 <= two_val(s, p + 4) && two_val(s, p + 4) <= days_in_month(year_val(s), two_val(s, p + 1))
}

/// The time of day, `Thh:mm:ss`, standing at position `p + 6`; a second of
/// 60 admits a leap second.
pub open spec fn time_ok(s: Seq<char>, p: int) -> bool {
    &&& s[p + 6] == 'T'
    &&& is_digit(s[p + 7])
    &&& is_digit(s[p + 8])
    &&& s[p + 9] == ':'
    &&& is_digit(s[p + 10])
    &&& is_digit(s[p + 11])
    &&& s[p + 12] == ':'
    &&& is_digit(s[p + 13])
    &&& is_digit(s[p + 14])
    &&& two_val(s, p + 7) <= 23
    &&& two_val(s, p + 10) <= 59
    &&& two_val(s, p + 13) <= 60
}

/// Length of the optional fractional-second field standing at position `q`,
/// the dot included.
pub open spec fn frac_len(s: Seq<char>, q: int) -> int {
    if q < s.len() && s[q] == '.' {
        1 + leading_digits(s, q + 1)
    } else {
        0
    }
}

/// The numeric UTC offset or `Z`, standing at position `q` and reaching the
/// end of the string.
pub open spec fn offset_ok(s: Seq<char>, q: int) -> bool {
    ||| (q == s.len() - 1 && s[q] == 'Z')
    ||| {
        &&& q == s.len() - 6
        &&& (s[q] == '+' || s[q] == '-')
        &&& is_digit(s[q + 1])
        &&& is_digit(s[q + 2])
        &&& s[q + 3] == ':'
        &&& is_digit(s[q + 4])
        &&& is_digit(s[q + 5])
        &&& two_val(s, q + 1) <= 23
        &&& two_val(s, q + 4) <= 59
    }
}

/// `s` is a complete RFC 3339 date-time: year, calendar date, time of day,
/// optional fractional seconds, and a UTC offset that closes the string.
pub open spec fn is_rfc3339(s: Seq<char>) -> bool {
    let p = year_len(s);
    let q = p + 15;
    let z = q + frac_len(s, q);
    &&& year_ok(s)
    &&& s.len() >= p + 16
    &&& date_tail_ok(s, p)
    &&& time_ok(s, p)
    &&& (q < s.len() && s[q] == '.' ==> leading_digits(s, q + 1) >= 1)
    &&& offset_ok(s, z)
}

/// A run of digits over `i..j`, closed on the right by the end of the
/// string or a non-digit, is exactly what `leading_digits` counts.
proof fn lemma_leading_digits(s: Seq<char>, i: int, j: int)
    requires
        0 <= i <= j <= s.len(),
        forall|k: int| i <= k < j ==> is_digit(s[k]),
        j == s.len() || !is_digit(s[j]),
    ensures
        leading_digits(s, i) == j - i,
    decreases j - i,
{
    if i < j {
        lemma_leading_digits(s, i + 1, j);
    }
}

/// Ten raised to `n`.
pub open spec fn pow10(n: nat) -> int
    decreases n,
{
    if n == 0 {
        1
    } else {
        10 * pow10((n - 1) as nat)
    }
}

/// A number written with `b - a` digits lies below ten to that power.
proof fn lemma_digits_val_bound(s: Seq<char>, a: int, b: int)
    requires
        a <= b,
        forall|k: int| a <= k < b ==> is_digit(s[k]),
    ensures
        0 <= digits_val(s, a, b) < pow10((b - a) as nat),
    decreases b - a,
{
    if a < b {
        lemma_digits_val_bound(s, a, b - 1);
    }
}

/// Powers of ten are at least one.
proof fn lemma_pow10_pos(n: nat)
    ensures
        pow10(n) >= 1,
    decreases n,
{
    if n > 0 {
        lemma_pow10_pos((n - 1) as nat);
    }
}

/// Powers of ten grow with the exponent.
proof fn lemma_pow10_mono(a: nat, b: nat)
    requires
        a <= b,
    ensures
        pow10(a) <= pow10(b),
    decreases b,
{
    if a < b {
        lemma_pow10_mono(a, (b - 1) as nat);
        lemma_pow10_pos((b - 1) as nat);
    }
}

/// Index of the first position at or after `start` that does not hold a
/// digit character (the length of the string if every one does).
fn count_digits(s: &str, start: usize) -> (j: usize)
    requires
        start <= s@.len(),
    ensures
        start <= j <= s@.len(),
        forall|k: int| start <= k < j ==> is_digit(s@[k]),
        j == s@.len() || !is_digit(s@[j as int]),
{
    let n = s.unicode_len();
    let mut j = start;
    loop
        invariant
            start <= j <= n,
            n == s@.len(),
            forall|k: int| start <= k < j ==> is_digit(s@[k]),
        ensures
            start <= j <= n,
            forall|k: int| start <= k < j ==> is_digit(s@[k]),
            j == n || !is_digit(s@[j as int]),
        decreases n - j,
    {
        if j >= n {
            break;
        }
        let c = s.get_char(j);
        let d = c as u32;
        if !(d >= 48 && d <= 57) {
            break;
        }
        j += 1;
    }
    j
}

/// The two-digit number standing at positions `i`, `i + 1`, or `None`
/// where one of the two characters is no digit.
fn two_digit_at(s: &str, i: usize) -> (r: Option<u32>)
    requires
        i + 1 < s@.len(),
        s@.len() <= usize::MAX,
    ensures
        match r {
            Some(v) => is_digit(s@[i as int]) && is_digit(s@[i as int + 1]) && v == two_val(
                s@,
                i as int,
            ),
            None => !(is_digit(s@[i as int]) && is_digit(s@[i as int + 1])),
        },
{
    let c1 = s.get_char(i) as u32;
    let c2 = s.get_char(i + 1) as u32;
    if c1 >= 48 && c1 <= 57 && c2 >= 48 && c2 <= 57 {
        Some((c1 - 48) * 10 + (c2 - 48))
    } else {
        None
    }
}

/// Checks whether `s` is an RFC 3339 date-time; returns exactly what
/// `is_rfc3339` states of its characters.
pub fn timestamp_is_rfc3339(s: &str) -> (b: bool)
    ensures
        b == is_rfc3339(s@),
{
    let n = s.unicode_len();
    if n == 0 {
        return false;
    }
    let c0 = s.get_char(0);
    let sgn: usize = if c0 == '+' || c0 == '-' {
        1
    } else {
        0
    };
    proof {
        assert(year_sign_len(s@) == sgn as int);
    }
    let j = count_digits(s, sgn);
    proof {
        lemma_leading_digits(s@, sgn as int, j as int);
        assert(year_digits(s@) == j - sgn);
        assert(year_len(s@) == j as int);
    }
    let yd: usize = j - sgn;
    if sgn == 0 && yd != 4 {
        return false;
    }
    if sgn == 1 && (yd < 4 || yd > 6) {
        return false;
    }
    // The absolute value of the year, from at most six digits.
    let mut yabs: u64 = 0;
    let mut k: usize = sgn;
    while k < j
        invariant
            sgn <= k <= j,
            j <= s@.len(),
            j - sgn <= 6,
            forall|m: int| sgn <= m < j ==> is_digit(s@[m]),
            yabs == digits_val(s@, sgn as int, k as int),
            0 <= yabs <= 999999,
        decreases j - k,
    {
        proof {
            lemma_digits_val_bound(s@, sgn as int, k as int);
            lemma_pow10_mono((k - sgn) as nat, 5);
            assert(pow10(0) == 1);
            assert(pow10(1) == 10);
            assert(pow10(2) == 100);
            assert(pow10(3) == 1000);
            assert(pow10(4) == 10000);
            assert(pow10(5) == 100000);
        }
        let c = s.get_char(k) as u32;
        yabs = yabs * 10 + ((c - 48) as u64);
        k += 1;
    }
    let neg: bool = sgn == 1 && c0 == '-';
    proof {
        assert(year_val(s@) == if neg {
            -(yabs as int)
        } else {
            yabs as int
        });
    }
    let p = j;
    if n - p < 16 {
        return false;
    }
    if s.get_char(p) != '-' {
        return false;
    }
    let month = match two_digit_at(s, p + 1) {
        Some(v) => v,
        None => {
            return false;
        },
    };
    if month < 1 || month > 12 {
        return false;
    }
    if s.get_char(p + 3) != '-' {
        return false;
    }
    let day = match two_digit_at(s, p + 4) {
        Some(v) => v,
        None => {
            return false;
        },
    };
    // Days of the month, with the proleptic Gregorian leap-year rule
    // computed on the year's absolute value.
    let leap: bool = (yabs % 4 == 0 && yabs % 100 != 0) || yabs % 400 == 0;
    proof {
        assert(leap == leap_year(year_val(s@)));
    }
    let dim: u32 = if month == 2 {
        if leap {
            29
        } else {
            28
        }
    } else if month == 4 || month == 6 || month == 9 || month == 11 {
        30
    } else {
        31
    };
    proof {
        assert(dim as int == days_in_month(year_val(s@), two_val(s@, p as int + 1)));
    }
    if day < 1 || day > dim {
        return false;
    }
    if s.get_char(p + 6) != 'T' {
        return false;
    }
    let hour = match two_digit_at(s, p + 7) {
        Some(v) => v,
        None => {
            return false;
        },
    };
    if hour > 23 {
        return false;
    }
    if s.get_char(p + 9) != ':' {
        return false;
    }
    let minute = match two_digit_at(s, p + 10) {
        Some(v) => v,
        None => {
            return false;
        },
    };
    if minute > 59 {
        return false;
    }
    if s.get_char(p + 12) != ':' {
        return false;
    }
    let second = match two_digit_at(s, p + 13) {
        Some(v) => v,
        None => {
            return false;
        },
    };
    if second > 60 {
        return false;
    }
    let q = p + 15;
    let z: usize = if s.get_char(q) == '.' {
        let e = count_digits(s, q + 1);
        proof {
            lemma_leading_digits(s@, q as int + 1, e as int);
        }
        if e == q + 1 {
            return false;
        }
        e
    } else {
        q
    };
    proof {
        assert(z as int == q + frac_len(s@, q as int));
    }
    if z >= n {
        return false;
    }
    let cz = s.get_char(z);
    if cz == 'Z' {
        return z == n - 1;
    }
    if !(cz == '+' || cz == '-') {
        return false;
    }
    if n - z != 6 {
        return false;
    }
    let oh = match two_digit_at(s, z + 1) {
        Some(v) => v,
        None => {
            return false;
        },
    };
    if oh > 23 {
        return false;
    }
    if s.get_char(z + 3) != ':' {
        return false;
    }
    let om = match two_digit_at(s, z + 4) {
        Some(v) => v,
        None => {
            return false;
        },
    };
    if om > 59 {
        return false;
    }
    true
}

} // verus!
