//! Numeric literals inside class tokens: natural numbers, decimals,
//! fractions, spacing-scale keys and bracketed raw sizes.
use vstd::prelude::*;
use crate::style::{Num, Val};
use crate::text::{first_index_of, has_suffix, lemma_first_index_of, find_char, slice};

verus! {

/// An ASCII decimal digit.
pub open spec fn is_digit(c: char) -> bool {
    '0' <= c && c <= '9'
}

/// A non-empty run of decimal digits.
pub open spec fn all_digits(s: Seq<char>) -> bool {
    s.len() > 0 && forall|i: int| 0 <= i < s.len() ==> is_digit(#[trigger] s[i])
}

/// The number a run of decimal digits denotes.
pub open spec fn digits_value(s: Seq<char>) -> nat
    decreases s.len(),
{
    if s.len() == 0 {
        0
    } else {
        digits_value(s.drop_last()) * 10 + (s.last() as nat - '0' as nat) as nat
    }
}

/// Digits without a leading zero, except for "0" itself.
pub open spec fn canonical_digits(s: Seq<char>) -> bool {
    all_digits(s) && (s.len() == 1 || s[0] != '0')
}

/// The natural number `s` spells, if it is all digits and at most `max`.
pub open spec fn natural_value(s: Seq<char>, max: nat) -> Option<nat> {
    if all_digits(s) && digits_value(s) <= max {
        Some(digits_value(s))
    } else {
        None
    }
}

/// The largest number `parse_natural` reads: eighteen nines.
pub const NATURAL_MAX: u64 = 999_999_999_999_999_999;

/// An unsigned integer as Rust's integer parsing reads it: an optional `+`
/// and then digits, at most `max`.
pub open spec fn unsigned_value(s: Seq<char>, max: nat) -> Option<nat> {
    if s.len() > 0 && s[0] == '+' {
        natural_value(s.drop_first(), max)
    } else {
        natural_value(s, max)
    }
}

/// Ten to the power `n`.
pub open spec fn pow10(n: nat) -> nat
    decreases n,
{
    if n == 0 {
        1
    } else {
        10 * pow10((n - 1) as nat)
    }
}

/// Largest magnitude of the numerator, and of the denominator, of a decimal value.
pub const DECIMAL_MAX: u64 = NATURAL_MAX;

/// Largest power of ten a decimal value may be scaled by.
pub const SCALE_MAX: usize = 18;

/// Largest magnitude of the exponent of a decimal literal.
pub const EXPONENT_MAX: u64 = 1_000_000;

/// Digits, or nothing at all.
pub open spec fn digits_or_empty(s: Seq<char>) -> bool {
    s.len() == 0 || all_digits(s)
}

/// Index of the first `e` or `E` in `s`, if any.
pub open spec fn first_exp_index(s: Seq<char>) -> Option<int>
    decreases s.len(),
{
    if s.len() == 0 {
        None
    } else if s[0] == 'e' || s[0] == 'E' {
        Some(0)
    } else {
        match first_exp_index(s.drop_first()) {
            Some(i) => Some(i + 1),
            None => None,
        }
    }
}

/// The mantissa of a decimal literal: digits with at most one `.` among
/// them and at least one digit. Gives its digits without the point, and how
/// many of them follow the point.
pub open spec fn mantissa(m: Seq<char>) -> Option<(Seq<char>, nat)> {
    match first_index_of(m, '.') {
        None => if all_digits(m) {
            Some((m, 0nat))
        } else {
            None
        },
        Some(k) => {
            let ip = m.subrange(0, k);
            let fp = m.subrange(k + 1, m.len() as int);
            if digits_or_empty(ip) && digits_or_empty(fp) && ip.len() + fp.len() > 0 {
                Some((ip + fp, fp.len()))
            } else {
                None
            }
        },
    }
}

/// The exponent of a decimal literal: an optional sign, then digits.
pub open spec fn exponent(e: Seq<char>) -> Option<int> {
    if e.len() > 0 && e[0] == '-' {
        match natural_value(e.drop_first(), EXPONENT_MAX as nat) {
            Some(v) => Some(-(v as int)),
            None => None,
        }
    } else {
        match unsigned_value(e, EXPONENT_MAX as nat) {
            Some(v) => Some(v as int),
            None => None,
        }
    }
}

/// A decimal literal as Rust's float parsing reads it: an optional sign, a
/// mantissa, and optionally `e` or `E` and an exponent. Its value is exact
/// where numerator and denominator fit in `DECIMAL_MAX`.
pub open spec fn decimal_value(s: Seq<char>) -> Option<Num> {
    let neg = s.len() > 0 && s[0] == '-';
    let body = if s.len() > 0 && (s[0] == '-' || s[0] == '+') {
        s.drop_first()
    } else {
        s
    };
    let (m, e) = match first_exp_index(body) {
        None => (body, Some(0int)),
        Some(k) => (body.subrange(0, k), exponent(body.subrange(k + 1, body.len() as int))),
    };
    match (mantissa(m), e) {
        (Some((digits, scale)), Some(x)) => match natural_value(digits, DECIMAL_MAX as nat) {
            Some(v) => {
                let k = x - scale;
                if k >= 0 {
                    let w = v * pow10(k as nat);
                    if k <= SCALE_MAX && w <= DECIMAL_MAX {
                        Some(Num { num: (if neg { -(w as int) } else { w as int }) as i64, den: 1 })
                    } else {
                        None
                    }
                } else if -k <= SCALE_MAX {
                    Some(
                        Num {
                            num: (if neg { -(v as int) } else { v as int }) as i64,
                            den: pow10((-k) as nat) as u64,
                        },
                    )
                } else {
                    None
                }
            },
            None => None,
        },
        _ => None,
    }
}

/// `a/b` as a percentage: `a / b * 100`; each side is an unsigned integer
/// of 32 bits, and `b` is not zero.
pub open spec fn ratio_value(s: Seq<char>) -> Option<Val> {
    match first_index_of(s, '/') {
        None => None,
        Some(k) => {
            let a = unsigned_value(s.subrange(0, k), u32::MAX as nat);
            let b = unsigned_value(s.subrange(k + 1, s.len() as int), u32::MAX as nat);
            if a is Some && b is Some && b->0 != 0 {
                Some(Val::Percent(Num { num: (100 * a->0) as i64, den: b->0 as u64 }))
            } else {
                None
            }
        },
    }
}

/// A named fraction `a/b` of the spacing vocabulary: `b` one of 2, 3, 4, 5,
/// 6, 12 and `0 < a < b`, both written without leading zeros.
pub open spec fn named_fraction(s: Seq<char>) -> Option<Val> {
    match first_index_of(s, '/') {
        None => None,
        Some(k) => {
            let a = s.subrange(0, k);
            let b = s.subrange(k + 1, s.len() as int);
            if canonical_digits(a) && canonical_digits(b) && a.len() <= 2 && b.len() <= 2 {
                let (x, y) = (digits_value(a), digits_value(b));
                if (y == 2 || y == 3 || y == 4 || y == 5 || y == 6 || y == 12) && 0 < x < y {
                    Some(Val::Percent(Num { num: (100 * x) as i64, den: y as u64 }))
                } else {
                    None
                }
            } else {
                None
            }
        },
    }
}

/// The steps of the spacing scale, counted in halves: 0 to 4 by halves, 5 to
/// 12, 14, 16 to 64 by fours, 72, 80, 96.
pub open spec fn is_scale_step(h: nat) -> bool {
    h <= 8 || (h % 2 == 0 && h <= 24) || h == 28 || (h % 8 == 0 && 32 <= h <= 128) || h == 144
        || h == 160 || h == 192
}

/// A spacing-scale key in halves of a step: `px` counts as one step,
/// otherwise a number with at most two digits, optionally followed by `.5`.
pub open spec fn scale_halves(k: Seq<char>) -> Option<nat> {
    let h = if k == seq!['p', 'x'] {
        Some(2nat)
    } else {
        match first_index_of(k, '.') {
            None => if canonical_digits(k) && k.len() <= 2 {
                Some(2 * digits_value(k))
            } else {
                None
            },
            Some(d) => {
                let ip = k.subrange(0, d);
                if canonical_digits(ip) && ip.len() <= 2 && k.subrange(d + 1, k.len() as int)
                    == seq!['5'] {
                    Some(2 * digits_value(ip) + 1)
                } else {
                    None
                }
            },
        }
    };
    match h {
        Some(v) => if is_scale_step(v) {
            Some(v)
        } else {
            None
        },
        None => None,
    }
}

/// A bracketed raw size: a decimal with `%` or `px`, or a ratio `a/b`.
pub open spec fn raw_size(s: Seq<char>) -> Option<Val> {
    if has_suffix(s, seq!['%']) {
        match decimal_value(s.drop_last()) {
            Some(n) => Some(Val::Percent(n)),
            None => None,
        }
    } else if has_suffix(s, seq!['p', 'x']) {
        match decimal_value(s.subrange(0, s.len() - 2)) {
            Some(n) => Some(Val::Px(n)),
            None => None,
        }
    } else if first_index_of(s, '/') is Some {
        ratio_value(s)
    } else {
        None
    }
}

proof fn lemma_digits_value_prefix(s: Seq<char>, k: int)
    requires
        0 <= k <= s.len(),
    ensures
        digits_value(s.subrange(0, k)) <= digits_value(s),
    decreases s.len(),
{
    if k < s.len() {
        assert(s.drop_last().subrange(0, k) == s.subrange(0, k));
        lemma_digits_value_prefix(s.drop_last(), k);
    } else {
        assert(s.subrange(0, k) == s);
    }
}

/// The natural number spelled by `s[lo..hi]`, if it is all digits and at most `max`.
pub fn parse_natural(s: &Vec<char>, lo: usize, hi: usize, max: u64) -> (r: Option<u64>)
    requires
        lo <= hi <= s@.len(),
        max <= NATURAL_MAX,
    ensures
        r == (match natural_value(s@.subrange(lo as int, hi as int), max as nat) {
            Some(v) => Some(v as u64),
            None => None::<u64>,
        }),
{
    let ghost t = s@.subrange(lo as int, hi as int);
    if lo == hi {
        return None;
    }
    let mut acc: u64 = 0;
    let mut i: usize = lo;
    while i < hi
        invariant
            lo <= i <= hi <= s@.len(),
            t == s@.subrange(lo as int, hi as int),
            acc as nat == digits_value(t.subrange(0, i - lo)),
            acc <= max <= NATURAL_MAX,
            forall|j: int| 0 <= j < i - lo ==> is_digit(#[trigger] t[j]),
        decreases hi - i,
    {
        let c = s[i];
        if !('0' <= c && c <= '9') {
            assert(t[i - lo] == c);
            return None;
        }
        let d = (c as u32 - '0' as u32) as u64;
        let next = acc * 10 + d;
        assert(t.subrange(0, i + 1 - lo).drop_last() == t.subrange(0, i - lo));
        assert(t.subrange(0, i + 1 - lo).last() == c);
        if next > max {
            proof {
                lemma_digits_value_prefix(t, i + 1 - lo);
            }
            return None;
        }
        acc = next;
        i = i + 1;
    }
    assert(t.subrange(0, hi - lo) == t);
    Some(acc)
}

/// The unsigned integer spelled by `s[lo..hi]`, with an optional leading `+`.
pub fn parse_unsigned(s: &Vec<char>, lo: usize, hi: usize, max: u64) -> (r: Option<u64>)
    requires
        lo <= hi <= s@.len(),
        max <= NATURAL_MAX,
    ensures
        r == (match unsigned_value(s@.subrange(lo as int, hi as int), max as nat) {
            Some(v) => Some(v as u64),
            None => None::<u64>,
        }),
{
    if lo < hi && s[lo] == '+' {
        assert(s@.subrange(lo as int, hi as int).drop_first() == s@.subrange(lo + 1, hi as int));
        parse_natural(s, lo + 1, hi, max)
    } else {
        parse_natural(s, lo, hi, max)
    }
}

/// Whether `s[lo..hi]` is a non-empty run of digits.
pub fn is_all_digits(s: &Vec<char>, lo: usize, hi: usize) -> (r: bool)
    requires
        lo <= hi <= s@.len(),
    ensures
        r == all_digits(s@.subrange(lo as int, hi as int)),
{
    let ghost t = s@.subrange(lo as int, hi as int);
    if lo == hi {
        return false;
    }
    let mut i: usize = lo;
    while i < hi
        invariant
            lo <= i <= hi <= s@.len(),
            t == s@.subrange(lo as int, hi as int),
            forall|j: int| 0 <= j < i - lo ==> is_digit(#[trigger] t[j]),
        decreases hi - i,
    {
        if !('0' <= s[i] && s[i] <= '9') {
            assert(t[i - lo] == s@[i as int]);
            return false;
        }
        i = i + 1;
    }
    true
}

/// `s` without the character at `k`.
fn remove_at(s: &Vec<char>, k: usize) -> (r: Vec<char>)
    requires
        k < s@.len(),
    ensures
        r@ == s@.subrange(0, k as int) + s@.subrange(k + 1, s@.len() as int),
{
    let mut r: Vec<char> = Vec::new();
    let mut i: usize = 0;
    while i < s.len()
        invariant
            k < s@.len(),
            i <= s@.len(),
            i <= k ==> r@ == s@.subrange(0, i as int),
            i > k ==> r@ == s@.subrange(0, k as int) + s@.subrange(k + 1, i as int),
        decreases s@.len() - i,
    {
        if i != k {
            r.push(s[i]);
        }
        proof {
            if i > k {
                assert(s@.subrange(k + 1, i + 1) == s@.subrange(k + 1, i as int).push(s@[i as int]));
            } else if i == k {
                assert(s@.subrange(k + 1, i + 1) == Seq::<char>::empty());
            }
        }
        i = i + 1;
    }
    r
}

fn pow10_u64(n: usize) -> (r: u64)
    requires
        n <= SCALE_MAX,
    ensures
        r as nat == pow10(n as nat),
        r <= 1_000_000_000_000_000_000,
{
    let mut r: u64 = 1;
    let mut i: usize = 0;
    while i < n
        invariant
            i <= n <= SCALE_MAX,
            r as nat == pow10(i as nat),
            r as nat <= pow10(i as nat),
        decreases n - i,
    {
        proof {
            lemma_pow10_bound(i as nat);
        }
        assert(pow10((i + 1) as nat) == 10 * pow10(i as nat));
        r = r * 10;
        i = i + 1;
    }
    proof {
        lemma_pow10_bound_18(n as nat);
    }
    r
}

proof fn lemma_pow10_bound(n: nat)
    requires
        n < 18,
    ensures
        pow10(n) <= 100_000_000_000_000_000,
{
    reveal_with_fuel(pow10, 18);
}

proof fn lemma_pow10_bound_18(n: nat)
    requires
        n <= 18,
    ensures
        pow10(n) <= 1_000_000_000_000_000_000,
{
    reveal_with_fuel(pow10, 19);
}

fn find_exp(t: &Vec<char>) -> (r: Option<usize>)
    ensures
        match first_exp_index(t@) {
            Some(i) => r == Some(i as usize) && 0 <= i < t@.len(),
            None => r is None,
        },
{
    let mut i: usize = 0;
    while i < t.len()
        invariant
            i <= t@.len(),
            forall|j: int| 0 <= j < i ==> t@[j] != 'e' && t@[j] != 'E',
        decreases t@.len() - i,
    {
        if t[i] == 'e' || t[i] == 'E' {
            proof {
                lemma_first_exp_found(t@, i as int);
            }
            return Some(i);
        }
        i = i + 1;
    }
    proof {
        lemma_first_exp_none(t@);
    }
    None
}

proof fn lemma_first_exp_found(s: Seq<char>, i: int)
    requires
        0 <= i < s.len(),
        s[i] == 'e' || s[i] == 'E',
        forall|j: int| 0 <= j < i ==> s[j] != 'e' && s[j] != 'E',
    ensures
        first_exp_index(s) == Some(i),
    decreases s.len(),
{
    if i > 0 {
        let t = s.drop_first();
        assert forall|j: int| 0 <= j < i - 1 implies t[j] != 'e' && t[j] != 'E' by {
            assert(t[j] == s[j + 1]);
        }
        lemma_first_exp_found(t, i - 1);
    }
}

proof fn lemma_first_exp_none(s: Seq<char>)
    requires
        forall|j: int| 0 <= j < s.len() ==> s[j] != 'e' && s[j] != 'E',
    ensures
        first_exp_index(s) is None,
    decreases s.len(),
{
    if s.len() > 0 {
        let t = s.drop_first();
        assert forall|j: int| 0 <= j < t.len() implies t[j] != 'e' && t[j] != 'E' by {
            assert(t[j] == s[j + 1]);
        }
        lemma_first_exp_none(t);
    }
}

fn parse_mantissa(m: &Vec<char>) -> (r: Option<(Vec<char>, usize)>)
    ensures
        match mantissa(m@) {
            Some((d, k)) => r matches Some((dd, kk)) && dd@ == d && kk == k,
            None => r is None,
        },
{
    let n = m.len();
    match find_char(m, '.') {
        None => {
            assert(m@.subrange(0, n as int) == m@);
            if is_all_digits(m, 0, n) {
                Some((slice(m, 0, n), 0))
            } else {
                None
            }
        },
        Some(k) => {
            proof {
                lemma_first_index_of(m@, '.');
            }
            if (k > 0 && !is_all_digits(m, 0, k)) || (k + 1 < n && !is_all_digits(m, k + 1, n)) || n
                == 1 {
                return None;
            }
            Some((remove_at(m, k), n - k - 1))
        },
    }
}

fn parse_exponent(e: &Vec<char>) -> (r: Option<i64>)
    ensures
        match exponent(e@) {
            Some(x) => r == Some(x as i64) && -(EXPONENT_MAX as int) <= x <= EXPONENT_MAX,
            None => r is None,
        },
{
    let n = e.len();
    if n > 0 && e[0] == '-' {
        assert(e@.subrange(1, n as int) == e@.drop_first());
        match parse_natural(e, 1, n, EXPONENT_MAX) {
            Some(v) => Some(-(v as i64)),
            None => None,
        }
    } else {
        assert(e@.subrange(0, n as int) == e@);
        match parse_unsigned(e, 0, n, EXPONENT_MAX) {
            Some(v) => Some(v as i64),
            None => None,
        }
    }
}

/// Parses a decimal literal exactly.
pub fn parse_decimal(s: &Vec<char>) -> (r: Option<Num>)
    ensures
        r == decimal_value(s@),
{
    let n = s.len();
    let neg = n > 0 && s[0] == '-';
    let body = if n > 0 && (s[0] == '-' || s[0] == '+') {
        slice(s, 1, n)
    } else {
        slice(s, 0, n)
    };
    assert(n > 0 && (s@[0] == '-' || s@[0] == '+') ==> body@ == s@.drop_first());
    assert(!(n > 0 && (s@[0] == '-' || s@[0] == '+')) ==> body@ == s@);
    let bl = body.len();
    let (m, e) = match find_exp(&body) {
        None => {
            assert(body@.subrange(0, bl as int) == body@);
            (slice(&body, 0, bl), Some(0i64))
        },
        Some(k) => (slice(&body, 0, k), parse_exponent(&slice(&body, k + 1, bl))),
    };
    let (digits, scale) = match parse_mantissa(&m) {
        Some(x) => x,
        None => {
            return None;
        },
    };
    let x = match e {
        Some(x) => x,
        None => {
            return None;
        },
    };
    let dl = digits.len();
    assert(digits@.subrange(0, dl as int) == digits@);
    let v = match parse_natural(&digits, 0, dl, DECIMAL_MAX) {
        Some(v) => v,
        None => {
            return None;
        },
    };
    if scale > 2_000_000 {
        return None;
    }
    let k: i64 = x - scale as i64;
    if k >= 0 {
        if k > 18 {
            return None;
        }
        let p = pow10_u64(k as usize);
        assert((v as u128) * (p as u128) <= 1_000_000_000_000_000_000_000_000_000_000_000_000u128) by (nonlinear_arith)
            requires
                v <= 1_000_000_000_000_000_000u64,
                p <= 1_000_000_000_000_000_000u64,
        ;
        let w = (v as u128) * (p as u128);
        if w > DECIMAL_MAX as u128 {
            return None;
        }
        let w = w as i64;
        Some(Num { num: if neg { -w } else { w }, den: 1 })
    } else {
        if k < -18 {
            return None;
        }
        let den = pow10_u64((-k) as usize);
        let m = v as i64;
        Some(Num { num: if neg { -m } else { m }, den })
    }
}

/// Parses `a/b` as the percentage `a / b * 100`.
pub fn parse_ratio(s: &Vec<char>) -> (r: Option<Val>)
    ensures
        r == ratio_value(s@),
{
    let n = s.len();
    match find_char(s, '/') {
        None => None,
        Some(k) => {
            proof {
                lemma_first_index_of(s@, '/');
            }
            let a = parse_unsigned(s, 0, k, 0xFFFF_FFFF);
            let b = parse_unsigned(s, k + 1, n, 0xFFFF_FFFF);
            match (a, b) {
                (Some(x), Some(y)) => {
                    if y == 0 {
                        None
                    } else {
                        Some(Val::Percent(Num { num: (100 * x) as i64, den: y }))
                    }
                },
                _ => None,
            }
        },
    }
}

/// Parses a named fraction of the spacing vocabulary.
pub fn parse_named_fraction(s: &Vec<char>) -> (r: Option<Val>)
    ensures
        r == named_fraction(s@),
{
    let n = s.len();
    match find_char(s, '/') {
        None => None,
        Some(k) => {
            proof {
                lemma_first_index_of(s@, '/');
            }
            if k == 0 || k + 1 == n || k > 2 || n - k - 1 > 2 {
                return None;
            }
            if (k > 1 && s[0] == '0') || (n - k - 1 > 1 && s[k + 1] == '0') {
                return None;
            }
            let a = parse_natural(s, 0, k, 99);
            let b = parse_natural(s, k + 1, n, 99);
            match (a, b) {
                (Some(x), Some(y)) => {
                    if (y == 2 || y == 3 || y == 4 || y == 5 || y == 6 || y == 12) && 0 < x && x < y {
                        Some(Val::Percent(Num { num: (100 * x) as i64, den: y }))
                    } else {
                        None
                    }
                },
                _ => {
                    proof {
                        if all_digits(s@.subrange(0, k as int)) {
                            lemma_two_digits_bound(s@.subrange(0, k as int));
                        }
                        if all_digits(s@.subrange(k + 1, n as int)) {
                            lemma_two_digits_bound(s@.subrange(k + 1, n as int));
                        }
                    }
                    None
                },
            }
        },
    }
}

proof fn lemma_two_digits_bound(s: Seq<char>)
    requires
        all_digits(s),
        s.len() <= 2,
    ensures
        digits_value(s) <= 99,
{
    reveal_with_fuel(digits_value, 3);
    assert(is_digit(s[0]));
    if s.len() == 2 {
        assert(is_digit(s[1]));
        assert(s.drop_last().drop_last().len() == 0);
        assert(s.drop_last().last() == s[0]);
    } else {
        assert(s.drop_last().len() == 0);
    }
}

fn scale_step(h: u64) -> (r: bool)
    ensures
        r == is_scale_step(h as nat),
{
    h <= 8 || (h % 2 == 0 && h <= 24) || h == 28 || (h % 8 == 0 && 32 <= h && h <= 128) || h
        == 144 || h == 160 || h == 192
}

/// Parses a spacing-scale key, counting halves of a step.
pub fn parse_scale(k: &Vec<char>) -> (r: Option<u64>)
    ensures
        r == (match scale_halves(k@) {
            Some(h) => Some(h as u64),
            None => None::<u64>,
        }),
        r matches Some(h) ==> h <= 192,
{
    proof {
        reveal_strlit("px");
        assert("px"@ =~= seq!['p', 'x']);
        lemma_first_index_of(k@, '.');
    }
    let n = k.len();
    let h: Option<u64> = if crate::text::eq_lit(k, "px") {
        Some(2)
    } else {
        match find_char(k, '.') {
            None => {
                if n == 0 || n > 2 || (n > 1 && k[0] == '0') {
                    None
                } else {
                    assert(k@.subrange(0, n as int) == k@);
                    match parse_natural(k, 0, n, 99) {
                        Some(v) => Some(2 * v),
                        None => {
                            proof {
                                if all_digits(k@) {
                                    lemma_two_digits_bound(k@);
                                }
                            }
                            None
                        },
                    }
                }
            },
            Some(d) => {
                if d == 0 || d > 2 || (d > 1 && k[0] == '0') || n != d + 2 || k[d + 1] != '5' {
                    proof {
                        if d > 0 {
                            assert(k@.subrange(0, d as int)[0] == k@[0]);
                        }
                        if n >= d + 2 {
                            assert(k@.subrange(d + 1, n as int)[0] == k@[d + 1]);
                        }
                        assert(seq!['5'].len() == 1 && seq!['5'][0] == '5');
                    }
                    None
                } else {
                    assert(k@.subrange(d + 1, n as int) == seq!['5']);
                    match parse_natural(k, 0, d, 99) {
                        Some(v) => Some(2 * v + 1),
                        None => {
                            proof {
                                if all_digits(k@.subrange(0, d as int)) {
                                    lemma_two_digits_bound(k@.subrange(0, d as int));
                                }
                            }
                            None
                        },
                    }
                }
            },
        }
    };
    match h {
        Some(v) => if scale_step(v) {
            Some(v)
        } else {
            None
        },
        None => None,
    }
}

/// Parses the raw value of a bracketed size token.
pub fn parse_size(s: &Vec<char>) -> (r: Option<Val>)
    ensures
        r == raw_size(s@),
{
    proof {
        reveal_strlit("%");
        reveal_strlit("px");
        assert("%"@ =~= seq!['%']);
        assert("px"@ =~= seq!['p', 'x']);
    }
    let n = s.len();
    if crate::text::ends_with_lit(s, "%") {
        let head = slice(s, 0, n - 1);
        assert(head@ == s@.drop_last());
        match parse_decimal(&head) {
            Some(v) => Some(Val::Percent(v)),
            None => None,
        }
    } else if crate::text::ends_with_lit(s, "px") {
        let head = slice(s, 0, n - 2);
        match parse_decimal(&head) {
            Some(v) => Some(Val::Px(v)),
            None => None,
        }
    } else if find_char(s, '/').is_some() {
        parse_ratio(s)
    } else {
        None
    }
}

} // verus!
