//! Numbers with nine decimals, and how they are read from and written as text.
//!
//! Times are counted in nanoseconds and scores in billionths, so one second and
//! the score one are both [`UNIT`].

use vstd::prelude::*;
use vstd::string::StringExecFns;
use crate::text::{chars_of, same, text_between};

verus! {

/// One second in nanoseconds; the number one in billionths.
pub const UNIT: i64 = 1_000_000_000;

/// The character of a decimal digit.
pub open spec fn digit_char(d: int) -> char {
    ((48 + d) as u8) as char
}

/// The value of a decimal digit.
pub open spec fn digit_value(c: char) -> int {
    c as int - 48
}

/// A decimal digit.
pub open spec fn is_digit(c: char) -> bool {
    '0' <= c <= '9'
}

/// A natural number in decimal, without leading zeros.
pub open spec fn nat_text(n: nat) -> Seq<char>
    decreases n,
{
    if n < 10 {
        seq![digit_char(n as int)]
    } else {
        nat_text(n / 10).push(digit_char((n % 10) as int))
    }
}

/// A number takes at least one digit.
pub proof fn lemma_nat_text(n: nat)
    ensures
        nat_text(n).len() >= 1,
    decreases n,
{
    if n >= 10 {
        lemma_nat_text(n / 10);
    }
}

/// Writes a natural number in decimal.
pub fn nat_string(n: u128) -> (s: String)
    ensures
        s@ == nat_text(n as nat),
    decreases n,
{
    if n < 10 {
        let mut s: String = String::new();
        s.push((48u8 + n as u8) as char);
        assert(s@ =~= seq![digit_char(n as int)]);
        s
    } else {
        let mut s = nat_string(n / 10);
        s.push((48u8 + (n % 10) as u8) as char);
        s
    }
}

/// A whole number in decimal, with a minus sign where it is negative.
pub open spec fn int_text(n: int) -> Seq<char> {
    if n < 0 {
        "-"@ + nat_text((-n) as nat)
    } else {
        nat_text(n as nat)
    }
}

/// Writes a whole number in decimal.
pub fn int_string(n: i64) -> (s: String)
    ensures
        s@ == int_text(n as int),
{
    if n < 0 {
        let mut s: String = "-".to_owned();
        let digits = nat_string((-(n as i128)) as u128);
        s.append(digits.as_str());
        s
    } else {
        nat_string(n as u128)
    }
}

/// `s` with zeros in front of it up to `width` characters.
pub open spec fn zero_padded(s: Seq<char>, width: nat) -> Seq<char> {
    if s.len() >= width {
        s
    } else {
        Seq::new((width - s.len()) as nat, |i: int| '0') + s
    }
}

/// Writes a natural number in decimal with at least `width` digits.
pub fn padded_string(n: u128, width: usize) -> (s: String)
    ensures
        s@ == zero_padded(nat_text(n as nat), width as nat),
{
    let digits = chars_of(nat_string(n).as_str());
    let mut s: String = String::new();
    let mut k: usize = digits.len();
    while k < width
        invariant
            digits@.len() <= k,
            k <= width || k == digits@.len(),
            s@ == Seq::new((k - digits@.len()) as nat, |i: int| '0'),
        decreases width - k,
    {
        s.push('0');
        k += 1;
        assert(s@ =~= Seq::new((k - digits@.len()) as nat, |i: int| '0'));
    }
    let text = text_between(&digits, 0, digits.len());
    assert(text@ =~= digits@);
    s.append(text.as_str());
    assert(s@ =~= zero_padded(nat_text(n as nat), width as nat));
    s
}

/// `a / b` rounded to the nearest whole number, and to the even one of two that
/// are equally near.
pub open spec fn div_even(a: nat, b: nat) -> nat {
    if 2 * (a % b) > b || (2 * (a % b) == b && (a / b) % 2 == 1) {
        a / b + 1
    } else {
        a / b
    }
}

/// Divides, rounding to the nearest whole number and halves to the even one.
pub fn divide_even(a: u128, b: u128) -> (q: u128)
    requires
        0 < b < 0x4000_0000_0000_0000_0000_0000_0000_0000,
    ensures
        q == div_even(a as nat, b as nat),
{
    let q: u128 = a / b;
    let r: u128 = a % b;
    if 2 * r > b || (2 * r == b && q % 2 == 1) {
        assert(q < u128::MAX) by (nonlinear_arith)
            requires
                q == a / b,
                r == a % b,
                b > 0,
                r > 0,
                a <= u128::MAX,
        {
            assert(a == b * q + r);
            assert(b * q >= q);
        }
        q + 1
    } else {
        q
    }
}

/// Ten to the power `n`.
pub open spec fn pow10(n: nat) -> nat
    decreases n,
{
    if n == 0 {
        1
    } else {
        10 * pow10((n - 1) as nat)
    }
}

/// `product` and `p` doubled together until `product` makes a significand of 53
/// bits, counted in `UNIT`ths.
pub open spec fn widened(product: nat, p: nat) -> (nat, nat)
    decreases 9_007_199_254_740_992_000_000_000 - product,
{
    if product == 0 || product >= 4_503_599_627_370_496_000_000_000 {
        (product, p)
    } else {
        widened(2 * product, 2 * p)
    }
}

/// A number of `UNIT`ths in binary, as a significand and what divides it: the
/// nearest number with a significand of 53 bits, and the even one of two that are
/// equally near.
pub open spec fn binary(size: nat) -> (nat, nat) {
    let (product, p) = widened(size, 1);
    (div_even(product, 1_000_000_000), p)
}

/// A number of `UNIT`ths with `decimals` digits after the point: that of the
/// nearest binary number, rounded to the nearest and halves to the even digit.
pub open spec fn fixed_text(v: int, decimals: nat) -> Seq<char> {
    let size = (if v < 0 { -v } else { v }) as nat;
    let (significand, p) = binary(size);
    let scaled = div_even(significand * pow10(decimals), p);
    let sign = if v < 0 { "-"@ } else { ""@ };
    if decimals == 0 {
        sign + nat_text(scaled)
    } else {
        sign + nat_text(scaled / pow10(decimals)) + "."@ + zero_padded(
            nat_text(scaled % pow10(decimals)),
            decimals,
        )
    }
}

/// Finds the binary number that is nearest to a number of `UNIT`ths.
fn nearest_binary(size: u128) -> (res: (u128, u128))
    requires
        size < 0x1_0000_0000_0000_0000_0000,
    ensures
        (res.0 as nat, res.1 as nat) == binary(size as nat),
        res.0 <= 0x40_0000_0000_0000,
        0 < res.1 < 0x10_0000_0000_0000_0000_0000,
{
    let mut product: u128 = size;
    let mut p: u128 = 1;
    while product != 0 && product < 4_503_599_627_370_496_000_000_000
        invariant
            widened(size as nat, 1) == widened(product as nat, p as nat),
            product < 9_007_199_254_740_992_000_000_000,
            p > 0,
            product == 0 ==> p == 1,
            product > 0 ==> p <= product,
        decreases 9_007_199_254_740_992_000_000_000 - product,
    {
        product = 2 * product;
        p = 2 * p;
    }
    (divide_even(product, 1_000_000_000), p)
}

/// Writes a number of `UNIT`ths with `decimals` digits after the point.
pub fn fixed_string(v: i128, decimals: usize) -> (s: String)
    requires
        decimals <= 9,
        -0x1_0000_0000_0000_0000_0000 < v < 0x1_0000_0000_0000_0000_0000,
    ensures
        s@ == fixed_text(v as int, decimals as nat),
{
    let size: u128 = if v < 0 { (-v) as u128 } else { v as u128 };
    let unit: u128 = power_of_ten(decimals);
    let (significand, p) = nearest_binary(size);
    assert(significand * unit <= 0x40_0000_0000_0000 * 1_000_000_000) by (nonlinear_arith)
        requires
            significand <= 0x40_0000_0000_0000,
            unit <= 1_000_000_000,
    ;
    let scaled = divide_even(significand * unit, p);
    let mut s: String = if v < 0 { "-".to_owned() } else { "".to_owned() };
    if decimals == 0 {
        let whole = nat_string(scaled);
        s.append(whole.as_str());
    } else {
        let whole = nat_string(scaled / unit);
        let part = padded_string(scaled % unit, decimals);
        s.append(whole.as_str());
        s.append(".");
        s.append(part.as_str());
    }
    s
}

/// Ten to the power `n`, for small `n`.
fn power_of_ten(n: usize) -> (p: u128)
    requires
        n <= 9,
    ensures
        p == pow10(n as nat),
        0 < p <= 1_000_000_000,
{
    let mut p: u128 = 1;
    let mut i: usize = 0;
    assert(pow10(0) == 1);
    while i < n
        invariant
            i <= n <= 9,
            p == pow10(i as nat),
            i == 0 ==> p == 1,
            i == 1 ==> p == 10,
            i == 2 ==> p == 100,
            i == 3 ==> p == 1000,
            i == 4 ==> p == 10000,
            i == 5 ==> p == 100000,
            i == 6 ==> p == 1000000,
            i == 7 ==> p == 10000000,
            i == 8 ==> p == 100000000,
            i == 9 ==> p == 1000000000,
        decreases n - i,
    {
        p = p * 10;
        i += 1;
    }
    p
}

/// The number of digits that `s` begins with.
pub open spec fn digit_run(s: Seq<char>) -> int
    decreases s.len(),
{
    if s.len() > 0 && is_digit(s[0]) {
        1 + digit_run(s.drop_first())
    } else {
        0
    }
}

/// The digits at the head of a text are within it, and the next character is
/// no digit.
pub proof fn lemma_digit_run(s: Seq<char>)
    ensures
        0 <= digit_run(s) <= s.len(),
        digit_run(s) < s.len() ==> !is_digit(s[digit_run(s)]),
        forall|k: int| 0 <= k < digit_run(s) ==> is_digit(#[trigger] s[k]),
    decreases s.len(),
{
    if s.len() > 0 && is_digit(s[0]) {
        lemma_digit_run(s.drop_first());
        assert forall|k: int| 0 <= k < digit_run(s) implies is_digit(#[trigger] s[k]) by {
            if k > 0 {
                assert(s[k] == s.drop_first()[k - 1]);
            }
        }
        if digit_run(s) < s.len() {
            assert(s[digit_run(s)] == s.drop_first()[digit_run(s.drop_first())]);
        }
    }
}

/// The whole number that the first `n` digits of `d` write, with zeros after
/// the last digit of `d`.
pub open spec fn leading_value(d: Seq<char>, n: int) -> int
    decreases n,
{
    if n <= 0 {
        0
    } else {
        10 * leading_value(d, n - 1) + if n <= d.len() {
            digit_value(d[n - 1])
        } else {
            0
        }
    }
}

/// `0.d` times ten to the power `point`, in `UNIT`ths, rounded to the nearest
/// and halves away from zero.
pub open spec fn scaled_value(d: Seq<char>, point: int) -> int {
    let n = point + 9;
    leading_value(d, n) + if 0 <= n < d.len() && digit_value(d[n]) >= 5 {
        1int
    } else {
        0
    }
}

/// The parts of a number without sign: the digits before the point, the digits
/// after it, and what follows.
pub open spec fn number_parts(t: Seq<char>) -> (Seq<char>, Seq<char>, Seq<char>) {
    let i = digit_run(t);
    if i < t.len() && t[i] == '.' {
        let u = t.skip(i + 1);
        let j = digit_run(u);
        (t.take(i), u.take(j), u.skip(j))
    } else {
        (t.take(i), Seq::empty(), t.skip(i))
    }
}

/// The exponent that `r` writes: none at all, or `e` with a whole number.
pub open spec fn exponent_value(r: Seq<char>) -> Option<int> {
    if r.len() == 0 {
        Some(0)
    } else if r[0] != 'e' && r[0] != 'E' {
        None
    } else {
        let signed = r.len() > 1 && (r[1] == '-' || r[1] == '+');
        let digits = if signed { r.skip(2) } else { r.skip(1) };
        if digits.len() == 0 || digit_run(digits) != digits.len() {
            None
        } else if signed && r[1] == '-' {
            Some(-leading_value(digits, digits.len() as int))
        } else {
            Some(leading_value(digits, digits.len() as int))
        }
    }
}

/// What a text says about a number.
pub enum Decimal {
    /// A number, in `UNIT`ths.
    Finite(int),
    /// Above every number, or below every number.
    Infinite(bool),
    /// The text `nan`, with or without a minus sign.
    Undefined(bool),
}

/// Equal up to the case of ASCII letters, where `word` is in small letters.
pub open spec fn same_word(t: Seq<char>, word: Seq<char>) -> bool {
    t.map_values(|c: char| crate::text::ascii_lower(c)) == word
}

/// The number that a text without sign writes.
pub open spec fn unsigned_decimal(t: Seq<char>) -> Option<Decimal> {
    if same_word(t, "inf"@) || same_word(t, "infinity"@) {
        Some(Decimal::Infinite(false))
    } else if same_word(t, "nan"@) {
        Some(Decimal::Undefined(false))
    } else {
        let (whole, part, rest) = number_parts(t);
        match exponent_value(rest) {
            Some(e) if whole.len() + part.len() > 0 => Some(
                Decimal::Finite(scaled_value(whole + part, whole.len() + e)),
            ),
            _ => None,
        }
    }
}

/// The number that a text writes: an optional sign, then digits with an
/// optional point and exponent, or one of the words `inf`, `infinity`, `nan`.
pub open spec fn decimal(s: Seq<char>) -> Option<Decimal> {
    if s.len() > 0 && (s[0] == '-' || s[0] == '+') {
        match unsigned_decimal(s.skip(1)) {
            Some(Decimal::Finite(v)) => Some(
                Decimal::Finite(
                    if s[0] == '-' {
                        -v
                    } else {
                        v
                    },
                ),
            ),
            Some(Decimal::Infinite(_)) => Some(Decimal::Infinite(s[0] == '-')),
            Some(Decimal::Undefined(_)) => Some(Decimal::Undefined(s[0] == '-')),
            None => None,
        }
    } else {
        unsigned_decimal(s)
    }
}

/// The nearest number of 64 bits.
pub open spec fn clamped(v: int) -> i64 {
    if v > i64::MAX {
        i64::MAX
    } else if v < i64::MIN {
        i64::MIN
    } else {
        v as i64
    }
}

/// A number that was read from text.
#[derive(Clone, Copy, PartialEq, Eq, Structural, Debug)]
pub enum Reading {
    /// A number in `UNIT`ths, held within 64 bits.
    Value(i64),
    /// The text `nan`, with or without a minus sign.
    NotANumber(bool),
}

/// A [`Decimal`] as a [`Reading`].
pub open spec fn reading(d: Decimal) -> Reading {
    match d {
        Decimal::Finite(v) => Reading::Value(clamped(v)),
        Decimal::Infinite(below) => Reading::Value(
            if below {
                i64::MIN
            } else {
                i64::MAX
            },
        ),
        Decimal::Undefined(negative) => Reading::NotANumber(negative),
    }
}

/// What reading a text as a number gives.
pub open spec fn read_decimal(s: Seq<char>) -> Option<Reading> {
    match decimal(s) {
        Some(d) => Some(reading(d)),
        None => None,
    }
}

/// Digits write no negative number.
proof fn lemma_leading_nonneg(d: Seq<char>, n: int)
    requires
        forall|k: int| 0 <= k < d.len() ==> is_digit(#[trigger] d[k]),
    ensures
        0 <= leading_value(d, n),
    decreases n,
{
    if n > 0 {
        lemma_leading_nonneg(d, n - 1);
    }
}

/// More digits never write a smaller number.
proof fn lemma_leading_grows(d: Seq<char>, m: int, n: int)
    requires
        forall|k: int| 0 <= k < d.len() ==> is_digit(#[trigger] d[k]),
        m <= n,
    ensures
        leading_value(d, m) <= leading_value(d, n),
    decreases n - m,
{
    if m < n {
        lemma_leading_grows(d, m, n - 1);
        lemma_leading_nonneg(d, n - 1);
    }
}

/// Past the last digit, zero stays zero and anything else grows tenfold.
proof fn lemma_leading_past(d: Seq<char>, m: int, n: int)
    requires
        forall|k: int| 0 <= k < d.len() ==> is_digit(#[trigger] d[k]),
        d.len() <= m <= n,
    ensures
        leading_value(d, m) == 0 ==> leading_value(d, n) == 0,
        leading_value(d, m) > 0 && m < n ==> leading_value(d, n) >= 10 * leading_value(d, m),
    decreases n - m,
{
    lemma_leading_nonneg(d, m);
    if m < n {
        lemma_leading_past(d, m, n - 1);
        lemma_leading_nonneg(d, n - 1);
        if m < n - 1 {
            assert(leading_value(d, n) == 10 * leading_value(d, n - 1));
        }
    }
}

/// What the first `n` digits write, or the cap `limit` where that is more.
fn leading_digits(d: &Vec<char>, n: i128, limit: i128) -> (v: i128)
    requires
        forall|k: int| 0 <= k < d@.len() ==> is_digit(#[trigger] d@[k]),
        0 <= limit <= 0x1_0000_0000_0000_0000_0000_0000,
    ensures
        v == if leading_value(d@, n as int) > limit {
            limit as int
        } else {
            leading_value(d@, n as int)
        },
{
    let mut v: i128 = 0;
    let mut i: i128 = 0;
    let len: i128 = d.len() as i128;
    while i < n
        invariant
            forall|k: int| 0 <= k < d@.len() ==> is_digit(#[trigger] d@[k]),
            0 <= limit <= 0x1_0000_0000_0000_0000_0000_0000,
            len == d.len(),
            0 <= i,
            i <= n || (i == 0 && n < 0),
            v == leading_value(d@, i as int),
            0 <= v <= limit,
        decreases n - i,
    {
        if i >= len && v == 0 {
            proof {
                lemma_leading_past(d@, i as int, n as int);
            }
            return 0;
        }
        let digit: i128 = if i < len { (d[i as usize] as u32) as i128 - 48 } else { 0 };
        v = 10 * v + digit;
        i += 1;
        proof {
            lemma_leading_nonneg(d@, i as int);
        }
        if v > limit {
            proof {
                lemma_leading_grows(d@, i as int, n as int);
            }
            return limit;
        }
    }
    v
}

/// The number of digits from position `from` on.
fn digits_from(v: &Vec<char>, from: usize) -> (n: usize)
    requires
        from <= v@.len(),
    ensures
        from + n <= v.len(),
        n == digit_run(v@.skip(from as int)),
        forall|k: int| from <= k < from + n ==> is_digit(#[trigger] v@[k]),
{
    let mut i: usize = from;
    while i < v.len() && '0' <= v[i] && v[i] <= '9'
        invariant
            from <= i <= v@.len(),
            digit_run(v@.skip(from as int)) == (i - from) + digit_run(v@.skip(i as int)),
            forall|k: int| from <= k < i ==> is_digit(#[trigger] v@[k]),
        decreases v@.len() - i,
    {
        assert(v@.skip(i as int).drop_first() == v@.skip(i + 1));
        i += 1;
    }
    i - from
}

/// The characters `v[from..to]`.
fn slice_of(v: &Vec<char>, from: usize, to: usize) -> (s: Vec<char>)
    requires
        from <= to <= v@.len(),
    ensures
        s@ == v@.subrange(from as int, to as int),
{
    let mut s: Vec<char> = Vec::new();
    let mut i: usize = from;
    while i < to
        invariant
            from <= i <= to <= v@.len(),
            s@ == v@.subrange(from as int, i as int),
        decreases to - i,
    {
        s.push(v[i]);
        i += 1;
    }
    s
}

/// Beyond any exponent that tells apart numbers of 64 bits with texts that fit
/// in memory.
const FAR: i128 = 0x1_0000_0000_0000_0000_0000;

/// Reads an exponent, no further from zero than [`FAR`].
fn exponent_from(v: &Vec<char>, from: usize) -> (res: Option<i128>)
    requires
        from <= v@.len(),
    ensures
        match (res, exponent_value(v@.skip(from as int))) {
            (Some(e), Some(x)) => e == if x > FAR {
                FAR as int
            } else if x < -FAR {
                -FAR as int
            } else {
                x
            },
            (None, None) => true,
            _ => false,
        },
{
    let ghost r = v@.skip(from as int);
    if from == v.len() {
        return Some(0);
    }
    if v[from] != 'e' && v[from] != 'E' {
        return None;
    }
    let mut at: usize = from + 1;
    let mut negative: bool = false;
    if at < v.len() && (v[at] == '-' || v[at] == '+') {
        negative = v[at] == '-';
        at += 1;
        assert(r.skip(2) == v@.skip(at as int));
    } else {
        assert(r.skip(1) == v@.skip(at as int));
    }
    let n = digits_from(v, at);
    if n == 0 || at + n != v.len() {
        return None;
    }
    let digits = slice_of(v, at, v.len());
    assert(digits@ == v@.skip(at as int));
    proof {
        lemma_leading_nonneg(digits@, digits@.len() as int);
    }
    let e = leading_digits(&digits, digits.len() as i128, FAR);
    if negative {
        Some(-e)
    } else {
        Some(e)
    }
}

/// Far to either side, only whether a digit is not zero still matters.
proof fn lemma_far(d: Seq<char>, point: int, near: int)
    requires
        forall|k: int| 0 <= k < d.len() ==> is_digit(#[trigger] d[k]),
        (near <= point && d.len() + 30 <= near) || (point <= near && near < -9),
    ensures
        clamped(scaled_value(d, point)) == clamped(scaled_value(d, near)),
        scaled_value(d, point) >= 0,
        clamped(-scaled_value(d, point)) == clamped(-scaled_value(d, near)),
{
    lemma_leading_nonneg(d, point + 9);
    lemma_leading_nonneg(d, near + 9);
    if near <= point && d.len() + 30 <= near {
        let len = d.len() as int;
        lemma_leading_nonneg(d, len);
        lemma_leading_past(d, len, near + 9);
        lemma_leading_past(d, len, point + 9);
        if leading_value(d, len) > 0 {
            lemma_tenfold(d, len, 30);
            lemma_leading_grows(d, len + 30, near + 9);
            lemma_leading_grows(d, len + 30, point + 9);
        }
    }
}

/// Each zero after the last digit multiplies by ten.
proof fn lemma_tenfold(d: Seq<char>, m: int, k: nat)
    requires
        d.len() <= m,
        leading_value(d, m) >= 1,
    ensures
        leading_value(d, m + k) >= pow10(k),
        k == 30 ==> pow10(k) == 1_000_000_000_000_000_000_000_000_000_000,
    decreases k,
{
    if k > 0 && m + k > 0 {
        lemma_tenfold(d, m, (k - 1) as nat);
    }
    if k == 30 {
        reveal_with_fuel(pow10, 31);
    }
}

/// A number without sign, in `UNIT`ths and held within 64 bits.
fn unsigned_number(v: &Vec<char>, from: usize, negative: bool) -> (res: Option<i64>)
    requires
        from <= v@.len(),
    ensures
        ({
            let (whole, part, rest) = number_parts(v@.skip(from as int));
            match exponent_value(rest) {
                Some(e) if whole.len() + part.len() > 0 => res == Some(
                    clamped(
                        if negative {
                            -scaled_value(whole + part, whole.len() + e)
                        } else {
                            scaled_value(whole + part, whole.len() + e)
                        },
                    ),
                ),
                _ => res is None,
            }
        }),
{
    let ghost t = v@.skip(from as int);
    let ghost (whole, part, rest) = number_parts(t);
    proof {
        lemma_digit_run(t);
    }
    let i = digits_from(v, from);
    let mut digits = slice_of(v, from, from + i);
    assert(digits@ == t.take(i as int));
    let mut at: usize = from + i;
    let mut j: usize = 0;
    if at < v.len() && v[at] == '.' {
        assert(t.skip(i + 1) == v@.skip(at + 1));
        j = digits_from(v, at + 1);
        let mut tail = slice_of(v, at + 1, at + 1 + j);
        assert(tail@ == part);
        digits.append(&mut tail);
        at = at + 1 + j;
    }
    assert(digits@ =~= whole + part);
    assert(rest =~= v@.skip(at as int));
    let exponent = match exponent_from(v, at) {
        Some(e) => e,
        None => {
            return None;
        },
    };
    if digits.len() == 0 {
        return None;
    }
    let d = digits;
    assert(forall|k: int| 0 <= k < d@.len() ==> is_digit(#[trigger] d@[k]));
    let ghost x = exponent_value(rest).unwrap();
    let point: i128 = i as i128 + exponent;
    proof {
        if x > FAR || x < -FAR {
            lemma_far(d@, whole.len() + x, point as int);
        }
        lemma_leading_nonneg(d@, point + 9);
    }
    let n: i128 = point + 9;
    let limit: i128 = 0x1_0000_0000_0000_0000;
    let mut value = leading_digits(&d, n, limit);
    if 0 <= n && n < d.len() as i128 && d[n as usize] >= '5' {
        value += 1;
    }
    if negative {
        value = -value;
    }
    if value > i64::MAX as i128 {
        Some(i64::MAX)
    } else if value < i64::MIN as i128 {
        Some(i64::MIN)
    } else {
        Some(value as i64)
    }
}

/// Whether `v[from..]` spells `word`, in small or capital letters.
fn spells(v: &Vec<char>, from: usize, word: &str) -> (res: bool)
    requires
        from <= v@.len(),
    ensures
        res == same_word(v@.skip(from as int), word@),
{
    let mut low: String = String::new();
    let mut i: usize = from;
    while i < v.len()
        invariant
            from <= i <= v@.len(),
            low@ == v@.subrange(from as int, i as int).map_values(
                |c: char| crate::text::ascii_lower(c),
            ),
        decreases v@.len() - i,
    {
        let c = v[i];
        let ghost before = low@;
        if 'A' <= c && c <= 'Z' {
            low.push((c as u8 + 32) as char);
        } else {
            low.push(c);
        }
        i += 1;
        assert(v@.subrange(from as int, i as int) =~= v@.subrange(from as int, i - 1).push(c));
        assert(low@ =~= v@.subrange(from as int, i as int).map_values(
            |c: char| crate::text::ascii_lower(c),
        ));
    }
    assert(v@.subrange(from as int, i as int) == v@.skip(from as int));
    same(low.as_str(), word)
}

/// Reads a number from text.
pub fn parse_decimal(s: &str) -> (res: Option<Reading>)
    ensures
        res == read_decimal(s@),
{
    let v = chars_of(s);
    let signed = v.len() > 0 && (v[0] == '-' || v[0] == '+');
    let negative = signed && v[0] == '-';
    let from: usize = if signed { 1 } else { 0 };
    assert(v@.skip(0) == v@);
    if spells(&v, from, "inf") || spells(&v, from, "infinity") {
        return Some(Reading::Value(if negative { i64::MIN } else { i64::MAX }));
    }
    if spells(&v, from, "nan") {
        return Some(Reading::NotANumber(negative));
    }
    match unsigned_number(&v, from, negative) {
        Some(n) => Some(Reading::Value(n)),
        None => None,
    }
}

/// The whole number that `s` writes with digits alone, if it fits in `limit`.
pub open spec fn digits_number(s: Seq<char>, limit: int) -> Option<int> {
    if s.len() == 0 || digit_run(s) != s.len() || leading_value(s, s.len() as int) > limit {
        None
    } else {
        Some(leading_value(s, s.len() as int))
    }
}

/// Reads digits as a whole number no greater than `limit`.
fn digits_within(s: &str, limit: i128) -> (res: Option<i128>)
    requires
        0 <= limit < 0x1_0000_0000_0000_0000_0000,
    ensures
        match (res, digits_number(s@, limit as int)) {
            (Some(n), Some(x)) => n == x && 0 <= n <= limit,
            (None, None) => true,
            _ => false,
        },
{
    let v = chars_of(s);
    let n = digits_from(&v, 0);
    assert(v@.skip(0) == v@);
    if v.len() == 0 || n != v.len() {
        return None;
    }
    proof {
        lemma_leading_nonneg(v@, v@.len() as int);
    }
    let value = leading_digits(&v, v.len() as i128, limit + 1);
    if value > limit {
        None
    } else {
        Some(value)
    }
}

/// The natural number of 64 bits that `s` writes with digits alone.
pub open spec fn read_u64(s: Seq<char>) -> Option<u64> {
    match digits_number(s, u64::MAX as int) {
        Some(n) => Some(n as u64),
        None => None,
    }
}

/// Reads digits as a natural number of 64 bits.
pub fn parse_u64(s: &str) -> (res: Option<u64>)
    ensures
        res == read_u64(s@),
{
    match digits_within(s, u64::MAX as i128) {
        Some(n) => Some(n as u64),
        None => None,
    }
}

/// The whole number of 64 bits that `s` writes with digits and an optional
/// minus sign.
pub open spec fn read_i64(s: Seq<char>) -> Option<i64> {
    if s.len() > 0 && s[0] == '-' {
        match digits_number(s.skip(1), -(i64::MIN as int)) {
            Some(n) => Some((-n) as i64),
            None => None,
        }
    } else {
        match digits_number(s, i64::MAX as int) {
            Some(n) => Some(n as i64),
            None => None,
        }
    }
}

/// Reads digits with an optional minus sign as a whole number of 64 bits.
pub fn parse_i64(s: &str) -> (res: Option<i64>)
    ensures
        res == read_i64(s@),
{
    let v = chars_of(s);
    if v.len() > 0 && v[0] == '-' {
        let rest = text_between(&v, 1, v.len());
        assert(rest@ == s@.skip(1));
        match digits_within(rest.as_str(), -(i64::MIN as i128)) {
            Some(n) => Some((-n) as i64),
            None => None,
        }
    } else {
        match digits_within(s, i64::MAX as i128) {
            Some(n) => Some(n as i64),
            None => None,
        }
    }
}

/// The count that `s` writes with digits and an optional plus sign.
pub open spec fn read_usize(s: Seq<char>) -> Option<usize> {
    let digits = if s.len() > 0 && s[0] == '+' {
        s.skip(1)
    } else {
        s
    };
    match digits_number(digits, usize::MAX as int) {
        Some(n) => Some(n as usize),
        None => None,
    }
}

/// A further digit does not change what the digits before it write.
proof fn lemma_leading_push(d: Seq<char>, c: char, n: int)
    requires
        n <= d.len(),
    ensures
        leading_value(d.push(c), n) == leading_value(d, n),
    decreases n,
{
    if n > 0 {
        lemma_leading_push(d, c, n - 1);
    }
}

/// A number in decimal is made of digits, which write that number.
pub proof fn lemma_nat_reads(n: nat)
    ensures
        nat_text(n).len() > 0,
        forall|k: int| 0 <= k < nat_text(n).len() ==> is_digit(#[trigger] nat_text(n)[k]),
        leading_value(nat_text(n), nat_text(n).len() as int) == n,
    decreases n,
{
    let s = nat_text(n);
    if n < 10 {
        assert(leading_value(s, 0) == 0);
    } else {
        lemma_nat_reads(n / 10);
        let d = nat_text(n / 10);
        lemma_leading_push(d, digit_char((n % 10) as int), d.len() as int);
        assert forall|k: int| 0 <= k < s.len() implies is_digit(#[trigger] s[k]) by {
            if k < d.len() {
                assert(s[k] == d[k]);
            }
        }
    }
}

/// Digits alone are one run.
proof fn lemma_all_digits(s: Seq<char>)
    requires
        forall|k: int| 0 <= k < s.len() ==> is_digit(#[trigger] s[k]),
    ensures
        digit_run(s) == s.len(),
{
    lemma_digit_run(s);
}

/// Reading a count that was written gives it back.
pub proof fn lemma_count_reads(n: usize)
    ensures
        read_usize(nat_text(n as nat)) == Some(n),
{
    let s = nat_text(n as nat);
    lemma_nat_reads(n as nat);
    lemma_all_digits(s);
    assert(is_digit(s[0]));
}

/// Reads digits with an optional plus sign as a count.
pub fn parse_usize(s: &str) -> (res: Option<usize>)
    ensures
        res == read_usize(s@),
{
    let v = chars_of(s);
    let from: usize = if v.len() > 0 && v[0] == '+' { 1 } else { 0 };
    let digits = text_between(&v, from, v.len());
    assert(digits@ =~= if s@.len() > 0 && s@[0] == '+' {
        s@.skip(1)
    } else {
        s@
    });
    match digits_within(digits.as_str(), usize::MAX as i128) {
        Some(n) => Some(n as usize),
        None => None,
    }
}

/// A number in decimal ends with its last digit, and the digits before it write
/// a tenth of the number.
pub proof fn law_nat_text(n: nat)
    ensures
        nat_text(n).last() as int == 48 + n % 10,
        n >= 10 ==> nat_text(n).drop_last() == nat_text(n / 10),
        n < 10 ==> nat_text(n).len() == 1,
        n > 0 ==> nat_text(n)[0] != '0',
    decreases n,
{
    if n >= 10 {
        law_nat_text(n / 10);
        lemma_nat_text(n / 10);
        assert(nat_text(n).drop_last() =~= nat_text(n / 10));
        assert(nat_text(n)[0] == nat_text(n / 10)[0]);
    }
}

/// A negative number is written with a minus sign before its size.
pub proof fn law_int_text(n: nat)
    ensures
        int_text(n as int) == nat_text(n),
        n > 0 ==> int_text(-(n as int)) == seq!['-'] + nat_text(n),
{
    reveal_strlit("-");
    assert("-"@ =~= seq!['-']);
}

/// Padding puts zeros before a text up to the width and changes nothing else.
pub proof fn law_padded(s: Seq<char>, width: nat)
    ensures
        zero_padded(s, width).len() == if s.len() > width {
            s.len()
        } else {
            width
        },
        zero_padded(s, width).skip(zero_padded(s, width).len() - s.len()) == s,
        forall|i: int|
            0 <= i < zero_padded(s, width).len() - s.len() ==> #[trigger] zero_padded(s, width)[i]
                == '0',
{
    assert(zero_padded(s, width).skip(zero_padded(s, width).len() - s.len()) =~= s);
}

/// A rounded quotient is as near as a whole number can be, and even where two
/// are equally near.
pub proof fn law_div_even(a: nat, b: nat)
    requires
        b > 0,
    ensures
        -(b as int) <= 2 * (b * div_even(a, b) - a) <= b,
        2 * (b * div_even(a, b) - a) == b || 2 * (a - b * div_even(a, b)) == b ==> div_even(a, b) % 2
            == 0,
{
    let q = a / b;
    let r = a % b;
    assert(a == b * q + r && 0 <= r < b) by (nonlinear_arith)
        requires
            b > 0,
            q == a / b,
            r == a % b,
    ;
    assert(b * (q + 1) == b * q + b) by (nonlinear_arith);
}

/// What doubling two numbers together keeps: their proportion, and that the
/// first ends up large enough.
proof fn lemma_widened(product: nat, p: nat, size: nat)
    requires
        product == size * p,
        p > 0,
    ensures
        widened(product, p).0 == size * widened(product, p).1,
        widened(product, p).1 > 0,
        product > 0 ==> widened(product, p).0 >= 4_503_599_627_370_496_000_000_000,
        product == 0 ==> widened(product, p) == (product, p),
    decreases 9_007_199_254_740_992_000_000_000 - product,
{
    if product != 0 && product < 4_503_599_627_370_496_000_000_000 {
        assert(2 * product == size * (2 * p)) by (nonlinear_arith)
            requires
                product == size * p,
        ;
        lemma_widened(2 * product, 2 * p, size);
    }
}

/// Scaling a number of `UNIT`ths and rounding it twice is rounding it once.
proof fn lemma_scaled(size: nat, unit: nat, drop: nat)
    requires
        size <= 1_000_000_000_000_000,
        unit * drop == 1_000_000_000,
        unit > 0,
        drop > 0,
    ensures
        ({
            let (significand, p) = binary(size);
            let n = div_even(significand * unit, p);
            -(drop as int) <= 2 * (drop * n - size) <= drop
        }),
{
    assert(size == size * 1) by (nonlinear_arith);
    lemma_widened(size, 1, size);
    let (product, p) = widened(size, 1);
    let m = div_even(product, 1_000_000_000);
    law_div_even(product, 1_000_000_000);
    let n = div_even(m * unit, p);
    law_div_even(m * unit, p);
    if size == 0 {
        assert(product == 0 && p == 1);
        assert(m == 0);
        assert(m * unit == 0) by (nonlinear_arith)
            requires
                m == 0,
        ;
        assert(n == 0);
        assert(drop * n == 0) by (nonlinear_arith)
            requires
                n == 0,
        ;
    } else {
        assert(p > 1_000_000_000) by (nonlinear_arith)
            requires
                size * p >= 4_503_599_627_370_496_000_000_000,
                size <= 1_000_000_000_000_000,
        ;
        // In units of a `p`th of a `UNIT`th, each rounding is off by half a unit
        // of its own at most.
        let gap = drop * n - size;
        let x = p * n - m * unit;
        let y = drop * n;
        let z = m * unit;
        assert(-(drop * p) <= 2 * (drop * x) <= drop * p) by (nonlinear_arith)
            requires
                -(p as int) <= 2 * x <= p,
                drop > 0,
        ;
        assert(drop * (p * n - z) == drop * (p * n) - drop * z) by (nonlinear_arith);
        assert(drop * (p * n) == (drop * n) * p) by (nonlinear_arith);
        assert(drop * (m * unit) == m * (unit * drop)) by (nonlinear_arith);
        assert((y - size) * p == y * p - size * p) by (nonlinear_arith);
        assert(drop * x == y * p - 1_000_000_000 * m);
        assert(gap * p == y * p - product);
        assert(-(drop * p + 1_000_000_000) <= 2 * (gap * p) <= drop * p + 1_000_000_000);
        assert(-(drop as int) <= 2 * gap <= drop) by (nonlinear_arith)
            requires
                -(drop * p + 1_000_000_000) <= 2 * (gap * p) <= drop * p + 1_000_000_000,
                p > 1_000_000_000,
                drop > 0,
        {
            if 2 * gap > drop {
                assert(2 * gap >= drop + 1);
                assert(2 * gap * p >= (drop + 1) * p) by (nonlinear_arith)
                    requires
                        2 * gap >= drop + 1,
                        p > 0,
                ;
            }
            if 2 * gap < -(drop as int) {
                assert(2 * gap <= -(drop as int) - 1);
                assert(2 * gap * p <= (-(drop as int) - 1) * p) by (nonlinear_arith)
                    requires
                        2 * gap <= -(drop as int) - 1,
                        p > 0,
                ;
            }
        }
    }
}

/// A number with decimals is the nearest one that can be written with so many, up
/// to a million units: with three decimals it is at most half a thousandth off,
/// with two half a hundredth, with none a half. A negative number is the same with
/// a minus sign.
pub proof fn law_fixed(v: nat)
    requires
        v <= 1_000_000_000_000_000,
    ensures
        exists|n: nat|
            {
                &&& fixed_text(v as int, 3) == #[trigger] nat_text(n / 1000) + "."@ + zero_padded(
                    nat_text(n % 1000),
                    3,
                )
                &&& -1_000_000 <= 2 * (1_000_000 * n - v) <= 1_000_000
            },
        exists|n: nat|
            {
                &&& fixed_text(v as int, 2) == #[trigger] nat_text(n / 100) + "."@ + zero_padded(
                    nat_text(n % 100),
                    2,
                )
                &&& -10_000_000 <= 2 * (10_000_000 * n - v) <= 10_000_000
            },
        exists|n: nat|
            {
                &&& fixed_text(v as int, 0) == #[trigger] nat_text(n)
                &&& -1_000_000_000 <= 2 * (1_000_000_000 * n - v) <= 1_000_000_000
            },
        forall|d: nat|
            v > 0 ==> #[trigger] fixed_text(-(v as int), d) == seq!['-'] + fixed_text(v as int, d),
{
    reveal_with_fuel(pow10, 4);
    reveal_strlit("");
    reveal_strlit("-");
    assert("-"@ =~= seq!['-']);
    lemma_scaled(v, 1000, 1_000_000);
    lemma_scaled(v, 100, 10_000_000);
    lemma_scaled(v, 1, 1_000_000_000);
    let (significand, p) = binary(v);
    assert(pow10(3) == 1000 && pow10(2) == 100 && pow10(0) == 1);
    let a = div_even(significand * 1000, p);
    assert(fixed_text(v as int, 3) =~= nat_text(a / 1000) + "."@ + zero_padded(nat_text(a % 1000), 3));
    let b = div_even(significand * 100, p);
    assert(fixed_text(v as int, 2) =~= nat_text(b / 100) + "."@ + zero_padded(nat_text(b % 100), 2));
    let c = div_even(significand * 1, p);
    assert(significand * 1 == significand);
    assert(fixed_text(v as int, 0) =~= nat_text(c));
    assert forall|d: nat| v > 0 implies #[trigger] fixed_text(-(v as int), d) == seq!['-'] + fixed_text(
        v as int,
        d,
    ) by {
        assert(fixed_text(-(v as int), d) =~= seq!['-'] + fixed_text(v as int, d));
    }
}

/// Digits are read one after the other, each worth a tenth of the one before.
pub proof fn law_leading(d: Seq<char>, c: char)
    ensures
        leading_value(d, 0) == 0,
        leading_value(d.push(c), d.len() as int + 1) == 10 * leading_value(d, d.len() as int) + (c as int - 48),
        leading_value(d, d.len() as int + 1) == 10 * leading_value(d, d.len() as int),
{
    lemma_leading_push(d, c, d.len() as int);
}

/// What digits in front of others are worth.
proof fn lemma_leading_concat(a: Seq<char>, b: Seq<char>, n: int)
    requires
        n <= a.len(),
    ensures
        leading_value(a + b, n) == leading_value(a, n),
    decreases n,
{
    if n > 0 {
        lemma_leading_concat(a, b, n - 1);
    }
}

/// Digits that do not follow one another directly are counted as one run.
proof fn lemma_digit_run_concat(a: Seq<char>, b: Seq<char>)
    requires
        forall|k: int| 0 <= k < a.len() ==> is_digit(#[trigger] a[k]),
        b.len() > 0 ==> !is_digit(b[0]),
    ensures
        digit_run(a + b) == a.len(),
    decreases a.len(),
{
    if a.len() == 0 {
        assert(a + b =~= b);
    } else {
        assert((a + b).drop_first() =~= a.drop_first() + b);
        lemma_digit_run_concat(a.drop_first(), b);
    }
}

/// A text that begins with a digit or a point is none of the words for what is
/// no finite number.
proof fn lemma_no_word(t: Seq<char>)
    requires
        t.len() > 0,
        is_digit(t[0]) || t[0] == '.',
    ensures
        !same_word(t, "inf"@),
        !same_word(t, "infinity"@),
        !same_word(t, "nan"@),
{
    reveal_strlit("inf");
    reveal_strlit("infinity");
    reveal_strlit("nan");
    let small = t.map_values(|c: char| crate::text::ascii_lower(c));
    assert(small[0] == t[0]);
}

/// A whole number that is written in digits reads as so many units.
pub proof fn law_read_whole(n: nat)
    requires
        n < 9_000_000_000,
    ensures
        read_decimal(nat_text(n)) == Some(Reading::Value((n * 1_000_000_000) as i64)),
{
    let w = nat_text(n);
    lemma_nat_reads(n);
    lemma_no_word(w);
    assert(w + Seq::<char>::empty() =~= w);
    lemma_digit_run_concat(w, Seq::empty());
    assert(w.take(w.len() as int) =~= w);
    assert(w.skip(w.len() as int) =~= Seq::<char>::empty());
    lemma_zeros(w, w.len() as int, 9);
    reveal_with_fuel(pow10, 10);
    assert(pow10(9) == 1_000_000_000);
    assert(number_parts(w) == (w, Seq::<char>::empty(), Seq::<char>::empty()));
    let point = w.len() as int;
    assert(scaled_value(w, point) == leading_value(w, point + 9));
    assert(leading_value(w, point + 9) == pow10(9) * leading_value(w, point));
    assert(leading_value(w, point) == n);
    assert(scaled_value(w, point) == pow10(9) * n);
    assert(pow10(9) * n == 1_000_000_000 * n);
}

/// A number with one digit after the point reads as its units and so many
/// tenths.
pub proof fn law_read_tenths(n: nat, d: nat)
    requires
        n < 9_000_000_000,
        d < 10,
    ensures
        read_decimal(nat_text(n) + seq!['.'] + nat_text(d)) == Some(
            Reading::Value((n * 1_000_000_000 + d * 100_000_000) as i64),
        ),
{
    let w = nat_text(n);
    let part = nat_text(d);
    let t = w + seq!['.'] + part;
    let rest = seq!['.'] + part;
    lemma_nat_reads(n);
    lemma_nat_reads(d);
    assert(part.len() == 1 && digit_value(part[0]) == d);
    lemma_no_word(t);
    assert(t =~= w + rest);
    lemma_digit_run_concat(w, rest);
    assert(t.take(w.len() as int) =~= w);
    let u = t.skip(w.len() as int + 1);
    assert(u =~= part);
    assert(part + Seq::<char>::empty() =~= part);
    lemma_digit_run_concat(part, Seq::empty());
    assert(u.take(1) =~= part);
    assert(u.skip(1) =~= Seq::<char>::empty());
    assert(t[w.len() as int] == '.');
    assert(number_parts(t) == (w, part, Seq::<char>::empty()));
    let digits = w + part;
    lemma_leading_concat(w, part, w.len() as int);
    assert(digits[w.len() as int] == part[0]);
    assert(leading_value(digits, w.len() as int + 1) == 10 * leading_value(digits, w.len() as int)
        + d);
    lemma_zeros(digits, digits.len() as int, 8);
    reveal_with_fuel(pow10, 9);
    assert(pow10(8) == 100_000_000);
    assert(scaled_value(digits, w.len() as int) == leading_value(digits, digits.len() as int + 8));
    assert(scaled_value(digits, w.len() as int) == n * 1_000_000_000 + d * 100_000_000);
}

/// Digits past the last one are zeros.
proof fn lemma_zeros(d: Seq<char>, n: int, k: nat)
    requires
        n >= d.len(),
    ensures
        leading_value(d, n + k) == pow10(k) * leading_value(d, n),
    decreases k,
{
    if k > 0 {
        lemma_zeros(d, n, (k - 1) as nat);
        let x = leading_value(d, n);
        let y = pow10((k - 1) as nat);
        assert(10 * (y * x) == (10 * y) * x) by (nonlinear_arith);
        assert(leading_value(d, n + k) == 10 * leading_value(d, n + k - 1));
    } else {
        let x = leading_value(d, n);
        assert(1 * x == x);
    }
}

/// A minus sign turns a number into its opposite, and a plus sign changes
/// nothing.
pub proof fn law_read_sign(s: Seq<char>)
    requires
        s.len() > 0,
        s[0] != '-',
        s[0] != '+',
    ensures
        match decimal(s) {
            Some(Decimal::Finite(v)) => decimal(seq!['-'] + s) == Some(Decimal::Finite(-v)) && decimal(
                seq!['+'] + s,
            ) == Some(Decimal::Finite(v)),
            Some(Decimal::Infinite(_)) => decimal(seq!['-'] + s) == Some(Decimal::Infinite(true)),
            Some(Decimal::Undefined(_)) => decimal(seq!['-'] + s) == Some(Decimal::Undefined(true)),
            None => decimal(seq!['-'] + s) is None && decimal(seq!['+'] + s) is None,
        },
{
    assert((seq!['-'] + s).skip(1) =~= s);
    assert((seq!['+'] + s).skip(1) =~= s);
}

/// Reading whole numbers of every kind gives back what was written.
pub proof fn law_read_back(n: nat)
    ensures
        n <= u64::MAX ==> read_u64(nat_text(n)) == Some(n as u64),
        n <= i64::MAX ==> read_i64(nat_text(n)) == Some(n as i64),
        0 < n <= i64::MAX ==> read_i64(seq!['-'] + nat_text(n)) == Some((-(n as int)) as i64),
        n > u64::MAX ==> read_u64(nat_text(n)) is None,
        n <= usize::MAX ==> read_usize(nat_text(n)) == Some(n as usize),
        n <= usize::MAX ==> read_usize(seq!['+'] + nat_text(n)) == Some(n as usize),
{
    let s = nat_text(n);
    lemma_nat_reads(n);
    lemma_all_digits(s);
    assert(is_digit(s[0]));
    assert((seq!['-'] + s).skip(1) =~= s);
    assert((seq!['+'] + s).skip(1) =~= s);
}

/// A number that 64 bits can hold is kept, and one beyond them becomes the
/// largest or the smallest.
pub proof fn law_clamped(v: int)
    ensures
        i64::MIN <= v <= i64::MAX ==> clamped(v) == v,
        v > i64::MAX ==> clamped(v) == i64::MAX,
        v < i64::MIN ==> clamped(v) == i64::MIN,
        reading(Decimal::Finite(v)) == Reading::Value(clamped(v)),
        reading(Decimal::Infinite(false)) == Reading::Value(i64::MAX),
        reading(Decimal::Infinite(true)) == Reading::Value(i64::MIN),
        reading(Decimal::Undefined(false)) == Reading::NotANumber(false),
        reading(Decimal::Undefined(true)) == Reading::NotANumber(true),
{
}

/// An exponent moves the point: digits with an exponent read as the digits
/// followed by so many zeros.
pub proof fn law_read_exponent(n: nat, e: nat)
    requires
        n < 9_000_000_000,
    ensures
        decimal(nat_text(n) + seq!['e'] + nat_text(e)) == Some(
            Decimal::Finite((n * 1_000_000_000 * pow10(e)) as int),
        ),
        decimal(nat_text(n) + seq!['E'] + nat_text(e)) == decimal(
            nat_text(n) + seq!['e'] + nat_text(e),
        ),
        decimal(nat_text(n) + seq!['e', '+'] + nat_text(e)) == decimal(
            nat_text(n) + seq!['e'] + nat_text(e),
        ),
{
    let w = nat_text(n);
    let k = nat_text(e);
    lemma_nat_reads(n);
    lemma_nat_reads(e);
    lemma_exponent(w, seq!['e'], k);
    lemma_exponent(w, seq!['E'], k);
    lemma_exponent(w, seq!['e', '+'], k);
    let none = Seq::<char>::empty();
    assert(w + none =~= w);
    lemma_zeros(w, w.len() as int, (e + 9) as nat);
    lemma_pow10_sum(e, 9);
    reveal_with_fuel(pow10, 10);
    assert(pow10(9) == 1_000_000_000);
    assert(scaled_value(w, w.len() as int + e) == pow10((e + 9) as nat) * n);
    let p = pow10(e);
    assert((p * 1_000_000_000) * n == n * 1_000_000_000 * p) by (nonlinear_arith);
}

/// The powers of ten multiply.
proof fn lemma_pow10_sum(a: nat, b: nat)
    ensures
        pow10(a + b) == pow10(a) * pow10(b),
    decreases b,
{
    if b == 0 {
        assert(pow10(a) * 1 == pow10(a));
    } else {
        lemma_pow10_sum(a, (b - 1) as nat);
        let x = pow10(a);
        let y = pow10((b - 1) as nat);
        assert((a + b - 1) as nat == a + (b - 1) as nat);
        assert(10 * (x * y) == x * (10 * y)) by (nonlinear_arith);
    }
}

/// How digits with an exponent are taken apart.
proof fn lemma_exponent(w: Seq<char>, mark: Seq<char>, k: Seq<char>)
    requires
        w.len() > 0,
        forall|i: int| 0 <= i < w.len() ==> is_digit(#[trigger] w[i]),
        k.len() > 0,
        forall|i: int| 0 <= i < k.len() ==> is_digit(#[trigger] k[i]),
        mark == seq!['e'] || mark == seq!['E'] || mark == seq!['e', '+'],
    ensures
        decimal(w + mark + k) == Some(
            Decimal::Finite(
                scaled_value(w + Seq::<char>::empty(), w.len() + leading_value(k, k.len() as int)),
            ),
        ),
{
    let t = w + mark + k;
    let rest = mark + k;
    assert(t =~= w + rest);
    lemma_no_word(t);
    lemma_digit_run_concat(w, rest);
    assert(t.take(w.len() as int) =~= w);
    assert(t.skip(w.len() as int) =~= rest);
    assert(t[w.len() as int] == mark[0]);
    lemma_all_digits(k);
    if mark.len() == 1 {
        assert(rest.skip(1) =~= k);
        assert(rest[1] == k[0]);
    } else {
        assert(rest.skip(2) =~= k);
    }
    assert(number_parts(t) == (w, Seq::<char>::empty(), rest));
}

/// The words for what is beyond every number, and for what is none, in any case
/// of letters; a minus sign turns them round.
pub proof fn law_read_words(t: Seq<char>)
    requires
        t.len() > 0,
        t[0] != '-',
        t[0] != '+',
    ensures
        ({
            let small = t.map_values(|c: char| crate::text::ascii_lower(c));
            &&& small == "inf"@ || small == "infinity"@ ==> decimal(t) == Some(
                Decimal::Infinite(false),
            ) && decimal(seq!['-'] + t) == Some(Decimal::Infinite(true)) && decimal(seq!['+'] + t)
                == Some(Decimal::Infinite(false))
            &&& small == "nan"@ ==> decimal(t) == Some(Decimal::Undefined(false)) && decimal(
                seq!['-'] + t,
            ) == Some(Decimal::Undefined(true)) && decimal(seq!['+'] + t) == Some(
                Decimal::Undefined(false),
            )
        }),
{
    reveal_strlit("inf");
    reveal_strlit("infinity");
    reveal_strlit("nan");
    assert("inf"@[0] == 'i' && "nan"@[0] == 'n' && "infinity"@[0] == 'i');
    assert((seq!['-'] + t).skip(1) =~= t);
    assert((seq!['+'] + t).skip(1) =~= t);
}

/// A text that begins with neither a sign, a digit nor a point writes a number
/// only where it is one of the words; in particular an exponent alone writes
/// none, and neither does nothing.
pub proof fn law_read_nothing(t: Seq<char>)
    requires
        t.len() > 0 ==> t[0] != '-' && t[0] != '+' && !('0' <= t[0] <= '9') && t[0] != '.',
    ensures
        decimal(t) is Some ==> {
            let small = t.map_values(|c: char| crate::text::ascii_lower(c));
            small == "inf"@ || small == "infinity"@ || small == "nan"@
        },
{
    assert(digit_run(t) == 0);
    assert(t.take(0) =~= Seq::<char>::empty());
    assert(number_parts(t).0.len() == 0 && number_parts(t).1.len() == 0);
}

/// A number is brought to a significand of 53 bits by doubling, as often as that
/// takes and no more.
pub proof fn law_binary(product: nat, p: nat)
    ensures
        product >= 4_503_599_627_370_496_000_000_000 || product == 0 ==> widened(product, p) == (
            product,
            p,
        ),
        0 < product < 4_503_599_627_370_496_000_000_000 ==> widened(product, p) == widened(
            2 * product,
            2 * p,
        ),
        binary(product) == (div_even(widened(product, 1).0, 1_000_000_000), widened(product, 1).1),
{
}

} // verus!
