//! Sensor readings as exact numbers, and the decimal numerals and unit
//! suffixes they are read from. A reading is a ratio of two integers times a
//! power of ten, so that a numeral with an exponent is held as it is written.

use crate::text::{
    ascii_lower, ascii_lower_char, chars_of, scan_spaces, scan_word, skip_spaces, skip_word,
    slice_of,
};
use vstd::prelude::*;

verus! {

/// The number of significant digits that are kept of a numeral.
pub const MAX_DIGITS: usize = 15;

/// Every numeral's numerator is below this in absolute value.
pub const NUMERAL_LIMIT: i128 = 1_000_000_000_000_000;

/// The largest decimal exponent of a numeral, in absolute value.
pub const EXPONENT_LIMIT: i32 = 400;

/// The largest numerator of a reading taken from a sensor, in absolute
/// value: fifteen digits, scaled once by 1024.
pub const SENSOR_LIMIT: i128 = 1_024_000_000_000_000_000;

/// The largest denominator of any reading.
pub const DEN_LIMIT: i128 = 1_048_576_000_000_000_000_000;

/// The largest numerator of any reading, in absolute value.
pub const NUM_LIMIT: i128 = 104_857_600_000_000_000_000_000;

/// Ten to the power of `n`.
pub open spec fn pow10(n: nat) -> nat
    decreases n,
{
    if n == 0 {
        1
    } else {
        10 * pow10((n - 1) as nat)
    }
}

/// The number `num / den * 10^exp10`.
pub ghost struct Ratio {
    pub num: int,
    pub den: int,
    pub exp10: int,
}

impl Ratio {
    /// The denominator is positive and all parts are within the limits of a
    /// reading.
    pub open spec fn wf(self) -> bool {
        &&& 0 < self.den <= DEN_LIMIT
        &&& -NUM_LIMIT <= self.num <= NUM_LIMIT
        &&& -2 * EXPONENT_LIMIT <= self.exp10 <= 2 * EXPONENT_LIMIT
    }

    /// All parts are within the limits of a reading taken from a sensor.
    pub open spec fn sensor_sized(self) -> bool {
        &&& 0 < self.den <= 1024
        &&& -SENSOR_LIMIT <= self.num <= SENSOR_LIMIT
        &&& -EXPONENT_LIMIT <= self.exp10 <= EXPONENT_LIMIT
    }

    /// All parts are within the limits of a numeral.
    pub open spec fn numeral_sized(self) -> bool {
        &&& self.den == 1
        &&& -NUMERAL_LIMIT < self.num < NUMERAL_LIMIT
        &&& -EXPONENT_LIMIT <= self.exp10 <= EXPONENT_LIMIT
    }

    /// The numerator with a positive power of ten multiplied in: the number
    /// is `top / bottom`.
    pub open spec fn top(self) -> int {
        if self.exp10 >= 0 {
            self.num * pow10(self.exp10 as nat)
        } else {
            self.num
        }
    }

    /// The denominator with a negative power of ten multiplied in: the number
    /// is `top / bottom`.
    pub open spec fn bottom(self) -> int {
        if self.exp10 >= 0 {
            self.den
        } else {
            self.den * pow10((-self.exp10) as nat)
        }
    }

    /// The number is greater than zero.
    pub open spec fn positive(self) -> bool {
        self.num > 0
    }

    /// The number is at least the whole number `k`.
    pub open spec fn at_least(self, k: int) -> bool {
        self.top() >= k * self.bottom()
    }

    /// The number is greater than the whole number `k`.
    pub open spec fn above(self, k: int) -> bool {
        self.top() > k * self.bottom()
    }

    /// The number is less than the whole number `k`.
    pub open spec fn below(self, k: int) -> bool {
        self.top() < k * self.bottom()
    }
}

/// How a unit suffix rescales the magnitude in front of it.
#[derive(Clone, Copy, Debug, PartialEq, Eq, Structural)]
pub enum Scale {
    /// The magnitude stands as it is.
    Unchanged,
    /// The magnitude is divided by 1024.
    Down,
    /// The magnitude is multiplied by 1024.
    Up,
}

/// `r` rescaled as `scale` says.
pub open spec fn scaled(r: Ratio, scale: Scale) -> Ratio {
    match scale {
        Scale::Unchanged => r,
        Scale::Down => Ratio { num: r.num, den: r.den * 1024, exp10: r.exp10 },
        Scale::Up => Ratio { num: r.num * 1024, den: r.den, exp10: r.exp10 },
    }
}

/// Whether `c` is one of the decimal digits `0` to `9`.
pub open spec fn is_digit(c: char) -> bool {
    '0' <= c <= '9'
}

/// Whether every character of `s` is a decimal digit.
pub open spec fn all_digits(s: Seq<char>) -> bool {
    forall|i: int| 0 <= i < s.len() ==> is_digit(#[trigger] s[i])
}

/// The number that the digit `c` writes.
pub open spec fn digit_value(c: char) -> nat {
    (c as u32 - 48) as nat
}

/// The number that a run of decimal digits writes; the empty run writes 0.
pub open spec fn digits_value(s: Seq<char>) -> nat
    decreases s.len(),
{
    if s.len() == 0 {
        0
    } else {
        digits_value(s.drop_last()) * 10 + digit_value(s.last())
    }
}

/// The number of significant digits of a run of digits: those from the first
/// that is not `0` onwards.
pub open spec fn significant_count(s: Seq<char>) -> nat
    decreases s.len(),
{
    if s.len() == 0 {
        0
    } else {
        let before = significant_count(s.drop_last());
        if before == 0 && s.last() == '0' {
            0
        } else {
            before + 1
        }
    }
}

/// The number that the first `MAX_DIGITS` significant digits of a run of
/// digits write; the digits behind them are left out.
pub open spec fn significant_value(s: Seq<char>) -> nat
    decreases s.len(),
{
    if s.len() == 0 {
        0
    } else if significant_count(s.drop_last()) >= MAX_DIGITS {
        significant_value(s.drop_last())
    } else {
        significant_value(s.drop_last()) * 10 + digit_value(s.last())
    }
}

/// The number of significant digits of a run of digits that are left out.
pub open spec fn dropped_count(s: Seq<char>) -> nat {
    if significant_count(s) > MAX_DIGITS {
        (significant_count(s) - MAX_DIGITS) as nat
    } else {
        0
    }
}

/// The first position at or after `from` that holds no decimal digit, or the
/// length of `s` when only digits follow.
pub open spec fn skip_digits(s: Seq<char>, from: int) -> int
    decreases s.len() - from,
{
    if 0 <= from < s.len() && is_digit(s[from]) {
        skip_digits(s, from + 1)
    } else {
        from
    }
}

/// The decimal exponent that the end of a numeral writes: 0 where nothing
/// is written; else `e` or `E`, an optional sign `+` or `-`, and digits, at
/// least one. A text of any other shape writes none.
pub open spec fn exponent_of(t: Seq<char>) -> Option<int> {
    if t.len() == 0 {
        Some(0)
    } else if t[0] == 'e' || t[0] == 'E' {
        let signed = t.len() > 1 && (t[1] == '-' || t[1] == '+');
        let from: int = if signed { 2 } else { 1 };
        let digits = t.subrange(from, t.len() as int);
        if digits.len() > 0 && all_digits(digits) {
            Some(
                if signed && t[1] == '-' {
                    -(digits_value(digits) as int)
                } else {
                    digits_value(digits) as int
                },
            )
        } else {
            None
        }
    } else {
        None
    }
}

/// `e`, or the nearest exponent within `EXPONENT_LIMIT` where it is beyond.
pub open spec fn clamp_exponent(e: int) -> int {
    if e > EXPONENT_LIMIT {
        EXPONENT_LIMIT as int
    } else if e < -EXPONENT_LIMIT {
        -EXPONENT_LIMIT
    } else {
        e
    }
}

/// The parts that a text falls into when it is read as a numeral.
pub ghost struct NumeralParts {
    /// Whether the text begins with `-`.
    pub negative: bool,
    /// The digits in front of the point and behind it, in a row.
    pub digits: Seq<char>,
    /// The number of digits behind the point.
    pub places: int,
    /// The exponent that the rest of the text writes, if it writes one.
    pub exponent: Option<int>,
}

/// Cuts a text into the parts of a numeral: an optional sign `+` or `-`;
/// digits, with or without a point among them, before them or behind them;
/// and what is left, read as an exponent.
pub open spec fn numeral_parts(s: Seq<char>) -> NumeralParts {
    let signed = s.len() > 0 && (s[0] == '-' || s[0] == '+');
    let start: int = if signed { 1 } else { 0 };
    let point = skip_digits(s, start);
    let dotted = point < s.len() && s[point] == '.';
    let end = if dotted { skip_digits(s, point + 1) } else { point };
    NumeralParts {
        negative: signed && s[0] == '-',
        digits: if dotted {
            s.subrange(start, point) + s.subrange(point + 1, end)
        } else {
            s.subrange(start, point)
        },
        places: if dotted { end - point - 1 } else { 0 },
        exponent: exponent_of(s.subrange(end, s.len() as int)),
    }
}

/// The value of a decimal numeral. A text is a numeral where it has at least
/// one digit in front of the exponent and what follows the digits is an
/// exponent or nothing.
///
/// The numerator is the number that the digits write and the power of ten
/// counts the digits behind the point off the exponent, so that the value is
/// exact, as long as the digits from the first that is not `0` are at most
/// `MAX_DIGITS` and the power of ten is within `EXPONENT_LIMIT`. Of more
/// digits the first `MAX_DIGITS` significant ones are kept and the power of
/// ten makes up for those left out; a power of ten beyond the limit counts as
/// the limit.
pub open spec fn numeral(s: Seq<char>) -> Option<Ratio> {
    let parts = numeral_parts(s);
    if parts.digits.len() >= 1 && parts.exponent is Some {
        let magnitude = significant_value(parts.digits) as int;
        Some(
            Ratio {
                num: if parts.negative { -magnitude } else { magnitude },
                den: 1,
                exp10: clamp_exponent(
                    parts.exponent->0 - parts.places + dropped_count(parts.digits),
                ),
            },
        )
    } else {
        None
    }
}

/// A letter of a unit suffix in lower case: the ASCII letters, and the Kelvin
/// sign, which lower-cases to `k`.
pub open spec fn unit_lower(c: char) -> char {
    if c == '\u{212A}' {
        'k'
    } else {
        ascii_lower(c)
    }
}

/// Whether `unit`, in lower case, is the four characters given.
pub open spec fn unit_is(unit: Seq<char>, a: char, b: char, c: char, d: char) -> bool {
    &&& unit.len() == 4
    &&& unit_lower(unit[0]) == a
    &&& unit_lower(unit[1]) == b
    &&& unit_lower(unit[2]) == c
    &&& unit_lower(unit[3]) == d
}

/// The scale that a unit suffix calls for, whatever the case of its letters:
/// `KB/s` scales down and `GB/s` scales up, to the common scale of `MB/s`;
/// `%`, `MB/s` and every other suffix leave the magnitude as it is.
pub open spec fn unit_scale(unit: Seq<char>) -> Scale {
    if unit_is(unit, 'k', 'b', '/', 's') {
        Scale::Down
    } else if unit_is(unit, 'g', 'b', '/', 's') {
        Scale::Up
    } else {
        Scale::Unchanged
    }
}

/// The share that `used` is of `total`, in percent, where both are greater
/// than zero; `previous` where either is not.
pub open spec fn percent_of(used: Ratio, total: Ratio, previous: Ratio) -> Ratio {
    if used.positive() && total.positive() {
        Ratio {
            num: used.num * total.den * 100,
            den: used.den * total.num,
            exp10: used.exp10 - total.exp10,
        }
    } else {
        previous
    }
}

/// The reading that a raw sensor value gives. The value is cut at white space
/// into words. The first word is the magnitude, a numeral; the second, where
/// there is one, is its unit; further words are ignored. A value without a
/// word, or whose first word is no numeral, gives no reading.
pub open spec fn reading_of_value(v: Seq<char>) -> Option<Ratio> {
    let a = skip_spaces(v, 0);
    let b = skip_word(v, a);
    let c = skip_spaces(v, b);
    let d = skip_word(v, c);
    if a < v.len() {
        match numeral(v.subrange(a, b)) {
            Some(r) => Some(
                if c < v.len() {
                    scaled(r, unit_scale(v.subrange(c, d)))
                } else {
                    r
                },
            ),
            None => None,
        }
    } else {
        None
    }
}

/// Every position of a run of digits holds a digit, and the run ends within
/// the text.
pub proof fn lemma_skip_digits_run(s: Seq<char>, from: int)
    requires
        0 <= from <= s.len(),
    ensures
        from <= skip_digits(s, from) <= s.len(),
        forall|i: int| from <= i < skip_digits(s, from) ==> is_digit(#[trigger] s[i]),
    decreases s.len() - from,
{
    if from < s.len() && is_digit(s[from]) {
        lemma_skip_digits_run(s, from + 1);
    }
}

/// The powers of ten are positive and grow with the exponent.
pub proof fn lemma_pow10_monotone(a: nat, b: nat)
    requires
        a <= b,
    ensures
        1 <= pow10(a) <= pow10(b),
    decreases b,
{
    if a < b {
        lemma_pow10_monotone(a, (b - 1) as nat);
    } else if a > 0 {
        lemma_pow10_monotone((a - 1) as nat, (b - 1) as nat);
    }
}

/// Ten to the power of fifteen.
pub proof fn lemma_pow10_limit()
    ensures
        pow10(15) == 1_000_000_000_000_000,
{
    reveal_with_fuel(pow10, 16);
}

/// Appending one digit to a run multiplies its value by ten and adds the
/// digit.
pub proof fn lemma_digits_value_push(s: Seq<char>, c: char)
    ensures
        digits_value(s.push(c)) == digits_value(s) * 10 + digit_value(c),
{
    assert(s.push(c).drop_last() =~= s);
}

/// A run of digits writes at least the number that any of its beginnings
/// writes.
pub proof fn lemma_digits_value_grows(s: Seq<char>, k: int)
    requires
        0 <= k <= s.len(),
    ensures
        digits_value(s.subrange(0, k)) <= digits_value(s),
    decreases s.len() - k,
{
    if k == s.len() {
        assert(s.subrange(0, k) =~= s);
    } else {
        lemma_digits_value_grows(s, k + 1);
        assert(s.subrange(0, k + 1).drop_last() =~= s.subrange(0, k));
        assert(digits_value(s.subrange(0, k)) <= digits_value(s.subrange(0, k + 1)))
            by (nonlinear_arith)
            requires
                digits_value(s.subrange(0, k + 1)) == digits_value(s.subrange(0, k)) * 10
                    + digit_value(s.subrange(0, k + 1).last()),
        ;
    }
}

/// A run with at most `MAX_DIGITS` significant digits loses nothing: the
/// number kept is the number that the run writes, and no digit is left out.
pub proof fn lemma_few_digits_are_exact(s: Seq<char>)
    ensures
        significant_count(s) <= s.len(),
        significant_count(s) <= MAX_DIGITS ==> significant_value(s) == digits_value(s)
            && dropped_count(s) == 0,
    decreases s.len(),
{
    if s.len() > 0 {
        lemma_few_digits_are_exact(s.drop_last());
    }
}

/// What is kept of a run of digits is the number that the run writes, cut
/// off behind the last digit kept: the number kept, times the power of ten
/// of the digits left out, is at most the number written and misses it by
/// less than that power of ten.
pub proof fn lemma_kept_digits_cut_off(s: Seq<char>)
    requires
        all_digits(s),
    ensures
        significant_value(s) * pow10(dropped_count(s)) <= digits_value(s) < (significant_value(s)
            + 1) * pow10(dropped_count(s)),
    decreases s.len(),
{
    reveal_with_fuel(pow10, 2);
    if s.len() > 0 {
        let before = s.drop_last();
        assert forall|i: int| 0 <= i < before.len() implies is_digit(#[trigger] before[i]) by {
            assert(before[i] == s[i]);
        }
        assert(is_digit(s[s.len() - 1]));
        lemma_kept_digits_cut_off(before);
        lemma_few_digits_are_exact(before);
        lemma_few_digits_are_exact(s);
        if significant_count(before) >= MAX_DIGITS {
            let kept = significant_value(before);
            let power = pow10(dropped_count(before));
            let digit = digit_value(s.last());
            assert(dropped_count(s) == dropped_count(before) + 1);
            assert(pow10(dropped_count(s)) == 10 * power);
            assert(kept * (10 * power) <= digits_value(before) * 10 + digit < (kept + 1) * (10
                * power)) by (nonlinear_arith)
                requires
                    kept * power <= digits_value(before) < (kept + 1) * power,
                    0 <= digit <= 9,
            ;
        }
    }
}

/// A numeral with at most `MAX_DIGITS` significant digits, whose power of
/// ten is within `EXPONENT_LIMIT`, is read exactly: its value is the number
/// that its digits write, with its sign, times ten to the power of its
/// exponent less the number of digits behind the point.
pub proof fn lemma_numeral_is_exact(s: Seq<char>)
    requires
        numeral(s) is Some,
        significant_count(numeral_parts(s).digits) <= MAX_DIGITS,
        -EXPONENT_LIMIT <= numeral_parts(s).exponent->0 - numeral_parts(s).places
            <= EXPONENT_LIMIT,
    ensures
        numeral(s)->0 == (Ratio {
            num: if numeral_parts(s).negative {
                -(digits_value(numeral_parts(s).digits) as int)
            } else {
                digits_value(numeral_parts(s).digits) as int
            },
            den: 1,
            exp10: numeral_parts(s).exponent->0 - numeral_parts(s).places,
        }),
{
    lemma_few_digits_are_exact(numeral_parts(s).digits);
}

/// A reading: an exact number, held as a ratio of two integers, the
/// denominator positive, times a power of ten.
#[derive(Clone, Copy, Debug)]
pub struct Reading {
    num: i128,
    den: i128,
    exp10: i32,
}

impl View for Reading {
    type V = Ratio;

    closed spec fn view(&self) -> Ratio {
        Ratio { num: self.num as int, den: self.den as int, exp10: self.exp10 as int }
    }
}

/// The number of a reading that may be absent.
pub open spec fn option_view(r: Option<Reading>) -> Option<Ratio> {
    match r {
        Some(x) => Some(x@),
        None => None,
    }
}

/// The sign of `x`: -1, 0 or 1.
pub open spec fn sign_of(x: int) -> int {
    if x > 0 {
        1
    } else if x < 0 {
        -1
    } else {
        0
    }
}

/// The sign of `a * 10^e - b`.
fn scaled_sign(a: i128, b: i128, e: u32) -> (s: i8)
    requires
        -1_000_000_000_000_000_000_000_000 <= a <= 1_000_000_000_000_000_000_000_000,
        -1_000_000_000_000_000_000_000_000 <= b <= 1_000_000_000_000_000_000_000_000,
    ensures
        s == sign_of(a * pow10(e as nat) - b),
{
    let mut p: i128 = a;
    let mut i: u32 = 0;
    assert(a * pow10(0) == a) by (nonlinear_arith)
        requires
            pow10(0) == 1,
    ;
    while i < e
        invariant
            i <= e,
            p == a * pow10(i as nat),
            -1_000_000_000_000_000_000_000_000 <= p <= 1_000_000_000_000_000_000_000_000,
            -1_000_000_000_000_000_000_000_000 <= b <= 1_000_000_000_000_000_000_000_000,
        decreases e - i,
    {
        proof {
            assert(a * pow10((i + 1) as nat) == (a * pow10(i as nat)) * 10) by (nonlinear_arith)
                requires
                    pow10((i + 1) as nat) == 10 * pow10(i as nat),
            ;
        }
        p = p * 10;
        i += 1;
        if p > 1_000_000_000_000_000_000_000_000 {
            proof {
                lemma_pow10_monotone(i as nat, e as nat);
                assert(a * pow10(e as nat) >= a * pow10(i as nat)) by (nonlinear_arith)
                    requires
                        a * pow10(i as nat) > 0,
                        1 <= pow10(i as nat) <= pow10(e as nat),
                ;
            }
            return 1;
        }
        if p < -1_000_000_000_000_000_000_000_000 {
            proof {
                lemma_pow10_monotone(i as nat, e as nat);
                assert(a * pow10(e as nat) <= a * pow10(i as nat)) by (nonlinear_arith)
                    requires
                        a * pow10(i as nat) < 0,
                        1 <= pow10(i as nat) <= pow10(e as nat),
                ;
            }
            return -1;
        }
    }
    if p > b {
        1
    } else if p < b {
        -1
    } else {
        0
    }
}

impl Reading {
    #[verifier::type_invariant]
    pub open spec fn well_formed(self) -> bool {
        self@.wf()
    }

    /// The whole number `n`.
    pub fn from_integer(n: i32) -> (r: Reading)
        ensures
            r@ == (Ratio { num: n as int, den: 1, exp10: 0 }),
            r@.sensor_sized(),
    {
        Reading { num: n as i128, den: 1, exp10: 0 }
    }

    /// The number `mantissa * 10^exponent`, where both parts are within the
    /// limits of a numeral.
    pub fn from_decimal(mantissa: i64, exponent: i32) -> (r: Option<Reading>)
        ensures
            r is Some <==> (Ratio {
                num: mantissa as int,
                den: 1,
                exp10: exponent as int,
            }).numeral_sized(),
            r is Some ==> r->0@ == (Ratio {
                num: mantissa as int,
                den: 1,
                exp10: exponent as int,
            }),
    {
        if -NUMERAL_LIMIT < mantissa as i128 && (mantissa as i128) < NUMERAL_LIMIT
            && -EXPONENT_LIMIT <= exponent && exponent <= EXPONENT_LIMIT {
            Some(Reading { num: mantissa as i128, den: 1, exp10: exponent })
        } else {
            None
        }
    }

    pub fn numerator(&self) -> (n: i128)
        ensures
            n == self@.num,
            self@.wf(),
    {
        proof {
            use_type_invariant(self);
        }
        self.num
    }

    pub fn denominator(&self) -> (d: i128)
        ensures
            d == self@.den,
            self@.wf(),
    {
        proof {
            use_type_invariant(self);
        }
        self.den
    }

    /// The power of ten.
    pub fn exponent(&self) -> (e: i32)
        ensures
            e == self@.exp10,
            self@.wf(),
    {
        proof {
            use_type_invariant(self);
        }
        self.exp10
    }

    /// Whether all parts are within the limits of a reading taken from a
    /// sensor.
    pub fn is_sensor_sized(&self) -> (r: bool)
        ensures
            r == self@.sensor_sized(),
    {
        proof {
            use_type_invariant(self);
        }
        self.den <= 1024 && -SENSOR_LIMIT <= self.num && self.num <= SENSOR_LIMIT
            && -EXPONENT_LIMIT <= self.exp10 && self.exp10 <= EXPONENT_LIMIT
    }

    /// Whether the reading is greater than zero.
    pub fn is_positive(&self) -> (r: bool)
        ensures
            r == self@.positive(),
    {
        self.num > 0
    }

    /// The sign of the reading less the whole number `k`.
    fn sign_against(&self, k: i16) -> (s: i8)
        requires
            -255 <= k <= 255,
        ensures
            s == sign_of(self@.top() - k * self@.bottom()),
    {
        proof {
            use_type_invariant(self);
        }
        assert(-1_000_000_000_000_000_000_000_000 <= k * self.den
            <= 1_000_000_000_000_000_000_000_000) by (nonlinear_arith)
            requires
                -255 <= k <= 255,
                0 < self.den <= DEN_LIMIT,
        ;
        let whole: i128 = k as i128 * self.den;
        if self.exp10 >= 0 {
            scaled_sign(self.num, whole, self.exp10 as u32)
        } else {
            let down: u32 = (-self.exp10) as u32;
            assert(k * (self.den * pow10(down as nat)) == (k * self.den) * pow10(down as nat))
                by (nonlinear_arith);
            -scaled_sign(whole, self.num, down)
        }
    }

    /// Whether the reading is at least the whole number `k`.
    pub fn is_at_least(&self, k: u8) -> (r: bool)
        ensures
            r == self@.at_least(k as int),
    {
        self.sign_against(k as i16) >= 0
    }

    /// Whether the reading lies strictly between the whole numbers `low` and
    /// `high`.
    pub fn is_between(&self, low: i8, high: u8) -> (r: bool)
        ensures
            r == (self@.above(low as int) && self@.below(high as int)),
    {
        self.sign_against(low as i16) > 0 && self.sign_against(high as i16) < 0
    }
}

pub fn is_digit_char(c: char) -> (r: bool)
    ensures
        r == is_digit(c),
{
    '0' <= c && c <= '9'
}

/// Scans decimal digits from `from` onwards.
pub fn scan_digits(s: &Vec<char>, from: usize) -> (end: usize)
    requires
        from <= s.len(),
    ensures
        end == skip_digits(s@, from as int),
        from <= end <= s.len(),
{
    let mut i: usize = from;
    while i < s.len() && is_digit_char(s[i])
        invariant
            from <= i <= s.len(),
            skip_digits(s@, from as int) == skip_digits(s@, i as int),
        decreases s.len() - i,
    {
        i += 1;
    }
    i
}

/// The number that the first `MAX_DIGITS` significant digits of `digits`
/// write, and how many significant digits are left out.
fn significant_digits(digits: &Vec<char>) -> (r: (u64, usize))
    requires
        all_digits(digits@),
    ensures
        r.0 == significant_value(digits@),
        r.1 == dropped_count(digits@),
        r.0 < NUMERAL_LIMIT,
        r.1 <= digits.len(),
        significant_count(digits@) <= MAX_DIGITS ==> r.0 == digits_value(digits@) && r.1 == 0,
        r.0 * pow10(r.1 as nat) <= digits_value(digits@) < (r.0 + 1) * pow10(r.1 as nat),
{
    let mut mantissa: u64 = 0;
    let mut count: usize = 0;
    let mut i: usize = 0;
    proof {
        lemma_pow10_limit();
        assert(digits@.subrange(0, 0) =~= Seq::<char>::empty());
    }
    while i < digits.len()
        invariant
            i <= digits.len(),
            all_digits(digits@),
            count <= i,
            count == significant_count(digits@.subrange(0, i as int)),
            mantissa == significant_value(digits@.subrange(0, i as int)),
            mantissa < pow10(if count < MAX_DIGITS { count as nat } else { MAX_DIGITS as nat }),
            pow10(15) == 1_000_000_000_000_000,
        decreases digits.len() - i,
    {
        let c: char = digits[i];
        proof {
            assert(digits@.subrange(0, i + 1).drop_last() =~= digits@.subrange(0, i as int));
            assert(digits@.subrange(0, i + 1).last() == c);
            assert(is_digit(digits@[i as int]));
        }
        if !(count == 0 && c == '0') {
            if count < MAX_DIGITS {
                proof {
                    lemma_pow10_monotone(count as nat, 14);
                    lemma_pow10_monotone(14, 15);
                    lemma_pow10_monotone((count + 1) as nat, 15);
                }
                mantissa = mantissa * 10 + (c as u32 - 48) as u64;
            }
            count += 1;
        }
        i += 1;
    }
    proof {
        assert(digits@.subrange(0, i as int) =~= digits@);
        lemma_few_digits_are_exact(digits@);
        lemma_kept_digits_cut_off(digits@);
        lemma_pow10_monotone(if count < MAX_DIGITS { count as nat } else { MAX_DIGITS as nat }, 15);
    }
    (mantissa, if count > MAX_DIGITS { count - MAX_DIGITS } else { 0 })
}

/// `e`, or the nearest number within ten to the power of thirty where it is
/// beyond: a bound far beyond `EXPONENT_LIMIT`, so that an exponent of any
/// length can be read digit by digit.
pub open spec fn capped(e: int) -> int {
    if e > 1_000_000_000_000_000_000_000_000_000_000 {
        1_000_000_000_000_000_000_000_000_000_000
    } else if e < -1_000_000_000_000_000_000_000_000_000_000 {
        -1_000_000_000_000_000_000_000_000_000_000
    } else {
        e
    }
}

/// The number that a run of digits writes, capped.
fn capped_digits(digits: &Vec<char>) -> (r: Option<i128>)
    ensures
        r is Some <==> digits.len() > 0 && all_digits(digits@),
        r is Some ==> r->0 == capped(digits_value(digits@) as int),
{
    if digits.len() == 0 {
        return None;
    }
    let mut value: i128 = 0;
    let mut i: usize = 0;
    proof {
        assert(digits@.subrange(0, 0) =~= Seq::<char>::empty());
    }
    while i < digits.len()
        invariant
            i <= digits.len(),
            all_digits(digits@.subrange(0, i as int)),
            value == capped(digits_value(digits@.subrange(0, i as int)) as int),
        decreases digits.len() - i,
    {
        let c: char = digits[i];
        if !is_digit_char(c) {
            return None;
        }
        proof {
            let before = digits@.subrange(0, i as int);
            assert(digits@.subrange(0, i + 1) =~= before.push(c));
            lemma_digits_value_push(before, c);
            assert forall|j: int| 0 <= j < i + 1 implies is_digit(
                #[trigger] digits@.subrange(0, i + 1)[j],
            ) by {
                if j < i {
                    assert(before[j] == digits@.subrange(0, i + 1)[j]);
                }
            }
        }
        value = value * 10 + (c as u32 - 48) as i128;
        if value > 1_000_000_000_000_000_000_000_000_000_000 {
            value = 1_000_000_000_000_000_000_000_000_000_000;
        }
        i += 1;
    }
    proof {
        assert(digits@.subrange(0, i as int) =~= digits@);
    }
    Some(value)
}

/// The decimal exponent that the end of a numeral writes, capped.
fn parse_exponent(t: &Vec<char>) -> (r: Option<i128>)
    ensures
        r is Some <==> exponent_of(t@) is Some,
        r is Some ==> r->0 == capped(exponent_of(t@)->0),
{
    let n: usize = t.len();
    if n == 0 {
        return Some(0);
    }
    if t[0] != 'e' && t[0] != 'E' {
        return None;
    }
    let signed: bool = n > 1 && (t[1] == '-' || t[1] == '+');
    let from: usize = if signed { 2 } else { 1 };
    let digits: Vec<char> = slice_of(t, from, n);
    match capped_digits(&digits) {
        Some(value) => Some(if signed && t[1] == '-' { -value } else { value }),
        None => None,
    }
}

/// Appends the characters of `s` from `from` up to `to` to `out`.
fn append_range(out: &mut Vec<char>, s: &Vec<char>, from: usize, to: usize)
    requires
        from <= to <= s.len(),
    ensures
        final(out)@ == old(out)@ + s@.subrange(from as int, to as int),
{
    let mut i: usize = from;
    proof {
        assert(out@ =~= old(out)@ + s@.subrange(from as int, from as int));
    }
    while i < to
        invariant
            from <= i <= to <= s.len(),
            out@ == old(out)@ + s@.subrange(from as int, i as int),
        decreases to - i,
    {
        out.push(s[i]);
        i += 1;
        assert(out@ =~= old(out)@ + s@.subrange(from as int, i as int));
    }
}

/// The digits of a numeral, in front of the point and behind it in a row;
/// how many of them stand behind the point; and where they end.
fn numeral_digits(s: &Vec<char>) -> (r: (Vec<char>, usize, usize))
    ensures
        r.0@ == numeral_parts(s@).digits,
        r.1 == numeral_parts(s@).places,
        r.1 <= s.len(),
        r.2 <= s.len(),
        numeral_parts(s@).exponent == exponent_of(s@.subrange(r.2 as int, s.len() as int)),
        all_digits(r.0@),
{
    let n: usize = s.len();
    let signed: bool = n > 0 && (s[0] == '-' || s[0] == '+');
    let start: usize = if signed { 1 } else { 0 };
    let point: usize = scan_digits(s, start);
    let dotted: bool = point < n && s[point] == '.';
    let end: usize = if dotted { scan_digits(s, point + 1) } else { point };
    let mut digits: Vec<char> = Vec::new();
    append_range(&mut digits, s, start, point);
    if dotted {
        append_range(&mut digits, s, point + 1, end);
    }
    let places: usize = if dotted { end - point - 1 } else { 0 };
    proof {
        lemma_skip_digits_run(s@, start as int);
        if dotted {
            lemma_skip_digits_run(s@, point + 1);
            assert(digits@ =~= s@.subrange(start as int, point as int) + s@.subrange(
                point + 1,
                end as int,
            ));
        } else {
            assert(digits@ =~= s@.subrange(start as int, point as int));
        }
        assert forall|i: int| 0 <= i < digits@.len() implies is_digit(#[trigger] digits@[i]) by {
            if i < point - start {
                assert(digits@[i] == s@[start + i]);
            } else {
                assert(digits@[i] == s@[point + 1 + (i - (point - start))]);
            }
        }
    }
    (digits, places, end)
}

/// The power of ten of a numeral: the exponent written, less the digits
/// behind the point, plus the digits left out, within `EXPONENT_LIMIT`.
fn power_of_ten(written: i128, places: usize, dropped: usize) -> (e: i32)
    requires
        -1_000_000_000_000_000_000_000_000_000_000 <= written
            <= 1_000_000_000_000_000_000_000_000_000_000,
    ensures
        forall|exact: int|
            capped(exact) == written ==> e == #[trigger] clamp_exponent(exact - places + dropped),
{
    let shifted: i128 = written - places as i128 + dropped as i128;
    if shifted > EXPONENT_LIMIT as i128 {
        EXPONENT_LIMIT
    } else if shifted < -(EXPONENT_LIMIT as i128) {
        -EXPONENT_LIMIT
    } else {
        shifted as i32
    }
}

/// Reads a decimal numeral.
pub fn parse_numeral(s: &Vec<char>) -> (r: Option<Reading>)
    ensures
        option_view(r) == numeral(s@),
        r is Some ==> r->0@.numeral_sized(),
{
    let negative: bool = s.len() > 0 && s[0] == '-';
    let (digits, places, end) = numeral_digits(s);
    if digits.len() == 0 {
        return None;
    }
    let tail: Vec<char> = slice_of(s, end, s.len());
    match parse_exponent(&tail) {
        Some(written) => {
            let kept: (u64, usize) = significant_digits(&digits);
            let exp10: i32 = power_of_ten(written, places, kept.1);
            let ghost exact: int = numeral_parts(s@).exponent->0;
            assert(exp10 == clamp_exponent(exact - places + kept.1));
            let num: i128 = if negative { -(kept.0 as i128) } else { kept.0 as i128 };
            Some(Reading { num, den: 1, exp10 })
        },
        None => None,
    }
}

pub fn unit_lower_char(c: char) -> (r: char)
    ensures
        r == unit_lower(c),
{
    if c == '\u{212A}' {
        'k'
    } else {
        ascii_lower_char(c)
    }
}

fn unit_matches(unit: &Vec<char>, a: char, b: char, c: char, d: char) -> (r: bool)
    ensures
        r == unit_is(unit@, a, b, c, d),
{
    unit.len() == 4 && unit_lower_char(unit[0]) == a && unit_lower_char(unit[1]) == b
        && unit_lower_char(unit[2]) == c && unit_lower_char(unit[3]) == d
}

/// The scale that a unit suffix calls for.
pub fn scale_of_unit(unit: &Vec<char>) -> (scale: Scale)
    ensures
        scale == unit_scale(unit@),
{
    if unit_matches(unit, 'k', 'b', '/', 's') {
        Scale::Down
    } else if unit_matches(unit, 'g', 'b', '/', 's') {
        Scale::Up
    } else {
        Scale::Unchanged
    }
}

fn rescale(r: Reading, scale: Scale) -> (out: Reading)
    requires
        r@.numeral_sized(),
    ensures
        out@ == scaled(r@, scale),
        out@.sensor_sized(),
{
    match scale {
        Scale::Unchanged => r,
        Scale::Down => Reading { num: r.num, den: r.den * 1024, exp10: r.exp10 },
        Scale::Up => Reading { num: r.num * 1024, den: r.den, exp10: r.exp10 },
    }
}

/// Reads a raw sensor value: a magnitude, with or without a unit behind it.
pub fn parse_value(value: &str) -> (r: Option<Reading>)
    ensures
        option_view(r) == reading_of_value(value@),
        r is Some ==> r->0@.sensor_sized(),
{
    let v: Vec<char> = chars_of(value);
    let a: usize = scan_spaces(&v, 0);
    if a >= v.len() {
        return None;
    }
    let b: usize = scan_word(&v, a);
    let c: usize = scan_spaces(&v, b);
    let d: usize = scan_word(&v, c);
    let magnitude: Vec<char> = slice_of(&v, a, b);
    match parse_numeral(&magnitude) {
        Some(r) => {
            if c < v.len() {
                let unit: Vec<char> = slice_of(&v, c, d);
                Some(rescale(r, scale_of_unit(&unit)))
            } else {
                Some(r)
            }
        },
        None => None,
    }
}

/// The share that `used` is of `total`, in percent, where both are greater
/// than zero; `previous` where either is not. `used` and `total` are readings
/// of sensor size, as `parse_value`, `from_decimal` and `from_integer` give
/// them.
pub fn memory_percent(used: Reading, total: Reading, previous: Reading) -> (r: Reading)
    requires
        used@.sensor_sized(),
        total@.sensor_sized(),
    ensures
        r@ == percent_of(used@, total@, previous@),
{
    if used.num > 0 && total.num > 0 {
        assert(0 < used.num * total.den <= SENSOR_LIMIT * 1024) by (nonlinear_arith)
            requires
                0 < used.num <= SENSOR_LIMIT,
                0 < total.den <= 1024,
        ;
        assert(0 < used.den * total.num <= 1024 * SENSOR_LIMIT) by (nonlinear_arith)
            requires
                0 < total.num <= SENSOR_LIMIT,
                0 < used.den <= 1024,
        ;
        Reading {
            num: used.num * total.den * 100,
            den: used.den * total.num,
            exp10: used.exp10 - total.exp10,
        }
    } else {
        previous
    }
}

/// The share of memory in use is computed only where the memory used and the
/// memory in all are both greater than zero: where either is not, it is the
/// previous value, whatever that value is.
pub proof fn lemma_percent_needs_both_positive(used: Ratio, total: Ratio, previous: Ratio)
    ensures
        !(used.positive() && total.positive()) ==> percent_of(used, total, previous) == previous,
        used.positive() && total.positive() ==> percent_of(used, total, previous) == (Ratio {
            num: used.num * total.den * 100,
            den: used.den * total.num,
            exp10: used.exp10 - total.exp10,
        }),
{
}

} // verus!
