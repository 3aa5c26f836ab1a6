//! Amounts of money, and the text that writes them.
//!
//! Text is read the way it is written in a form's number field: an optional
//! sign, digits with an optional decimal point, and an optional power of
//! ten; or one of the words `inf`, `infinity` and `nan`, in any case.
//!
//! An amount keeps the whole thousandths of the number, rounded down, and
//! whether a fraction of a thousandth lies above them. So no digit is lost
//! to a comparison with a whole number of thousandths: the amount tells on
//! which side of every such number the written number lies. A number beyond
//! `AMOUNT_LIMIT` on either side, the infinite ones included, is held at
//! the limit. What `nan` writes is no number and is above nothing.

use crate::numeral::{
    all_digits, capped, chars_of, count_before, digits_between, digits_value, find_first, is_digit,
    lemma_ascii_text, lemma_count_before, lemma_count_before_is, lemma_numeral_is_scaled,
    lemma_numeral_padding,
    lemma_pow10_monotone, lemma_pow10_positive, lemma_rest_is_fraction, lemma_scaled_negative,
    numeral, numeral_capped, pow10, rest_after, rest_between, scaled_floor, scaled_fraction,
    CAPITAL_E, MINUS, PLUS, POINT, SMALL_E,
};
use vstd::prelude::*;
use vstd::string::*;

verus! {

/// The largest magnitude of an amount, in thousandths: ten to the thirtieth.
pub const AMOUNT_LIMIT: i128 = 1_000_000_000_000_000_000_000_000_000_000;

/// A quantity as far as comparing it with whole numbers needs it: either a
/// number, given by the greatest whole number not above it and by whether
/// it lies above that whole number, or no number at all.
pub enum Measure {
    /// A number from `whole` up to, but not reaching, `whole + 1`; it is
    /// `whole` itself unless `fraction` holds.
    Number { whole: int, fraction: bool },
    /// No number; it compares as above nothing.
    NotANumber,
}

impl Measure {
    /// Whether this quantity is greater than the whole number `bound`.
    pub open spec fn exceeds(self, bound: int) -> bool {
        match self {
            Measure::Number { whole, fraction } => whole > bound || (whole == bound && fraction),
            Measure::NotANumber => false,
        }
    }

    /// Whether this number is no greater than `other`, as far as whole
    /// numbers can tell them apart. No number stands in this relation.
    pub open spec fn at_most(self, other: Measure) -> bool {
        match (self, other) {
            (
                Measure::Number { whole: a, fraction: f },
                Measure::Number { whole: b, fraction: g },
            ) => a < b || (a == b && (g || !f)),
            _ => false,
        }
    }

    /// This quantity with the whole number `shift` added to it.
    pub open spec fn plus(self, shift: int) -> Measure {
        match self {
            Measure::Number { whole, fraction } => Measure::Number {
                whole: whole + shift,
                fraction,
            },
            Measure::NotANumber => Measure::NotANumber,
        }
    }
}

/// The number of `whole` thousandths, with a fraction above them or not,
/// as an amount holds it: at the limit where it lies at or beyond it.
pub open spec fn held(whole: int, fraction: bool) -> Measure {
    if whole >= AMOUNT_LIMIT {
        Measure::Number { whole: AMOUNT_LIMIT as int, fraction: false }
    } else if whole < -AMOUNT_LIMIT {
        Measure::Number { whole: -AMOUNT_LIMIT, fraction: false }
    } else {
        Measure::Number { whole, fraction }
    }
}

/// An amount of money in thousandths of a unit.
#[derive(Clone, Copy, Debug, PartialEq, Eq)]
pub struct Amount {
    thousandths: i128,
    fraction: bool,
    number: bool,
}

impl View for Amount {
    type V = Measure;

    /// The amount, in thousandths.
    closed spec fn view(&self) -> Measure {
        if self.number {
            Measure::Number { whole: self.thousandths as int, fraction: self.fraction }
        } else {
            Measure::NotANumber
        }
    }
}

impl Amount {
    #[verifier::type_invariant]
    spec fn within_limit(self) -> bool {
        &&& -AMOUNT_LIMIT <= self.thousandths <= AMOUNT_LIMIT
        &&& !self.number ==> self.thousandths == 0 && !self.fraction
    }

    /// The amount of nothing.
    pub fn zero() -> (r: Amount)
        ensures
            r@ == (Measure::Number { whole: 0, fraction: false }),
    {
        Amount { thousandths: 0, fraction: false, number: true }
    }

    /// The amount that is no number.
    pub fn not_a_number() -> (r: Amount)
        ensures
            r@ == Measure::NotANumber,
    {
        Amount { thousandths: 0, fraction: false, number: false }
    }

    /// The amount of exactly `v` thousandths, held at the limit where `v`
    /// lies beyond it.
    pub fn from_thousandths(v: i128) -> (r: Amount)
        ensures
            r@ == held(v as int, false),
    {
        if v > AMOUNT_LIMIT {
            Amount { thousandths: AMOUNT_LIMIT, fraction: false, number: true }
        } else if v < -AMOUNT_LIMIT {
            Amount { thousandths: -AMOUNT_LIMIT, fraction: false, number: true }
        } else {
            Amount { thousandths: v, fraction: false, number: true }
        }
    }

    /// The amount of exactly `units` whole currency units.
    pub fn from_units(units: i64) -> (r: Amount)
        ensures
            r@ == (Measure::Number { whole: units * 1000, fraction: false }),
    {
        let u: i128 = units as i128;
        Amount { thousandths: u * 1000, fraction: false, number: true }
    }

    /// Tells whether the amount is a number.
    pub fn is_number(&self) -> (r: bool)
        ensures
            r == self@ is Number,
    {
        self.number
    }

    /// The whole thousandths of the amount, rounded down; zero for what is
    /// no number.
    pub fn thousandths(&self) -> (v: i128)
        ensures
            self@ matches Measure::Number { whole, .. } ==> v == whole,
            self@ is NotANumber ==> v == 0,
            -AMOUNT_LIMIT <= v <= AMOUNT_LIMIT,
    {
        proof {
            use_type_invariant(self);
        }
        self.thousandths
    }

    /// Tells whether a fraction of a thousandth lies above the whole
    /// thousandths.
    pub fn has_fraction(&self) -> (r: bool)
        ensures
            self@ matches Measure::Number { fraction, .. } ==> r == fraction,
            self@ is NotANumber ==> !r,
    {
        proof {
            use_type_invariant(self);
        }
        self.fraction
    }
}

/// The small letter for a capital ASCII letter; any other character
/// unchanged.
pub open spec fn small(c: char) -> char {
    if 'A' <= c <= 'Z' {
        ((c as int) + 32) as char
    } else {
        c
    }
}

/// Whether `u` spells `word`, capitals counting as small letters.
pub open spec fn spells(u: Seq<char>, word: Seq<char>) -> bool {
    u.len() == word.len() && forall|i: int| 0 <= i < u.len() ==> small(#[trigger] u[i]) == word[i]
}

/// The word for what is no number.
pub open spec fn word_nan() -> Seq<char> {
    seq!['n', 'a', 'n']
}

/// The short word for an infinite number.
pub open spec fn word_inf() -> Seq<char> {
    seq!['i', 'n', 'f']
}

/// The long word for an infinite number.
pub open spec fn word_infinity() -> Seq<char> {
    seq!['i', 'n', 'f', 'i', 'n', 'i', 't', 'y']
}

/// Whether `s`, after its sign, is the word for what is no number.
pub open spec fn is_nan(s: Seq<char>) -> bool {
    spells(unsigned(s), word_nan())
}

/// Whether `s`, after its sign, is a word for an infinite number.
pub open spec fn is_infinite(s: Seq<char>) -> bool {
    spells(unsigned(s), word_inf()) || spells(unsigned(s), word_infinity())
}

/// How many characters the sign at the head of `s` takes: one for a `+` or
/// a `-`, none otherwise.
pub open spec fn sign_len(s: Seq<char>) -> int {
    if s.len() > 0 && (s[0] == '+' || s[0] == '-') {
        1
    } else {
        0
    }
}

/// Whether `s` begins with a minus sign.
pub open spec fn has_minus(s: Seq<char>) -> bool {
    s.len() > 0 && s[0] == '-'
}

/// The text `s` after its sign.
pub open spec fn unsigned(s: Seq<char>) -> Seq<char> {
    s.subrange(sign_len(s), s.len() as int)
}

/// The part of the unsigned text `u` before its first `e` or `E`.
pub open spec fn mantissa(u: Seq<char>) -> Seq<char> {
    u.subrange(0, count_before(u, 'e', 'E'))
}

/// The part of the unsigned text `u` after its first `e` or `E`, where it
/// has one.
pub open spec fn exponent_part(u: Seq<char>) -> Option<Seq<char>> {
    if count_before(u, 'e', 'E') < u.len() {
        Some(u.subrange(count_before(u, 'e', 'E') + 1, u.len() as int))
    } else {
        None
    }
}

/// The characters of the mantissa `m` before its first decimal point.
pub open spec fn whole_digits(m: Seq<char>) -> Seq<char> {
    m.subrange(0, count_before(m, '.', '.'))
}

/// The characters of the mantissa `m` after its first decimal point; none
/// where it has no point.
pub open spec fn fraction_digits(m: Seq<char>) -> Seq<char> {
    if count_before(m, '.', '.') < m.len() {
        m.subrange(count_before(m, '.', '.') + 1, m.len() as int)
    } else {
        Seq::empty()
    }
}

/// Whether `m` is digits with at most one decimal point among them, before
/// them or after them, and at least one digit in all.
pub open spec fn is_mantissa(m: Seq<char>) -> bool {
    &&& all_digits(whole_digits(m))
    &&& all_digits(fraction_digits(m))
    &&& whole_digits(m).len() + fraction_digits(m).len() > 0
}

/// Whether `e` is an optional sign followed by one or more digits.
pub open spec fn is_exponent(e: Seq<char>) -> bool {
    unsigned(e).len() > 0 && all_digits(unsigned(e))
}

/// The power of ten that the exponent text `e` writes.
pub open spec fn exponent_value(e: Seq<char>) -> int {
    if has_minus(e) {
        -(digits_value(unsigned(e)) as int)
    } else {
        digits_value(unsigned(e)) as int
    }
}

/// Whether `s` writes a decimal number: an optional sign, a mantissa, and
/// optionally an `e` or `E` with an exponent. No spaces and no other
/// characters are allowed anywhere.
pub open spec fn is_decimal(s: Seq<char>) -> bool {
    &&& is_mantissa(mantissa(unsigned(s)))
    &&& match exponent_part(unsigned(s)) {
        Some(e) => is_exponent(e),
        None => true,
    }
}

/// The digits of the decimal text `s`, those before the point followed by
/// those after it.
pub open spec fn decimal_digits(s: Seq<char>) -> Seq<char> {
    whole_digits(mantissa(unsigned(s))) + fraction_digits(mantissa(unsigned(s)))
}

/// The power of ten by which the decimal text `s` scales its mantissa.
pub open spec fn decimal_shift(s: Seq<char>) -> int {
    match exponent_part(unsigned(s)) {
        Some(e) => exponent_value(e),
        None => 0,
    }
}

/// The digits of the decimal text `s` as one whole number, with the sign
/// of `s`.
pub open spec fn decimal_value(s: Seq<char>) -> int {
    if has_minus(s) {
        -(digits_value(decimal_digits(s)) as int)
    } else {
        digits_value(decimal_digits(s)) as int
    }
}

/// The power of ten by which `decimal_value` is to be scaled to give the
/// number that `s` writes in thousandths: what the exponent, the three
/// places of a thousandth and the places after the decimal point leave.
pub open spec fn decimal_power(s: Seq<char>) -> int {
    decimal_shift(s) + 3 - fraction_digits(mantissa(unsigned(s))).len()
}

/// Whether the number that the decimal text `s` writes, in thousandths, is
/// greater than the whole number `bound`, every digit of `s` counted.
pub open spec fn written_exceeds(s: Seq<char>, bound: int) -> bool {
    if decimal_power(s) >= 0 {
        decimal_value(s) * pow10(decimal_power(s) as nat) > bound
    } else {
        decimal_value(s) > bound * pow10((-decimal_power(s)) as nat)
    }
}

/// The amount, in thousandths, that the text `s` stands for.
///
/// The word for what is no number stands for no number. A word for an
/// infinite number stands for the limit, on the side of its sign. A decimal
/// text stands for the number it writes: its whole thousandths, rounded
/// down, and whether a fraction lies above them; held at the limit where
/// it lies beyond it. Any other text stands for zero.
pub open spec fn amount_of(s: Seq<char>) -> Measure {
    if is_nan(s) {
        Measure::NotANumber
    } else if is_infinite(s) {
        Measure::Number {
            whole: if has_minus(s) {
                -AMOUNT_LIMIT
            } else {
                AMOUNT_LIMIT as int
            },
            fraction: false,
        }
    } else if is_decimal(s) {
        held(
            scaled_floor(decimal_value(s), decimal_power(s)),
            scaled_fraction(decimal_value(s), decimal_power(s)),
        )
    } else {
        Measure::Number { whole: 0, fraction: false }
    }
}

/// Text that writes no decimal number and is none of the three words
/// stands for the amount zero.
pub proof fn lemma_unreadable_amount_is_zero(s: Seq<char>)
    requires
        !is_decimal(s),
        !is_nan(s),
        !is_infinite(s),
    ensures
        amount_of(s) == (Measure::Number { whole: 0, fraction: false }),
{
}

/// Whatever the text, a number it stands for lies within the limit.
pub proof fn lemma_amount_within_limit(s: Seq<char>)
    ensures
        amount_of(s) matches Measure::Number { whole, .. } ==> -AMOUNT_LIMIT <= whole
            <= AMOUNT_LIMIT,
{
}

/// A word for an infinite number stands for an amount that no amount
/// exceeds, or, with a minus sign, for one that exceeds no amount.
pub proof fn lemma_infinite_is_outermost(s: Seq<char>, t: Seq<char>)
    requires
        is_infinite(s),
        !is_nan(s),
        !(amount_of(t) is NotANumber),
    ensures
        !has_minus(s) ==> amount_of(t).at_most(amount_of(s)),
        has_minus(s) ==> amount_of(s).at_most(amount_of(t)),
{
    lemma_amount_within_limit(t);
}

/// An amount read from a decimal text decides every comparison as the
/// written number does: for a whole number of thousandths within the limit,
/// the amount exceeds it exactly when the number that the text writes, with
/// every digit counted, is greater.
pub proof fn lemma_amount_decides_as_written(s: Seq<char>, bound: int)
    requires
        is_decimal(s),
        !is_nan(s),
        !is_infinite(s),
        -AMOUNT_LIMIT <= bound < AMOUNT_LIMIT,
    ensures
        amount_of(s).exceeds(bound) <==> written_exceeds(s, bound),
{
    let v = decimal_value(s);
    let e = decimal_power(s);
    if e < 0 {
        let p = pow10((-e) as nat) as int;
        lemma_pow10_positive((-e) as nat);
        let q = v / p;
        let r = v % p;
        vstd::arithmetic::div_mod::lemma_fundamental_div_mod(v, p);
        vstd::arithmetic::div_mod::lemma_mod_bound(v, p);
        assert(v > bound * p <==> q > bound || (q == bound && r != 0)) by (nonlinear_arith)
            requires
                v == p * q + r,
                0 <= r < p,
        ;
    }
}

/// A text of digits alone stands for exactly that many whole units: a
/// thousand thousandths for each, up to the limit.
pub proof fn lemma_digits_alone_are_units(s: Seq<char>)
    requires
        s.len() > 0,
        all_digits(s),
    ensures
        is_decimal(s),
        amount_of(s) == held((digits_value(s) * 1000) as int, false),
{
    assert forall|i: int| 0 <= i < s.len() implies (#[trigger] s[i]) != 'e' && s[i] != 'E' && s[i]
        != '.' && s[i] != '+' && s[i] != '-' by {
        assert(is_digit(s[i]));
    }
    assert(s[0] != '+' && s[0] != '-');
    assert(unsigned(s) == s);
    assert(is_digit(s[0]));
    assert(small(s[0]) != 'n' && small(s[0]) != 'i');
    assert(word_nan()[0] == 'n' && word_inf()[0] == 'i' && word_infinity()[0] == 'i');
    lemma_count_before_is(s, 'e', 'E', s.len() as int);
    assert(mantissa(s) == s);
    lemma_count_before_is(s, '.', '.', s.len() as int);
    assert(whole_digits(s) == s);
    assert(fraction_digits(s) == Seq::<char>::empty());
    assert(decimal_digits(s) == s);
    assert(pow10(3) == 1000) by {
        reveal_with_fuel(pow10, 4);
    }
}

/// A text that spells a word of ASCII letters holds ASCII characters only.
proof fn lemma_word_is_ascii(u: Seq<char>, word: Seq<char>)
    requires
        spells(u, word),
        vstd::utf8::is_ascii_chars(word),
    ensures
        vstd::utf8::is_ascii_chars(u),
{
    assert forall|i: int| 0 <= i < u.len() implies '\0' <= #[trigger] u[i] <= '\u{7f}' by {
        assert(small(u[i]) == word[i]);
        assert('\0' <= word[i] <= '\u{7f}');
    }
}

/// A text with a character outside ASCII is none of the three words.
proof fn lemma_words_are_ascii(s: Seq<char>)
    requires
        is_nan(s) || is_infinite(s),
    ensures
        vstd::utf8::is_ascii_chars(s),
{
    let u = unsigned(s);
    assert(vstd::utf8::is_ascii_chars(word_nan()));
    assert(vstd::utf8::is_ascii_chars(word_inf()));
    assert(vstd::utf8::is_ascii_chars(word_infinity()));
    if spells(u, word_nan()) {
        lemma_word_is_ascii(u, word_nan());
    } else if spells(u, word_inf()) {
        lemma_word_is_ascii(u, word_inf());
    } else {
        lemma_word_is_ascii(u, word_infinity());
    }
    assert forall|i: int| 0 <= i < s.len() implies '\0' <= #[trigger] s[i] <= '\u{7f}' by {
        if i >= sign_len(s) {
            assert(s[i] == u[i - sign_len(s)]);
        }
    }
}

/// A decimal text holds ASCII characters only.
pub proof fn lemma_decimal_is_ascii(s: Seq<char>)
    requires
        is_decimal(s),
    ensures
        vstd::utf8::is_ascii_chars(s),
{
    let u = unsigned(s);
    let m = mantissa(u);
    let k = count_before(u, 'e', 'E');
    let p = count_before(m, '.', '.');
    lemma_count_before(u, 'e', 'E');
    lemma_count_before(m, '.', '.');
    assert forall|i: int| 0 <= i < s.len() implies '\0' <= #[trigger] s[i] <= '\u{7f}' by {
        if i >= sign_len(s) {
            let j = i - sign_len(s);
            assert(s[i] == u[j]);
            if j < k {
                assert(u[j] == m[j]);
                if j < p {
                    assert(is_digit(whole_digits(m)[j]));
                } else if j > p {
                    assert(is_digit(fraction_digits(m)[j - p - 1]));
                }
            } else if j > k {
                let e = exponent_part(u).unwrap();
                let t = j - k - 1;
                assert(u[j] == e[t]);
                if t >= sign_len(e) {
                    assert(is_digit(unsigned(e)[t - sign_len(e)]));
                }
            }
        }
    }
}

/// Read far enough past its end, a digit text is worth nothing if it is
/// worth nothing, and more than the limit otherwise.
proof fn lemma_far_places(d: Seq<char>, n: int)
    requires
        n >= d.len() + 31,
    ensures
        digits_value(d) == 0 ==> numeral(d, n) == 0,
        digits_value(d) > 0 ==> numeral(d, n) > AMOUNT_LIMIT,
{
    let extra = (n - d.len()) as nat;
    lemma_numeral_padding(d, extra);
    lemma_pow10_monotone(31, extra);
    assert(pow10(31) > AMOUNT_LIMIT) by {
        reveal_with_fuel(pow10, 32);
    }
    let v = digits_value(d);
    let p = pow10(extra);
    if v > 0 {
        assert(v * p >= p) by (nonlinear_arith)
            requires
                v >= 1,
                p >= 0,
        ;
    } else {
        assert(v * p == 0) by (nonlinear_arith)
            requires
                v == 0,
        ;
    }
}

/// Tells the sign that the bytes from `from` on begin with: whether it is
/// a minus, and where the bytes after it start.
fn read_sign(bytes: &[u8], from: usize) -> (r: (bool, usize))
    requires
        from <= bytes@.len(),
    ensures
        r.0 == has_minus(chars_of(bytes@).subrange(from as int, bytes@.len() as int)),
        r.1 - from == sign_len(chars_of(bytes@).subrange(from as int, bytes@.len() as int)),
        from <= r.1 <= bytes@.len(),
{
    let ghost part = chars_of(bytes@).subrange(from as int, bytes@.len() as int);
    if from < bytes.len() {
        let b: u8 = bytes[from];
        assert(part[0] == b as char);
        if b == MINUS {
            (true, from + 1)
        } else if b == PLUS {
            (false, from + 1)
        } else {
            (false, from)
        }
    } else {
        (false, from)
    }
}

/// Where the digits of a mantissa lie: those before the point from `whole`
/// up to `point`, those after it from `fraction` up to `end`.
struct Mantissa {
    whole: usize,
    point: usize,
    fraction: usize,
    end: usize,
}

/// Takes the bytes from `from` up to `to` as a mantissa and finds its two
/// runs of digits, or finds that it is no mantissa.
fn read_mantissa(bytes: &[u8], from: usize, to: usize) -> (r: Option<Mantissa>)
    requires
        from <= to <= bytes@.len(),
    ensures
        r is Some <==> is_mantissa(chars_of(bytes@).subrange(from as int, to as int)),
        r matches Some(m) ==> {
            &&& m.whole == from
            &&& m.end == to
            &&& m.whole <= m.point <= m.fraction <= m.end
            &&& whole_digits(chars_of(bytes@).subrange(from as int, to as int)) == chars_of(
                bytes@,
            ).subrange(m.whole as int, m.point as int)
            &&& fraction_digits(chars_of(bytes@).subrange(from as int, to as int)) == chars_of(
                bytes@,
            ).subrange(m.fraction as int, m.end as int)
        },
{
    let ghost part = chars_of(bytes@).subrange(from as int, to as int);
    let point: usize = find_first(bytes, from, to, POINT, POINT);
    let fraction: usize = if point < to {
        point + 1
    } else {
        to
    };
    assert(whole_digits(part) == chars_of(bytes@).subrange(from as int, point as int));
    assert(fraction_digits(part) == chars_of(bytes@).subrange(fraction as int, to as int));
    if !digits_between(bytes, from, point) {
        return None;
    }
    if !digits_between(bytes, fraction, to) {
        return None;
    }
    if (point - from) + (to - fraction) == 0 {
        return None;
    }
    Some(Mantissa { whole: from, point, fraction, end: to })
}

/// Takes the bytes from `from` to the end as an exponent and reads it: its
/// direction, downward for a minus sign, and its size, held at `cap`. Gives
/// nothing where the bytes are no exponent.
fn read_exponent(bytes: &[u8], from: usize, cap: u128) -> (r: Option<(bool, u128)>)
    requires
        from <= bytes@.len(),
        cap <= 0x0fff_ffff_ffff_ffff_ffff_ffff_ffff_ffff,
    ensures
        r is Some <==> is_exponent(chars_of(bytes@).subrange(from as int, bytes@.len() as int)),
        r matches Some((downward, size)) ==> {
            &&& downward == has_minus(
                chars_of(bytes@).subrange(from as int, bytes@.len() as int),
            )
            &&& size == capped(
                digits_value(
                    unsigned(chars_of(bytes@).subrange(from as int, bytes@.len() as int)),
                ),
                cap as nat,
            )
        },
{
    let len: usize = bytes.len();
    let ghost e = chars_of(bytes@).subrange(from as int, len as int);
    let (downward, digits) = read_sign(bytes, from);
    assert(unsigned(e) == chars_of(bytes@).subrange(digits as int, len as int));
    if digits == len {
        return None;
    }
    if !digits_between(bytes, digits, len) {
        return None;
    }
    let size: u128 = numeral_capped(bytes, digits, len, len, len, (len - digits) as u128, cap);
    assert(unsigned(e) == chars_of(bytes@).subrange(digits as int, len as int) + chars_of(
        bytes@,
    ).subrange(len as int, len as int));
    Some((downward, size))
}

/// The number of places to read, held to what can matter: no fewer than
/// none, and no more than thirty-one past the last digit.
pub open spec fn places_to_read(whole_len: int, shift: int, digit_count: int) -> int {
    if whole_len + shift + 3 <= 0 {
        0
    } else if whole_len + shift + 3 > digit_count + 31 {
        digit_count + 31
    } else {
        whole_len + shift + 3
    }
}

/// Reading only the places that can matter gives the same amount.
proof fn lemma_places_to_read(d: Seq<char>, whole_len: int, shift: int)
    ensures
        capped(numeral(d, whole_len + shift + 3), AMOUNT_LIMIT as nat) == capped(
            numeral(d, places_to_read(whole_len, shift, d.len() as int)),
            AMOUNT_LIMIT as nat,
        ),
{
    let exact = whole_len + shift + 3;
    if exact > d.len() + 31 {
        lemma_far_places(d, exact);
        lemma_far_places(d, (d.len() + 31) as int);
    }
}

/// Computes the number of places to read from the lengths of the digit
/// runs and the exponent as read, whose size was held at more than the
/// digits and forty together.
fn count_places(whole_len: usize, digit_count: usize, downward: bool, size: u128, Ghost(
    shift,
): Ghost<int>) -> (r: u128)
    requires
        whole_len <= digit_count,
        size == capped((if downward { -shift } else { shift }) as nat, (digit_count + 40) as nat),
        if downward {
            shift <= 0
        } else {
            shift >= 0
        },
    ensures
        r == places_to_read(whole_len as int, shift, digit_count as int),
{
    let base: u128 = whole_len as u128 + 3;
    let most: u128 = digit_count as u128 + 31;
    if downward {
        if size >= base {
            0
        } else {
            base - size
        }
    } else {
        let reach: u128 = base + size;
        if reach > most {
            most
        } else {
            reach
        }
    }
}

/// Tells whether the byte `b` is the small letter `letter` or its capital.
fn is_letter(b: u8, letter: u8) -> (r: bool)
    requires
        97 <= letter <= 122,
    ensures
        r == (small(b as char) == letter as char),
{
    b == letter || b == letter - 32
}

/// Tells whether the bytes from `from` to the end spell the word for what
/// is no number.
fn reads_nan(bytes: &[u8], from: usize) -> (r: bool)
    requires
        from <= bytes@.len(),
    ensures
        r == spells(chars_of(bytes@).subrange(from as int, bytes@.len() as int), word_nan()),
{
    let ghost u = chars_of(bytes@).subrange(from as int, bytes@.len() as int);
    if bytes.len() - from != 3 {
        return false;
    }
    assert(u[0] == bytes@[from as int] as char);
    assert(u[1] == bytes@[from + 1] as char);
    assert(u[2] == bytes@[from + 2] as char);
    is_letter(bytes[from], 110) && is_letter(bytes[from + 1], 97) && is_letter(bytes[from + 2], 110)
}

/// Tells whether the bytes from `from` to the end spell a word for an
/// infinite number.
fn reads_infinite(bytes: &[u8], from: usize) -> (r: bool)
    requires
        from <= bytes@.len(),
    ensures
        r == (spells(chars_of(bytes@).subrange(from as int, bytes@.len() as int), word_inf())
            || spells(
            chars_of(bytes@).subrange(from as int, bytes@.len() as int),
            word_infinity(),
        )),
{
    let ghost u = chars_of(bytes@).subrange(from as int, bytes@.len() as int);
    let count: usize = bytes.len() - from;
    if count != 3 && count != 8 {
        return false;
    }
    assert(u[0] == bytes@[from as int] as char);
    assert(u[1] == bytes@[from + 1] as char);
    assert(u[2] == bytes@[from + 2] as char);
    let short: bool = is_letter(bytes[from], 105) && is_letter(bytes[from + 1], 110) && is_letter(
        bytes[from + 2],
        102,
    );
    if count == 3 {
        return short;
    }
    assert(u[3] == bytes@[from + 3] as char);
    assert(u[4] == bytes@[from + 4] as char);
    assert(u[5] == bytes@[from + 5] as char);
    assert(u[6] == bytes@[from + 6] as char);
    assert(u[7] == bytes@[from + 7] as char);
    short && is_letter(bytes[from + 3], 105) && is_letter(bytes[from + 4], 110) && is_letter(
        bytes[from + 5],
        105,
    ) && is_letter(bytes[from + 6], 116) && is_letter(bytes[from + 7], 121)
}

/// Puts together the amount of a decimal text from what was read of it:
/// its sign, the size of its whole thousandths held at the limit, and
/// whether a fraction was left over.
fn assemble(negative: bool, size: u128, rest: bool, Ghost(value): Ghost<nat>, Ghost(
    power,
): Ghost<int>) -> (r: Amount)
    requires
        size == capped(scaled_floor(value as int, power) as nat, AMOUNT_LIMIT as nat),
        rest == scaled_fraction(value as int, power),
        scaled_floor(value as int, power) >= 0,
    ensures
        r@ == held(
            scaled_floor(if negative { -(value as int) } else { value as int }, power),
            scaled_fraction(if negative { -(value as int) } else { value as int }, power),
        ),
{
    proof {
        lemma_scaled_negative(value, power);
    }
    let limit: u128 = AMOUNT_LIMIT as u128;
    if negative {
        if size >= limit {
            Amount { thousandths: -AMOUNT_LIMIT, fraction: false, number: true }
        } else if rest {
            Amount { thousandths: -(size as i128) - 1, fraction: true, number: true }
        } else {
            Amount { thousandths: -(size as i128), fraction: false, number: true }
        }
    } else {
        if size >= limit {
            Amount { thousandths: AMOUNT_LIMIT, fraction: false, number: true }
        } else {
            Amount { thousandths: size as i128, fraction: rest, number: true }
        }
    }
}

/// Reads an amount from `text`.
///
/// Where `text` writes a decimal number, the result holds its whole
/// thousandths, rounded down, and whether a fraction lies above them, so
/// that it compares with every whole number of thousandths as the written
/// number does; a number beyond the limit is held at the limit. The words
/// `inf` and `infinity` read as the limit on the side of their sign, and
/// `nan` as no number. Any other text, the empty text included, reads as
/// zero.
pub fn parse_amount(text: &str) -> (r: Amount)
    ensures
        r@ == amount_of(text@),
{
    if !text.is_ascii() {
        proof {
            if is_decimal(text@) {
                lemma_decimal_is_ascii(text@);
            }
            if is_nan(text@) || is_infinite(text@) {
                lemma_words_are_ascii(text@);
            }
        }
        return Amount::zero();
    }
    let bytes = text.as_bytes();
    proof {
        lemma_ascii_text(text);
    }
    let ghost s = text@;
    let ghost u = unsigned(s);
    let len: usize = bytes.len();
    let (negative, start) = read_sign(bytes, 0);
    assert(s == chars_of(bytes@).subrange(0, len as int));
    assert(u == chars_of(bytes@).subrange(start as int, len as int));
    if reads_nan(bytes, start) {
        return Amount::not_a_number();
    }
    if reads_infinite(bytes, start) {
        return if negative {
            Amount::from_thousandths(-AMOUNT_LIMIT)
        } else {
            Amount::from_thousandths(AMOUNT_LIMIT)
        };
    }
    let mark: usize = find_first(bytes, start, len, SMALL_E, CAPITAL_E);
    assert(mantissa(u) == chars_of(bytes@).subrange(start as int, mark as int));
    let m = match read_mantissa(bytes, start, mark) {
        Some(m) => m,
        None => {
            return Amount::zero();
        },
    };
    let ghost d = decimal_digits(s);
    let whole_len: usize = m.point - m.whole;
    let digit_count: usize = whole_len + (m.end - m.fraction);
    let mut downward: bool = false;
    let mut shift: u128 = 0;
    if mark < len {
        assert(exponent_part(u).unwrap() == chars_of(bytes@).subrange(mark + 1, len as int));
        match read_exponent(bytes, mark + 1, digit_count as u128 + 40) {
            Some(e) => {
                downward = e.0;
                shift = e.1;
            },
            None => {
                return Amount::zero();
            },
        }
    }
    let places: u128 = count_places(
        whole_len,
        digit_count,
        downward,
        shift,
        Ghost(decimal_shift(s)),
    );
    let size: u128 = numeral_capped(
        bytes,
        m.whole,
        m.point,
        m.fraction,
        m.end,
        places,
        AMOUNT_LIMIT as u128,
    );
    let rest: bool = rest_between(bytes, m.whole, m.point, m.fraction, m.end, places);
    proof {
        let exact: int = whole_len + decimal_shift(s) + 3;
        lemma_places_to_read(d, whole_len as int, decimal_shift(s));
        lemma_rest_is_fraction(d, exact);
        lemma_numeral_is_scaled(d, exact);
        assert(exact - d.len() == decimal_power(s));
        if rest_after(d, exact) {
            let i = choose|i: int| exact <= i && 0 <= i < d.len() && #[trigger] d[i] != '0';
            assert(places <= i && d[i] != '0');
        }
        if rest_after(d, places as int) {
            let i = choose|i: int| places <= i && 0 <= i < d.len() && #[trigger] d[i] != '0';
            assert(exact <= i && d[i] != '0');
        }
    }
    assemble(negative, size, rest, Ghost(digits_value(d)), Ghost(decimal_power(s)))
}

} // verus!
