//! Decimal digits as text, and the natural numbers they write.
//!
//! The first part says what digits are worth. The second reads them from
//! the bytes of a text. The third reads whole numbers, such as an age.

use vstd::prelude::*;
use vstd::string::*;

verus! {

/// Whether `c` is one of the ten ASCII decimal digits.
pub open spec fn is_digit(c: char) -> bool {
    '0' <= c <= '9'
}

/// The number that the digit `c` stands for.
pub open spec fn digit_value(c: char) -> nat {
    (c as int - 48) as nat
}

/// Whether every character of `s` is a decimal digit. The empty text qualifies.
pub open spec fn all_digits(s: Seq<char>) -> bool {
    forall|i: int| 0 <= i < s.len() ==> is_digit(#[trigger] s[i])
}

/// The digit written at place `i` of `d`, counting from the left; zero past
/// the end of `d`.
pub open spec fn digit_at(d: Seq<char>, i: int) -> nat {
    if 0 <= i < d.len() {
        digit_value(d[i])
    } else {
        0
    }
}

/// The number written by the first `n` places of `d`, most significant digit
/// first, where places past the end of `d` hold zero. So for `n` beyond the
/// length of `d` this is the value of `d` followed by that many zeros, and
/// for `n` short of it the value of `d` with its last places cut off.
pub open spec fn numeral(d: Seq<char>, n: int) -> nat
    decreases n,
{
    if n <= 0 {
        0
    } else {
        numeral(d, n - 1) * 10 + digit_at(d, n - 1)
    }
}

/// The number that the digit text `d` writes in base ten.
pub open spec fn digits_value(d: Seq<char>) -> nat {
    numeral(d, d.len() as int)
}

/// Reading more places never gives a smaller number.
pub proof fn lemma_numeral_monotone(d: Seq<char>, m: int, n: int)
    requires
        m <= n,
    ensures
        numeral(d, m) <= numeral(d, n),
    decreases n - m,
{
    if m < n {
        lemma_numeral_monotone(d, m, n - 1);
    }
}

/// Ten to the power `n`.
pub open spec fn pow10(n: nat) -> nat
    decreases n,
{
    if n == 0 {
        1
    } else {
        10 * pow10((n - 1) as nat)
    }
}

/// Read past its end, a digit text is worth its own value times ten for
/// each further place.
pub proof fn lemma_numeral_padding(d: Seq<char>, extra: nat)
    ensures
        numeral(d, (d.len() + extra) as int) == digits_value(d) * pow10(extra),
    decreases extra,
{
    if extra > 0 {
        lemma_numeral_padding(d, (extra - 1) as nat);
        let n: int = (d.len() + extra) as int;
        assert(digit_at(d, n - 1) == 0);
        assert(numeral(d, n) == numeral(d, n - 1) * 10);
        assert(digits_value(d) * pow10(extra) == digits_value(d) * pow10((extra - 1) as nat) * 10)
            by (nonlinear_arith)
            requires
                pow10(extra) == 10 * pow10((extra - 1) as nat),
        ;
    } else {
        assert(digits_value(d) * pow10(0) == digits_value(d)) by (nonlinear_arith)
            requires
                pow10(0) == 1,
        ;
    }
}

/// The whole number `v` times ten to the `power`, rounded down to a whole
/// number where the power is negative.
pub open spec fn scaled_floor(v: int, power: int) -> int {
    if power >= 0 {
        v * pow10(power as nat)
    } else {
        v / (pow10((-power) as nat) as int)
    }
}

/// Whether `v` times ten to the `power` is no whole number.
pub open spec fn scaled_fraction(v: int, power: int) -> bool {
    power < 0 && v % (pow10((-power) as nat) as int) != 0
}

/// A power of ten is positive.
pub proof fn lemma_pow10_positive(n: nat)
    ensures
        pow10(n) > 0,
    decreases n,
{
    if n > 0 {
        lemma_pow10_positive((n - 1) as nat);
    }
}

/// A larger power of ten is no smaller.
pub proof fn lemma_pow10_monotone(a: nat, b: nat)
    requires
        a <= b,
    ensures
        pow10(a) <= pow10(b),
    decreases b - a,
{
    if a < b {
        lemma_pow10_monotone(a, (b - 1) as nat);
    }
}

/// The number written by `n` places is less than ten to the `n`.
pub proof fn lemma_numeral_bound(d: Seq<char>, n: nat)
    requires
        all_digits(d),
    ensures
        numeral(d, n as int) < pow10(n),
    decreases n,
{
    if n > 0 {
        lemma_numeral_bound(d, (n - 1) as nat);
        if n - 1 < d.len() {
            assert(is_digit(d[n - 1]));
        }
        assert(digit_at(d, n - 1) <= 9);
    }
}

/// Read short of its end, a digit text is worth its own value divided by
/// ten for each place left out, rounded down.
pub proof fn lemma_numeral_cut(d: Seq<char>, n: int)
    requires
        all_digits(d),
        0 <= n <= d.len(),
    ensures
        numeral(d, n) == digits_value(d) / pow10((d.len() - n) as nat),
    decreases d.len() - n,
{
    let v = digits_value(d) as int;
    if n < d.len() {
        lemma_numeral_cut(d, n + 1);
        let rest = pow10((d.len() - n - 1) as nat) as int;
        lemma_pow10_positive((d.len() - n - 1) as nat);
        assert(is_digit(d[n]));
        let digit = digit_at(d, n) as int;
        assert(numeral(d, n + 1) == numeral(d, n) * 10 + digit);
        vstd::arithmetic::div_mod::lemma_fundamental_div_mod_converse(
            numeral(d, n + 1) as int,
            10,
            numeral(d, n) as int,
            digit,
        );
        vstd::arithmetic::div_mod::lemma_div_denominator(v, rest, 10);
        assert(pow10((d.len() - n) as nat) == rest * 10);
    } else {
        assert(v / 1 == v);
    }
}

/// The number written by the first `n` places of a digit text is the value
/// of the text times ten to the number of places read past its end, or
/// divided by ten to the number of places left out.
pub proof fn lemma_numeral_is_scaled(d: Seq<char>, n: int)
    requires
        all_digits(d),
    ensures
        numeral(d, n) == scaled_floor(digits_value(d) as int, n - d.len()),
{
    if n >= d.len() {
        lemma_numeral_padding(d, (n - d.len()) as nat);
    } else if n >= 0 {
        lemma_numeral_cut(d, n);
    } else {
        lemma_numeral_bound(d, d.len());
        lemma_pow10_monotone(d.len(), (d.len() - n) as nat);
        vstd::arithmetic::div_mod::lemma_basic_div(
            digits_value(d) as int,
            pow10((d.len() - n) as nat) as int,
        );
    }
}

/// Whether `d` holds a digit other than zero at place `n` or after it.
pub open spec fn rest_after(d: Seq<char>, n: int) -> bool {
    exists|i: int| n <= i && 0 <= i < d.len() && #[trigger] d[i] != '0'
}

/// What is cut off when a digit text is read short of its end is the
/// remainder of its value by ten to the number of places left out; so
/// something other than zero is cut off exactly when that remainder is not
/// zero.
pub proof fn lemma_numeral_rest(d: Seq<char>, n: int)
    requires
        all_digits(d),
        0 <= n <= d.len(),
    ensures
        rest_after(d, n) <==> digits_value(d) % pow10((d.len() - n) as nat) != 0,
    decreases d.len() - n,
{
    let v = digits_value(d) as int;
    if n < d.len() {
        lemma_numeral_rest(d, n + 1);
        lemma_numeral_cut(d, n + 1);
        lemma_numeral_cut(d, n);
        let p = pow10((d.len() - n - 1) as nat) as int;
        lemma_pow10_positive((d.len() - n - 1) as nat);
        assert(pow10((d.len() - n) as nat) == 10 * p);
        assert(is_digit(d[n]));
        let digit = digit_at(d, n) as int;
        let high = numeral(d, n) as int;
        let r = v % p;
        vstd::arithmetic::div_mod::lemma_fundamental_div_mod(v, p);
        assert(numeral(d, n + 1) == high * 10 + digit);
        assert(v == high * (10 * p) + (digit * p + r)) by (nonlinear_arith)
            requires
                v == p * (high * 10 + digit) + r,
        ;
        assert(0 <= digit * p + r < 10 * p) by (nonlinear_arith)
            requires
                0 <= digit <= 9,
                0 <= r < p,
        ;
        vstd::arithmetic::div_mod::lemma_fundamental_div_mod_converse(
            v,
            10 * p,
            high,
            digit * p + r,
        );
        assert(digit * p + r != 0 <==> digit != 0 || r != 0) by (nonlinear_arith)
            requires
                0 <= digit <= 9,
                0 <= r < p,
        ;
        assert(digit != 0 <==> d[n] != '0');
        if rest_after(d, n) {
            let i = choose|i: int| n <= i && 0 <= i < d.len() && #[trigger] d[i] != '0';
            if i > n {
                assert(rest_after(d, n + 1));
            }
        }
        if rest_after(d, n + 1) {
            let i = choose|i: int| n + 1 <= i && 0 <= i < d.len() && #[trigger] d[i] != '0';
            assert(n <= i && d[i] != '0');
        }
    } else {
        assert(v % 1 == 0);
    }
}

/// A digit text is worth nothing exactly when it holds no digit other than
/// zero.
pub proof fn lemma_zero_value(d: Seq<char>)
    requires
        all_digits(d),
    ensures
        rest_after(d, 0) <==> digits_value(d) != 0,
{
    lemma_numeral_rest(d, 0);
    lemma_numeral_bound(d, d.len());
    vstd::arithmetic::div_mod::lemma_small_mod(digits_value(d), pow10(d.len()));
    assert(d.len() - 0 == d.len());
}

/// What reading a digit text short of its end cuts off is the fraction of
/// its scaled value.
pub proof fn lemma_rest_is_fraction(d: Seq<char>, n: int)
    requires
        all_digits(d),
    ensures
        rest_after(d, n) <==> scaled_fraction(digits_value(d) as int, n - d.len()),
{
    lemma_numeral_is_scaled(d, n);
    if n > d.len() {
    } else if n >= 0 {
        lemma_numeral_rest(d, n);
    } else {
        lemma_zero_value(d);
        lemma_numeral_bound(d, d.len());
        lemma_pow10_monotone(d.len(), (d.len() - n) as nat);
        vstd::arithmetic::div_mod::lemma_small_mod(
            digits_value(d),
            pow10((d.len() - n) as nat),
        );
        if rest_after(d, n) {
            let i = choose|i: int| n <= i && 0 <= i < d.len() && #[trigger] d[i] != '0';
            assert(0 <= i && d[i] != '0');
        }
        if rest_after(d, 0) {
            let i = choose|i: int| 0 <= i && 0 <= i < d.len() && #[trigger] d[i] != '0';
            assert(n <= i && d[i] != '0');
        }
    }
}

/// The scaled value of a negative number, from that of its size: rounding
/// down takes a negative number with a fraction one further from zero.
pub proof fn lemma_scaled_negative(v: nat, power: int)
    ensures
        scaled_fraction(-(v as int), power) == scaled_fraction(v as int, power),
        scaled_floor(-(v as int), power) == -scaled_floor(v as int, power) - (if scaled_fraction(
            v as int,
            power,
        ) {
            1int
        } else {
            0int
        }),
{
    if power >= 0 {
        assert((-(v as int)) * pow10(power as nat) == -((v as int) * pow10(power as nat)))
            by (nonlinear_arith);
    } else {
        let p = pow10((-power) as nat) as int;
        lemma_pow10_positive((-power) as nat);
        let q = (v as int) / p;
        let r = (v as int) % p;
        vstd::arithmetic::div_mod::lemma_fundamental_div_mod(v as int, p);
        vstd::arithmetic::div_mod::lemma_mod_pos_bound(v as int, p);
        if r == 0 {
            assert(-(v as int) == (-q) * p + 0) by (nonlinear_arith)
                requires
                    v as int == p * q + r,
                    r == 0,
            ;
            vstd::arithmetic::div_mod::lemma_fundamental_div_mod_converse(
                -(v as int),
                p,
                -q,
                0,
            );
        } else {
            assert(-(v as int) == (-q - 1) * p + (p - r)) by (nonlinear_arith)
                requires
                    v as int == p * q + r,
            ;
            vstd::arithmetic::div_mod::lemma_fundamental_div_mod_converse(
                -(v as int),
                p,
                -q - 1,
                p - r,
            );
        }
    }
}

/// The number of characters of `s` that stand before the first `a` or `b`
/// in it; the length of `s` where it holds neither.
pub open spec fn count_before(s: Seq<char>, a: char, b: char) -> int
    decreases s.len(),
{
    if s.len() == 0 || s[0] == a || s[0] == b {
        0
    } else {
        1 + count_before(s.drop_first(), a, b)
    }
}

/// What `count_before` counts: no `a` or `b` stands before the place it
/// gives, and one stands at that place unless the text ended.
pub proof fn lemma_count_before(s: Seq<char>, a: char, b: char)
    ensures
        0 <= count_before(s, a, b) <= s.len(),
        forall|j: int| 0 <= j < count_before(s, a, b) ==> (#[trigger] s[j]) != a && s[j] != b,
        count_before(s, a, b) < s.len() ==> s[count_before(s, a, b)] == a || s[count_before(
            s,
            a,
            b,
        )] == b,
    decreases s.len(),
{
    if s.len() == 0 || s[0] == a || s[0] == b {
    } else {
        let rest = s.drop_first();
        lemma_count_before(rest, a, b);
        assert forall|j: int| 0 <= j < count_before(s, a, b) implies (#[trigger] s[j]) != a
            && s[j] != b by {
            if j > 0 {
                assert(s[j] == rest[j - 1]);
            }
        }
    }
}

/// A place with no `a` or `b` before it, and with one at it or the end of
/// the text there, is the place `count_before` gives.
pub proof fn lemma_count_before_is(s: Seq<char>, a: char, b: char, k: int)
    requires
        0 <= k <= s.len(),
        forall|j: int| 0 <= j < k ==> (#[trigger] s[j]) != a && s[j] != b,
        k < s.len() ==> s[k] == a || s[k] == b,
    ensures
        count_before(s, a, b) == k,
{
    lemma_count_before(s, a, b);
    let c = count_before(s, a, b);
    if c < k {
        assert(s[c] != a && s[c] != b);
    } else if k < c {
        assert(s[k] != a && s[k] != b);
    }
}

/// The bytes that the marks of a number are written with.
pub(crate) const DIGIT_ZERO: u8 = 48;

pub(crate) const DIGIT_NINE: u8 = 57;

pub(crate) const PLUS: u8 = 43;

pub(crate) const MINUS: u8 = 45;

pub(crate) const POINT: u8 = 46;

pub(crate) const SMALL_E: u8 = 101;

pub(crate) const CAPITAL_E: u8 = 69;

/// The characters that a sequence of ASCII bytes spells.
pub open spec fn chars_of(bytes: Seq<u8>) -> Seq<char> {
    Seq::new(bytes.len(), |i: int| bytes[i] as char)
}

/// An ASCII text is spelled by its own bytes.
pub proof fn lemma_ascii_text(text: &str)
    requires
        is_ascii(text),
    ensures
        text@ == chars_of(text.spec_bytes()),
{
    lemma_ascii_bytes(text);
    assert forall|i: int| 0 <= i < text@.len() implies text@[i] == chars_of(
        text.spec_bytes(),
    )[i] by {
        assert(text.spec_bytes()[i] as int == text@[i] as int);
    }
    assert(text@ =~= chars_of(text.spec_bytes()));
}

/// The bytes of an ASCII text are its characters, one for one.
proof fn lemma_ascii_bytes(text: &str)
    requires
        is_ascii(text),
    ensures
        text.spec_bytes().len() == text@.len(),
        forall|i: int|
            0 <= i < text@.len() ==> (#[trigger] text.spec_bytes()[i]) as int == text@[i] as int,
{
    is_ascii_spec_bytes(text);
    vstd::utf8::is_ascii_chars_nat_bound(text@);
    assert forall|i: int| 0 <= i < text@.len() implies (#[trigger] text.spec_bytes()[i]) as int
        == text@[i] as int by {
        let c = text@[i];
        assert((c as nat) < 128);
        assert(text.spec_bytes()[i] == c as u8);
    }
}

/// Tells whether the bytes of `bytes` from `from` up to `to` are all decimal
/// digits.
pub(crate) fn digits_between(bytes: &[u8], from: usize, to: usize) -> (r: bool)
    requires
        from <= to <= bytes@.len(),
    ensures
        r == all_digits(chars_of(bytes@).subrange(from as int, to as int)),
{
    let ghost part = chars_of(bytes@).subrange(from as int, to as int);
    let mut i: usize = from;
    while i < to
        invariant
            from <= i <= to <= bytes@.len(),
            part == chars_of(bytes@).subrange(from as int, to as int),
            forall|j: int| 0 <= j < i - from ==> is_digit(#[trigger] part[j]),
        decreases to - i,
    {
        let b: u8 = bytes[i];
        assert(part[i - from] == b as char);
        if b < DIGIT_ZERO || b > DIGIT_NINE {
            return false;
        }
        i += 1;
    }
    true
}

/// The number `v`, or `cap` where `v` is the larger.
pub open spec fn capped(v: nat, cap: nat) -> nat {
    if v <= cap {
        v
    } else {
        cap
    }
}

/// Reads a number from two runs of digit bytes taken as one digit text, the
/// run from `a0` up to `a1` followed by the run from `b0` up to `b1`.
///
/// The result is the number written by the first `places` places of that
/// text, or `cap` where that number is larger than `cap`.
pub(crate) fn numeral_capped(
    bytes: &[u8],
    a0: usize,
    a1: usize,
    b0: usize,
    b1: usize,
    places: u128,
    cap: u128,
) -> (r: u128)
    requires
        a0 <= a1 <= bytes@.len(),
        b0 <= b1 <= bytes@.len(),
        all_digits(chars_of(bytes@).subrange(a0 as int, a1 as int)),
        all_digits(chars_of(bytes@).subrange(b0 as int, b1 as int)),
        cap <= 0x0fff_ffff_ffff_ffff_ffff_ffff_ffff_ffff,
    ensures
        r == capped(
            numeral(
                chars_of(bytes@).subrange(a0 as int, a1 as int) + chars_of(bytes@).subrange(
                    b0 as int,
                    b1 as int,
                ),
                places as int,
            ),
            cap as nat,
        ),
{
    let ghost first = chars_of(bytes@).subrange(a0 as int, a1 as int);
    let ghost second = chars_of(bytes@).subrange(b0 as int, b1 as int);
    let ghost d = first + second;
    let first_len: usize = a1 - a0;
    let second_len: usize = b1 - b0;
    let mut acc: u128 = 0;
    let mut i: u128 = 0;
    while i < places
        invariant
            a0 <= a1 <= bytes@.len(),
            b0 <= b1 <= bytes@.len(),
            first_len == a1 - a0,
            second_len == b1 - b0,
            first == chars_of(bytes@).subrange(a0 as int, a1 as int),
            second == chars_of(bytes@).subrange(b0 as int, b1 as int),
            d == first + second,
            all_digits(first),
            all_digits(second),
            cap <= 0x0fff_ffff_ffff_ffff_ffff_ffff_ffff_ffff,
            i <= places,
            acc == numeral(d, i as int),
            acc <= cap,
        decreases places - i,
    {
        let digit: u8 = if i < first_len as u128 {
            let k: usize = i as usize;
            let b: u8 = bytes[a0 + k];
            assert(d[i as int] == first[k as int]);
            assert(first[k as int] == b as char);
            assert(is_digit(first[k as int]));
            b - DIGIT_ZERO
        } else if i - (first_len as u128) < second_len as u128 {
            let k: usize = (i - first_len as u128) as usize;
            let b: u8 = bytes[b0 + k];
            assert(d[i as int] == second[k as int]);
            assert(second[k as int] == b as char);
            assert(is_digit(second[k as int]));
            b - DIGIT_ZERO
        } else {
            0
        };
        assert(digit as nat == digit_at(d, i as int));
        acc = acc * 10 + digit as u128;
        i += 1;
        if acc > cap {
            proof {
                lemma_numeral_monotone(d, i as int, places as int);
            }
            return cap;
        }
    }
    acc
}

/// Tells whether two runs of digit bytes, taken as one digit text, hold a
/// digit other than zero at place `places` or after it.
pub(crate) fn rest_between(
    bytes: &[u8],
    a0: usize,
    a1: usize,
    b0: usize,
    b1: usize,
    places: u128,
) -> (r: bool)
    requires
        a0 <= a1 <= b0 <= b1 <= bytes@.len(),
    ensures
        r == rest_after(
            chars_of(bytes@).subrange(a0 as int, a1 as int) + chars_of(bytes@).subrange(
                b0 as int,
                b1 as int,
            ),
            places as int,
        ),
{
    let ghost first = chars_of(bytes@).subrange(a0 as int, a1 as int);
    let ghost second = chars_of(bytes@).subrange(b0 as int, b1 as int);
    let ghost d = first + second;
    let first_len: usize = a1 - a0;
    let second_len: usize = b1 - b0;
    let mut k: usize = 0;
    while k < first_len
        invariant
            a0 <= a1 <= b0 <= b1 <= bytes@.len(),
            first_len == a1 - a0,
            second_len == b1 - b0,
            first == chars_of(bytes@).subrange(a0 as int, a1 as int),
            second == chars_of(bytes@).subrange(b0 as int, b1 as int),
            d == first + second,
            k <= first_len,
            forall|i: int| places <= i && 0 <= i < k ==> #[trigger] d[i] == '0',
        decreases first_len - k,
    {
        let b: u8 = bytes[a0 + k];
        assert(d[k as int] == first[k as int]);
        assert(first[k as int] == b as char);
        if k as u128 >= places && b != DIGIT_ZERO {
            assert(places <= k && d[k as int] != '0');
            return true;
        }
        k += 1;
    }
    let mut j: usize = 0;
    while j < second_len
        invariant
            a0 <= a1 <= b0 <= b1 <= bytes@.len(),
            first_len == a1 - a0,
            second_len == b1 - b0,
            first == chars_of(bytes@).subrange(a0 as int, a1 as int),
            second == chars_of(bytes@).subrange(b0 as int, b1 as int),
            d == first + second,
            j <= second_len,
            forall|i: int| places <= i && 0 <= i < first_len + j ==> #[trigger] d[i] == '0',
        decreases second_len - j,
    {
        let b: u8 = bytes[b0 + j];
        assert(d[first_len + j] == second[j as int]);
        assert(second[j as int] == b as char);
        if (first_len + j) as u128 >= places && b != DIGIT_ZERO {
            assert(places <= first_len + j && d[first_len + j] != '0');
            return true;
        }
        j += 1;
    }
    false
}

/// Finds the first byte equal to `a` or `b` among the bytes of `bytes` from
/// `from` up to `to`, and gives its index, or `to` where there is none.
pub(crate) fn find_first(bytes: &[u8], from: usize, to: usize, a: u8, b: u8) -> (r: usize)
    requires
        from <= to <= bytes@.len(),
    ensures
        from <= r <= to,
        r - from == count_before(
            chars_of(bytes@).subrange(from as int, to as int),
            a as char,
            b as char,
        ),
{
    let ghost part = chars_of(bytes@).subrange(from as int, to as int);
    let mut i: usize = from;
    while i < to
        invariant
            from <= i <= to <= bytes@.len(),
            part == chars_of(bytes@).subrange(from as int, to as int),
            forall|j: int|
                0 <= j < i - from ==> (#[trigger] part[j]) != a as char && part[j] != b as char,
        decreases to - i,
    {
        let x: u8 = bytes[i];
        assert(part[i - from] == x as char);
        if x == a || x == b {
            proof {
                lemma_count_before_is(part, a as char, b as char, i - from);
            }
            return i;
        }
        i += 1;
    }
    proof {
        lemma_count_before_is(part, a as char, b as char, to - from);
    }
    to
}

/// The text `s` without one leading `+`, if it has one.
pub open spec fn without_plus(s: Seq<char>) -> Seq<char> {
    if s.len() > 0 && s[0] == '+' {
        s.subrange(1, s.len() as int)
    } else {
        s
    }
}

/// Whether `s` writes a whole number: one or more decimal digits, with at
/// most one `+` before them and nothing else around them.
pub open spec fn is_whole_number(s: Seq<char>) -> bool {
    without_plus(s).len() > 0 && all_digits(without_plus(s))
}

/// The whole number that `s` writes, where it writes one that a `u32` can
/// hold.
pub open spec fn whole_number(s: Seq<char>) -> Option<u32> {
    if is_whole_number(s) && digits_value(without_plus(s)) <= u32::MAX {
        Some(digits_value(without_plus(s)) as u32)
    } else {
        None
    }
}

/// A text with a character outside ASCII has, after a leading `+` is set
/// aside, a character that is no digit.
proof fn lemma_non_ascii_is_no_number(s: Seq<char>)
    requires
        !vstd::utf8::is_ascii_chars(s),
    ensures
        !all_digits(without_plus(s)),
{
    let i = choose|i: int| 0 <= i < s.len() && !('\0' <= #[trigger] s[i] <= '\u{7f}');
    let d = without_plus(s);
    if s[0] == '+' {
        assert(i >= 1);
        assert(d[i - 1] == s[i]);
        assert(!is_digit(d[i - 1]));
    } else {
        assert(!is_digit(d[i]));
    }
}

/// Reads a whole number from `text`.
///
/// Gives the number exactly when `text` is one or more decimal digits,
/// optionally preceded by a single `+`, and the number fits a `u32`. Spaces,
/// a minus sign, a decimal point or any other character make the text no
/// number, as does the empty text.
pub fn parse_whole(text: &str) -> (r: Option<u32>)
    ensures
        r == whole_number(text@),
{
    if !text.is_ascii() {
        proof {
            lemma_non_ascii_is_no_number(text@);
        }
        return None;
    }
    let bytes = text.as_bytes();
    proof {
        lemma_ascii_text(text);
    }
    let len: usize = bytes.len();
    let start: usize = if len > 0 && bytes[0] == PLUS {
        1
    } else {
        0
    };
    let ghost d = without_plus(text@);
    assert(d == chars_of(bytes@).subrange(start as int, len as int));
    if start == len || !digits_between(bytes, start, len) {
        return None;
    }
    assert(d == chars_of(bytes@).subrange(start as int, len as int) + chars_of(bytes@).subrange(
        len as int,
        len as int,
    ));
    let most: u128 = u32::MAX as u128;
    let value: u128 = numeral_capped(bytes, start, len, len, len, (len - start) as u128, most + 1);
    if value > most {
        None
    } else {
        Some(value as u32)
    }
}

/// The age that the text `s` stands for: the whole number it writes, or
/// zero where it writes none that a `u32` can hold.
pub open spec fn age_of(s: Seq<char>) -> nat {
    match whole_number(s) {
        Some(v) => v as nat,
        None => 0,
    }
}

/// Reads an age from `text`. Text that is no whole number reads as zero;
/// nothing is rejected.
pub fn parse_age(text: &str) -> (age: u32)
    ensures
        age == age_of(text@),
{
    match parse_whole(text) {
        Some(v) => v,
        None => 0,
    }
}

/// Text that writes no whole number, or one too large for a `u32`, stands
/// for the age zero.
pub proof fn lemma_unreadable_age_is_zero(s: Seq<char>)
    requires
        !is_whole_number(s) || digits_value(without_plus(s)) > u32::MAX,
    ensures
        age_of(s) == 0,
{
}

} // verus!
