//! Decimal number text, read with integer arithmetic only.
//!
//! The remote service states times in seconds as decimal text ("0.5",
//! "1612345678.123", "1e-3"). The library needs them as whole numbers of
//! seconds or milliseconds. A text is read digit by digit; the result is the
//! number it denotes, scaled by a power of ten and cut off at the decimal
//! point, so no rounding of a binary fraction ever enters.

use vstd::prelude::*;

verus! {

/// Ten to the power `n`.
pub open spec fn pow10(n: nat) -> nat
    decreases n,
{
    if n == 0 {
        1
    } else {
        10 * pow10((n - 1) as nat)
    }
}

/// An ASCII decimal digit.
pub open spec fn is_digit(b: u8) -> bool {
    48 <= b <= 57
}

/// The number that a sequence of digits denotes, most significant first.
/// The empty sequence denotes zero.
pub open spec fn digits_value(s: Seq<u8>) -> nat
    decreases s.len(),
{
    if s.len() == 0 {
        0
    } else {
        digits_value(s.drop_last()) * 10 + (s.last() - 48) as nat
    }
}

/// How many digits stand in `text` from position `from` on, without a break.
pub open spec fn digit_run(text: Seq<u8>, from: int) -> nat
    decreases text.len() - from,
{
    if 0 <= from < text.len() && is_digit(text[from]) {
        1 + digit_run(text, from + 1)
    } else {
        0
    }
}

/// `1` where the text has a sign at position `at`, else `0`.
pub open spec fn sign_len(text: Seq<u8>, at: int) -> int {
    if 0 <= at < text.len() && (text[at] == 43 || text[at] == 45) {
        1
    } else {
        0
    }
}

/// Where the digits of the integer part begin: behind the sign, if any.
pub open spec fn int_start(text: Seq<u8>) -> int {
    sign_len(text, 0)
}

/// Where the digits of the integer part end.
pub open spec fn int_end(text: Seq<u8>) -> int {
    int_start(text) + digit_run(text, int_start(text))
}

/// Where the digits of the fraction begin: behind the decimal point, if any.
pub open spec fn frac_start(text: Seq<u8>) -> int {
    if int_end(text) < text.len() && text[int_end(text)] == 46 {
        int_end(text) + 1
    } else {
        int_end(text)
    }
}

/// Where the digits of the fraction end.
pub open spec fn frac_end(text: Seq<u8>) -> int {
    if frac_start(text) > int_end(text) {
        frac_start(text) + digit_run(text, frac_start(text))
    } else {
        frac_start(text)
    }
}

/// Where the digits of the exponent begin: behind the letter and the sign.
pub open spec fn exp_start(text: Seq<u8>) -> int {
    frac_end(text) + 1 + sign_len(text, frac_end(text) + 1)
}

/// The digits of the integer part followed by those of the fraction.
pub open spec fn mantissa(text: Seq<u8>) -> Seq<u8> {
    text.subrange(int_start(text), int_end(text)) + text.subrange(
        frac_start(text),
        frac_end(text),
    )
}

/// The parts of a decimal text: a sign, the digits of the integer part
/// followed by those of the fraction, and the place of the decimal point
/// among them once the exponent has moved it.
pub struct Decimal {
    pub negative: bool,
    pub digits: Seq<u8>,
    /// The number of `digits` before the decimal point; negative or larger
    /// than `digits.len()` where the exponent moves the point outside them.
    pub point: int,
}

/// Reads `text` as
/// `[+|-] digits [. digits] [(e|E) [+|-] digits]`
/// where the integer part or the fraction, but not both, may be empty.
/// Any other text is no number.
pub open spec fn parse_decimal(text: Seq<u8>) -> Option<Decimal> {
    let negative = int_start(text) == 1 && text[0] == 45;
    let digits = mantissa(text);
    let whole = int_end(text) - int_start(text);
    let d = frac_end(text);
    let e = exp_start(text);
    if digits.len() == 0 {
        None
    } else if d == text.len() {
        Some(Decimal { negative, digits, point: whole })
    } else if (text[d] == 101 || text[d] == 69) && e < text.len() && e + digit_run(text, e)
        == text.len() {
        let magnitude = digits_value(text.subrange(e, text.len() as int));
        if e > d + 1 && text[d + 1] == 45 {
            Some(Decimal { negative, digits, point: whole - magnitude })
        } else {
            Some(Decimal { negative, digits, point: whole + magnitude })
        }
    } else {
        None
    }
}

/// `v` held to the range of `u64`.
pub open spec fn saturate(v: nat) -> u64 {
    if v >= u64::MAX {
        u64::MAX
    } else {
        v as u64
    }
}

/// The digits of a number with the decimal point moved behind the first
/// `point` of them, cut off there: `floor(0.d1d2d3... * 10^point)`.
pub open spec fn shifted(digits: Seq<u8>, point: int) -> nat {
    if point <= 0 {
        0
    } else if point >= digits.len() {
        digits_value(digits) * pow10((point - digits.len()) as nat)
    } else {
        digits_value(digits.take(point))
    }
}

/// The number that `d` denotes, times `10^scale`, cut off at the decimal
/// point and held to the range of `u64`: a negative number gives `0`, one
/// too large gives `u64::MAX`.
pub open spec fn scaled(d: Decimal, scale: nat) -> u64 {
    if d.negative {
        0
    } else {
        saturate(shifted(d.digits, d.point + scale))
    }
}

/// What [`read_scaled`] returns for `text`.
pub open spec fn read_scaled_spec(text: Seq<u8>, scale: nat) -> Option<u64> {
    match parse_decimal(text) {
        Some(d) => Some(scaled(d, scale)),
        None => None,
    }
}

/// The largest exponent that is kept exactly. A larger one moves the decimal
/// point past every digit that a text in memory can hold, so its exact size
/// no longer matters.
const EXPONENT_CAP: u128 = 1_000_000_000_000_000_000_000_000_000_000;

proof fn lemma_pow10_positive(n: nat)
    ensures
        pow10(n) >= 1,
    decreases n,
{
    if n > 0 {
        lemma_pow10_positive((n - 1) as nat);
    }
}

proof fn lemma_pow10_monotone(j: nat, k: nat)
    requires
        j <= k,
    ensures
        pow10(j) <= pow10(k),
    decreases k,
{
    if j < k {
        lemma_pow10_monotone(j, (k - 1) as nat);
    }
}

proof fn lemma_pow10_twenty()
    ensures
        pow10(20) > u64::MAX,
{
    reveal_with_fuel(pow10, 21);
}

/// Past twenty places every number but zero is out of the range of `u64`.
proof fn lemma_far_shift(v: nat, j: nat, k: nat)
    requires
        20 <= j <= k,
    ensures
        saturate(v * pow10(j)) == saturate(v * pow10(k)),
{
    if v > 0 {
        lemma_pow10_twenty();
        lemma_pow10_monotone(20, j);
        lemma_pow10_monotone(20, k);
        assert(v * pow10(j) >= pow10(j)) by (nonlinear_arith)
            requires
                v >= 1,
        ;
        assert(v * pow10(k) >= pow10(k)) by (nonlinear_arith)
            requires
                v >= 1,
        ;
    } else {
        assert(v * pow10(j) == 0) by (nonlinear_arith)
            requires
                v == 0,
        ;
        assert(v * pow10(k) == 0) by (nonlinear_arith)
            requires
                v == 0,
        ;
    }
}

proof fn lemma_digits_value_push(s: Seq<u8>, b: u8)
    ensures
        digits_value(s.push(b)) == digits_value(s) * 10 + (b - 48) as nat,
{
    assert(s.push(b).drop_last() =~= s);
}

/// Reads the digits from `from` on and returns where they end.
fn scan_digits(text: &[u8], from: usize) -> (end: usize)
    requires
        from <= text.len(),
    ensures
        end == from + digit_run(text@, from as int),
        end <= text.len(),
        forall|j: int| from <= j < end ==> is_digit(#[trigger] text@[j]),
{
    let mut i: usize = from;
    while i < text.len() && 48 <= text[i] && text[i] <= 57
        invariant
            from <= i <= text.len(),
            digit_run(text@, from as int) == (i - from) + digit_run(text@, i as int),
            forall|j: int| from <= j < i ==> is_digit(#[trigger] text@[j]),
        decreases text.len() - i,
    {
        i = i + 1;
    }
    i
}

/// The value of the digits in `text[from..to]`, held to [`EXPONENT_CAP`].
fn read_capped(text: &[u8], from: usize, to: usize) -> (v: u128)
    requires
        from <= to <= text.len(),
        forall|j: int| from <= j < to ==> is_digit(#[trigger] text@[j]),
    ensures
        v <= EXPONENT_CAP,
        digits_value(text@.subrange(from as int, to as int)) >= EXPONENT_CAP ==> v == EXPONENT_CAP,
        digits_value(text@.subrange(from as int, to as int)) < EXPONENT_CAP ==> v == digits_value(
            text@.subrange(from as int, to as int),
        ),
{
    let mut v: u128 = 0;
    let mut i: usize = from;
    assert(text@.subrange(from as int, from as int) =~= Seq::<u8>::empty());
    while i < to
        invariant
            from <= i <= to <= text.len(),
            forall|j: int| from <= j < to ==> is_digit(#[trigger] text@[j]),
            v <= EXPONENT_CAP,
            digits_value(text@.subrange(from as int, i as int)) >= EXPONENT_CAP ==> v
                == EXPONENT_CAP,
            digits_value(text@.subrange(from as int, i as int)) < EXPONENT_CAP ==> v
                == digits_value(text@.subrange(from as int, i as int)),
        decreases to - i,
    {
        let digit: u128 = (text[i] - 48) as u128;
        proof {
            lemma_digits_value_push(text@.subrange(from as int, i as int), text@[i as int]);
            assert(text@.subrange(from as int, i as int).push(text@[i as int]) =~= text@.subrange(
                from as int,
                i + 1,
            ));
        }
        let next: u128 = v * 10 + digit;
        v = if next > EXPONENT_CAP { EXPONENT_CAP } else { next };
        i = i + 1;
    }
    v
}

/// Appends the digits in `text[from..to]` to a number of which `acc` is the
/// saturated value and `before` the digits.
fn extend(acc: u64, before: Ghost<Seq<u8>>, text: &[u8], from: usize, to: usize) -> (r: u64)
    requires
        from <= to <= text.len(),
        forall|j: int| from <= j < to ==> is_digit(#[trigger] text@[j]),
        acc == saturate(digits_value(before@)),
    ensures
        r == saturate(digits_value(before@ + text@.subrange(from as int, to as int))),
{
    let mut r: u64 = acc;
    let mut i: usize = from;
    assert(before@ + text@.subrange(from as int, from as int) =~= before@);
    while i < to
        invariant
            from <= i <= to <= text.len(),
            forall|j: int| from <= j < to ==> is_digit(#[trigger] text@[j]),
            r == saturate(digits_value(before@ + text@.subrange(from as int, i as int))),
        decreases to - i,
    {
        let digit: u64 = (text[i] - 48) as u64;
        proof {
            let sofar = before@ + text@.subrange(from as int, i as int);
            lemma_digits_value_push(sofar, text@[i as int]);
            assert(sofar.push(text@[i as int]) =~= before@ + text@.subrange(from as int, i + 1));
        }
        r = if r > (u64::MAX - digit) / 10 { u64::MAX } else { r * 10 + digit };
        i = i + 1;
    }
    r
}

/// Multiplies by ten `places` times, saturating.
fn pad(acc: u64, value: Ghost<nat>, places: u128) -> (r: u64)
    requires
        acc == saturate(value@),
    ensures
        r == saturate(value@ * pow10(places as nat)),
{
    let mut r: u64 = acc;
    let mut j: u128 = 0;
    assert(value@ * pow10(0) == value@) by (nonlinear_arith)
        requires
            pow10(0) == 1,
    ;
    while j < places && r != 0 && r != u64::MAX
        invariant
            0 <= j <= places,
            r == saturate(value@ * pow10(j as nat)),
        decreases places - j,
    {
        proof {
            assert(value@ * pow10((j + 1) as nat) == (value@ * pow10(j as nat)) * 10)
                by (nonlinear_arith)
                requires
                    pow10((j + 1) as nat) == 10 * pow10(j as nat),
            ;
        }
        r = if r > u64::MAX / 10 { u64::MAX } else { r * 10 };
        j = j + 1;
    }
    proof {
        if j < places {
            lemma_pow10_positive(j as nat);
            lemma_pow10_monotone(j as nat, places as nat);
            if r == 0 {
                assert(value@ == 0) by (nonlinear_arith)
                    requires
                        value@ * pow10(j as nat) == 0,
                        pow10(j as nat) >= 1,
                ;
                assert(value@ * pow10(places as nat) == 0) by (nonlinear_arith)
                    requires
                        value@ == 0,
                ;
            } else {
                assert(value@ * pow10(places as nat) >= value@ * pow10(j as nat))
                    by (nonlinear_arith)
                    requires
                        pow10(j as nat) <= pow10(places as nat),
                ;
            }
        }
    }
    r
}

/// The digits in `text[a..b]` and `text[c..d]`, read as one number with the
/// decimal point behind the first `places` of them.
fn shift_digits(text: &[u8], a: usize, b: usize, c: usize, d: usize, places: u128) -> (r: u64)
    requires
        a <= b <= c <= d <= text.len(),
        forall|j: int| a <= j < b ==> is_digit(#[trigger] text@[j]),
        forall|j: int| c <= j < d ==> is_digit(#[trigger] text@[j]),
    ensures
        r == saturate(
            shifted(
                text@.subrange(a as int, b as int) + text@.subrange(c as int, d as int),
                places as int,
            ),
        ),
{
    let ghost digits = text@.subrange(a as int, b as int) + text@.subrange(c as int, d as int);
    let count: u128 = (b - a) as u128 + (d - c) as u128;
    if places == 0 {
        0
    } else if places < count {
        let taken: usize = places as usize;
        let first: usize = if taken < b - a { taken } else { b - a };
        let whole: u64 = extend(0, Ghost(Seq::empty()), text, a, a + first);
        assert(Seq::<u8>::empty() + text@.subrange(a as int, a + first) =~= text@.subrange(
            a as int,
            a + first,
        ));
        let r: u64 = extend(
            whole,
            Ghost(text@.subrange(a as int, a + first)),
            text,
            c,
            c + (taken - first),
        );
        assert(digits.take(places as int) =~= text@.subrange(a as int, a + first)
            + text@.subrange(c as int, c + (taken - first)));
        r
    } else {
        let whole: u64 = extend(0, Ghost(Seq::empty()), text, a, b);
        assert(Seq::<u8>::empty() + text@.subrange(a as int, b as int) =~= text@.subrange(
            a as int,
            b as int,
        ));
        let all: u64 = extend(whole, Ghost(text@.subrange(a as int, b as int)), text, c, d);
        pad(all, Ghost(digits_value(digits)), places - count)
    }
}

/// Where the parts of a decimal text lie.
struct Layout {
    a: usize,
    b: usize,
    c: usize,
    d: usize,
    negative: bool,
    exponent_negative: bool,
    /// The exponent without its sign, held to [`EXPONENT_CAP`].
    magnitude: u128,
}

impl Layout {
    /// The exponent of `text` without its sign; zero where it has none.
    spec fn exact_magnitude(text: Seq<u8>) -> nat {
        if frac_end(text) == text.len() {
            0
        } else {
            digits_value(text.subrange(exp_start(text), text.len() as int))
        }
    }

    spec fn describes(self, text: Seq<u8>) -> bool {
        &&& self.a == int_start(text)
        &&& self.b == int_end(text)
        &&& self.c == frac_start(text)
        &&& self.d == frac_end(text)
        &&& self.a <= self.b <= self.c <= self.d <= text.len()
        &&& forall|j: int| self.a <= j < self.b ==> is_digit(#[trigger] text[j])
        &&& forall|j: int| self.c <= j < self.d ==> is_digit(#[trigger] text[j])
        &&& self.magnitude <= EXPONENT_CAP
        &&& Self::exact_magnitude(text) >= EXPONENT_CAP ==> self.magnitude == EXPONENT_CAP
        &&& Self::exact_magnitude(text) < EXPONENT_CAP ==> self.magnitude == Self::exact_magnitude(
            text,
        )
        &&& parse_decimal(text) == Some(
            Decimal {
                negative: self.negative,
                digits: mantissa(text),
                point: if self.exponent_negative {
                    self.b - self.a - Self::exact_magnitude(text)
                } else {
                    self.b - self.a + Self::exact_magnitude(text)
                },
            },
        )
    }
}

/// Finds the parts of `text`, or `None` where it is no decimal number.
fn layout(text: &[u8]) -> (r: Option<Layout>)
    ensures
        match r {
            Some(l) => l.describes(text@),
            None => parse_decimal(text@) is None,
        },
{
    let len: usize = text.len();
    let a: usize = if len > 0 && (text[0] == 43 || text[0] == 45) { 1 } else { 0 };
    let negative: bool = a == 1 && text[0] == 45;
    let b: usize = scan_digits(text, a);
    let c: usize = if b < len && text[b] == 46 { b + 1 } else { b };
    let d: usize = if c > b { scan_digits(text, c) } else { c };
    if b - a == 0 && d - c == 0 {
        return None;
    }
    if d == len {
        return Some(
            Layout { a, b, c, d, negative, exponent_negative: false, magnitude: 0 },
        );
    }
    if text[d] != 101 && text[d] != 69 {
        return None;
    }
    let s: usize = if d + 1 < len && (text[d + 1] == 43 || text[d + 1] == 45) { 1 } else { 0 };
    let e: usize = d + 1 + s;
    if e >= len {
        return None;
    }
    let end: usize = scan_digits(text, e);
    if end != len {
        return None;
    }
    let exponent_negative: bool = s == 1 && text[d + 1] == 45;
    let magnitude: u128 = read_capped(text, e, len);
    Some(Layout { a, b, c, d, negative, exponent_negative, magnitude })
}

/// Reads decimal text and returns the number it denotes, times `10^scale`,
/// cut off at the decimal point: `None` where `text` is no decimal number,
/// `0` for a negative one, `u64::MAX` for one too large.
pub fn read_scaled(text: &[u8], scale: u32) -> (r: Option<u64>)
    ensures
        r == read_scaled_spec(text@, scale as nat),
{
    let l: Layout = match layout(text) {
        Some(l) => l,
        None => {
            return None;
        },
    };
    if l.negative {
        return Some(0);
    }
    let ghost exact = Layout::exact_magnitude(text@);
    let ghost digits = mantissa(text@);
    let count: u128 = (l.b - l.a) as u128 + (l.d - l.c) as u128;
    let base: u128 = (l.b - l.a) as u128 + scale as u128;
    if l.exponent_negative {
        if l.magnitude >= base {
            Some(0)
        } else {
            Some(shift_digits(text, l.a, l.b, l.c, l.d, base - l.magnitude))
        }
    } else {
        let places: u128 = base + l.magnitude;
        let r: u64 = shift_digits(text, l.a, l.b, l.c, l.d, places);
        proof {
            if exact >= EXPONENT_CAP {
                lemma_far_shift(
                    digits_value(digits),
                    (places - count) as nat,
                    (base + exact - count) as nat,
                );
            }
        }
        Some(r)
    }
}

/// The lower-case form of an ASCII letter; any other byte is left as it is.
pub open spec fn lowered(b: u8) -> u8 {
    if 65 <= b <= 90 {
        (b + 32) as u8
    } else {
        b
    }
}

/// Whether `text` from position `from` to its end spells `word`, letter
/// case aside. `word` is in lower case.
pub open spec fn spells(text: Seq<u8>, from: int, word: Seq<u8>) -> bool {
    &&& text.len() == from + word.len()
    &&& forall|i: int| 0 <= i < word.len() ==> #[trigger] word[i] == lowered(text[from + i])
}

/// The word for what is no number: `nan`.
pub open spec fn word_nan() -> Seq<u8> {
    seq![110u8, 97u8, 110u8]
}

/// The short word for what is beyond every number: `inf`.
pub open spec fn word_inf() -> Seq<u8> {
    seq![105u8, 110u8, 102u8]
}

/// The long word for what is beyond every number: `infinity`.
pub open spec fn word_infinity() -> Seq<u8> {
    seq![105u8, 110u8, 102u8, 105u8, 110u8, 105u8, 116u8, 121u8]
}

/// The whole number that a number text stands for. Besides decimal numbers,
/// which are cut off at the decimal point, a text may be one of three
/// words, in any letter case and behind an optional sign: `nan` counts as
/// `0`, `inf` and `infinity` as `u64::MAX`, or as `0` behind a minus sign.
/// Any other text is no number.
pub open spec fn read_whole_spec(text: Seq<u8>) -> Option<u64> {
    let a = sign_len(text, 0);
    if spells(text, a, word_nan()) {
        Some(0)
    } else if spells(text, a, word_inf()) || spells(text, a, word_infinity()) {
        if a == 1 && text[0] == 45 {
            Some(0)
        } else {
            Some(u64::MAX)
        }
    } else {
        read_scaled_spec(text, 0)
    }
}

/// Turns an ASCII letter into lower case.
fn lower(b: u8) -> (l: u8)
    ensures
        l == lowered(b),
{
    if 65 <= b && b <= 90 {
        b + 32
    } else {
        b
    }
}

/// Whether `text` from `from` on spells `word`, letter case aside.
fn spells_word(text: &[u8], from: usize, word: &[u8]) -> (found: bool)
    requires
        from <= text.len(),
    ensures
        found == spells(text@, from as int, word@),
{
    if text.len() - from != word.len() {
        return false;
    }
    let mut i: usize = 0;
    while i < word.len()
        invariant
            from <= text.len(),
            text.len() - from == word.len(),
            i <= word.len(),
            forall|j: int| 0 <= j < i ==> #[trigger] word@[j] == lowered(text@[from + j]),
        decreases word.len() - i,
    {
        if lower(text[from + i]) != word[i] {
            assert(word@[i as int] != lowered(text@[from + i]));
            return false;
        }
        i = i + 1;
    }
    true
}

/// Reads the whole number that a number text stands for: a decimal number
/// cut off at the decimal point, or one of the words `nan`, `inf` and
/// `infinity`. `None` where `text` is none of these.
pub fn read_whole(text: &[u8]) -> (r: Option<u64>)
    ensures
        r == read_whole_spec(text@),
{
    let a: usize = if text.len() > 0 && (text[0] == 43 || text[0] == 45) {
        1
    } else {
        0
    };
    let nan: [u8; 3] = [110, 97, 110];
    let inf: [u8; 3] = [105, 110, 102];
    let infinity: [u8; 8] = [105, 110, 102, 105, 110, 105, 116, 121];
    assert(nan@ =~= word_nan());
    assert(inf@ =~= word_inf());
    assert(infinity@ =~= word_infinity());
    if spells_word(text, a, nan.as_slice()) {
        Some(0)
    } else if spells_word(text, a, inf.as_slice()) || spells_word(text, a, infinity.as_slice()) {
        if a == 1 && text[0] == 45 {
            Some(0)
        } else {
            Some(u64::MAX)
        }
    } else {
        read_scaled(text, 0)
    }
}

} // verus!
