//! Exact arithmetic on decimal text.
//!
//! Provider prices stay decimal text from end to end: adding two of them never
//! passes through binary floating point.

use crate::text::{char_of_digit, chars_of};
use vstd::prelude::*;

verus! {

/// Ten to the power `k`.
pub open spec fn pow10(k: nat) -> nat
    decreases k,
{
    if k == 0 {
        1
    } else {
        10 * pow10((k - 1) as nat)
    }
}

/// Whether a character is a decimal digit.
pub open spec fn is_digit(c: char) -> bool {
    '0' <= c <= '9'
}

/// Whether every character of a text is a decimal digit.
pub open spec fn all_digits(s: Seq<char>) -> bool {
    forall|i: int| 0 <= i < s.len() ==> is_digit(#[trigger] s[i])
}

/// The natural number that a text of digits writes.
pub open spec fn number(s: Seq<char>) -> nat
    decreases s.len(),
{
    if s.len() == 0 {
        0
    } else {
        (number(s.drop_last()) * 10 + (s.last() as int - 48)) as nat
    }
}

/// Exactly `width` digits of `m`, with leading zeros.
pub open spec fn padded(m: nat, width: nat) -> Seq<char>
    decreases width,
{
    if width == 0 {
        Seq::empty()
    } else {
        padded(m / 10, (width - 1) as nat).push(crate::text::digit_char((m % 10) as int))
    }
}

/// Shortest plain decimal text of `m / 10^k`: no exponent, no leading zero
/// before another whole digit, no trailing zero after the point.
pub open spec fn plain_text(m: nat, k: nat) -> Seq<char>
    decreases k,
{
    if k == 0 {
        crate::text::digits(m)
    } else if m % 10 == 0 {
        plain_text(m / 10, (k - 1) as nat)
    } else {
        crate::text::digits(m / pow10(k)).push('.') + padded(m % pow10(k), k)
    }
}

/// The number `mantissa / 10^scale`.
#[verifier::ext_equal]
pub struct Decimal {
    pub mantissa: nat,
    pub scale: nat,
}

impl Decimal {
    /// This number times `10^k`, for a `k` that makes it whole.
    pub open spec fn at_scale(self, k: nat) -> nat {
        self.mantissa * pow10((k - self.scale) as nat)
    }
}

/// Index of the first exponent marker, or the length of the text.
pub open spec fn exponent_mark(s: Seq<char>) -> int
    decreases s.len(),
{
    if s.len() == 0 || s[0] == 'e' || s[0] == 'E' {
        0
    } else {
        1 + exponent_mark(s.drop_first())
    }
}

/// Index of the first decimal point, or the length of the text.
pub open spec fn point_mark(s: Seq<char>) -> int
    decreases s.len(),
{
    if s.len() == 0 || s[0] == '.' {
        0
    } else {
        1 + point_mark(s.drop_first())
    }
}

/// The integer that an optionally signed text of digits writes, if it fits 64 bits.
pub open spec fn exponent_of(s: Seq<char>) -> Option<int> {
    let signed = s.len() > 0 && (s[0] == '+' || s[0] == '-');
    let body = if signed { s.skip(1) } else { s };
    let value = if signed && s[0] == '-' { -(number(body) as int) } else { number(body) as int };
    if body.len() == 0 || !all_digits(body) || value < i64::MIN || value > i64::MAX {
        None
    } else {
        Some(value)
    }
}

/// A digit text with a point after its first `whole.len()` digits, times `10^exponent`.
pub open spec fn scaled(whole: Seq<char>, fraction: Seq<char>, exponent: int) -> Decimal {
    let shift = exponent - fraction.len();
    if shift >= 0 {
        Decimal { mantissa: number(whole + fraction) * pow10(shift as nat), scale: 0 }
    } else {
        Decimal { mantissa: number(whole + fraction), scale: (-shift) as nat }
    }
}

/// The non-negative number that a decimal text writes, or `None` for any other text.
///
/// A decimal text is an optional `+`, digits with an optional point among them,
/// and an optional exponent.
pub open spec fn decimal_of(s: Seq<char>) -> Option<Decimal> {
    let e = exponent_mark(s);
    let exponent = if e == s.len() { Some(0int) } else { exponent_of(s.skip(e + 1)) };
    let signed = s.take(e);
    let body = if signed.len() > 0 && signed[0] == '+' { signed.skip(1) } else { signed };
    let p = point_mark(body);
    let whole = body.take(p);
    let fraction = if p == body.len() { Seq::empty() } else { body.skip(p + 1) };
    if whole.len() + fraction.len() == 0 || !all_digits(whole)
        || !all_digits(fraction) || exponent is None {
        None
    } else {
        Some(scaled(whole, fraction, exponent->0))
    }
}

/// The larger of two scales.
pub open spec fn common_scale(a: Decimal, b: Decimal) -> nat {
    if a.scale >= b.scale { a.scale } else { b.scale }
}

/// Plain text of the sum of two numbers.
pub open spec fn sum_text(a: Decimal, b: Decimal) -> Seq<char> {
    let k = common_scale(a, b);
    plain_text(a.at_scale(k) + b.at_scale(k), k)
}

/// What adding two decimal texts gives, when both are decimal numbers.
pub open spec fn decimal_sum(a: Seq<char>, b: Seq<char>) -> Option<Seq<char>> {
    match (decimal_of(a), decimal_of(b)) {
        (Some(x), Some(y)) => Some(sum_text(x, y)),
        _ => None,
    }
}

/// Value of a digit sequence, least significant digit first.
spec fn lval(s: Seq<u8>) -> nat
    decreases s.len(),
{
    if s.len() == 0 {
        0
    } else {
        s[0] as nat + 10 * lval(s.drop_first())
    }
}

/// Whether every element is one decimal digit.
spec fn small(s: Seq<u8>) -> bool {
    forall|i: int| 0 <= i < s.len() ==> #[trigger] s[i] < 10
}

/// The digits of a least-significant-first sequence as text.
spec fn spelled(s: Seq<u8>) -> Seq<char>
    decreases s.len(),
{
    if s.len() == 0 {
        Seq::empty()
    } else {
        spelled(s.drop_first()).push(crate::text::digit_char(s[0] as int))
    }
}

proof fn lemma_lval_push(s: Seq<u8>, x: u8)
    ensures
        lval(s.push(x)) == lval(s) + x as nat * pow10(s.len()),
    decreases s.len(),
{
    if s.len() == 0 {
        assert(s.push(x).drop_first() =~= Seq::<u8>::empty());
        assert(lval(s.push(x).drop_first()) == 0);
        assert(lval(s.push(x)) == x as nat);
    } else {
        lemma_lval_push(s.drop_first(), x);
        assert(s.push(x).drop_first() =~= s.drop_first().push(x));
        let t = s.drop_first();
        assert(pow10(s.len()) == 10 * pow10(t.len()));
        assert(10 * (x as nat * pow10(t.len())) == x as nat * (10 * pow10(t.len())))
            by (nonlinear_arith);
    }
}

proof fn lemma_pow10_add(a: nat, b: nat)
    ensures
        pow10(a + b) == pow10(a) * pow10(b),
        pow10(a) > 0,
    decreases a,
{
    if a > 0 {
        lemma_pow10_add((a - 1) as nat, b);
        assert(pow10(a + b) == 10 * pow10((a - 1 + b) as nat));
        assert(10 * (pow10((a - 1) as nat) * pow10(b)) == (10 * pow10((a - 1) as nat)) * pow10(b))
            by (nonlinear_arith);
    } else {
        assert(pow10(0) == 1);
    }
}

/// A sequence splits into its low part and its high part.
proof fn lemma_lval_split(s: Seq<u8>, k: nat)
    requires
        k <= s.len(),
        small(s),
    ensures
        lval(s) == lval(s.take(k as int)) + pow10(k) * lval(s.skip(k as int)),
        lval(s.take(k as int)) < pow10(k),
    decreases k,
{
    if k == 0 {
        assert(s.skip(0) =~= s);
        assert(lval(s.take(0)) == 0);
        assert(pow10(0) == 1);
    } else {
        let t = s.drop_first();
        assert forall|i: int| 0 <= i < t.len() implies #[trigger] t[i] < 10 by {
            assert(t[i] == s[i + 1]);
        }
        lemma_lval_split(t, (k - 1) as nat);
        assert(t.take(k - 1) =~= s.take(k as int).drop_first());
        assert(t.skip(k - 1) =~= s.skip(k as int));
        assert(s.take(k as int)[0] == s[0]);
        let p = pow10((k - 1) as nat);
        let h = lval(s.skip(k as int));
        assert(10 * (p * h) == (10 * p) * h) by (nonlinear_arith);
    }
}

proof fn lemma_lval_zeros(zeros: Seq<u8>, s: Seq<u8>)
    requires
        forall|i: int| 0 <= i < zeros.len() ==> zeros[i] == 0,
    ensures
        lval(zeros + s) == pow10(zeros.len()) * lval(s),
    decreases zeros.len(),
{
    if zeros.len() == 0 {
        assert(zeros + s =~= s);
        assert(pow10(0) == 1);
    } else {
        lemma_lval_zeros(zeros.drop_first(), s);
        assert((zeros + s).drop_first() =~= zeros.drop_first() + s);
        let p = pow10((zeros.len() - 1) as nat);
        let v = lval(s);
        assert(10 * (p * v) == (10 * p) * v) by (nonlinear_arith);
    }
}

/// Leading digits of a digit text weigh more than the rest.
proof fn lemma_number_front(c: char, s: Seq<char>)
    requires
        is_digit(c),
        all_digits(s),
    ensures
        number(seq![c] + s) == (c as int - 48) * pow10(s.len()) + number(s),
    decreases s.len(),
{
    if s.len() == 0 {
        assert((seq![c] + s).drop_last() =~= Seq::<char>::empty());
        assert(number((seq![c] + s).drop_last()) == 0);
        assert(pow10(0) == 1);
    } else {
        lemma_number_front(c, s.drop_last());
        assert((seq![c] + s).drop_last() =~= seq![c] + s.drop_last());
        assert((seq![c] + s).last() == s.last());
        let p = pow10((s.len() - 1) as nat);
        let d = c as int - 48;
        assert((d * p) * 10 == d * (10 * p)) by (nonlinear_arith);
        assert(pow10(s.len()) == 10 * p);
        assert(is_digit(s[s.len() - 1]));
    }
}

proof fn lemma_spelled_padded(s: Seq<u8>)
    requires
        small(s),
    ensures
        spelled(s) == padded(lval(s), s.len()),
    decreases s.len(),
{
    if s.len() > 0 {
        let t = s.drop_first();
        assert forall|i: int| 0 <= i < t.len() implies #[trigger] t[i] < 10 by {
            assert(t[i] == s[i + 1]);
        }
        lemma_spelled_padded(t);
        assert(s[0] < 10);
        assert(lval(s) / 10 == lval(t));
        assert(lval(s) % 10 == s[0]);
    }
}

proof fn lemma_spelled_digits(s: Seq<u8>)
    requires
        small(s),
        s.len() > 0,
        s.len() == 1 || s.last() != 0,
    ensures
        spelled(s) == crate::text::digits(lval(s)),
        s.last() != 0 ==> lval(s) > 0,
    decreases s.len(),
{
    let t = s.drop_first();
    assert(s[0] < 10);
    if s.len() == 1 {
        assert(t.len() == 0);
        assert(spelled(t) =~= Seq::<char>::empty());
        assert(spelled(s) =~= seq![crate::text::digit_char(s[0] as int)]);
        assert(lval(t) == 0);
        assert(lval(s) == s[0] as nat);
    } else {
        assert forall|i: int| 0 <= i < t.len() implies #[trigger] t[i] < 10 by {
            assert(t[i] == s[i + 1]);
        }
        assert(t.last() == s.last());
        lemma_spelled_digits(t);
        assert(lval(s) / 10 == lval(t));
        assert(lval(s) % 10 == s[0]);
        assert(lval(s) >= 10);
    }
}

/// Digits of a number, least significant first, and how many of them stand
/// behind the decimal point.
struct Digits {
    low_first: Vec<u8>,
    scale: u128,
}

impl Digits {
    spec fn wf(self) -> bool {
        small(self.low_first@)
    }

    spec fn decimal(self) -> Decimal {
        Decimal { mantissa: lval(self.low_first@), scale: self.scale as nat }
    }
}

fn exponent_index(chars: &Vec<char>) -> (r: usize)
    ensures
        r == exponent_mark(chars@),
        r <= chars@.len(),
        forall|j: int| 0 <= j < r ==> chars@[j] != 'e' && chars@[j] != 'E',
{
    let mut i: usize = 0;
    assert(chars@.skip(0) =~= chars@);
    while i < chars.len()
        invariant
            i <= chars@.len(),
            exponent_mark(chars@) == i + exponent_mark(chars@.skip(i as int)),
            forall|j: int| 0 <= j < i ==> chars@[j] != 'e' && chars@[j] != 'E',
        decreases chars.len() - i,
    {
        let ghost rest = chars@.skip(i as int);
        if chars[i] == 'e' || chars[i] == 'E' {
            assert(rest[0] == chars@[i as int]);
            return i;
        }
        assert(rest.drop_first() =~= chars@.skip(i + 1));
        i = i + 1;
    }
    assert(chars@.skip(i as int).len() == 0);
    i
}

fn point_index(chars: &Vec<char>, from: usize, to: usize) -> (r: usize)
    requires
        from <= to <= chars@.len(),
    ensures
        from <= r <= to,
        r - from == point_mark(chars@.subrange(from as int, to as int)),
{
    let mut i: usize = from;
    while i < to
        invariant
            from <= i <= to <= chars@.len(),
            point_mark(chars@.subrange(from as int, to as int)) == i - from + point_mark(
                chars@.subrange(i as int, to as int),
            ),
        decreases to - i,
    {
        let ghost rest = chars@.subrange(i as int, to as int);
        if chars[i] == '.' {
            assert(rest[0] == chars@[i as int]);
            return i;
        }
        assert(rest.drop_first() =~= chars@.subrange(i + 1, to as int));
        i = i + 1;
    }
    assert(chars@.subrange(i as int, to as int).len() == 0);
    i
}

/// Push the digits of `chars[from..to]`, last one first.
fn push_digits(chars: &Vec<char>, from: usize, to: usize, out: &mut Vec<u8>) -> (ok: bool)
    requires
        from <= to <= chars@.len(),
        small(old(out)@),
    ensures
        ok == all_digits(chars@.subrange(from as int, to as int)),
        ok ==> small(final(out)@) && final(out)@.len() == old(out)@.len() + (to - from)
            && lval(final(out)@) == lval(old(out)@) + pow10(old(out)@.len()) * number(
            chars@.subrange(from as int, to as int),
        ),
{
    let ghost start = out@;
    let mut i: usize = to;
    proof {
        assert(chars@.subrange(to as int, to as int) =~= Seq::<char>::empty());
        assert(number(chars@.subrange(to as int, to as int)) == 0);
    }
    while i > from
        invariant
            from <= i <= to <= chars@.len(),
            small(out@),
            out@.len() == start.len() + (to - i),
            all_digits(chars@.subrange(i as int, to as int)),
            lval(out@) == lval(start) + pow10(start.len()) * number(
                chars@.subrange(i as int, to as int),
            ),
        decreases i,
    {
        let c = chars[i - 1];
        if c < '0' || c > '9' {
            proof {
                let part = chars@.subrange(from as int, to as int);
                assert(part[i - 1 - from] == c);
                assert(!is_digit(part[i - 1 - from]));
            }
            return false;
        }
        let d: u8 = (c as u32 - 48) as u8;
        proof {
            let tail = chars@.subrange(i as int, to as int);
            let longer = chars@.subrange(i - 1, to as int);
            assert(longer =~= seq![c] + tail);
            lemma_number_front(c, tail);
            lemma_lval_push(out@, d);
            lemma_pow10_add(start.len(), tail.len());
            let a = pow10(start.len());
            let b = pow10(tail.len());
            let n = number(tail);
            assert(a * (d as nat * b + n) == a * n + d as nat * (a * b)) by (nonlinear_arith);
            assert forall|j: int| 0 <= j < longer.len() implies is_digit(#[trigger] longer[j]) by {
                if j > 0 {
                    assert(longer[j] == tail[j - 1]);
                }
            }
        }
        out.push(d);
        i = i - 1;
    }
    true
}

/// Read an exponent out of `chars[from..]`.
fn read_exponent(chars: &Vec<char>, from: usize) -> (r: Option<(bool, u64)>)
    requires
        from <= chars@.len(),
    ensures
        match r {
            None => exponent_of(chars@.skip(from as int)) is None,
            Some((negative, magnitude)) => exponent_of(chars@.skip(from as int)) == Some(
                if negative { -(magnitude as int) } else { magnitude as int },
            ),
        },
{
    let ghost s = chars@.skip(from as int);
    let signed = from < chars.len() && (chars[from] == '+' || chars[from] == '-');
    let negative = from < chars.len() && chars[from] == '-';
    let start = if signed { from + 1 } else { from };
    let ghost body = if signed { s.skip(1) } else { s };
    proof {
        if from < chars@.len() {
            assert(s[0] == chars@[from as int]);
        }
        assert(body =~= chars@.skip(start as int));
    }
    if start == chars.len() {
        return None;
    }
    let limit: u64 = if negative { 9_223_372_036_854_775_808 } else { 9_223_372_036_854_775_807 };
    let mut magnitude: u64 = 0;
    let mut i: usize = start;
    assert(body.take(0) =~= Seq::<char>::empty());
    while i < chars.len()
        invariant
            start <= i <= chars@.len(),
            body == chars@.skip(start as int),
            all_digits(body.take(i - start)),
            magnitude == number(body.take(i - start)),
            magnitude <= limit,
            limit == (if negative { -(i64::MIN as int) } else { i64::MAX as int }),
            negative == (signed && s[0] == '-'),
            signed == (s.len() > 0 && (s[0] == '+' || s[0] == '-')),
            body == (if signed { s.skip(1) } else { s }),
            s == chars@.skip(from as int),
        decreases chars.len() - i,
    {
        let c = chars[i];
        proof {
            assert(body[i - start] == c);
        }
        if c < '0' || c > '9' {
            assert(!is_digit(body[i - start]));
            return None;
        }
        proof {
            let longer = body.take(i + 1 - start);
            assert(longer.drop_last() =~= body.take(i - start));
            assert(longer.last() == c);
            assert forall|j: int| 0 <= j < longer.len() implies is_digit(#[trigger] longer[j]) by {
                if j < i - start {
                    assert(longer[j] == body.take(i - start)[j]);
                }
            }
            if all_digits(body) {
                lemma_number_prefix(body, (i + 1 - start) as nat);
            }
        }
        let next: u128 = magnitude as u128 * 10 + (c as u32 - 48) as u128;
        if next > limit as u128 {
            return None;
        }
        magnitude = next as u64;
        i = i + 1;
    }
    assert(body.take(i - start) =~= body);
    Some((negative, magnitude))
}

proof fn lemma_number_prefix(s: Seq<char>, k: nat)
    requires
        all_digits(s),
        k <= s.len(),
    ensures
        number(s.take(k as int)) <= number(s),
    decreases s.len() - k,
{
    if k == s.len() {
        assert(s.take(k as int) =~= s);
    } else {
        let longer = s.take(k as int + 1);
        assert(longer.drop_last() =~= s.take(k as int));
        assert(is_digit(s[k as int]));
        assert(longer.last() == s[k as int]);
        lemma_number_prefix(s, k + 1);
    }
}

proof fn lemma_number_concat(a: Seq<char>, b: Seq<char>)
    requires
        all_digits(a),
        all_digits(b),
    ensures
        number(a + b) == number(a) * pow10(b.len()) + number(b),
    decreases b.len(),
{
    if b.len() == 0 {
        assert(a + b =~= a);
        assert(pow10(0) == 1);
        assert(number(a) * 1 == number(a)) by (nonlinear_arith);
    } else {
        lemma_number_concat(a, b.drop_last());
        assert((a + b).drop_last() =~= a + b.drop_last());
        assert((a + b).last() == b.last());
        let p = pow10((b.len() - 1) as nat);
        let n = number(a);
        assert((n * p) * 10 == n * (10 * p)) by (nonlinear_arith);
        assert(is_digit(b[b.len() - 1]));
    }
}

/// Prepend `count` zeros below the least significant digit.
fn shifted(digits: Vec<u8>, count: u128) -> (r: Vec<u8>)
    requires
        small(digits@),
    ensures
        small(r@),
        r@.len() == digits@.len() + count,
        lval(r@) == lval(digits@) * pow10(count as nat),
{
    let mut out: Vec<u8> = Vec::new();
    let mut i: u128 = 0;
    while i < count
        invariant
            i <= count,
            out@.len() == i,
            forall|j: int| 0 <= j < out@.len() ==> out@[j] == 0,
        decreases count - i,
    {
        out.push(0);
        i = i + 1;
    }
    let ghost zeros = out@;
    let mut rest = digits;
    out.append(&mut rest);
    proof {
        lemma_lval_zeros(zeros, digits@);
        assert(out@ =~= zeros + digits@);
        let p = pow10(count as nat);
        let v = lval(digits@);
        assert(p * v == v * p) by (nonlinear_arith);
    }
    out
}

/// The digits before the point of an unsigned, exponent-free text.
spec fn whole_of(body: Seq<char>) -> Seq<char> {
    body.take(point_mark(body))
}

/// The digits behind the point of an unsigned, exponent-free text.
spec fn fraction_of(body: Seq<char>) -> Seq<char> {
    if point_mark(body) == body.len() {
        Seq::empty()
    } else {
        body.skip(point_mark(body) + 1)
    }
}

/// Read the digits of `chars[from..to]` round an optional point; the second
/// value counts those behind the point.
fn read_body(chars: &Vec<char>, from: usize, to: usize) -> (r: Option<(Vec<u8>, usize)>)
    requires
        from <= to <= chars@.len(),
    ensures
        ({
            let body = chars@.subrange(from as int, to as int);
            match r {
                None => whole_of(body).len() + fraction_of(body).len() == 0 || !all_digits(
                    whole_of(body),
                ) || !all_digits(fraction_of(body)),
                Some((v, count)) => {
                    &&& all_digits(whole_of(body))
                    &&& all_digits(fraction_of(body))
                    &&& whole_of(body).len() + fraction_of(body).len() > 0
                    &&& small(v@)
                    &&& count == fraction_of(body).len()
                    &&& count <= to - from
                    &&& lval(v@) == number(whole_of(body) + fraction_of(body))
                },
            }
        }),
{
    let ghost body = chars@.subrange(from as int, to as int);
    let p = point_index(chars, from, to);
    let fraction_start = if p == to { to } else { p + 1 };
    let ghost whole = whole_of(body);
    let ghost fraction = fraction_of(body);
    proof {
        assert(whole =~= chars@.subrange(from as int, p as int));
        assert(fraction =~= chars@.subrange(fraction_start as int, to as int));
    }
    let mut out: Vec<u8> = Vec::new();
    if !push_digits(chars, fraction_start, to, &mut out) {
        return None;
    }
    if !push_digits(chars, from, p, &mut out) {
        return None;
    }
    if out.len() == 0 {
        return None;
    }
    proof {
        lemma_number_concat(whole, fraction);
        let a = number(whole);
        let b = pow10(fraction.len());
        assert(pow10(0) == 1);
        assert(lval(Seq::<u8>::empty()) == 0);
        assert(1 * number(fraction) == number(fraction)) by (nonlinear_arith);
        assert(a * b == b * a) by (nonlinear_arith);
    }
    Some((out, to - fraction_start))
}

/// Apply an exponent to digits of which `fraction_len` stand behind the point.
fn apply_exponent(digits: Vec<u8>, fraction_len: usize, negative: bool, magnitude: u64) -> (r:
    Digits)
    requires
        small(digits@),
    ensures
        r.wf(),
        ({
            let exponent = if negative { -(magnitude as int) } else { magnitude as int };
            let shift = exponent - fraction_len;
            r.decimal() == if shift >= 0 {
                Decimal { mantissa: lval(digits@) * pow10(shift as nat), scale: 0 }
            } else {
                Decimal { mantissa: lval(digits@), scale: (-shift) as nat }
            }
        }),
{
    if negative {
        let ghost v = lval(digits@);
        proof {
            assert(pow10(0) == 1);
            assert(v * 1 == v) by (nonlinear_arith);
        }
        Digits { low_first: digits, scale: fraction_len as u128 + magnitude as u128 }
    } else if magnitude as u128 >= fraction_len as u128 {
        Digits {
            low_first: shifted(digits, magnitude as u128 - fraction_len as u128),
            scale: 0,
        }
    } else {
        Digits { low_first: digits, scale: fraction_len as u128 - magnitude as u128 }
    }
}

fn parse(chars: &Vec<char>) -> (r: Option<Digits>)
    ensures
        match r {
            None => decimal_of(chars@) is None,
            Some(d) => {
                &&& d.wf()
                &&& decimal_of(chars@) == Some(d.decimal())
            },
        },
{
    let e = exponent_index(chars);
    let ghost s = chars@;
    let (negative, magnitude) = if e == chars.len() {
        (false, 0u64)
    } else {
        match read_exponent(chars, e + 1) {
            None => {
                return None;
            },
            Some(pair) => pair,
        }
    };
    let from = if e > 0 && chars[0] == '+' { 1usize } else { 0usize };
    proof {
        let signed = s.take(e as int);
        if e > 0 {
            assert(signed[0] == s[0]);
        }
        let body = if signed.len() > 0 && signed[0] == '+' { signed.skip(1) } else { signed };
        assert(body =~= s.subrange(from as int, e as int));
    }
    match read_body(chars, from, e) {
        None => None,
        Some((digits, fraction_len)) => Some(
            apply_exponent(digits, fraction_len, negative, magnitude),
        ),
    }
}

/// Digit at `i`, zero past the most significant one.
fn digit_at(v: &Vec<u8>, i: usize) -> (d: u8)
    requires
        small(v@),
    ensures
        d < 10,
        i < v@.len() ==> d == v@[i as int],
        i >= v@.len() ==> d == 0,
{
    if i < v.len() {
        v[i]
    } else {
        0
    }
}

/// A sequence without its digits from index `i` on.
spec fn low(s: Seq<u8>, i: int) -> nat {
    if i <= s.len() {
        lval(s.take(i))
    } else {
        lval(s)
    }
}

proof fn lemma_low_step(s: Seq<u8>, i: int, d: u8)
    requires
        0 <= i,
        i < s.len() ==> d == s[i],
        i >= s.len() ==> d == 0,
    ensures
        low(s, i + 1) == low(s, i) + d as nat * pow10(i as nat),
{
    if i < s.len() {
        assert(s.take(i + 1) =~= s.take(i).push(d));
        lemma_lval_push(s.take(i), d);
    } else {
        assert(s.take(s.len() as int) =~= s);
        assert(0 * pow10(i as nat) == 0) by (nonlinear_arith);
    }
}

/// Add two digit sequences.
fn add_digits(a: &Vec<u8>, b: &Vec<u8>) -> (r: Vec<u8>)
    requires
        small(a@),
        small(b@),
    ensures
        small(r@),
        lval(r@) == lval(a@) + lval(b@),
{
    let n = if a.len() >= b.len() { a.len() } else { b.len() };
    let mut out: Vec<u8> = Vec::new();
    let mut carry: u8 = 0;
    let mut i: usize = 0;
    proof {
        assert(lval(a@.take(0)) == 0);
        assert(lval(b@.take(0)) == 0);
        assert(pow10(0) == 1);
        assert(lval(out@) == 0);
    }
    while i < n
        invariant
            i <= n,
            n >= a@.len(),
            n >= b@.len(),
            small(a@),
            small(b@),
            small(out@),
            out@.len() == i,
            carry <= 1,
            lval(out@) + carry as nat * pow10(i as nat) == low(a@, i as int) + low(b@, i as int),
        decreases n - i,
    {
        let x = digit_at(a, i);
        let y = digit_at(b, i);
        let sum: u8 = x + y + carry;
        let d: u8 = sum % 10;
        let next: u8 = sum / 10;
        proof {
            lemma_low_step(a@, i as int, x);
            lemma_low_step(b@, i as int, y);
            lemma_lval_push(out@, d);
            let p = pow10(i as nat);
            assert(pow10((i + 1) as nat) == 10 * p);
            assert(d as int + 10 * (next as int) == x as int + y as int + carry as int);
            assert(d as int * p + next as int * (10 * p) == x as int * p + y as int * p
                + carry as int * p) by (nonlinear_arith)
                requires
                    d as int + 10 * (next as int) == x as int + y as int + carry as int,
            ;
        }
        out.push(d);
        carry = next;
        i = i + 1;
    }
    proof {
        assert(a@.take(a@.len() as int) =~= a@);
        assert(b@.take(b@.len() as int) =~= b@);
        if carry > 0 {
            lemma_lval_push(out@, carry);
        } else {
            assert(0 * pow10(i as nat) == 0) by (nonlinear_arith);
        }
    }
    if carry > 0 {
        out.push(carry);
    }
    out
}

/// Append the digits of `v[from..to]` to a text, most significant first.
fn push_spelled(out: &mut String, v: &Vec<u8>, from: usize, to: usize)
    requires
        from <= to <= v@.len(),
        small(v@),
    ensures
        final(out)@ == old(out)@ + spelled(v@.subrange(from as int, to as int)),
{
    let ghost before = out@;
    let mut i: usize = to;
    proof {
        assert(v@.subrange(to as int, to as int) =~= Seq::<u8>::empty());
        assert(spelled(v@.subrange(to as int, to as int)) =~= Seq::<char>::empty());
        assert(out@ =~= before + Seq::<char>::empty());
    }
    while i > from
        invariant
            from <= i <= to <= v@.len(),
            small(v@),
            out@ == before + spelled(v@.subrange(i as int, to as int)),
        decreases i,
    {
        let d = v[i - 1];
        out.push(char_of_digit(d));
        proof {
            let longer = v@.subrange(i - 1, to as int);
            assert(longer.drop_first() =~= v@.subrange(i as int, to as int));
            assert(longer[0] == d);
            assert(out@ =~= before + spelled(longer));
        }
        i = i - 1;
    }
}

/// Plain decimal text of a number.
#[verifier::spinoff_prover]
#[verifier::rlimit(40)]
fn render(digits: Digits) -> (r: String)
    requires
        digits.wf(),
    ensures
        r@ == plain_text(digits.decimal().mantissa, digits.decimal().scale),
{
    let ghost m0 = lval(digits.low_first@);
    let ghost k0 = digits.scale as nat;
    let mut v = digits.low_first;
    while v.len() as u128 <= digits.scale
        invariant
            small(v@),
            lval(v@) == m0,
        ensures
            v@.len() > digits.scale,
        decreases digits.scale + 1 - v.len(),
    {
        proof {
            lemma_lval_push(v@, 0);
            assert(0 * pow10(v@.len()) == 0) by (nonlinear_arith);
        }
        v.push(0);
    }
    let length: usize = v.len();
    assert(digits.scale < length);
    let mut scale: usize = digits.scale as usize;
    let mut lo: usize = 0;
    assert(v@.skip(0) =~= v@);
    while scale > 0 && v[lo] == 0
        invariant
            small(v@),
            length == v@.len(),
            lo + scale < length,
            lo + scale == k0,
            plain_text(m0, k0) == plain_text(lval(v@.skip(lo as int)), scale as nat),
        decreases scale,
    {
        proof {
            let rest = v@.skip(lo as int);
            assert(rest.drop_first() =~= v@.skip(lo + 1));
            assert(rest[0] == v@[lo as int]);
            assert(lval(rest) == 10 * lval(rest.drop_first()));
        }
        lo = lo + 1;
        scale = scale - 1;
    }
    let mut hi: usize = v.len();
    let point = lo + scale;
    let ghost live = v@.skip(lo as int);
    proof {
        assert forall|i: int| 0 <= i < live.len() implies #[trigger] live[i] < 10 by {
            assert(live[i] == v@[lo + i]);
        }
        lemma_lval_split(live, scale as nat);
        assert(live.skip(scale as int) =~= v@.subrange(point as int, hi as int));
    }
    while hi > point + 1 && v[hi - 1] == 0
        invariant
            small(v@),
            point < hi <= v@.len(),
            lval(v@.subrange(point as int, hi as int)) == lval(live.skip(scale as int)),
        decreases hi,
    {
        proof {
            let longer = v@.subrange(point as int, hi as int);
            let shorter = v@.subrange(point as int, hi - 1);
            assert(longer =~= shorter.push(0));
            lemma_lval_push(shorter, 0);
            assert(0 * pow10(shorter.len()) == 0) by (nonlinear_arith);
        }
        hi = hi - 1;
    }
    let mut out = String::new();
    push_spelled(&mut out, &v, point, hi);
    proof {
        let whole = v@.subrange(point as int, hi as int);
        assert forall|i: int| 0 <= i < whole.len() implies #[trigger] whole[i] < 10 by {
            assert(whole[i] == v@[point + i]);
        }
        lemma_spelled_digits(whole);
        assert(out@ =~= crate::text::digits(lval(whole)));
    }
    if scale > 0 {
        out.push('.');
        push_spelled(&mut out, &v, lo, point);
        proof {
            let fraction = v@.subrange(lo as int, point as int);
            assert(fraction =~= live.take(scale as int));
            lemma_spelled_padded(fraction);
            let m = lval(live);
            let p = pow10(scale as nat);
            let h = lval(live.skip(scale as int));
            let l = lval(fraction);
            vstd::arithmetic::div_mod::lemma_fundamental_div_mod_converse(
                m as int,
                p as int,
                h as int,
                l as int,
            );
            assert(live.drop_first() =~= v@.skip(lo + 1));
            assert(live[0] == v@[lo as int]);
            assert(m % 10 != 0);
        }
    } else {
        assert(live.skip(0) =~= live);
    }
    out
}

/// Add two non-negative decimal texts without converting through binary
/// floating point. Text that is not a decimal number has no sum.
pub fn decimal_add(lhs: &str, rhs: &str) -> (r: Option<String>)
    ensures
        match r {
            Some(sum) => decimal_sum(lhs@, rhs@) == Some(sum@),
            None => decimal_sum(lhs@, rhs@) is None,
        },
{
    let left_chars = chars_of(lhs);
    let right_chars = chars_of(rhs);
    match (parse(&left_chars), parse(&right_chars)) {
        (Some(left), Some(right)) => {
            let scale = if left.scale >= right.scale { left.scale } else { right.scale };
            let left_digits = shifted(left.low_first, scale - left.scale);
            let right_digits = shifted(right.low_first, scale - right.scale);
            let total = add_digits(&left_digits, &right_digits);
            Some(render(Digits { low_first: total, scale }))
        },
        _ => None,
    }
}

/// Addition does not depend on the order of its operands.
pub proof fn law_addition_commutes(a: Seq<char>, b: Seq<char>)
    ensures
        decimal_sum(a, b) == decimal_sum(b, a),
{
}

proof fn lemma_digits_read(m: nat)
    ensures
        all_digits(crate::text::digits(m)),
        number(crate::text::digits(m)) == m,
        crate::text::digits(m).len() > 0,
    decreases m,
{
    let s = crate::text::digits(m);
    if m < 10 {
        assert(s.drop_last() =~= Seq::<char>::empty());
        assert(number(s.drop_last()) == 0);
    } else {
        lemma_digits_read(m / 10);
        assert(s.drop_last() =~= crate::text::digits(m / 10));
    }
}

proof fn lemma_padded_read(m: nat, width: nat)
    requires
        m < pow10(width),
    ensures
        all_digits(padded(m, width)),
        number(padded(m, width)) == m,
        padded(m, width).len() == width,
    decreases width,
{
    if width > 0 {
        lemma_padded_read(m / 10, (width - 1) as nat);
        assert(padded(m, width).drop_last() =~= padded(m / 10, (width - 1) as nat));
    }
}

/// A text without exponent marks has none to find.
proof fn lemma_no_exponent(s: Seq<char>)
    requires
        forall|i: int| 0 <= i < s.len() ==> #[trigger] s[i] != 'e' && s[i] != 'E',
    ensures
        exponent_mark(s) == s.len(),
    decreases s.len(),
{
    if s.len() > 0 {
        assert forall|i: int| 0 <= i < s.drop_first().len() implies #[trigger] s.drop_first()[i]
            != 'e' && s.drop_first()[i] != 'E' by {
            assert(s.drop_first()[i] == s[i + 1]);
        }
        lemma_no_exponent(s.drop_first());
    }
}

/// The point of a text stands behind its leading digits.
proof fn lemma_point(whole: Seq<char>, rest: Seq<char>)
    requires
        all_digits(whole),
        rest.len() > 0 ==> rest[0] == '.',
    ensures
        point_mark(whole + rest) == whole.len(),
    decreases whole.len(),
{
    let s = whole + rest;
    if whole.len() > 0 {
        assert(is_digit(whole[0]));
        assert(s.drop_first() =~= whole.drop_first() + rest);
        assert forall|i: int| 0 <= i < whole.drop_first().len() implies is_digit(
            #[trigger] whole.drop_first()[i],
        ) by {
            assert(whole.drop_first()[i] == whole[i + 1]);
        }
        lemma_point(whole.drop_first(), rest);
    } else {
        assert(s =~= rest);
    }
}

proof fn lemma_plain_text_reads(m: nat, k: nat)
    ensures
        decimal_of(plain_text(m, k)) matches Some(d) && d.scale <= k && d.at_scale(k) == m,
    decreases k,
{
    let s = plain_text(m, k);
    if k == 0 {
        lemma_digits_read(m);
        assert forall|i: int| 0 <= i < s.len() implies #[trigger] s[i] != 'e' && s[i]
            != 'E' by {
            assert(is_digit(s[i]));
        }
        lemma_no_exponent(s);
        assert(s.take(s.len() as int) =~= s);
        assert(is_digit(s[0]));
        lemma_point(s, Seq::empty());
        assert(s + Seq::<char>::empty() =~= s);
        assert(s.take(s.len() as int) + Seq::<char>::empty() =~= s);
        assert(pow10(0) == 1);
        assert(m * 1 == m) by (nonlinear_arith);
        assert(decimal_of(s) == Some(Decimal { mantissa: m, scale: 0 }));
    } else if m % 10 == 0 {
        lemma_plain_text_reads(m / 10, (k - 1) as nat);
        let d = decimal_of(s)->0;
        let j = (k - 1 - d.scale) as nat;
        assert(pow10(j + 1) == 10 * pow10(j));
        assert(d.mantissa * (10 * pow10(j)) == 10 * (d.mantissa * pow10(j))) by (nonlinear_arith);
        assert((k - d.scale) as nat == j + 1);
    } else {
        lemma_pow10_add(k, 0);
        let q = m / pow10(k);
        let r = m % pow10(k);
        let whole = crate::text::digits(q);
        let fraction = padded(r, k);
        lemma_digits_read(q);
        assert(r < pow10(k)) by (nonlinear_arith)
            requires
                pow10(k) > 0,
                r == m % pow10(k),
        ;
        lemma_padded_read(r, k);
        assert forall|i: int| 0 <= i < s.len() implies #[trigger] s[i] != 'e' && s[i]
            != 'E' by {
            if i < whole.len() {
                assert(s[i] == whole[i]);
                assert(is_digit(whole[i]));
            } else if i > whole.len() {
                assert(s[i] == fraction[i - whole.len() - 1]);
                assert(is_digit(fraction[i - whole.len() - 1]));
            }
        }
        lemma_no_exponent(s);
        assert(s.take(s.len() as int) =~= s);
        assert(s[0] == whole[0]);
        assert(is_digit(whole[0]));
        let rest = seq!['.'] + fraction;
        assert(s =~= whole + rest);
        lemma_point(whole, rest);
        assert(s.take(whole.len() as int) =~= whole);
        assert(s.skip(whole.len() as int + 1) =~= fraction);
        lemma_number_concat(whole, fraction);
        assert(m == q * pow10(k) + r) by (nonlinear_arith)
            requires
                pow10(k) > 0,
                q == m / pow10(k),
                r == m % pow10(k),
        ;
        assert(pow10(0) == 1);
        assert(m * 1 == m) by (nonlinear_arith);
        assert(decimal_of(s) == Some(Decimal { mantissa: m, scale: k }));
    }
}

/// The text of a sum reads back as the exact sum: nothing is rounded.
pub proof fn law_sums_are_exact(a: Seq<char>, b: Seq<char>)
    requires
        decimal_sum(a, b) is Some,
    ensures
        ({
            let x = decimal_of(a)->0;
            let y = decimal_of(b)->0;
            let k = common_scale(x, y);
            decimal_of(decimal_sum(a, b)->0) matches Some(sum) && sum.scale <= k
                && sum.at_scale(k) == x.at_scale(k) + y.at_scale(k)
        }),
{
    let x = decimal_of(a)->0;
    let y = decimal_of(b)->0;
    let k = common_scale(x, y);
    lemma_plain_text_reads(x.at_scale(k) + y.at_scale(k), k);
}

} // verus!
