//! Integer and decimal reading.
//!
//! `parse_unsigned` is `str::parse` for `u32` and `u64`. [`Amount`] is an exact
//! decimal `mantissa / 10^scale` whose mantissa is a digit string of any
//! length; it holds the prices that FunPay pages show, which are written with
//! ASCII digits and at most one decimal point.
use vstd::prelude::*;
use crate::text::{is_digit, char_is_digit};

verus! {

/// `10^n`.
pub open spec fn pow10(n: nat) -> nat
    decreases n,
{
    if n == 0 {
        1
    } else {
        10 * pow10((n - 1) as nat)
    }
}

/// The value of the digit `c`.
pub open spec fn digit_value(c: char) -> nat {
    (c as int - '0' as int) as nat
}

/// The number that the decimal digits `ds` spell.
pub open spec fn digits_value(ds: Seq<char>) -> nat
    decreases ds.len(),
{
    if ds.len() == 0 {
        0
    } else {
        digits_value(ds.drop_last()) * 10 + digit_value(ds.last())
    }
}

/// Every character of `s` is an ASCII digit.
pub open spec fn all_digits(s: Seq<char>) -> bool {
    forall|i: int| 0 <= i < s.len() ==> is_digit(#[trigger] s[i])
}

/// The digits of an unsigned integer literal as `str::parse` reads it: an
/// optional `+` followed by one or more ASCII digits.
pub open spec fn unsigned_digits(s: Seq<char>) -> Option<Seq<char>> {
    let ds = if s.len() > 0 && s[0] == '+' { s.drop_first() } else { s };
    if ds.len() > 0 && all_digits(ds) {
        Some(ds)
    } else {
        None
    }
}

/// `str::parse::<T>` for an unsigned integer type `T` whose largest value is `max`.
pub open spec fn parse_unsigned(s: Seq<char>, max: nat) -> Option<nat> {
    match unsigned_digits(s) {
        Some(ds) => if digits_value(ds) <= max {
            Some(digits_value(ds))
        } else {
            None
        },
        None => None,
    }
}

proof fn lemma_digits_value_grows(ds: Seq<char>, i: int)
    requires
        0 <= i <= ds.len(),
    ensures
        digits_value(ds.take(i)) <= digits_value(ds),
    decreases ds.len() - i,
{
    if i < ds.len() {
        lemma_digits_value_grows(ds, i + 1);
        assert(ds.take(i + 1).drop_last() =~= ds.take(i));
    } else {
        assert(ds.take(i) =~= ds);
    }
}

/// Reads `s` as `str::parse::<T>` does for an unsigned integer type whose
/// largest value is `max`.
fn parse_unsigned_chars(s: &Vec<char>, max: u64) -> (res: Option<u64>)
    requires
        max >= 9,
    ensures
        match res {
            Some(v) => parse_unsigned(s@, max as nat) == Some(v as nat),
            None => parse_unsigned(s@, max as nat) is None,
        },
{
    let start: usize = if s.len() > 0 && s[0] == '+' { 1 } else { 0 };
    let ghost ds = if s@.len() > 0 && s@[0] == '+' { s@.drop_first() } else { s@ };
    assert(ds =~= s@.subrange(start as int, s.len() as int));
    if start >= s.len() {
        return None;
    }
    let mut v: u64 = 0;
    let mut i: usize = start;
    while i < s.len()
        invariant
            start <= i <= s.len(),
            start < s.len(),
            ds == s@.subrange(start as int, s.len() as int),
            ds == (if s@.len() > 0 && s@[0] == '+' { s@.drop_first() } else { s@ }),
            max >= 9,
            all_digits(s@.subrange(start as int, i as int)),
            v as nat == digits_value(ds.take(i - start)),
            v <= max,
        decreases s.len() - i,
    {
        let c = s[i];
        if !char_is_digit(c) {
            assert(ds[i - start] == c);
            assert(!all_digits(ds));
            return None;
        }
        let d = (c as u64) - ('0' as u64);
        assert(d == digit_value(c));
        assert(d <= 9);
        assert(ds.take(i - start + 1).drop_last() =~= ds.take(i - start));
        assert(ds.take(i - start + 1).last() == c);
        if v > (max - d) / 10 {
            assert(v * 10 + d > max) by (nonlinear_arith)
                requires v > (max - d) / 10, d <= 9, d <= max;
            proof {
                lemma_digits_value_grows(ds, i - start + 1);
            }
            assert(digits_value(ds) > max);
            assert(all_digits(ds) ==> unsigned_digits(s@) == Some(ds));
            return None;
        }
        assert(v * 10 + d <= max) by (nonlinear_arith)
            requires v <= (max - d) / 10, d <= max;
        v = v * 10 + d;
        assert(s@.subrange(start as int, i + 1) =~= s@.subrange(start as int, i as int).push(c));
        i += 1;
    }
    assert(ds.take(i - start) =~= ds);
    assert(s@.subrange(start as int, i as int) =~= ds);
    Some(v)
}

/// `str::parse::<u32>`.
pub fn parse_u32(s: &Vec<char>) -> (res: Option<u32>)
    ensures
        match res {
            Some(v) => parse_unsigned(s@, u32::MAX as nat) == Some(v as nat),
            None => parse_unsigned(s@, u32::MAX as nat) is None,
        },
{
    match parse_unsigned_chars(s, 0xffff_ffff) {
        Some(v) => Some(v as u32),
        None => None,
    }
}

/// `str::parse::<u64>`.
pub fn parse_u64(s: &Vec<char>) -> (res: Option<u64>)
    ensures
        match res {
            Some(v) => parse_unsigned(s@, u64::MAX as nat) == Some(v as nat),
            None => parse_unsigned(s@, u64::MAX as nat) is None,
        },
{
    parse_unsigned_chars(s, 0xffff_ffff_ffff_ffff)
}

/// A character that a price keeps when it is read: an ASCII digit or a `.`.
pub open spec fn is_price_char(c: char) -> bool {
    is_digit(c) || c == '.'
}

/// The characters of `s` that are ASCII digits or `.`, in order.
pub open spec fn price_chars(s: Seq<char>) -> Seq<char>
    decreases s.len(),
{
    if s.len() == 0 {
        seq![]
    } else if is_price_char(s.last()) {
        price_chars(s.drop_last()).push(s.last())
    } else {
        price_chars(s.drop_last())
    }
}

/// Reading `t` from the left: the number of `.` seen, the digits seen, and the
/// number of digits seen after the last `.`.
pub open spec fn decimal_scan(t: Seq<char>) -> (nat, Seq<char>, nat)
    decreases t.len(),
{
    if t.len() == 0 {
        (0, seq![], 0)
    } else {
        let (dots, ds, frac) = decimal_scan(t.drop_last());
        if t.last() == '.' {
            (dots + 1, ds, 0)
        } else {
            (dots, ds.push(t.last()), if dots >= 1 { frac + 1 } else { 0 })
        }
    }
}

/// The value `(mantissa, scale)` of a text made of ASCII digits and dots, as
/// `str::parse::<f64>` accepts it: at most one `.` and at least one digit.
pub open spec fn decimal_value(t: Seq<char>) -> Option<(nat, nat)> {
    let (dots, ds, frac) = decimal_scan(t);
    if (forall|i: int| 0 <= i < t.len() ==> is_price_char(#[trigger] t[i])) && dots <= 1 && ds.len()
        > 0 {
        Some((digits_value(ds), frac))
    } else {
        None
    }
}

/// `t` without a leading `+`, which `str::parse::<f64>` accepts.
pub open spec fn unsigned_text(t: Seq<char>) -> Seq<char> {
    if t.len() > 0 && t[0] == '+' {
        t.drop_first()
    } else {
        t
    }
}

/// The value of a decimal text as `str::parse::<f64>` reads it, where that is
/// a non-negative decimal without an exponent: an optional `+`, then ASCII
/// digits with at most one `.`, at least one digit.
///
/// The other texts that `f64` accepts are refused (`None`): a leading `-`, an
/// exponent (`1e3`), and `inf`, `infinity` and `nan` in any case. An amount is
/// an exact non-negative decimal, so it holds no negative, infinite or NaN
/// value, and an exponent can name a number whose digits no memory holds.
pub open spec fn amount_value(t: Seq<char>) -> Option<(nat, nat)> {
    decimal_value(unsigned_text(t))
}

/// The amount of a price text: its digits and dots, read as a decimal.
pub open spec fn price_value(text: Seq<char>) -> Option<(nat, nat)> {
    decimal_value(price_chars(text))
}

/// `v` written with `s` decimal places (`s` is at least `v.1`).
pub open spec fn at_scale(v: (nat, nat), s: nat) -> nat {
    v.0 * pow10((s - v.1) as nat)
}

/// The larger number of decimal places of `a` and `b`.
pub open spec fn common_scale(a: (nat, nat), b: (nat, nat)) -> nat {
    if a.1 >= b.1 {
        a.1
    } else {
        b.1
    }
}

/// `a <= b` as decimals.
pub open spec fn amount_le(a: (nat, nat), b: (nat, nat)) -> bool {
    at_scale(a, common_scale(a, b)) <= at_scale(b, common_scale(a, b))
}

/// `|a - b| > 0.01` as decimals, computed exactly: a difference of exactly
/// one hundredth (0.30 against 0.29) is no more than 0.01, whatever binary
/// floating point would round it to.
pub open spec fn amount_far(a: (nat, nat), b: (nat, nat)) -> bool {
    let s = common_scale(a, b);
    let x = at_scale(a, s);
    let y = at_scale(b, s);
    100 * (if x >= y { x - y } else { y - x }) > pow10(s)
}

proof fn lemma_pow10_mono(a: nat, b: nat)
    requires
        a <= b,
    ensures
        pow10(a) <= pow10(b),
        pow10(a) >= 1,
    decreases b,
{
    if b > a {
        lemma_pow10_mono(a, (b - 1) as nat);
    } else if a > 0 {
        lemma_pow10_mono((a - 1) as nat, (a - 1) as nat);
    }
}

/// `k` zero digits.
pub open spec fn zeros(k: nat) -> Seq<char> {
    Seq::new(k, |i: int| '0')
}

/// The digits `ds` with `z` zeros before them and `p` zeros after them.
pub open spec fn padded(ds: Seq<char>, z: nat, p: nat) -> Seq<char> {
    zeros(z) + ds + zeros(p)
}

/// `v` limited to the range `-2 ..= 2`.
pub open spec fn clamp2(v: int) -> int {
    if v >= 2 {
        2
    } else if v <= -2 {
        -2
    } else {
        v
    }
}

proof fn lemma_digits_concat(a: Seq<char>, b: Seq<char>)
    ensures
        digits_value(a + b) == digits_value(a) * pow10(b.len()) + digits_value(b),
    decreases b.len(),
{
    let va = digits_value(a);
    if b.len() == 0 {
        assert(a + b =~= a);
        assert(pow10(0) == 1);
        assert(va * 1 == va);
    } else {
        let b1 = b.drop_last();
        let ab = a + b;
        assert(ab.drop_last() =~= a + b1);
        assert(ab.last() == b.last());
        lemma_digits_concat(a, b1);
        let p1 = pow10(b1.len());
        let d = digit_value(b.last());
        let v1 = digits_value(b1);
        assert(digits_value(ab) == digits_value(a + b1) * 10 + d);
        assert(digits_value(b) == v1 * 10 + d);
        assert(b1.len() + 1 == b.len());
        assert(pow10(b.len()) == 10 * p1);
        assert((va * p1 + v1) * 10 == va * (10 * p1) + v1 * 10) by (nonlinear_arith);
    }
}

proof fn lemma_zeros_value(k: nat)
    ensures
        digits_value(zeros(k)) == 0,
        all_digits(zeros(k)),
    decreases k,
{
    if k > 0 {
        assert(zeros(k).drop_last() =~= zeros((k - 1) as nat));
        lemma_zeros_value((k - 1) as nat);
    }
}

proof fn lemma_digits_bound(ds: Seq<char>)
    requires
        all_digits(ds),
    ensures
        digits_value(ds) < pow10(ds.len()),
    decreases ds.len(),
{
    if ds.len() > 0 {
        let d1 = ds.drop_last();
        assert(all_digits(d1)) by {
            assert forall|i: int| 0 <= i < d1.len() implies is_digit(#[trigger] d1[i]) by {
                assert(d1[i] == ds[i]);
            }
        }
        lemma_digits_bound(d1);
        assert(is_digit(ds[ds.len() - 1]));
        assert(digit_value(ds.last()) <= 9);
    }
}

proof fn lemma_padded(ds: Seq<char>, z: nat, p: nat)
    requires
        all_digits(ds),
    ensures
        digits_value(padded(ds, z, p)) == digits_value(ds) * pow10(p),
        padded(ds, z, p).len() == z + ds.len() + p,
        all_digits(padded(ds, z, p)),
{
    lemma_zeros_value(z);
    lemma_zeros_value(p);
    lemma_digits_concat(zeros(z), ds);
    lemma_digits_concat(zeros(z) + ds, zeros(p));
    let s = padded(ds, z, p);
    assert forall|i: int| 0 <= i < s.len() implies is_digit(#[trigger] s[i]) by {
        if i < z {
            assert(s[i] == zeros(z)[i]);
        } else if i < z + ds.len() {
            assert(s[i] == ds[i - z]);
        } else {
            assert(s[i] == zeros(p)[i - z - ds.len()]);
        }
    }
}

proof fn lemma_clamp_step(d: int, e: int)
    requires
        -9 <= e <= 9,
    ensures
        clamp2(10 * clamp2(d) + e) == clamp2(10 * d + e),
{
}

/// Two amounts written alike: both with `s` decimal places, padded with
/// leading zeros to `n` digits.
pub open spec fn aligned(v: Seq<char>, scale: nat, s: nat, n: nat) -> Seq<char> {
    padded(v, (n - v.len() - (s - scale)) as nat, (s - scale) as nat)
}

/// An exact non-negative decimal `mantissa / 10^scale`, its mantissa held as
/// decimal digits.
#[derive(Debug)]
pub struct Amount {
    digits: Vec<char>,
    scale: usize,
}

impl View for Amount {
    type V = (nat, nat);

    /// `(mantissa, scale)`.
    closed spec fn view(&self) -> (nat, nat) {
        (digits_value(self.digits@), self.scale as nat)
    }
}

impl Clone for Amount {
    /// A copy of this amount.
    fn clone(&self) -> (res: Self)
        ensures
            res@ == self@,
    {
        self.duplicate()
    }
}

/// The decimal digit of `d`.
fn digit_char(d: u64) -> (c: char)
    requires
        d <= 9,
    ensures
        is_digit(c),
        digit_value(c) == d,
{
    match d {
        0 => '0',
        1 => '1',
        2 => '2',
        3 => '3',
        4 => '4',
        5 => '5',
        6 => '6',
        7 => '7',
        8 => '8',
        _ => '9',
    }
}

/// The decimal digits of `n`.
fn digits_of(n: u64) -> (res: Vec<char>)
    ensures
        all_digits(res@),
        digits_value(res@) == n,
    decreases n,
{
    if n < 10 {
        let c = digit_char(n);
        let mut v: Vec<char> = Vec::new();
        v.push(c);
        assert(v@.drop_last() =~= Seq::<char>::empty());
        assert(v@.last() == c);
        assert(digits_value(Seq::<char>::empty()) == 0);
        v
    } else {
        let mut v = digits_of(n / 10);
        let ghost before = v@;
        let c = digit_char(n % 10);
        v.push(c);
        assert(v@.drop_last() =~= before);
        assert(v@.last() == c);
        assert(n == (n / 10) * 10 + n % 10);
        assert forall|i: int| 0 <= i < v@.len() implies is_digit(#[trigger] v@[i]) by {
            if i < before.len() {
                assert(v@[i] == before[i]);
            }
        }
        v
    }
}

/// The digit at position `i` of `padded(ds, z, p)`.
fn padded_digit(ds: &Vec<char>, z: u128, i: u128) -> (c: char)
    ensures
        forall|p: nat|
            i < z + ds@.len() + p ==> c == #[trigger] padded(ds@, z as nat, p)[i as int],
{
    if i < z || i - z >= ds.len() as u128 {
        assert forall|p: nat| i < z + ds@.len() + p implies '0' == #[trigger] padded(
            ds@,
            z as nat,
            p,
        )[i as int] by {
            if i < z {
                assert(padded(ds@, z as nat, p)[i as int] == zeros(z as nat)[i as int]);
            } else {
                assert(padded(ds@, z as nat, p)[i as int] == zeros(p)[i - z - ds@.len()]);
            }
        }
        '0'
    } else {
        let c = ds[(i - z) as usize];
        assert forall|p: nat| i < z + ds@.len() + p implies c == #[trigger] padded(
            ds@,
            z as nat,
            p,
        )[i as int] by {
            assert(padded(ds@, z as nat, p)[i as int] == ds@[i - z]);
        }
        c
    }
}

impl Amount {
    #[verifier::type_invariant]
    spec fn digits_only(self) -> bool {
        all_digits(self.digits@)
    }

    /// The whole number `n`.
    pub fn from_int(n: u64) -> (res: Amount)
        ensures
            res@ == (n as nat, 0nat),
    {
        Amount { digits: digits_of(n), scale: 0 }
    }

    /// `mantissa / 10^scale`.
    pub fn new(mantissa: u64, scale: usize) -> (res: Amount)
        ensures
            res@ == (mantissa as nat, scale as nat),
    {
        Amount { digits: digits_of(mantissa), scale }
    }

    /// Zero.
    pub fn zero() -> (res: Amount)
        ensures
            res@ == (0nat, 0nat),
    {
        Amount::from_int(0)
    }

    /// The digits of the amount, read as a whole number, as text.
    pub fn mantissa(&self) -> (res: String)
        ensures
            all_digits(res@),
            digits_value(res@) == self@.0,
    {
        proof {
            use_type_invariant(self);
        }
        crate::text::string_of(self.digits.as_slice())
    }

    /// The number of decimal places.
    pub fn scale(&self) -> (res: usize)
        ensures
            res as nat == self@.1,
    {
        self.scale
    }

    /// A copy of this amount.
    pub fn duplicate(&self) -> (res: Amount)
        ensures
            res@ == self@,
    {
        proof {
            use_type_invariant(self);
        }
        let mut ds: Vec<char> = Vec::new();
        let mut i: usize = 0;
        while i < self.digits.len()
            invariant
                i <= self.digits.len(),
                ds@ == self.digits@.take(i as int),
            decreases self.digits.len() - i,
        {
            ds.push(self.digits[i]);
            assert(ds@ =~= self.digits@.take(i + 1));
            i += 1;
        }
        assert(ds@ =~= self.digits@);
        Amount { digits: ds, scale: self.scale }
    }

    /// `clamp2` of the difference of the digits `f..t` of `self` and `other`,
    /// both written as `aligned(.., s, n)`.
    fn clamped_diff(&self, other: &Amount, s: u128, n: u128, f: u128, t: u128) -> (res: i8)
        requires
            self@.1 <= s,
            other@.1 <= s,
            self.digits@.len() + (s - self@.1) <= n,
            other.digits@.len() + (s - other@.1) <= n,
            f <= t <= n,
        ensures
            res as int == clamp2(
                digits_value(aligned(self.digits@, self@.1, s as nat, n as nat).subrange(f as int, t as int))
                    - digits_value(aligned(other.digits@, other@.1, s as nat, n as nat).subrange(f as int, t as int)),
            ),
    {
        proof {
            use_type_invariant(self);
            use_type_invariant(other);
        }
        let ghost x = aligned(self.digits@, self@.1, s as nat, n as nat);
        let ghost y = aligned(other.digits@, other@.1, s as nat, n as nat);
        let px: u128 = s - self.scale as u128;
        let py: u128 = s - other.scale as u128;
        let zx: u128 = n - self.digits.len() as u128 - px;
        let zy: u128 = n - other.digits.len() as u128 - py;
        proof {
            lemma_padded(self.digits@, zx as nat, px as nat);
            lemma_padded(other.digits@, zy as nat, py as nat);
            assert(x == padded(self.digits@, zx as nat, px as nat));
            assert(y == padded(other.digits@, zy as nat, py as nat));
        }
        let mut d: i8 = 0;
        let mut i: u128 = f;
        assert(x.subrange(f as int, f as int) =~= Seq::<char>::empty());
        assert(y.subrange(f as int, f as int) =~= Seq::<char>::empty());
        while i < t
            invariant
                f <= i <= t <= n,
                x.len() == n,
                y.len() == n,
                all_digits(x),
                all_digits(y),
                x == padded(self.digits@, zx as nat, px as nat),
                y == padded(other.digits@, zy as nat, py as nat),
                zx + self.digits@.len() + px == n,
                zy + other.digits@.len() + py == n,
                d as int == clamp2(
                    digits_value(x.subrange(f as int, i as int)) - digits_value(
                        y.subrange(f as int, i as int),
                    ),
                ),
            decreases t - i,
        {
            let cx = padded_digit(&self.digits, zx, i);
            let cy = padded_digit(&other.digits, zy, i);
            assert(cx == x[i as int]);
            assert(cy == y[i as int]);
            assert(is_digit(x[i as int]));
            assert(is_digit(y[i as int]));
            let ex = (cx as u32 - '0' as u32) as i8;
            let ey = (cy as u32 - '0' as u32) as i8;
            assert(ex == digit_value(cx));
            assert(ey == digit_value(cy));
            assert(x.subrange(f as int, i + 1).drop_last() =~= x.subrange(f as int, i as int));
            assert(y.subrange(f as int, i + 1).drop_last() =~= y.subrange(f as int, i as int));
            proof {
                lemma_clamp_step(
                    digits_value(x.subrange(f as int, i as int)) - digits_value(
                        y.subrange(f as int, i as int),
                    ),
                    ex - ey,
                );
            }
            let v: i8 = 10 * d + ex - ey;
            d = if v >= 2 {
                2
            } else if v <= -2 {
                -2
            } else {
                v
            };
            i += 1;
        }
        d
    }

    /// The common layout of `self` and `other`: the larger scale `s`, and a
    /// length `n` that holds both written with `s` places and at least `k`
    /// digits.
    fn layout(&self, other: &Amount, k: u128) -> (res: (u128, u128))
        ensures
            res.0 == common_scale(self@, other@),
            self@.1 <= res.0,
            other@.1 <= res.0,
            self.digits@.len() + (res.0 - self@.1) <= res.1,
            other.digits@.len() + (res.0 - other@.1) <= res.1,
            k <= res.1,
    {
        let s: u128 = if self.scale >= other.scale { self.scale as u128 } else { other.scale as u128 };
        let lx: u128 = self.digits.len() as u128 + (s - self.scale as u128);
        let ly: u128 = other.digits.len() as u128 + (s - other.scale as u128);
        let n0 = if lx >= ly { lx } else { ly };
        let n = if n0 >= k { n0 } else { k };
        (s, n)
    }

    /// `self <= other` as decimals.
    pub fn le(&self, other: &Amount) -> (res: bool)
        ensures
            res == amount_le(self@, other@),
    {
        proof {
            use_type_invariant(self);
            use_type_invariant(other);
        }
        let (s, n) = self.layout(other, 0);
        let d = self.clamped_diff(other, s, n, 0, n);
        proof {
            let x = aligned(self.digits@, self@.1, s as nat, n as nat);
            let y = aligned(other.digits@, other@.1, s as nat, n as nat);
            lemma_padded(self.digits@, (n - self.digits@.len() - (s - self@.1)) as nat, (s - self@.1) as nat);
            lemma_padded(other.digits@, (n - other.digits@.len() - (s - other@.1)) as nat, (s - other@.1) as nat);
            assert(x.subrange(0, n as int) =~= x);
            assert(y.subrange(0, n as int) =~= y);
            assert(digits_value(x) == at_scale(self@, s as nat));
            assert(digits_value(y) == at_scale(other@, s as nat));
        }
        d <= 0
    }

    /// `|self - other| > 0.01` as decimals.
    pub fn differs_by_more_than_a_hundredth(&self, other: &Amount) -> (res: bool)
        ensures
            res == amount_far(self@, other@),
    {
        proof {
            use_type_invariant(self);
            use_type_invariant(other);
        }
        let s0: usize = if self.scale >= other.scale { self.scale } else { other.scale };
        let k: u128 = if s0 >= 2 { s0 as u128 - 2 } else { 0 };
        let (s, n) = self.layout(other, k);
        let m = n - k;
        let dh = self.clamped_diff(other, s, n, 0, m);
        let dl = self.clamped_diff(other, s, n, m, n);
        let ghost x = aligned(self.digits@, self@.1, s as nat, n as nat);
        let ghost y = aligned(other.digits@, other@.1, s as nat, n as nat);
        proof {
            lemma_padded(self.digits@, (n - self.digits@.len() - (s - self@.1)) as nat, (s - self@.1) as nat);
            lemma_padded(other.digits@, (n - other.digits@.len() - (s - other@.1)) as nat, (s - other@.1) as nat);
            assert(digits_value(x) == at_scale(self@, s as nat));
            assert(digits_value(y) == at_scale(other@, s as nat));
            lemma_far_split(x, y, s as nat, m as nat, n as nat);
        }
        if s < 2 {
            dh != 0
        } else {
            dh >= 2 || dh <= -2 || (dh == 1 && dl >= 1) || (dh == -1 && dl <= -1)
        }
    }

    /// The decimal that `t` spells: ASCII digits with at most one `.`, at least
    /// one digit.
    fn read_decimal(t: &Vec<char>) -> (res: Option<Amount>)
        ensures
            match res {
                Some(a) => decimal_value(t@) == Some(a@),
                None => decimal_value(t@) is None,
            },
    {
        let mut dots: usize = 0;
        let mut frac: usize = 0;
        let mut ds: Vec<char> = Vec::new();
        let mut i: usize = 0;
        while i < t.len()
            invariant
                i <= t.len(),
                (forall|k: int| 0 <= k < i ==> is_price_char(#[trigger] t@[k])),
                decimal_scan(t@.take(i as int)).0 == dots as nat,
                decimal_scan(t@.take(i as int)).1 == ds@,
                decimal_scan(t@.take(i as int)).2 == frac as nat,
                all_digits(ds@),
                dots <= i,
                frac <= i,
            decreases t.len() - i,
        {
            let c = t[i];
            assert(t@.take(i + 1).drop_last() =~= t@.take(i as int));
            assert(t@.take(i + 1).last() == c);
            if c == '.' {
                dots += 1;
                frac = 0;
            } else if char_is_digit(c) {
                let ghost before = ds@;
                ds.push(c);
                assert forall|k: int| 0 <= k < ds@.len() implies is_digit(#[trigger] ds@[k]) by {
                    if k < before.len() {
                        assert(ds@[k] == before[k]);
                    }
                }
                if dots >= 1 {
                    frac += 1;
                }
            } else {
                assert(!is_price_char(t@[i as int]));
                assert(t@.take(t.len() as int) =~= t@);
                return None;
            }
            i += 1;
        }
        assert(t@.take(t.len() as int) =~= t@);
        if dots <= 1 && ds.len() > 0 {
            Some(Amount { digits: ds, scale: frac })
        } else {
            None
        }
    }

    /// The decimal that `t` spells: an optional `+`, then ASCII digits with at
    /// most one `.`, at least one digit.
    pub fn parse_decimal(t: &Vec<char>) -> (res: Option<Amount>)
        ensures
            match res {
                Some(a) => amount_value(t@) == Some(a@),
                None => amount_value(t@) is None,
            },
    {
        if t.len() > 0 && t[0] == '+' {
            let body = crate::text::slice_of(t, 1, t.len());
            assert(body@ =~= t@.drop_first());
            Amount::read_decimal(&body)
        } else {
            Amount::read_decimal(t)
        }
    }
}

/// How the digits of two aligned amounts decide whether they are more than a
/// hundredth apart.
proof fn lemma_far_split(x: Seq<char>, y: Seq<char>, s: nat, m: nat, n: nat)
    requires
        all_digits(x),
        all_digits(y),
        x.len() == n,
        y.len() == n,
        m <= n,
        s >= 2 ==> n - m == s - 2,
        s < 2 ==> m == n,
    ensures
        ({
            let dh = clamp2(digits_value(x.subrange(0, m as int)) - digits_value(y.subrange(0, m as int)));
            let dl = clamp2(digits_value(x.subrange(m as int, n as int)) - digits_value(y.subrange(m as int, n as int)));
            let vx = digits_value(x);
            let vy = digits_value(y);
            let far = 100 * (if vx >= vy { vx - vy } else { vy - vx }) > pow10(s);
            if s < 2 {
                far == (dh != 0)
            } else {
                far == (dh >= 2 || dh <= -2 || (dh == 1 && dl >= 1) || (dh == -1 && dl <= -1))
            }
        }),
{
    let xh = x.subrange(0, m as int);
    let yh = y.subrange(0, m as int);
    let xl = x.subrange(m as int, n as int);
    let yl = y.subrange(m as int, n as int);
    assert(xh + xl =~= x);
    assert(yh + yl =~= y);
    lemma_digits_concat(xh, xl);
    lemma_digits_concat(yh, yl);
    assert(all_digits(xl)) by {
        assert forall|i: int| 0 <= i < xl.len() implies is_digit(#[trigger] xl[i]) by {
            assert(xl[i] == x[i + m]);
        }
    }
    assert(all_digits(yl)) by {
        assert forall|i: int| 0 <= i < yl.len() implies is_digit(#[trigger] yl[i]) by {
            assert(yl[i] == y[i + m]);
        }
    }
    lemma_digits_bound(xl);
    lemma_digits_bound(yl);
    let k = (n - m) as nat;
    let p = pow10(k);
    let hx = digits_value(xh) as int;
    let hy = digits_value(yh) as int;
    let lx = digits_value(xl) as int;
    let ly = digits_value(yl) as int;
    let vx = digits_value(x) as int;
    let vy = digits_value(y) as int;
    assert(vx == hx * p + lx);
    assert(vy == hy * p + ly);
    assert(vx - vy == (hx - hy) * p + (lx - ly)) by (nonlinear_arith)
        requires vx == hx * p + lx, vy == hy * p + ly;
    if s < 2 {
        assert(k == 0);
        assert(xl =~= Seq::<char>::empty());
        assert(yl =~= Seq::<char>::empty());
        assert(p == 1);
        assert(pow10(0) == 1);
        assert(pow10(1) == 10);
    } else {
        assert(pow10(s) == 100 * p) by {
            assert(s == k + 2);
            assert(pow10(k + 2) == 10 * pow10(k + 1));
            assert(pow10(k + 1) == 10 * pow10(k));
        }
        lemma_pow10_mono(0, k);
        lemma_far_cases(hx - hy, lx - ly, p as int);
    }
}

/// With `|l| < p`, the number `h * p + l` is more than `p` away from zero
/// exactly when `h` is, or `h` is one off zero and `l` points the same way.
proof fn lemma_far_cases(h: int, l: int, p: int)
    requires
        p >= 1,
        -p < l < p,
    ensures
        ({
            let v = h * p + l;
            let far = (if v >= 0 { v } else { -v }) > p;
            far == (clamp2(h) >= 2 || clamp2(h) <= -2 || (clamp2(h) == 1 && clamp2(l) >= 1) || (
            clamp2(h) == -1 && clamp2(l) <= -1))
        }),
{
    if h >= 2 {
        assert(h * p >= 2 * p) by (nonlinear_arith)
            requires h >= 2, p >= 1;
    } else if h <= -2 {
        assert(h * p <= -2 * p) by (nonlinear_arith)
            requires h <= -2, p >= 1;
    } else if h == 1 {
        assert(h * p == p);
    } else if h == -1 {
        assert(h * p == -p);
    } else {
        assert(h * p == 0);
    }
}

/// The characters of `s` that are ASCII digits or `.`, in order.
pub fn price_chars_of(s: &Vec<char>) -> (res: Vec<char>)
    ensures
        res@ == price_chars(s@),
{
    let mut out: Vec<char> = Vec::new();
    let mut i: usize = 0;
    while i < s.len()
        invariant
            i <= s.len(),
            out@ == price_chars(s@.take(i as int)),
        decreases s.len() - i,
    {
        assert(s@.take(i + 1).drop_last() =~= s@.take(i as int));
        assert(s@.take(i + 1).last() == s@[i as int]);
        if char_is_digit(s[i]) || s[i] == '.' {
            out.push(s[i]);
        }
        i += 1;
    }
    assert(s@.take(s.len() as int) =~= s@);
    out
}

/// The amount of a price text: its ASCII digits and dots, read as a decimal.
pub fn parse_price(text: &Vec<char>) -> (res: Option<Amount>)
    ensures
        match res {
            Some(a) => price_value(text@) == Some(a@),
            None => price_value(text@) is None,
        },
{
    let cleaned = price_chars_of(text);
    Amount::read_decimal(&cleaned)
}

/// The order of amounts is total and reflexive: of two amounts one is at most
/// the other, and an amount is at most itself and never more than a
/// hundredth away from itself.
pub proof fn lemma_amount_order(a: (nat, nat), b: (nat, nat))
    ensures
        amount_le(a, b) || amount_le(b, a),
        amount_le(a, a),
        !amount_far(a, a),
{
}

/// Writing an amount with more decimal places does not change its order:
/// `m / 10^s` and `m * 10^k / 10^(s + k)` compare alike with any amount.
pub proof fn lemma_amount_scale_invariant(a: (nat, nat), k: nat, b: (nat, nat))
    ensures
        amount_le(a, b) == amount_le((a.0 * pow10(k), a.1 + k), b),
        amount_le(b, a) == amount_le(b, (a.0 * pow10(k), a.1 + k)),
{
    let a2 = (a.0 * pow10(k), a.1 + k);
    let s1 = common_scale(a, b);
    let s2 = common_scale(a2, b);
    lemma_pow10_add((s2 - a2.1) as nat, k);
    lemma_pow10_split(s1, s2, a.1, b.1);
    lemma_pow10_mono(0, (s2 - s1) as nat);
    let f = pow10((s2 - s1) as nat);
    assert(at_scale(a2, s2) == at_scale(a, s1) * f) by {
        assert(pow10((s2 - a.1) as nat) == pow10(k) * pow10((s2 - a2.1) as nat));
        assert(pow10((s2 - a.1) as nat) == pow10((s1 - a.1) as nat) * f);
        assert(at_scale(a2, s2) == a.0 * pow10(k) * pow10((s2 - a2.1) as nat));
        assert(a.0 * pow10(k) * pow10((s2 - a2.1) as nat) == a.0 * (pow10(k) * pow10((s2 - a2.1) as nat))) by (nonlinear_arith);
        assert(a.0 * (pow10((s1 - a.1) as nat) * f) == a.0 * pow10((s1 - a.1) as nat) * f) by (nonlinear_arith);
    }
    assert(at_scale(b, s2) == at_scale(b, s1) * f) by {
        assert(pow10((s2 - b.1) as nat) == pow10((s1 - b.1) as nat) * f);
        assert(b.0 * (pow10((s1 - b.1) as nat) * f) == b.0 * pow10((s1 - b.1) as nat) * f) by (nonlinear_arith);
    }
    let x = at_scale(a, s1);
    let y = at_scale(b, s1);
    assert((x <= y) == (x * f <= y * f)) by (nonlinear_arith)
        requires f >= 1;
    assert((y <= x) == (y * f <= x * f)) by (nonlinear_arith)
        requires f >= 1;
}

proof fn lemma_pow10_add(a: nat, b: nat)
    ensures
        pow10(a + b) == pow10(b) * pow10(a),
    decreases a,
{
    if a > 0 {
        lemma_pow10_add((a - 1) as nat, b);
        assert(pow10(a + b) == 10 * pow10((a - 1 + b) as nat));
        assert(pow10(a) == 10 * pow10((a - 1) as nat));
        assert(10 * (pow10(b) * pow10((a - 1) as nat)) == pow10(b) * (10 * pow10((a - 1) as nat))) by (nonlinear_arith);
    } else {
        assert(pow10(a) == 1);
        assert(a + b == b);
        assert(pow10(b) * 1 == pow10(b));
    }
}

proof fn lemma_pow10_split(s1: nat, s2: nat, sa: nat, sb: nat)
    requires
        s1 == (if sa >= sb { sa } else { sb }),
        s2 >= s1,
    ensures
        pow10((s2 - sa) as nat) == pow10((s1 - sa) as nat) * pow10((s2 - s1) as nat),
        pow10((s2 - sb) as nat) == pow10((s1 - sb) as nat) * pow10((s2 - s1) as nat),
{
    lemma_pow10_add((s1 - sa) as nat, (s2 - s1) as nat);
    lemma_pow10_add((s1 - sb) as nat, (s2 - s1) as nat);
    assert(pow10((s2 - s1) as nat) * pow10((s1 - sa) as nat) == pow10((s1 - sa) as nat) * pow10((s2 - s1) as nat)) by (nonlinear_arith);
    assert(pow10((s2 - s1) as nat) * pow10((s1 - sb) as nat) == pow10((s1 - sb) as nat) * pow10((s2 - s1) as nat)) by (nonlinear_arith);
}

} // verus!
