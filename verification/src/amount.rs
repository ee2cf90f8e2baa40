//! Monetary amounts: a decimal number held as the mantissa and the scale that
//! `rust_decimal::Decimal` is made of. The arithmetic is rust_decimal's own.

use rust_decimal::Decimal;
use vstd::prelude::*;
use vstd::std_specs::cmp::PartialEqSpecImpl;

verus! {

/// The largest mantissa a decimal can hold (96 bits).
pub const MAX_MANTISSA: i128 = 79_228_162_514_264_337_593_543_950_335;

/// The largest scale a decimal can hold.
pub const MAX_SCALE: u32 = 28;

/// Ten to the power `n`.
pub open spec fn pow10(n: nat) -> int
    decreases n,
{
    if n == 0 {
        1
    } else {
        10 * pow10((n - 1) as nat)
    }
}

/// Whether a mantissa and a scale describe a decimal.
pub open spec fn parts_in_range(mantissa: int, scale: int) -> bool {
    -MAX_MANTISSA <= mantissa <= MAX_MANTISSA && 0 <= scale <= MAX_SCALE
}

/// The mantissa `m` of scale `s` written at the larger scale `to`.
pub open spec fn aligned(m: int, s: int, to: int) -> int {
    m * pow10((to - s) as nat)
}

pub open spec fn max_scale(a: int, b: int) -> int {
    if a >= b {
        a
    } else {
        b
    }
}

/// Whether `x`, `y` and `x + sign * y` all fit in a mantissa.
pub open spec fn fits3(x: int, y: int, z: int) -> bool {
    -MAX_MANTISSA <= x <= MAX_MANTISSA && -MAX_MANTISSA <= y <= MAX_MANTISSA && -MAX_MANTISSA
        <= z <= MAX_MANTISSA
}

/// What `Decimal::checked_add` returns for two decimals given by their parts.
pub uninterp spec fn decimal_checked_add(a_mantissa: i128, a_scale: u32, b_mantissa: i128, b_scale: u32) -> Option<(i128, u32)>;

/// What `Decimal::checked_sub` returns for two decimals given by their parts.
pub uninterp spec fn decimal_checked_sub(a_mantissa: i128, a_scale: u32, b_mantissa: i128, b_scale: u32) -> Option<(i128, u32)>;

/// Whether rust_decimal computes `a + b` (or `a - b` when `negate`) exactly:
/// when an operand is zero, or when the operands aligned to the larger of the
/// two scales, and their sum, fit in a mantissa.
pub open spec fn exact_case(am: i128, ascale: u32, bm: i128, bscale: u32, negate: bool) -> bool {
    let s = max_scale(ascale as int, bscale as int);
    let x = aligned(am as int, ascale as int, s);
    let y = aligned(bm as int, bscale as int, s);
    am == 0 || bm == 0 || fits3(x, y, if negate { x - y } else { x + y })
}

/// The exact parts of `a + b` (or `a - b` when `negate`) in the case above:
/// the other operand (negated for `0 - b`) where one is zero, else the aligned
/// sum at the larger scale.
pub open spec fn exact_parts(am: i128, ascale: u32, bm: i128, bscale: u32, negate: bool) -> (i128, u32) {
    let s = max_scale(ascale as int, bscale as int);
    let x = aligned(am as int, ascale as int, s);
    let y = aligned(bm as int, bscale as int, s);
    if am == 0 {
        (if negate { (-bm) as i128 } else { bm }, bscale)
    } else if bm == 0 {
        (am, ascale)
    } else {
        ((if negate { x - y } else { x + y }) as i128, s as u32)
    }
}

/// The parts of `a + b`: exact in the exact case, rust_decimal's result otherwise.
pub open spec fn add_parts(am: i128, ascale: u32, bm: i128, bscale: u32) -> Option<(i128, u32)> {
    if exact_case(am, ascale, bm, bscale, false) {
        Some(exact_parts(am, ascale, bm, bscale, false))
    } else {
        decimal_checked_add(am, ascale, bm, bscale)
    }
}

/// The parts of `a - b`: exact in the exact case, rust_decimal's result otherwise.
pub open spec fn sub_parts(am: i128, ascale: u32, bm: i128, bscale: u32) -> Option<(i128, u32)> {
    if exact_case(am, ascale, bm, bscale, true) {
        Some(exact_parts(am, ascale, bm, bscale, true))
    } else {
        decimal_checked_sub(am, ascale, bm, bscale)
    }
}

/// `n / d` rounded to the nearest integer, a midpoint to the even one.
pub open spec fn div_round_half_even(n: int, d: int) -> int {
    let q = n / d;
    let r = n % d;
    if 2 * r > d || (2 * r == d && q % 2 == 1) {
        q + 1
    } else {
        q
    }
}

/// The parts of a decimal rounded to `dp` places: unchanged where it has no
/// more places than that; otherwise the magnitude of the mantissa divided by
/// ten to the number of places dropped, rounded half to even, with the sign
/// kept, at scale `dp`.
pub open spec fn round_parts(m: i128, s: u32, dp: u32) -> (i128, u32) {
    if s <= dp {
        (m, s)
    } else {
        let q = div_round_half_even(if m < 0 { -m } else { m as int }, pow10((s - dp) as nat));
        ((if m < 0 { -q } else { q }) as i128, dp)
    }
}

/// `Decimal::checked_add` on the decimals with the given parts.
/// Claims: in the exact case the result is the exact sum; otherwise it is the
/// named result; any decimal it returns has parts in range. rust_decimal adds exactly (at the larger scale) when
/// the aligned operands and their sum fit in 96 bits, returns the other
/// operand when one is zero, and rounds or reports overflow otherwise.
#[verifier::external_body]
fn decimal_add(am: i128, ascale: u32, bm: i128, bscale: u32) -> (r: Option<(i128, u32)>)
    requires
        parts_in_range(am as int, ascale as int),
        parts_in_range(bm as int, bscale as int),
    ensures
        exact_case(am, ascale, bm, bscale, false) ==> r == Some(exact_parts(am, ascale, bm, bscale, false)),
        !exact_case(am, ascale, bm, bscale, false) ==> r == decimal_checked_add(am, ascale, bm, bscale),
        r matches Some((m, s)) ==> parts_in_range(m as int, s as int),
{
    let a = Decimal::from_i128_with_scale(am, ascale);
    let b = Decimal::from_i128_with_scale(bm, bscale);
    match a.checked_add(b) {
        Some(d) => Some((d.mantissa(), d.scale())),
        None => None,
    }
}

/// `Decimal::checked_sub` on the decimals with the given parts.
/// Claims: as for `decimal_add`, with the difference in place of the sum; any decimal it returns
/// has parts in range (subtraction is addition of the negated operand).
#[verifier::external_body]
fn decimal_sub(am: i128, ascale: u32, bm: i128, bscale: u32) -> (r: Option<(i128, u32)>)
    requires
        parts_in_range(am as int, ascale as int),
        parts_in_range(bm as int, bscale as int),
    ensures
        exact_case(am, ascale, bm, bscale, true) ==> r == Some(exact_parts(am, ascale, bm, bscale, true)),
        !exact_case(am, ascale, bm, bscale, true) ==> r == decimal_checked_sub(am, ascale, bm, bscale),
        r matches Some((m, s)) ==> parts_in_range(m as int, s as int),
{
    let a = Decimal::from_i128_with_scale(am, ascale);
    let b = Decimal::from_i128_with_scale(bm, bscale);
    match a.checked_sub(b) {
        Some(d) => Some((d.mantissa(), d.scale())),
        None => None,
    }
}

/// `Decimal::round_dp` on the decimal with the given parts.
/// Claims: the decimal itself when it has at most `dp` places; otherwise the
/// magnitude divided by ten to the number of places dropped, rounded half to
/// even, with the sign kept, at scale `dp` (zero for a zero).
#[verifier::external_body]
fn decimal_round(m: i128, s: u32, dp: u32) -> (r: (i128, u32))
    requires
        parts_in_range(m as int, s as int),
    ensures
        r == round_parts(m, s, dp),
{
    let d = Decimal::from_i128_with_scale(m, s).round_dp(dp);
    (d.mantissa(), d.scale())
}

/// `<` on the decimals with the given parts.
/// Claims: decimals are ordered by their numeric value.
#[verifier::external_body]
fn decimal_lt(am: i128, ascale: u32, bm: i128, bscale: u32) -> (r: bool)
    requires
        parts_in_range(am as int, ascale as int),
        parts_in_range(bm as int, bscale as int),
    ensures
        r == (am * pow10((MAX_SCALE - ascale) as nat) < bm * pow10((MAX_SCALE - bscale) as nat)),
{
    Decimal::from_i128_with_scale(am, ascale) < Decimal::from_i128_with_scale(bm, bscale)
}

/// `<=` on the decimals with the given parts.
/// Claims: decimals are ordered by their numeric value.
#[verifier::external_body]
fn decimal_le(am: i128, ascale: u32, bm: i128, bscale: u32) -> (r: bool)
    requires
        parts_in_range(am as int, ascale as int),
        parts_in_range(bm as int, bscale as int),
    ensures
        r == (am * pow10((MAX_SCALE - ascale) as nat) <= bm * pow10((MAX_SCALE - bscale) as nat)),
{
    Decimal::from_i128_with_scale(am, ascale) <= Decimal::from_i128_with_scale(bm, bscale)
}

/// `==` on the decimals with the given parts.
/// Claims: decimals are equal when their numeric values are.
#[verifier::external_body]
fn decimal_eq(am: i128, ascale: u32, bm: i128, bscale: u32) -> (r: bool)
    requires
        parts_in_range(am as int, ascale as int),
        parts_in_range(bm as int, bscale as int),
    ensures
        r == (am * pow10((MAX_SCALE - ascale) as nat) == bm * pow10((MAX_SCALE - bscale) as nat)),
{
    Decimal::from_i128_with_scale(am, ascale) == Decimal::from_i128_with_scale(bm, bscale)
}

/// A decimal amount of money.
#[derive(Clone, Copy, Debug)]
pub struct Amount {
    mantissa: i128,
    scale: u32,
}

impl Amount {
    #[verifier::type_invariant]
    spec fn well_formed(self) -> bool {
        parts_in_range(self.mantissa as int, self.scale as int)
    }

    /// The mantissa.
    pub closed spec fn spec_mantissa(self) -> i128 {
        self.mantissa
    }

    /// The scale: the number of decimal places.
    pub closed spec fn spec_scale(self) -> u32 {
        self.scale
    }

    /// The mantissa and scale describe a decimal (every amount held by
    /// executable code does).
    pub open spec fn wf(self) -> bool {
        parts_in_range(self.spec_mantissa() as int, self.spec_scale() as int)
    }

    /// The amount in units of 10^-28, the finest a decimal can express.
    pub open spec fn value(self) -> int {
        self.spec_mantissa() * pow10((MAX_SCALE - self.spec_scale()) as nat)
    }

    /// Zero, at scale zero.
    pub closed spec fn spec_zero() -> Amount {
        Amount { mantissa: 0, scale: 0 }
    }

    /// Zero is a well-formed amount of value zero: mantissa zero, scale zero.
    pub proof fn lemma_zero_value()
        ensures
            Amount::spec_zero().spec_mantissa() == 0,
            Amount::spec_zero().spec_scale() == 0,
            Amount::spec_zero().wf(),
            Amount::spec_zero().value() == 0,
    {
    }

    /// The amount with mantissa `p.0` and scale `p.1`.
    pub closed spec fn from_spec_parts(p: (i128, u32)) -> Amount {
        Amount { mantissa: p.0, scale: p.1 }
    }

    /// `self + other` as rust_decimal computes it; `None` on overflow.
    pub open spec fn spec_checked_add(self, other: Amount) -> Option<Amount> {
        match add_parts(self.spec_mantissa(), self.spec_scale(), other.spec_mantissa(), other.spec_scale()) {
            Some(p) => Some(Amount::from_spec_parts(p)),
            None => None,
        }
    }

    /// `self - other` as rust_decimal computes it; `None` on overflow.
    pub open spec fn spec_checked_sub(self, other: Amount) -> Option<Amount> {
        match sub_parts(self.spec_mantissa(), self.spec_scale(), other.spec_mantissa(), other.spec_scale()) {
            Some(p) => Some(Amount::from_spec_parts(p)),
            None => None,
        }
    }

    /// `self` rounded to `dp` decimal places as rust_decimal rounds.
    pub open spec fn spec_round_dp(self, dp: u32) -> Amount {
        Amount::from_spec_parts(round_parts(self.spec_mantissa(), self.spec_scale(), dp))
    }

    /// The amount with the given mantissa and scale, if they describe a decimal.
    pub fn from_parts(mantissa: i128, scale: u32) -> (r: Option<Amount>)
        ensures
            r is Some <==> parts_in_range(mantissa as int, scale as int),
            r matches Some(a) ==> a.spec_mantissa() == mantissa && a.spec_scale() == scale,
    {
        if -MAX_MANTISSA <= mantissa && mantissa <= MAX_MANTISSA && scale <= MAX_SCALE {
            Some(Amount { mantissa, scale })
        } else {
            None
        }
    }

    /// Zero.
    pub fn zero() -> (r: Amount)
        ensures
            r == Amount::spec_zero(),
            r.value() == 0,
            r.wf(),
    {
        Amount { mantissa: 0, scale: 0 }
    }

    pub fn mantissa(&self) -> (r: i128)
        ensures
            r == self.spec_mantissa(),
            parts_in_range(r as int, self.spec_scale() as int),
    {
        proof {
            use_type_invariant(self);
        }
        self.mantissa
    }

    pub fn scale(&self) -> (r: u32)
        ensures
            r == self.spec_scale(),
            parts_in_range(self.spec_mantissa() as int, r as int),
    {
        proof {
            use_type_invariant(self);
        }
        self.scale
    }

    /// `self + other`; `None` where the sum overflows a decimal.
    pub fn checked_add(&self, other: &Amount) -> (r: Option<Amount>)
        ensures
            r == self.spec_checked_add(*other),
            r matches Some(x) ==> x.wf(),
    {
        proof {
            use_type_invariant(self);
            use_type_invariant(other);
        }
        match decimal_add(self.mantissa, self.scale, other.mantissa, other.scale) {
            Some((m, s)) => Some(Amount { mantissa: m, scale: s }),
            None => None,
        }
    }

    /// `self - other`; `None` where the difference overflows a decimal.
    pub fn checked_sub(&self, other: &Amount) -> (r: Option<Amount>)
        ensures
            r == self.spec_checked_sub(*other),
            r matches Some(x) ==> x.wf(),
    {
        proof {
            use_type_invariant(self);
            use_type_invariant(other);
        }
        match decimal_sub(self.mantissa, self.scale, other.mantissa, other.scale) {
            Some((m, s)) => Some(Amount { mantissa: m, scale: s }),
            None => None,
        }
    }

    /// `self < other` by value.
    pub fn lt(&self, other: &Amount) -> (r: bool)
        ensures
            r == (self.value() < other.value()),
            self.wf(),
            other.wf(),
    {
        proof {
            use_type_invariant(self);
            use_type_invariant(other);
        }
        decimal_lt(self.mantissa, self.scale, other.mantissa, other.scale)
    }

    /// `self <= other` by value.
    pub fn le(&self, other: &Amount) -> (r: bool)
        ensures
            r == (self.value() <= other.value()),
            self.wf(),
            other.wf(),
    {
        proof {
            use_type_invariant(self);
            use_type_invariant(other);
        }
        decimal_le(self.mantissa, self.scale, other.mantissa, other.scale)
    }

    /// `self` rounded to `dp` decimal places (midpoints to even).
    pub fn round_dp(&self, dp: u32) -> (r: Amount)
        ensures
            r == self.spec_round_dp(dp),
            r.wf(),
    {
        proof {
            use_type_invariant(self);
        }
        proof {
            lemma_round_parts_in_range(self.mantissa, self.scale, dp);
        }
        let (m, s) = decimal_round(self.mantissa, self.scale, dp);
        Amount { mantissa: m, scale: s }
    }
}

/// The amount made from a mantissa and a scale has that mantissa and scale.
pub broadcast proof fn lemma_amount_from_parts(p: (i128, u32))
    ensures
        (#[trigger] Amount::from_spec_parts(p)).spec_mantissa() == p.0,
        Amount::from_spec_parts(p).spec_scale() == p.1,
{
}

/// An amount is the amount made from its own mantissa and scale.
pub broadcast proof fn lemma_amount_parts_determine(a: Amount)
    ensures
        #[trigger] Amount::from_spec_parts((a.spec_mantissa(), a.spec_scale())) == a,
{
}

/// An amount's value has the sign of its mantissa.
pub broadcast proof fn lemma_amount_value_sign(a: Amount)
    ensures
        (#[trigger] a.value() > 0) <==> a.spec_mantissa() > 0,
        a.value() == 0 <==> a.spec_mantissa() == 0,
        a.value() < 0 <==> a.spec_mantissa() < 0,
{
    let p = pow10((MAX_SCALE - a.spec_scale()) as nat);
    lemma_pow10_positive((MAX_SCALE - a.spec_scale()) as nat);
    let m = a.spec_mantissa() as int;
    assert((m > 0 <==> m * p > 0) && (m == 0 <==> m * p == 0) && (m < 0 <==> m * p < 0)) by (nonlinear_arith)
        requires
            p > 0,
    ;
}

pub broadcast group group_amount_parts {
    lemma_amount_from_parts,
    lemma_amount_parts_determine,
    lemma_amount_value_sign,
}

/// Ten to any power is positive.
proof fn lemma_pow10_positive(k: nat)
    ensures
        pow10(k) > 0,
    decreases k,
{
    if k > 0 {
        lemma_pow10_positive((k - 1) as nat);
    }
}

/// Ten to a positive power is at least ten.
proof fn lemma_pow10_at_least_10(k: nat)
    requires
        k >= 1,
    ensures
        pow10(k) >= 10,
    decreases k,
{
    if k > 1 {
        lemma_pow10_at_least_10((k - 1) as nat);
    } else {
        assert(pow10(0) == 1);
    }
}

/// Rounding a decimal gives a decimal.
pub proof fn lemma_round_parts_in_range(m: i128, s: u32, dp: u32)
    requires
        parts_in_range(m as int, s as int),
    ensures
        parts_in_range(round_parts(m, s, dp).0 as int, round_parts(m, s, dp).1 as int),
{
    if s > dp {
        let n: int = if m < 0 { -m } else { m as int };
        let d = pow10((s - dp) as nat);
        lemma_pow10_at_least_10((s - dp) as nat);
        let q = n / d;
        let r = n % d;
        assert(0 <= q && q * d <= n && q * d + r == n && 0 <= r < d) by (nonlinear_arith)
            requires
                0 <= n,
                d >= 10,
                q == n / d,
                r == n % d,
        ;
        assert(q + 1 <= n || n == 0) by (nonlinear_arith)
            requires
                0 <= q,
                q * d <= n,
                d >= 10,
        ;
        if n == 0 {
            assert(q == 0 && r == 0) by (nonlinear_arith)
                requires
                    q * d + r == 0,
                    0 <= q,
                    0 <= r,
                    d >= 10,
            ;
        }
        let v = div_round_half_even(n, d);
        assert(0 <= v <= MAX_MANTISSA);
    }
}

proof fn lemma_pow10_add(a: nat, b: nat)
    ensures
        pow10(a + b) == pow10(a) * pow10(b),
    decreases a,
{
    if a > 0 {
        lemma_pow10_add((a - 1) as nat, b);
        assert(pow10(a + b) == 10 * pow10((a - 1 + b) as nat));
        assert(10 * (pow10((a - 1) as nat) * pow10(b)) == (10 * pow10((a - 1) as nat)) * pow10(b))
            by (nonlinear_arith);
    }
}

/// A mantissa aligned to a larger scale keeps its value.
proof fn lemma_aligned_value(m: int, s: int, to: int)
    requires
        0 <= s <= to <= MAX_SCALE,
    ensures
        aligned(m, s, to) * pow10((MAX_SCALE - to) as nat) == m * pow10((MAX_SCALE - s) as nat),
{
    let p = pow10((to - s) as nat);
    let q = pow10((MAX_SCALE - to) as nat);
    lemma_pow10_add((to - s) as nat, (MAX_SCALE - to) as nat);
    assert(((to - s) as nat + (MAX_SCALE - to) as nat) as nat == (MAX_SCALE - s) as nat);
    assert((m * p) * q == m * (p * q)) by (nonlinear_arith);
}

/// In the exact case the parts of `a + b` (or `a - b`) hold the exact value.
pub proof fn lemma_exact_parts_value(am: i128, ascale: u32, bm: i128, bscale: u32, negate: bool)
    requires
        parts_in_range(am as int, ascale as int),
        parts_in_range(bm as int, bscale as int),
        exact_case(am, ascale, bm, bscale, negate),
    ensures
        ({
            let p = exact_parts(am, ascale, bm, bscale, negate);
            let a = am * pow10((MAX_SCALE - ascale) as nat);
            let b = bm * pow10((MAX_SCALE - bscale) as nat);
            &&& parts_in_range(p.0 as int, p.1 as int)
            &&& negate ==> p.0 * pow10((MAX_SCALE - p.1) as nat) == a - b
            &&& !negate ==> p.0 * pow10((MAX_SCALE - p.1) as nat) == a + b
        }),
{
    let s = max_scale(ascale as int, bscale as int);
    let x = aligned(am as int, ascale as int, s);
    let y = aligned(bm as int, bscale as int, s);
    let q = pow10((MAX_SCALE - s) as nat);
    let pa = pow10((MAX_SCALE - ascale) as nat);
    let pb = pow10((MAX_SCALE - bscale) as nat);
    if am == 0 {
        assert(am * pa == 0);
        assert((-bm) * pb == -(bm * pb)) by (nonlinear_arith);
    } else if bm == 0 {
        assert(bm * pb == 0);
    } else {
        lemma_aligned_value(am as int, ascale as int, s);
        lemma_aligned_value(bm as int, bscale as int, s);
        if negate {
            assert((x - y) * q == x * q - y * q) by (nonlinear_arith);
        } else {
            assert((x + y) * q == x * q + y * q) by (nonlinear_arith);
        }
    }
}

impl Amount {
    /// Where rust_decimal adds `self` and `other` exactly.
    pub open spec fn add_is_exact_case(self, other: Amount) -> bool {
        exact_case(self.spec_mantissa(), self.spec_scale(), other.spec_mantissa(), other.spec_scale(), false)
    }

    /// Where rust_decimal subtracts `other` from `self` exactly.
    pub open spec fn sub_is_exact_case(self, other: Amount) -> bool {
        exact_case(self.spec_mantissa(), self.spec_scale(), other.spec_mantissa(), other.spec_scale(), true)
    }

    /// In the exact case, `checked_add` gives the exact sum.
    pub proof fn lemma_add_exact(self, other: Amount)
        requires
            self.wf(),
            other.wf(),
            self.add_is_exact_case(other),
        ensures
            self.spec_checked_add(other) matches Some(r) && r.wf() && r.value() == self.value() + other.value(),
    {
        lemma_exact_parts_value(self.spec_mantissa(), self.spec_scale(), other.spec_mantissa(), other.spec_scale(), false);
    }

    /// In the exact case, `checked_sub` gives the exact difference.
    pub proof fn lemma_sub_exact(self, other: Amount)
        requires
            self.wf(),
            other.wf(),
            self.sub_is_exact_case(other),
        ensures
            self.spec_checked_sub(other) matches Some(r) && r.wf() && r.value() == self.value() - other.value(),
    {
        lemma_exact_parts_value(self.spec_mantissa(), self.spec_scale(), other.spec_mantissa(), other.spec_scale(), true);
    }
}

impl Amount {
    /// Taking `other` away exactly and adding it back is exact too, and
    /// gives back the value of `self`.
    pub proof fn lemma_sub_then_add(self, other: Amount)
        requires
            self.wf(),
            other.wf(),
            self.sub_is_exact_case(other),
        ensures
            self.spec_checked_sub(other) is Some,
            self.spec_checked_sub(other).unwrap().add_is_exact_case(other),
            self.spec_checked_sub(other).unwrap().spec_checked_add(other) is Some,
            self.spec_checked_sub(other).unwrap().spec_checked_add(other).unwrap().wf(),
            self.spec_checked_sub(other).unwrap().spec_checked_add(other).unwrap().value() == self.value(),
    {
        self.lemma_sub_exact(other);
        let d = self.spec_checked_sub(other).unwrap();
        let (am, asc, bm, bsc) = (self.spec_mantissa(), self.spec_scale(), other.spec_mantissa(), other.spec_scale());
        if am != 0 && bm != 0 && d.spec_mantissa() != 0 {
            let s = max_scale(asc as int, bsc as int);
            assert(pow10(0) == 1);
            assert(aligned(d.spec_mantissa() as int, s, s) == d.spec_mantissa());
        }
        d.lemma_add_exact(other);
    }

    /// Adding `other` exactly and taking it away again is exact too, and
    /// gives back the value of `self`.
    pub proof fn lemma_add_then_sub(self, other: Amount)
        requires
            self.wf(),
            other.wf(),
            self.add_is_exact_case(other),
        ensures
            self.spec_checked_add(other) is Some,
            self.spec_checked_add(other).unwrap().sub_is_exact_case(other),
            self.spec_checked_add(other).unwrap().spec_checked_sub(other) is Some,
            self.spec_checked_add(other).unwrap().spec_checked_sub(other).unwrap().wf(),
            self.spec_checked_add(other).unwrap().spec_checked_sub(other).unwrap().value() == self.value(),
    {
        self.lemma_add_exact(other);
        let d = self.spec_checked_add(other).unwrap();
        let (am, asc, bm, bsc) = (self.spec_mantissa(), self.spec_scale(), other.spec_mantissa(), other.spec_scale());
        if am != 0 && bm != 0 && d.spec_mantissa() != 0 {
            let s = max_scale(asc as int, bsc as int);
            assert(pow10(0) == 1);
            assert(aligned(d.spec_mantissa() as int, s, s) == d.spec_mantissa());
        }
        d.lemma_sub_exact(other);
    }
}

/// Amounts are equal when their values are (`1.5` equals `1.50`).
impl PartialEq for Amount {
    fn eq(&self, other: &Amount) -> (r: bool) {
        proof {
            use_type_invariant(self);
            use_type_invariant(other);
        }
        decimal_eq(self.mantissa, self.scale, other.mantissa, other.scale)
    }
}

impl PartialEqSpecImpl for Amount {
    open spec fn obeys_eq_spec() -> bool {
        true
    }

    open spec fn eq_spec(&self, other: &Amount) -> bool {
        self.value() == other.value()
    }
}

impl Eq for Amount {
}

} // verus!
