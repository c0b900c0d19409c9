//! Fixed-point decimal numbers, held as the parts of a `rust_decimal::Decimal`.
//!
//! A `Dec` holds exactly what a `Decimal` holds: a 96-bit magnitude split into
//! three 32-bit words, a sign flag and a scale between 0 and 28.  Its value is
//! `±magnitude / 10^scale`; in contracts it is measured by `units()`, the value
//! multiplied by 10^28, which is always an integer.
//!
//! Every arithmetic operation is performed by `rust_decimal` itself; the
//! functions of this module convert to and from `Decimal` around one call.
use vstd::prelude::*;
use rust_decimal::Decimal;
use rust_decimal::MathematicalOps;

verus! {

#[verifier::external_type_specification]
#[verifier::external_body]
pub struct ExDecimal(Decimal);

/// 10 to the power `n`.
pub open spec fn pow10(n: nat) -> nat
    decreases n,
{
    if n == 0 {
        1
    } else {
        10 * pow10((n - 1) as nat)
    }
}

/// 2^96, the bound on a decimal's magnitude.
pub open spec fn two_pow_96() -> nat {
    0x1_0000_0000_0000_0000_0000_0000
}

/// The largest scale a decimal can have.
pub open spec fn max_scale() -> nat {
    28
}

/// The larger of two naturals.
pub open spec fn max_nat(a: nat, b: nat) -> nat {
    if a >= b {
        a
    } else {
        b
    }
}

/// Whether an amount measured in units of 10^-28 can be held exactly by a
/// decimal with the given scale.
pub open spec fn fits_at_scale(units: int, scale: nat) -> bool {
    &&& scale <= max_scale()
    &&& -(two_pow_96() * pow10((max_scale() - scale) as nat)) < units
    &&& units < two_pow_96() * pow10((max_scale() - scale) as nat)
}

/// A decimal number `±(hi·2^64 + mid·2^32 + lo) / 10^scale`, with scale at most 28.
#[derive(Clone, Copy, Debug)]
pub struct Dec {
    lo: u32,
    mid: u32,
    hi: u32,
    negative: bool,
    scale: u32,
}

/// What `rust_decimal` computes for `a + b`: `None` where `checked_add` overflows.
pub uninterp spec fn decimal_add(a: Dec, b: Dec) -> Option<Dec>;

/// What `rust_decimal` computes for `a - b`: `None` where `checked_sub` overflows.
pub uninterp spec fn decimal_sub(a: Dec, b: Dec) -> Option<Dec>;

/// What `rust_decimal` computes for `a * b`: `None` where `checked_mul` overflows.
pub uninterp spec fn decimal_mul(a: Dec, b: Dec) -> Option<Dec>;

/// What `rust_decimal` computes for `a / b`: `None` where `checked_div` fails.
pub uninterp spec fn decimal_div(a: Dec, b: Dec) -> Option<Dec>;


/// What `rust_decimal` computes for `a.checked_powu(exp)`.
pub uninterp spec fn decimal_powu(a: Dec, exp: u64) -> Option<Dec>;

/// What `rust_decimal` computes for `a.checked_sin()`.
pub uninterp spec fn decimal_sin(a: Dec) -> Option<Dec>;

/// What `rust_decimal` computes for `a.checked_cos()`.
pub uninterp spec fn decimal_cos(a: Dec) -> Option<Dec>;

/// What `rust_decimal` computes for `a.sqrt()`.
pub uninterp spec fn decimal_sqrt(a: Dec) -> Option<Dec>;

/// The text that `Decimal`'s `Display` writes for `a`.
pub uninterp spec fn decimal_text(a: Dec) -> Seq<char>;

/// The quotient `q` of a magnitude by `10^d`, rounded half to even by its
/// remainder.
pub open spec fn round_half_even(q: nat, rem: nat, d: nat) -> nat {
    let half = 5 * pow10((d - 1) as nat);
    if rem > half || (rem == half && q % 2 == 1) {
        q + 1
    } else {
        q
    }
}

/// `Decimal::round_dp`: a decimal with at most `dp` places is kept as it is;
/// otherwise its magnitude is divided by `10^(scale - dp)` and rounded half
/// to even, at scale `dp`, keeping the sign where the result is not zero (a
/// zero keeps its sign flag).
pub closed spec fn decimal_round_dp(a: Dec, dp: u32) -> Dec {
    if a.scale <= dp {
        a
    } else if a.mag() == 0 {
        Dec { lo: 0, mid: 0, hi: 0, negative: a.negative, scale: dp }
    } else {
        let d = (a.scale - dp) as nat;
        let q = round_half_even(a.mag() / pow10(d), a.mag() % pow10(d), d);
        Dec {
            lo: (q % 0x1_0000_0000) as u32,
            mid: ((q / 0x1_0000_0000) % 0x1_0000_0000) as u32,
            hi: (q / 0x1_0000_0000_0000_0000) as u32,
            negative: a.negative && q != 0,
            scale: dp,
        }
    }
}

impl Dec {
    #[verifier::type_invariant]
    spec fn scale_in_range(self) -> bool {
        self.scale <= 28
    }

    /// The magnitude, `hi·2^64 + mid·2^32 + lo`.
    pub closed spec fn mag(self) -> nat {
        self.lo as nat + self.mid as nat * 0x1_0000_0000 + self.hi as nat * 0x1_0000_0000_0000_0000
    }

    /// The scale: the number of digits after the decimal point.
    pub closed spec fn scale_of(self) -> nat {
        self.scale as nat
    }

    /// The sign flag (a zero may carry it too).
    pub closed spec fn is_neg(self) -> bool {
        self.negative
    }

    /// The magnitude with the sign applied.
    pub open spec fn signed_mag(self) -> int {
        if self.is_neg() {
            -(self.mag() as int)
        } else {
            self.mag() as int
        }
    }

    /// The value multiplied by 10^28.
    pub open spec fn units(self) -> int {
        self.signed_mag() * pow10((max_scale() - self.scale_of()) as nat)
    }

    /// Whether the value is zero.
    pub open spec fn is_zero_value(self) -> bool {
        self.units() == 0
    }

    /// Every decimal has a magnitude below 2^96 and a scale of at most 28.
    pub proof fn lemma_bounds(self)
        ensures
            self.mag() < two_pow_96(),
            self.is_zero_value() <==> self.mag() == 0,
    {
        let p = pow10((max_scale() - self.scale_of()) as nat) as int;
        lemma_pow10_positive((max_scale() - self.scale_of()) as nat);
        let m = self.signed_mag();
        assert(m == 0 <==> self.mag() == 0);
        assert(m * p == 0 <==> m == 0) by (nonlinear_arith)
            requires
                p >= 1,
        ;
    }

    /// A decimal can be held at its own scale.
    pub proof fn lemma_fits_own_scale(self)
        requires
            self.scale_of() <= max_scale(),
        ensures
            fits_at_scale(self.units(), self.scale_of()),
    {
        self.lemma_bounds();
        let p = pow10((max_scale() - self.scale_of()) as nat) as int;
        lemma_pow10_positive((max_scale() - self.scale_of()) as nat);
        let m = self.mag() as int;
        let sm = self.signed_mag();
        assert(sm == m || sm == -m);
        assert(-(two_pow_96() * p) < sm * p < two_pow_96() * p) by (nonlinear_arith)
            requires
                0 <= m < two_pow_96(),
                p >= 1,
                sm == m || sm == -m,
        ;
    }

    /// The decimal that `Decimal::new(num, scale)` builds.
    pub closed spec fn spec_new(num: i64, scale: u32) -> Dec {
        let pos: nat = if num < 0 { (-num) as nat } else { num as nat };
        Dec {
            lo: (pos % 0x1_0000_0000) as u32,
            mid: (pos / 0x1_0000_0000) as u32,
            hi: 0,
            negative: num < 0,
            scale,
        }
    }

    /// The decimal `num / 10^scale`, as `Decimal::new` builds it.
    pub fn new(num: i64, scale: u32) -> (r: Dec)
        requires
            scale <= 28,
        ensures
            r == Dec::spec_new(num, scale),
            r.signed_mag() == num as int,
            r.scale_of() == scale as nat,
            r.is_neg() == (num < 0),
    {
        let pos: u64 = if num < 0 {
            (0i128 - num as i128) as u64
        } else {
            num as u64
        };
        let lo = (pos % 0x1_0000_0000) as u32;
        let mid = (pos / 0x1_0000_0000) as u32;
        Dec { lo, mid, hi: 0, negative: num < 0, scale }
    }

    /// The decimal with the given parts, as `Decimal::from_parts` builds it
    /// (a zero magnitude is never negative).
    pub fn from_parts(lo: u32, mid: u32, hi: u32, negative: bool, scale: u32) -> (r: Dec)
        requires
            scale <= 28,
        ensures
            r.mag() == lo as nat + mid as nat * 0x1_0000_0000 + hi as nat * 0x1_0000_0000_0000_0000,
            r.scale_of() == scale as nat,
            r.is_neg() == (negative && (lo != 0 || mid != 0 || hi != 0)),
    {
        let negative = negative && (lo != 0 || mid != 0 || hi != 0);
        Dec { lo, mid, hi, negative, scale }
    }

    /// The parts `(lo, mid, hi, negative, scale)` of the decimal.
    pub fn parts(&self) -> (r: (u32, u32, u32, bool, u32))
        ensures
            r.0 as nat + r.1 as nat * 0x1_0000_0000 + r.2 as nat * 0x1_0000_0000_0000_0000
                == self.mag(),
            r.3 == self.is_neg(),
            r.4 as nat == self.scale_of(),
            r.4 <= 28,
    {
        proof {
            use_type_invariant(self);
        }
        (self.lo, self.mid, self.hi, self.negative, self.scale)
    }

    /// The scale, `Decimal::scale`: the number of digits after the point, at most 28.
    pub fn scale(&self) -> (r: u32)
        ensures
            r as nat == self.scale_of(),
            r <= 28,
    {
        proof {
            use_type_invariant(self);
        }
        self.scale
    }

    /// The decimal that `Decimal::from(n)` builds for an unsigned integer.
    pub closed spec fn spec_from_u64(n: u64) -> Dec {
        Dec {
            lo: (n % 0x1_0000_0000) as u32,
            mid: (n / 0x1_0000_0000) as u32,
            hi: 0,
            negative: false,
            scale: 0,
        }
    }

    /// The decimal holding the integer `n`.
    pub fn from_u64(n: u64) -> (r: Dec)
        ensures
            r == Dec::spec_from_u64(n),
            r.signed_mag() == n as int,
            r.scale_of() == 0,
            r.units() == n as int * pow10(28),
    {
        let lo = (n % 0x1_0000_0000) as u32;
        let mid = (n / 0x1_0000_0000) as u32;
        Dec { lo, mid, hi: 0, negative: false, scale: 0 }
    }

    /// The decimal zero, `Decimal::ZERO`.
    pub closed spec fn spec_zero() -> Dec {
        Dec { lo: 0, mid: 0, hi: 0, negative: false, scale: 0 }
    }

    /// The decimal one, `Decimal::ONE`.
    pub closed spec fn spec_one() -> Dec {
        Dec { lo: 1, mid: 0, hi: 0, negative: false, scale: 0 }
    }

    /// Zero and one measured in units of 10^-28.
    pub proof fn lemma_zero_units()
        ensures
            Dec::spec_zero().units() == 0,
            Dec::spec_zero().is_zero_value(),
            Dec::spec_zero().scale_of() == 0,
            Dec::spec_zero().mag() == 0,
            !Dec::spec_zero().is_neg(),
            Dec::spec_one().units() == pow10(28),
    {
        assert(Dec::spec_zero().signed_mag() == 0);
        assert(Dec::spec_zero().units() == 0 * pow10(28));
        assert(Dec::spec_one().signed_mag() == 1);
    }

    /// The decimal zero.
    pub fn zero() -> (r: Dec)
        ensures
            r == Dec::spec_zero(),
            r.mag() == 0,
            r.scale_of() == 0,
            !r.is_neg(),
            r.units() == 0,
    {
        let r = Dec { lo: 0, mid: 0, hi: 0, negative: false, scale: 0 };
        assert(r.signed_mag() == 0);
        assert(r.units() == 0 * pow10(28));
        r
    }

    /// The decimal one.
    pub fn one() -> (r: Dec)
        ensures
            r == Dec::spec_one(),
            r.mag() == 1,
            r.scale_of() == 0,
            !r.is_neg(),
            r.units() == pow10(28),
    {
        let r = Dec { lo: 1, mid: 0, hi: 0, negative: false, scale: 0 };
        assert(r.signed_mag() == 1);
        assert((max_scale() - r.scale_of()) as nat == 28);
        r
    }

    /// The `Decimal` that holds the same parts.
    #[verifier::external_body]
    fn to_decimal(&self) -> Decimal {
        let mut d = Decimal::from_parts(self.lo, self.mid, self.hi, self.negative, self.scale);
        d.set_sign_negative(self.negative);
        d
    }

    /// The parts of a `Decimal`.
    #[verifier::external_body]
    fn of_decimal(d: Decimal) -> Dec {
        let u = d.unpack();
        Dec { lo: u.lo, mid: u.mid, hi: u.hi, negative: u.negative, scale: u.scale }
    }

    /// `Decimal::checked_add`.  Wherever the sum can be held at the larger of
    /// the two scales it is exact, at a scale no larger than that one (an
    /// operand added to zero comes back as it is).
    #[verifier::external_body]
    pub(crate) fn checked_add(&self, other: &Dec) -> (r: Option<Dec>)
        ensures
            r == decimal_add(*self, *other),
            r is None ==> !fits_at_scale(self.units() + other.units(), max_nat(self.scale_of(), other.scale_of())),
            r matches Some(c) ==> (fits_at_scale(self.units() + other.units(), max_nat(self.scale_of(), other.scale_of()))
                ==> c.units() == self.units() + other.units() && c.scale_of() <= max_nat(self.scale_of(), other.scale_of())),
    {
        self.to_decimal().checked_add(other.to_decimal()).map(|d| Dec::of_decimal(d))
    }

    /// `Decimal::checked_sub`.  Wherever the difference can be held at the
    /// larger of the two scales it is exact, at a scale no larger than that
    /// one; it is zero exactly when the two values are equal.
    #[verifier::external_body]
    pub(crate) fn checked_sub(&self, other: &Dec) -> (r: Option<Dec>)
        ensures
            r == decimal_sub(*self, *other),
            r is None ==> !fits_at_scale(self.units() - other.units(), max_nat(self.scale_of(), other.scale_of())),
            r matches Some(c) ==> (fits_at_scale(self.units() - other.units(), max_nat(self.scale_of(), other.scale_of()))
                ==> c.units() == self.units() - other.units() && c.scale_of() <= max_nat(self.scale_of(), other.scale_of())),
            r matches Some(c) ==> (c.is_zero_value() <==> self.units() == other.units()),
    {
        self.to_decimal().checked_sub(other.to_decimal()).map(|d| Dec::of_decimal(d))
    }

    /// `Decimal::checked_mul`.  A zero operand gives `Decimal::ZERO`.  The
    /// product is exact wherever the two scales add up to at most 28 and the
    /// product of the magnitudes stays below 2^96: its magnitude is that
    /// product, its scale the sum of the scales, its sign negative where
    /// exactly one operand's is.
    #[verifier::external_body]
    pub(crate) fn checked_mul(&self, other: &Dec) -> (r: Option<Dec>)
        ensures
            r == decimal_mul(*self, *other),
            r is None ==> !(self.scale_of() + other.scale_of() <= max_scale() && self.mag() * other.mag() < two_pow_96()),
            (self.mag() == 0 || other.mag() == 0) ==> r == Some(Dec::spec_zero()),
            r matches Some(c) ==> (self.scale_of() + other.scale_of() <= max_scale() && self.mag() * other.mag() < two_pow_96()
                ==> c.units() * pow10(28) == self.units() * other.units()),
            r matches Some(c) ==> (self.mag() != 0 && other.mag() != 0 && self.scale_of() + other.scale_of()
                <= max_scale() && self.mag() * other.mag() < two_pow_96() ==> c.mag() == self.mag() * other.mag()
                && c.scale_of() == self.scale_of() + other.scale_of() && c.is_neg() == (self.is_neg()
                != other.is_neg())),
    {
        self.to_decimal().checked_mul(other.to_decimal()).map(|d| Dec::of_decimal(d))
    }

    /// `Decimal::checked_div`, which fails on a zero divisor and gives
    /// `Decimal::ZERO` for a zero dividend.  Where the divisor's magnitude is
    /// below 2^32 and divides the dividend's, and the dividend's scale is at
    /// least the divisor's, the quotient is exact: the quotient of the
    /// magnitudes, at the difference of the scales, negative where exactly
    /// one operand is.
    #[verifier::external_body]
    pub(crate) fn checked_div(&self, other: &Dec) -> (r: Option<Dec>)
        ensures
            r == decimal_div(*self, *other),
            other.mag() == 0 ==> r is None,
            other.mag() != 0 && self.mag() == 0 ==> r == Some(Dec::spec_zero()),
            r matches Some(c) ==> (other.mag() != 0 && self.mag() != 0 && other.mag() < 0x1_0000_0000
                && self.mag() % other.mag() == 0 && self.scale_of() >= other.scale_of() ==> c.mag()
                == self.mag() / other.mag() && c.scale_of() == self.scale_of() - other.scale_of()
                && c.is_neg() == (self.is_neg() != other.is_neg())),
            other.mag() != 0 && self.mag() != 0 && other.mag() < 0x1_0000_0000 && self.mag() % other.mag() == 0
                && self.scale_of() >= other.scale_of() ==> r is Some,
    {
        self.to_decimal().checked_div(other.to_decimal()).map(|d| Dec::of_decimal(d))
    }

    /// `Decimal::round_dp`, which rounds half to even to `dp` places.
    #[verifier::external_body]
    fn decimal_round_dp_call(&self, dp: u32) -> (r: Dec)
        ensures
            r == decimal_round_dp(*self, dp),
    {
        Dec::of_decimal(self.to_decimal().round_dp(dp))
    }

    /// What rounding keeps: a decimal with at most `dp` places is unchanged,
    /// any other comes back at scale `dp`, and a zero stays zero.
    pub proof fn lemma_round_dp(a: Dec, dp: u32)
        ensures
            a.scale_of() <= dp ==> decimal_round_dp(a, dp) == a,
            decimal_round_dp(a, dp).scale_of() <= dp,
            a.is_zero_value() ==> decimal_round_dp(a, dp).is_zero_value(),
    {
        a.lemma_bounds();
        let r = decimal_round_dp(a, dp);
        if a.is_zero_value() && a.scale > dp {
            assert(r.mag() == 0);
            assert(r.signed_mag() == 0);
            assert(r.units() == 0 * pow10((max_scale() - r.scale_of()) as nat));
        }
    }

    /// `Decimal::round_dp`: rounds half to even to `dp` places; a decimal with at
    /// most `dp` places is returned unchanged.
    pub(crate) fn round_dp(&self, dp: u32) -> (r: Dec)
        ensures
            r == decimal_round_dp(*self, dp),
            self.scale_of() <= dp ==> r == *self,
            r.scale_of() <= dp,
            self.is_zero_value() ==> r.is_zero_value(),
    {
        proof {
            Dec::lemma_round_dp(*self, dp);
        }
        self.decimal_round_dp_call(dp)
    }

    /// `MathematicalOps::checked_powu`.
    #[verifier::external_body]
    pub(crate) fn checked_powu(&self, exp: u64) -> (r: Option<Dec>)
        ensures
            r == decimal_powu(*self, exp),
    {
        self.to_decimal().checked_powu(exp).map(|d| Dec::of_decimal(d))
    }

    /// `MathematicalOps::checked_sin`.
    #[verifier::external_body]
    pub(crate) fn checked_sin(&self) -> (r: Option<Dec>)
        ensures
            r == decimal_sin(*self),
    {
        self.to_decimal().checked_sin().map(|d| Dec::of_decimal(d))
    }

    /// `MathematicalOps::checked_cos`.
    #[verifier::external_body]
    pub(crate) fn checked_cos(&self) -> (r: Option<Dec>)
        ensures
            r == decimal_cos(*self),
    {
        self.to_decimal().checked_cos().map(|d| Dec::of_decimal(d))
    }

    /// `MathematicalOps::sqrt`, which has no root for a negative sign.  The
    /// contract does not state that its Newton iteration stops within its
    /// circuit breaker of a thousand rounds; `rust_decimal` asserts that it does.
    #[verifier::external_body]
    pub(crate) fn sqrt(&self) -> (r: Option<Dec>)
        ensures
            r == decimal_sqrt(*self),
    {
        self.to_decimal().sqrt().map(|d| Dec::of_decimal(d))
    }

    /// `Decimal`'s `<`, which compares values.
    #[verifier::external_body]
    pub(crate) fn lt(&self, other: &Dec) -> (r: bool)
        ensures
            r == (self.units() < other.units()),
    {
        self.to_decimal() < other.to_decimal()
    }

    /// `Decimal`'s `==`, which compares values.
    #[verifier::external_body]
    pub(crate) fn value_eq(&self, other: &Dec) -> (r: bool)
        ensures
            r == (self.units() == other.units()),
    {
        self.to_decimal() == other.to_decimal()
    }

    /// `Decimal::is_zero`.
    #[verifier::external_body]
    pub(crate) fn is_zero(&self) -> (r: bool)
        ensures
            r == (self.mag() == 0),
            r == self.is_zero_value(),
    {
        self.to_decimal().is_zero()
    }

    /// `Decimal::is_sign_negative`, which reads the sign flag.
    #[verifier::external_body]
    pub(crate) fn is_sign_negative(&self) -> (r: bool)
        ensures
            r == self.is_neg(),
    {
        self.to_decimal().is_sign_negative()
    }

    /// The decimal with the sign flag of `self` flipped.
    pub closed spec fn spec_negate(self) -> Dec {
        Dec { negative: !self.negative, ..self }
    }

    /// `Decimal`'s unary `-`, which flips the sign flag.
    #[verifier::external_body]
    pub(crate) fn negate(&self) -> (r: Dec)
        ensures
            r == self.spec_negate(),
            r.mag() == self.mag(),
            r.scale_of() == self.scale_of(),
            r.is_neg() == !self.is_neg(),
            r.units() == -self.units(),
    {
        Dec::of_decimal(-self.to_decimal())
    }

    /// `Decimal`'s `Display`.
    #[verifier::external_body]
    pub(crate) fn display(&self) -> (r: String)
        ensures
            r@ == decimal_text(*self),
    {
        self.to_decimal().to_string()
    }

    /// The text that `Decimal`'s `Display` writes for this decimal.
    pub fn to_text(&self) -> (r: String)
        ensures
            r@ == decimal_text(*self),
    {
        self.display()
    }

    /// Whether `self < other` in value.
    pub fn is_less_than(&self, other: &Dec) -> (r: bool)
        ensures
            r == (self.units() < other.units()),
    {
        self.lt(other)
    }

    /// Whether `self <= other` in value.
    pub(crate) fn le(&self, other: &Dec) -> (r: bool)
        ensures
            r == (self.units() <= other.units()),
    {
        !other.lt(self)
    }

    /// `Decimal::is_sign_positive`, which reads the sign flag.
    pub(crate) fn is_sign_positive(&self) -> (r: bool)
        ensures
            r == !self.is_neg(),
    {
        !self.is_sign_negative()
    }
}

/// `a.checked_powu(exp)` where `a` is present.
pub open spec fn o_powu(a: Option<Dec>, exp: u64) -> Option<Dec> {
    match a {
        Some(x) => decimal_powu(x, exp),
        None => None,
    }
}

/// The sum of the first `n` amounts, added from the left to zero (what
/// `Decimal`'s `Sum` computes).
pub open spec fn sum_prefix(s: Seq<Dec>, n: nat) -> Option<Dec>
    decreases n,
{
    if n == 0 {
        Some(Dec::spec_zero())
    } else {
        o_add(sum_prefix(s, (n - 1) as nat), Some(s[n - 1]))
    }
}

/// `a + b` where both are present.
pub open spec fn o_add(a: Option<Dec>, b: Option<Dec>) -> Option<Dec> {
    match (a, b) {
        (Some(x), Some(y)) => decimal_add(x, y),
        _ => None,
    }
}

/// `a - b` where both are present.
pub open spec fn o_sub(a: Option<Dec>, b: Option<Dec>) -> Option<Dec> {
    match (a, b) {
        (Some(x), Some(y)) => decimal_sub(x, y),
        _ => None,
    }
}

/// `a * b` where both are present.
pub open spec fn o_mul(a: Option<Dec>, b: Option<Dec>) -> Option<Dec> {
    match (a, b) {
        (Some(x), Some(y)) => decimal_mul(x, y),
        _ => None,
    }
}

/// `a / b` where both are present.
pub open spec fn o_div(a: Option<Dec>, b: Option<Dec>) -> Option<Dec> {
    match (a, b) {
        (Some(x), Some(y)) => decimal_div(x, y),
        _ => None,
    }
}

/// `a.round_dp(dp)` where `a` is present.
pub open spec fn o_round(a: Option<Dec>, dp: u32) -> Option<Dec> {
    match a {
        Some(x) => Some(decimal_round_dp(x, dp)),
        None => None,
    }
}

/// `a + b` where both are present.
pub fn add_opt(a: Option<Dec>, b: Option<Dec>) -> (r: Option<Dec>)
    ensures
        r == o_add(a, b),
{
    match (a, b) {
        (Some(x), Some(y)) => x.checked_add(&y),
        _ => None,
    }
}

/// `a - b` where both are present.
pub fn sub_opt(a: Option<Dec>, b: Option<Dec>) -> (r: Option<Dec>)
    ensures
        r == o_sub(a, b),
{
    match (a, b) {
        (Some(x), Some(y)) => x.checked_sub(&y),
        _ => None,
    }
}

/// `a * b` where both are present.
pub fn mul_opt(a: Option<Dec>, b: Option<Dec>) -> (r: Option<Dec>)
    ensures
        r == o_mul(a, b),
{
    match (a, b) {
        (Some(x), Some(y)) => x.checked_mul(&y),
        _ => None,
    }
}

/// `a / b` where both are present.
pub fn div_opt(a: Option<Dec>, b: Option<Dec>) -> (r: Option<Dec>)
    ensures
        r == o_div(a, b),
{
    match (a, b) {
        (Some(x), Some(y)) => x.checked_div(&y),
        _ => None,
    }
}

/// `a.round_dp(dp)` where `a` is present.
pub fn round_opt(a: Option<Dec>, dp: u32) -> (r: Option<Dec>)
    ensures
        r == o_round(a, dp),
{
    match a {
        Some(x) => Some(x.round_dp(dp)),
        None => None,
    }
}

/// The exact sum of the first `n` amounts, in units of 10^-28.
pub open spec fn exact_sum(s: Seq<Dec>, n: nat) -> int
    decreases n,
{
    if n == 0 {
        0
    } else {
        exact_sum(s, (n - 1) as nat) + s[n - 1].units()
    }
}

/// The largest scale among the amounts (zero for none).
pub open spec fn seq_max_scale(s: Seq<Dec>) -> nat
    decreases s.len(),
{
    if s.len() == 0 {
        0
    } else {
        max_nat(seq_max_scale(s.drop_last()), s.last().scale_of())
    }
}

/// Whether every partial sum of the amounts can be held exactly at the
/// largest scale among them, so that adding them up loses nothing.
pub open spec fn sum_fits(s: Seq<Dec>) -> bool {
    forall|k: nat| k <= s.len() ==> #[trigger] fits_at_scale(exact_sum(s, k), seq_max_scale(s))
}

/// Every amount's scale is at most the largest.
pub proof fn lemma_seq_max_scale(s: Seq<Dec>)
    ensures
        forall|k: int| 0 <= k < s.len() ==> #[trigger] s[k].scale_of() <= seq_max_scale(s),
    decreases s.len(),
{
    if s.len() > 0 {
        lemma_seq_max_scale(s.drop_last());
        assert forall|k: int| 0 <= k < s.len() implies #[trigger] s[k].scale_of() <= seq_max_scale(s) by {
            if k < s.len() - 1 {
                assert(s.drop_last()[k] == s[k]);
            }
        }
    }
}

/// 10^n grows with n.
pub proof fn lemma_pow10_monotone(a: nat, b: nat)
    requires
        a <= b,
    ensures
        pow10(a) <= pow10(b),
    decreases b,
{
    if a < b {
        lemma_pow10_monotone(a, (b - 1) as nat);
        lemma_pow10_positive((b - 1) as nat);
    }
}

/// An amount held at a scale can be held at any smaller one.
pub proof fn lemma_fits_smaller_scale(u: int, small: nat, large: nat)
    requires
        small <= large,
        fits_at_scale(u, large),
    ensures
        fits_at_scale(u, small),
{
    lemma_pow10_monotone((max_scale() - large) as nat, (max_scale() - small) as nat);
    let a = pow10((max_scale() - large) as nat);
    let b = pow10((max_scale() - small) as nat);
    assert(two_pow_96() * a <= two_pow_96() * b) by (nonlinear_arith)
        requires
            a <= b,
    ;
}

/// Adds the amount at `k` to the sum of those before it.  Where the amounts
/// sum without loss, the new sum is exact and its scale is at most the
/// largest among them.
pub(crate) fn add_to_sum(acc: Option<Dec>, x: Dec, Ghost(s): Ghost<Seq<Dec>>, Ghost(k): Ghost<nat>) -> (r: Option<Dec>)
    requires
        k < s.len(),
        s[k as int] == x,
        acc == sum_prefix(s, k),
        sum_fits(s) ==> acc is Some && acc.unwrap().units() == exact_sum(s, k) && acc.unwrap().scale_of()
            <= seq_max_scale(s),
    ensures
        r == sum_prefix(s, k + 1),
        sum_fits(s) ==> r is Some && r.unwrap().units() == exact_sum(s, k + 1) && r.unwrap().scale_of()
            <= seq_max_scale(s),
{
    match acc {
        None => None,
        Some(a) => {
            proof {
                if sum_fits(s) {
                    lemma_seq_max_scale(s);
                    assert(fits_at_scale(exact_sum(s, k + 1), seq_max_scale(s)));
                    lemma_fits_smaller_scale(a.units() + x.units(), max_nat(a.scale_of(), x.scale_of()), seq_max_scale(s));
                }
            }
            a.checked_add(&x)
        },
    }
}

/// Two sequences that agree on their first `k` amounts have the same exact
/// sum of them.
pub proof fn lemma_exact_sum_prefix(a: Seq<Dec>, b: Seq<Dec>, k: nat)
    requires
        k <= a.len(),
        k <= b.len(),
        forall|i: int| 0 <= i < k ==> a[i] == b[i],
    ensures
        exact_sum(a, k) == exact_sum(b, k),
    decreases k,
{
    if k > 0 {
        lemma_exact_sum_prefix(a, b, (k - 1) as nat);
    }
}

/// Appending an amount leaves the sums of the earlier amounts as they were,
/// adds it to the whole sum, and sums that fit with it fit without it.
pub proof fn lemma_sum_push(s: Seq<Dec>, x: Dec)
    ensures
        exact_sum(s.push(x), s.len()) == exact_sum(s, s.len()),
        exact_sum(s.push(x), s.len() + 1) == exact_sum(s, s.len()) + x.units(),
        seq_max_scale(s.push(x)) == max_nat(seq_max_scale(s), x.scale_of()),
        sum_fits(s.push(x)) ==> sum_fits(s),
{
    let t = s.push(x);
    assert(t.drop_last() =~= s);
    assert forall|k: nat| k <= s.len() implies #[trigger] exact_sum(t, k) == exact_sum(s, k) by {
        lemma_exact_sum_prefix(t, s, k);
    }
    if sum_fits(t) {
        assert forall|k: nat| k <= s.len() implies #[trigger] fits_at_scale(exact_sum(s, k), seq_max_scale(s)) by {
            assert(fits_at_scale(exact_sum(t, k), seq_max_scale(t)));
            lemma_fits_smaller_scale(exact_sum(s, k), seq_max_scale(s), seq_max_scale(t));
        }
    }
}

/// The exact sum of `a` followed by the first `k` amounts of `s` is `a` plus
/// their sum.
pub proof fn lemma_exact_sum_cons(a: Dec, s: Seq<Dec>, k: nat)
    requires
        k <= s.len(),
    ensures
        exact_sum(seq![a] + s, k + 1) == a.units() + exact_sum(s, k),
    decreases k,
{
    let t = seq![a] + s;
    if k == 0 {
        assert(t[0] == a);
        assert(exact_sum(t, 0) == 0);
    } else {
        lemma_exact_sum_cons(a, s, (k - 1) as nat);
        assert(t[k as int] == s[k - 1]);
    }
}

/// Whether the product of `a` and `b` is computed exactly: their scales add
/// up to at most 28 and the product of their magnitudes stays below 2^96.
pub open spec fn mul_exact(a: Dec, b: Dec) -> bool {
    a.scale_of() + b.scale_of() <= max_scale() && a.mag() * b.mag() < two_pow_96()
}

/// Whether `a / b` takes the exact path of division: non-zero operands, a
/// divisor's magnitude below 2^32 that divides the dividend's, and a
/// dividend's scale at least the divisor's.
pub open spec fn div_exact(a: Dec, b: Dec) -> bool {
    &&& b.mag() != 0
    &&& a.mag() != 0
    &&& b.mag() < 0x1_0000_0000
    &&& a.mag() % b.mag() == 0
    &&& a.scale_of() >= b.scale_of()
}

/// 10^m · 10^n = 10^(m+n).
pub proof fn lemma_pow10_add(m: nat, n: nat)
    ensures
        pow10(m) * pow10(n) == pow10(m + n),
    decreases m,
{
    if m > 0 {
        lemma_pow10_add((m - 1) as nat, n);
        assert(((m + n) - 1) as nat == (m - 1) as nat + n);
        assert(pow10(m + n) == 10 * pow10(((m + n) - 1) as nat));
        let j: nat = ((m - 1) as nat + n) as nat;
        assert(pow10(((m + n) - 1) as nat) == pow10(j));
        assert(pow10((m - 1) as nat) * pow10(n) == pow10(j));
        assert(pow10(m) * pow10(n) == 10 * (pow10((m - 1) as nat) * pow10(n))) by (nonlinear_arith)
            requires
                pow10(m) == 10 * pow10((m - 1) as nat),
        ;
        assert(pow10(m) * pow10(n) == pow10(m + n)) by (nonlinear_arith)
            requires
                pow10(m) * pow10(n) == 10 * (pow10((m - 1) as nat) * pow10(n)),
                pow10((m - 1) as nat) * pow10(n) == pow10(((m + n) - 1) as nat),
                pow10(m + n) == 10 * pow10(((m + n) - 1) as nat),
        ;
    } else {
        assert(pow10(m) == 1);
        assert(pow10(m + n) == pow10(n));
        assert(pow10(m) * pow10(n) == pow10(m + n)) by (nonlinear_arith)
            requires
                pow10(m) == 1,
                pow10(m + n) == pow10(n),
        ;
    }
}

/// A quotient taken on the exact path times the divisor is the dividend:
/// measured in units of 10^-28, `c · b = a · 10^28`.
pub proof fn lemma_div_exact_units(a: Dec, b: Dec, c: Dec)
    requires
        div_exact(a, b),
        a.scale_of() <= max_scale(),
        b.scale_of() <= max_scale(),
        c.mag() == a.mag() / b.mag(),
        c.scale_of() == a.scale_of() - b.scale_of(),
        c.is_neg() == (a.is_neg() != b.is_neg()),
    ensures
        c.units() * b.units() == a.units() * pow10(28),
{
    let k = c.mag() as int;
    let bm = b.mag() as int;
    let am = a.mag() as int;
    assert(am == k * bm) by (nonlinear_arith)
        requires
            bm > 0,
            am % bm == 0,
            k == am / bm,
    {
        vstd::arithmetic::div_mod::lemma_fundamental_div_mod(am, bm);
    }
    assert(c.signed_mag() * b.signed_mag() == a.signed_mag()) by (nonlinear_arith)
        requires
            am == k * bm,
            c.signed_mag() == (if c.is_neg() { -k } else { k }),
            b.signed_mag() == (if b.is_neg() { -bm } else { bm }),
            a.signed_mag() == (if a.is_neg() { -am } else { am }),
            c.is_neg() == (a.is_neg() != b.is_neg()),
    ;
    let pc = pow10((max_scale() - c.scale_of()) as nat);
    let pb = pow10((max_scale() - b.scale_of()) as nat);
    let pa = pow10((max_scale() - a.scale_of()) as nat);
    lemma_pow10_add((max_scale() - c.scale_of()) as nat, (max_scale() - b.scale_of()) as nat);
    lemma_pow10_add((max_scale() - a.scale_of()) as nat, 28);
    assert((max_scale() - c.scale_of()) as nat + (max_scale() - b.scale_of()) as nat == (max_scale()
        - a.scale_of()) as nat + 28);
    assert(pc * pb == pa * pow10(28));
    assert(c.units() * b.units() == a.units() * pow10(28)) by (nonlinear_arith)
        requires
            c.units() == c.signed_mag() * pc,
            b.units() == b.signed_mag() * pb,
            a.units() == a.signed_mag() * pa,
            c.signed_mag() * b.signed_mag() == a.signed_mag(),
            pc * pb == pa * pow10(28),
    ;
}

/// 10^n is positive.
pub proof fn lemma_pow10_positive(n: nat)
    ensures
        pow10(n) >= 1,
    decreases n,
{
    if n > 0 {
        lemma_pow10_positive((n - 1) as nat);
    }
}

impl PartialEq for Dec {
    fn eq(&self, other: &Dec) -> (r: bool) {
        self.value_eq(other)
    }
}

impl Eq for Dec {

}

impl vstd::std_specs::cmp::PartialEqSpecImpl for Dec {
    open spec fn obeys_eq_spec() -> bool {
        true
    }

    open spec fn eq_spec(&self, other: &Dec) -> bool {
        self.units() == other.units()
    }
}

} // verus!
