//! The delivery fee factor: an unsigned fixed-point multiplier with eighteen
//! decimal places, and the rule by which congestion raises and lowers it.

use vstd::prelude::*;

verus! {

/// The inner value that stands for the number one.
pub const DIV: u128 = 1_000_000_000_000_000_000;

/// The product of two fixed-point numbers, rounded towards zero and held at
/// the largest representable value.
pub open spec fn mul_spec(a: u128, b: u128) -> u128 {
    let p: int = (a as int) * (b as int) / (DIV as int);
    if p > u128::MAX as int {
        u128::MAX
    } else {
        p as u128
    }
}

/// The quotient of two fixed-point numbers, rounded towards zero; `None`
/// where the divisor is zero or the quotient cannot be represented.
pub open spec fn div_spec(a: u128, b: u128) -> Option<u128> {
    if b == 0 {
        None
    } else {
        let q: int = (a as int) * (DIV as int) / (b as int);
        if q > u128::MAX as int {
            None
        } else {
            Some(q as u128)
        }
    }
}

/// Calls `Saturating::saturating_mul` of `sp_runtime::FixedU128` on the two
/// inner values. Its source multiplies in 256 bits, divides by `DIV` rounding
/// down, and answers the maximum where the quotient does not fit.
#[verifier::external_body]
fn fixed_saturating_mul(a: u128, b: u128) -> (r: u128)
    ensures
        r == mul_spec(a, b),
{
    let x = sp_runtime::FixedU128::from_inner(a);
    let y = sp_runtime::FixedU128::from_inner(b);
    sp_runtime::traits::Saturating::saturating_mul(x, y).into_inner()
}

/// Calls `CheckedDiv::checked_div` of `sp_runtime::FixedU128` on the two
/// inner values. Its source refuses a zero divisor, multiplies the dividend
/// by `DIV` in 256 bits, divides rounding down, and refuses a quotient that
/// does not fit.
#[verifier::external_body]
fn fixed_checked_div(a: u128, b: u128) -> (r: Option<u128>)
    ensures
        r == div_spec(a, b),
{
    let x = sp_runtime::FixedU128::from_inner(a);
    let y = sp_runtime::FixedU128::from_inner(b);
    match sp_runtime::traits::CheckedDiv::checked_div(&x, &y) {
        Some(q) => Some(q.into_inner()),
        None => None,
    }
}

/// An unsigned fixed-point number: `inner / DIV`.
#[derive(Clone, Copy, Debug, PartialEq, Eq, Structural)]
pub struct FeeFactor {
    pub inner: u128,
}

impl FeeFactor {
    /// The number whose inner value is `inner`.
    pub fn from_inner(inner: u128) -> (r: FeeFactor)
        ensures
            r.inner == inner,
    {
        FeeFactor { inner }
    }

    /// The product with `rhs`, rounded down and held at the largest value.
    pub fn saturating_mul(self, rhs: FeeFactor) -> (r: FeeFactor)
        ensures
            r.inner == mul_spec(self.inner, rhs.inner),
    {
        FeeFactor { inner: fixed_saturating_mul(self.inner, rhs.inner) }
    }

    /// The quotient by `rhs`, rounded down; `None` where `rhs` is zero or
    /// the quotient is too large.
    pub fn checked_div(self, rhs: FeeFactor) -> (r: Option<FeeFactor>)
        ensures
            match div_spec(self.inner, rhs.inner) {
                Some(q) => r == Some(FeeFactor { inner: q }),
                None => r.is_none(),
            },
    {
        match fixed_checked_div(self.inner, rhs.inner) {
            Some(q) => Some(FeeFactor { inner: q }),
            None => None,
        }
    }
}

/// The number of kilobytes that `size` bytes occupy, a started one counted whole.
pub open spec fn kilobytes(size: u128) -> u128 {
    if size % 1024 == 0 {
        (size / 1024) as u128
    } else {
        (size / 1024 + 1) as u128
    }
}

/// The fixed-point number that stands for the integer `n`, held at the
/// largest representable value.
pub open spec fn from_integer_spec(n: u128) -> u128 {
    if (n as int) * (DIV as int) > u128::MAX as int {
        u128::MAX
    } else {
        ((n as int) * (DIV as int)) as u128
    }
}

/// The sum of two inner values, held at the largest representable value.
pub open spec fn add_spec(a: u128, b: u128) -> u128 {
    if a + b > u128::MAX as int {
        u128::MAX
    } else {
        (a + b) as u128
    }
}

/// The constants of the fee rule: the floor below which no factor falls, the
/// base by which a congested mailbox multiplies the factor, and the share
/// that each kilobyte of a message adds to that base.
#[derive(Clone, Copy, Debug)]
pub struct FeePolicy {
    min_fee_factor: FeeFactor,
    exponential_fee_base: FeeFactor,
    message_size_fee_base: FeeFactor,
}

impl FeePolicy {
    /// A policy is well formed when its exponential base is at least one, so
    /// that an increase never lowers a factor and a decrease never raises it.
    #[verifier::type_invariant]
    pub open spec fn wf(self) -> bool {
        self.exponential_base() >= DIV
    }

    /// The inner value of the floor.
    pub closed spec fn floor(self) -> u128 {
        self.min_fee_factor.inner
    }

    /// The inner value of the exponential base.
    pub closed spec fn exponential_base(self) -> u128 {
        self.exponential_fee_base.inner
    }

    /// The inner value of what each kilobyte adds to the base.
    pub closed spec fn size_base(self) -> u128 {
        self.message_size_fee_base.inner
    }

    /// The factor by which a message of `size` bytes multiplies the fee
    /// factor of a congested mailbox.
    pub open spec fn multiplier(self, size: u128) -> u128 {
        add_spec(
            self.exponential_base(),
            mul_spec(from_integer_spec(kilobytes(size)), self.size_base()),
        )
    }

    /// The fee factor after a message of `size` bytes was queued above the
    /// threshold.
    pub open spec fn increased(self, factor: u128, size: u128) -> u128 {
        mul_spec(factor, self.multiplier(size))
    }

    /// The fee factor after a mailbox was pruned down to the threshold.
    pub open spec fn decreased(self, factor: u128) -> u128 {
        let q: int = (factor as int) * (DIV as int) / (self.exponential_base() as int);
        if q < self.floor() as int {
            self.floor()
        } else {
            q as u128
        }
    }

    /// The policy with the given constants, or `None` where the exponential
    /// base is below one.
    pub fn new(
        min_fee_factor: FeeFactor,
        exponential_fee_base: FeeFactor,
        message_size_fee_base: FeeFactor,
    ) -> (r: Option<FeePolicy>)
        ensures
            exponential_fee_base.inner < DIV ==> r.is_none(),
            exponential_fee_base.inner >= DIV ==> r.is_some() && r.unwrap().wf()
                && r.unwrap().floor() == min_fee_factor.inner
                && r.unwrap().exponential_base() == exponential_fee_base.inner
                && r.unwrap().size_base() == message_size_fee_base.inner,
    {
        if exponential_fee_base.inner < DIV {
            None
        } else {
            Some(FeePolicy { min_fee_factor, exponential_fee_base, message_size_fee_base })
        }
    }

    /// The floor below which no fee factor falls.
    pub fn min_fee_factor(&self) -> (r: FeeFactor)
        ensures
            r.inner == self.floor(),
    {
        self.min_fee_factor
    }

    /// The base by which congestion multiplies a fee factor.
    pub fn exponential_fee_base(&self) -> (r: FeeFactor)
        ensures
            r.inner == self.exponential_base(),
            r.inner >= DIV,
    {
        proof {
            use_type_invariant(self);
        }
        self.exponential_fee_base
    }

    /// What each kilobyte of a message adds to the base.
    pub fn message_size_fee_base(&self) -> (r: FeeFactor)
        ensures
            r.inner == self.size_base(),
    {
        self.message_size_fee_base
    }

    /// Raises `factor` for a message of `message_size` bytes.
    pub fn increase(&self, factor: FeeFactor, message_size: u128) -> (r: FeeFactor)
        ensures
            r.inner == self.increased(factor.inner, message_size),
            r.inner >= factor.inner,
    {
        proof {
            use_type_invariant(self);
        }
        let whole: u128 = message_size / 1024;
        let kb: u128 = if message_size % 1024 == 0 {
            whole
        } else {
            whole + 1
        };
        let kb_fixed: u128 = match kb.checked_mul(DIV) {
            Some(v) => v,
            None => u128::MAX,
        };
        let size_term: FeeFactor = FeeFactor { inner: kb_fixed }.saturating_mul(
            self.message_size_fee_base,
        );
        let multiplier: FeeFactor = FeeFactor {
            inner: self.exponential_fee_base.inner.saturating_add(size_term.inner),
        };
        let r: FeeFactor = factor.saturating_mul(multiplier);
        proof {
            lemma_mul_at_least_one(factor.inner, multiplier.inner);
        }
        r
    }

    /// Lowers `factor`, but not below the floor.
    pub fn decrease(&self, factor: FeeFactor) -> (r: FeeFactor)
        ensures
            r.inner == self.decreased(factor.inner),
            r.inner >= self.floor(),
    {
        proof {
            use_type_invariant(self);
            lemma_div_at_least_one(factor.inner, self.exponential_fee_base.inner);
        }
        let lowered: FeeFactor = match factor.checked_div(self.exponential_fee_base) {
            Some(q) => q,
            None => factor,
        };
        if lowered.inner < self.min_fee_factor.inner {
            self.min_fee_factor
        } else {
            lowered
        }
    }
}

/// A product with a number that is at least one is at least the other factor.
pub proof fn lemma_mul_at_least_one(a: u128, b: u128)
    requires
        b >= DIV,
    ensures
        mul_spec(a, b) >= a,
{
    let d: int = DIV as int;
    assert((a as int) * (b as int) >= (a as int) * d) by (nonlinear_arith)
        requires
            b as int >= d,
            a as int >= 0,
    ;
    assert((a as int) * d / d == a as int) by (nonlinear_arith)
        requires
            d > 0,
    ;
    assert((a as int) * (b as int) / d >= (a as int) * d / d) by (nonlinear_arith)
        requires
            (a as int) * (b as int) >= (a as int) * d,
            d > 0,
    ;
}

/// A quotient by a number that is at least one is at most the dividend, and
/// so can be represented.
pub proof fn lemma_div_at_least_one(a: u128, b: u128)
    requires
        b >= DIV,
    ensures
        div_spec(a, b).is_some(),
        div_spec(a, b).unwrap() <= a,
        div_spec(a, b).unwrap() as int == (a as int) * (DIV as int) / (b as int),
{
    let d: int = DIV as int;
    assert((a as int) * d / (b as int) <= a as int && (a as int) * d / (b as int) >= 0)
        by (nonlinear_arith)
        requires
            b as int >= d,
            d > 0,
            a as int >= 0,
    ;
}

/// An increase never uses a multiplier below the exponential base.
pub proof fn lemma_multiplier_at_least_base(policy: FeePolicy, size: u128)
    ensures
        policy.multiplier(size) >= policy.exponential_base(),
{
}

/// An increase never lowers the factor.
pub proof fn lemma_increase_not_below(policy: FeePolicy, factor: u128, size: u128)
    requires
        policy.wf(),
    ensures
        policy.increased(factor, size) >= factor,
{
    lemma_multiplier_at_least_base(policy, size);
    lemma_mul_at_least_one(factor, policy.multiplier(size));
}

/// An increase raises the factor strictly exactly when the factor is not yet
/// the largest representable one and the part of the product above the factor
/// amounts to at least one unit of the last decimal place.
pub proof fn lemma_increase_strict(policy: FeePolicy, factor: u128, size: u128)
    requires
        policy.wf(),
    ensures
        policy.increased(factor, size) > factor <==> factor < u128::MAX && (factor as int) * (
        policy.multiplier(size) - DIV) >= DIV as int,
{
    let f: int = factor as int;
    let m: int = policy.multiplier(size) as int;
    let d: int = DIV as int;
    lemma_multiplier_at_least_base(policy, size);
    assert(m >= d);
    assert(f * m == f * d + f * (m - d)) by (nonlinear_arith);
    assert((f * m / d >= f + 1) <==> (f * (m - d) >= d)) by (nonlinear_arith)
        requires
            f * m == f * d + f * (m - d),
            d > 0,
            f >= 0,
            m >= d,
    ;
}

/// A factor of at least one, below the largest representable one, rises
/// strictly under a policy whose exponential base is above one.
pub proof fn lemma_increase_strict_from_one(policy: FeePolicy, factor: u128, size: u128)
    requires
        policy.wf(),
        policy.exponential_base() > DIV,
        DIV <= factor < u128::MAX,
    ensures
        policy.increased(factor, size) > factor,
{
    let f: int = factor as int;
    let m: int = policy.multiplier(size) as int;
    let d: int = DIV as int;
    lemma_multiplier_at_least_base(policy, size);
    assert(f * (m - d) >= d) by (nonlinear_arith)
        requires
            f >= d,
            m - d >= 1,
            d > 0,
    ;
    lemma_increase_strict(policy, factor, size);
}

/// A decrease lowers the factor strictly exactly when the factor is above the
/// floor and the exponential base is above one; it never leaves the factor
/// below the floor nor above where it was, unless the floor says so.
pub proof fn lemma_decrease_strict(policy: FeePolicy, factor: u128)
    requires
        policy.wf(),
    ensures
        policy.decreased(factor) >= policy.floor(),
        factor >= policy.floor() ==> policy.decreased(factor) <= factor,
        policy.decreased(factor) < factor <==> factor > policy.floor() && policy.exponential_base()
            > DIV,
{
    let f: int = factor as int;
    let b: int = policy.exponential_base() as int;
    let d: int = DIV as int;
    assert(b >= d);
    assert(0 <= f * d / b <= f) by (nonlinear_arith)
        requires
            b >= d,
            d > 0,
            f >= 0,
    ;
    assert((f * d / b < f) <==> (f > 0 && b > d)) by (nonlinear_arith)
        requires
            b >= d,
            d > 0,
            f >= 0,
    ;
}

} // verus!
