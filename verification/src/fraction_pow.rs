use crate::common::coprime::{
    coprime, lemma_coprime_pow, lemma_gcd_symmetric, lemma_lowest_terms_is_coprime,
    lemma_lowest_terms_of_coprime, lemma_pow_nonnegative, lowest_terms,
};
use crate::defaults::{IntegerType, UnsignedIntegerType};
use fraction::GenericFraction;
use vstd::arithmetic::power::{lemma_pow_adds, lemma_pow_increases, pow};
use vstd::prelude::*;

verus! {

/// The sign of a fraction, kept apart from its numbers.
#[derive(Debug, PartialEq, Eq, Clone, Copy, Structural)]
pub enum Sign {
    Plus,
    Minus,
}

/// An exact fraction: a signed ratio of two whole numbers in lowest terms,
/// or an infinity, or no number at all.
#[derive(Debug, PartialEq, Eq, Clone, Copy, Structural)]
pub enum Fraction {
    Rational(Sign, IntegerType, IntegerType),
    Infinity(Sign),
    NaN,
}

/// The sign of a product of two ratios: negative where the signs differ and
/// neither ratio is zero.
pub open spec fn product_sign(a: Sign, a_numer: int, b: Sign, b_numer: int) -> Sign {
    if a_numer == 0 || b_numer == 0 || a == b {
        Sign::Plus
    } else {
        Sign::Minus
    }
}

/// The product of two ratios, in lowest terms.
pub open spec fn product_of(
    a: (Sign, IntegerType, IntegerType),
    b: (Sign, IntegerType, IntegerType),
) -> (Sign, int, int) {
    let terms = lowest_terms((a.1 * b.1) as nat, (a.2 * b.2) as nat);
    (product_sign(a.0, a.1 as int, b.0, b.1 as int), terms.0 as int, terms.1 as int)
}

/// Calls `GenericFraction::<i64>::new` and reads the result: not a number
/// for 0 over 0, plus infinity for anything else over 0, and else the
/// ratio in lowest terms, with a plus sign.
#[verifier::external_body]
fn fraction_new(numer: IntegerType, denom: IntegerType) -> (f: Fraction)
    requires
        numer >= 0,
        denom >= 0,
    ensures
        f == Fraction::new_spec(numer, denom),
{
    match GenericFraction::<IntegerType>::new(numer, denom) {
        GenericFraction::Rational(fraction::Sign::Plus, r) => Fraction::Rational(Sign::Plus, *r.numer(), *r.denom()),
        GenericFraction::Rational(fraction::Sign::Minus, r) => Fraction::Rational(Sign::Minus, *r.numer(), *r.denom()),
        GenericFraction::Infinity(fraction::Sign::Plus) => Fraction::Infinity(Sign::Plus),
        GenericFraction::Infinity(fraction::Sign::Minus) => Fraction::Infinity(Sign::Minus),
        GenericFraction::NaN => Fraction::NaN,
    }
}

/// Calls `*` of `GenericFraction<i64>` on two ratios and reads the result:
/// the product in lowest terms, negative where the signs differ and neither
/// ratio is zero. The products of the numerators and of the denominators
/// must fit.
#[verifier::external_body]
fn multiply_ratios(a: (Sign, IntegerType, IntegerType), b: (Sign, IntegerType, IntegerType)) -> (p: (
    Sign,
    IntegerType,
    IntegerType,
))
    requires
        a.1 >= 0,
        a.2 > 0,
        b.1 >= 0,
        b.2 > 0,
        a.1 * b.1 <= IntegerType::MAX,
        a.2 * b.2 <= IntegerType::MAX,
    ensures
        (p.0, p.1 as int, p.2 as int) == product_of(a, b),
{
    let x = match a.0 {
        Sign::Plus => GenericFraction::<IntegerType>::new(a.1, a.2),
        Sign::Minus => GenericFraction::<IntegerType>::new_neg(a.1, a.2),
    };
    let y = match b.0 {
        Sign::Plus => GenericFraction::<IntegerType>::new(b.1, b.2),
        Sign::Minus => GenericFraction::<IntegerType>::new_neg(b.1, b.2),
    };
    let p = x * y;
    match p.is_sign_negative() {
        false => (Sign::Plus, *p.numer().unwrap(), *p.denom().unwrap()),
        true => (Sign::Minus, *p.numer().unwrap(), *p.denom().unwrap()),
    }
}

/// The sign of a power of a ratio: negative for an odd power of a negative
/// ratio that is not zero.
pub open spec fn power_sign(sign: Sign, numer: int, exp: nat) -> Sign {
    if sign == Sign::Minus && numer != 0 && exp % 2 == 1 {
        Sign::Minus
    } else {
        Sign::Plus
    }
}

impl Fraction {
    /// A ratio is kept with a numerator that is not negative and a positive
    /// denominator, which have no common divisor.
    pub open spec fn well_formed(&self) -> bool {
        match self {
            Fraction::Rational(_, numer, denom) => *numer >= 0 && *denom > 0 && coprime(
                *numer as nat,
                *denom as nat,
            ),
            _ => true,
        }
    }

    /// The fraction of a numerator over a denominator: not a number for 0
    /// over 0, plus infinity for anything else over 0, and else the ratio in
    /// lowest terms.
    pub open spec fn new_spec(numer: IntegerType, denom: IntegerType) -> Fraction {
        if denom == 0 {
            if numer == 0 {
                Fraction::NaN
            } else {
                Fraction::Infinity(Sign::Plus)
            }
        } else {
            let terms = lowest_terms(numer as nat, denom as nat);
            Fraction::Rational(Sign::Plus, terms.0 as IntegerType, terms.1 as IntegerType)
        }
    }

    /// A ratio to a power: both numbers to that power.
    pub open spec fn pow_spec(self, exp: nat) -> Fraction {
        match self {
            Fraction::Rational(sign, numer, denom) => Fraction::Rational(
                power_sign(sign, numer as int, exp),
                pow(numer as int, exp) as IntegerType,
                pow(denom as int, exp) as IntegerType,
            ),
            other => other,
        }
    }

    /// A ratio to a power that may be negative: to a negative power it is the
    /// ratio turned over, without its sign, to the opposite power, and plus
    /// infinity where the ratio is zero.
    pub open spec fn powi_spec(self, exp: int) -> Fraction {
        if exp >= 0 {
            self.pow_spec(exp as nat)
        } else {
            match self {
                Fraction::Rational(sign, numer, denom) => if numer == 0 {
                    Fraction::Infinity(Sign::Plus)
                } else {
                    Fraction::Rational(Sign::Plus, denom, numer).pow_spec((-exp) as nat)
                },
                other => other,
            }
        }
    }

    /// Whether the numbers of a power of this fraction fit.
    pub open spec fn power_fits(self, exp: nat) -> bool {
        match self {
            Fraction::Rational(_, numer, denom) => pow(numer as int, exp) <= IntegerType::MAX
                && pow(denom as int, exp) <= IntegerType::MAX,
            _ => true,
        }
    }

    /// The fraction of a numerator over a denominator, neither negative.
    pub fn new(numer: IntegerType, denom: IntegerType) -> (f: Fraction)
        requires
            numer >= 0,
            denom >= 0,
        ensures
            f == Fraction::new_spec(numer, denom),
            f.well_formed(),
    {
        proof {
            if denom > 0 {
                lemma_lowest_terms_is_coprime(numer as nat, denom as nat);
                let g = crate::common::math::gcd_spec(numer as nat, denom as nat);
                let terms = lowest_terms(numer as nat, denom as nat);
                assert(terms.0 <= numer && terms.1 <= denom) by (nonlinear_arith)
                    requires
                        terms.0 * g == numer,
                        terms.1 * g == denom,
                        denom > 0,
                ;
            }
        }
        fraction_new(numer, denom)
    }

    /// One.
    pub fn one() -> (f: Fraction)
        ensures
            f == Fraction::Rational(Sign::Plus, 1, 1),
            f.well_formed(),
    {
        proof {
            crate::common::coprime::lemma_coprime_one(1);
        }
        Fraction::Rational(Sign::Plus, 1, 1)
    }

    /// The numerator of a ratio.
    pub fn numer(&self) -> (n: Option<IntegerType>)
        ensures
            n == match self {
                Fraction::Rational(_, numer, _) => Some(*numer),
                _ => None,
            },
    {
        match self {
            Fraction::Rational(_, numer, _) => Some(*numer),
            _ => None,
        }
    }

    /// The denominator of a ratio.
    pub fn denom(&self) -> (d: Option<IntegerType>)
        ensures
            d == match self {
                Fraction::Rational(_, _, denom) => Some(*denom),
                _ => None,
            },
    {
        match self {
            Fraction::Rational(_, _, denom) => Some(*denom),
            _ => None,
        }
    }

    /// The sign of a ratio or of an infinity.
    pub fn sign(&self) -> (s: Option<Sign>)
        ensures
            s == match self {
                Fraction::Rational(sign, _, _) => Some(*sign),
                Fraction::Infinity(sign) => Some(*sign),
                Fraction::NaN => None,
            },
    {
        match self {
            Fraction::Rational(sign, _, _) => Some(*sign),
            Fraction::Infinity(sign) => Some(*sign),
            Fraction::NaN => None,
        }
    }

    /// The fraction to a power that is not negative, by squaring. An
    /// infinity and what is not a number stay what they are.
    pub fn pow(&self, exp: UnsignedIntegerType) -> (r: Fraction)
        requires
            self.well_formed(),
            self.power_fits(exp as nat),
        ensures
            r == self.pow_spec(exp as nat),
            r.well_formed(),
    {
        match *self {
            Fraction::Rational(sign, numer, denom) => {
                let mut exp_val = exp;
                let mut result = (Sign::Plus, 1 as IntegerType, 1 as IntegerType);
                let mut base = (sign, numer, denom);
                let ghost mut done: nat = 0;
                let ghost mut step: nat = 1;
                proof {
                    vstd::arithmetic::power::lemma_pow0(numer as int);
                    vstd::arithmetic::power::lemma_pow0(denom as int);
                    vstd::arithmetic::power::lemma_pow1(numer as int);
                    vstd::arithmetic::power::lemma_pow1(denom as int);
                }
                while exp_val > 0
                    invariant
                        numer >= 0,
                        denom > 0,
                        coprime(numer as nat, denom as nat),
                        pow(numer as int, exp as nat) <= IntegerType::MAX,
                        pow(denom as int, exp as nat) <= IntegerType::MAX,
                        step >= 1,
                        exp_val * step + done == exp,
                        result == (
                            power_sign(sign, numer as int, done),
                            pow(numer as int, done) as IntegerType,
                            pow(denom as int, done) as IntegerType,
                        ),
                        0 <= pow(numer as int, done) <= IntegerType::MAX,
                        0 < pow(denom as int, done) <= IntegerType::MAX,
                        exp_val > 0 ==> base == (
                            if step == 1 {
                                sign
                            } else {
                                Sign::Plus
                            },
                            pow(numer as int, step) as IntegerType,
                            pow(denom as int, step) as IntegerType,
                        ),
                        exp_val > 0 ==> 0 <= pow(numer as int, step) <= IntegerType::MAX,
                        exp_val > 0 ==> 0 < pow(denom as int, step) <= IntegerType::MAX,
                        exp_val > 0 ==> step % 2 == 0 || step == 1,
                    decreases exp_val,
                {
                    let ghost before = exp_val;
                    let ghost old_step = step;
                    let ghost old_done = done;
                    assert(before * old_step >= old_step) by (nonlinear_arith)
                        requires
                            before >= 1,
                            old_step >= 1,
                    ;
                    if exp_val % 2 == 1 {
                        proof {
                            lemma_power_step(numer, denom, done, step, exp as nat);
                        }
                        result = multiply_ratios(result, base);
                        proof {
                            done = done + step;
                        }
                    }
                    exp_val = exp_val / 2;
                    if exp_val > 0 {
                        proof {
                            assert(2 * old_step <= exp) by (nonlinear_arith)
                                requires
                                    before * old_step + old_done == exp,
                                    before >= 2,
                                    old_step >= 1,
                                    old_done >= 0,
                            ;
                            lemma_power_step(numer, denom, step, step, exp as nat);
                        }
                        base = multiply_ratios(base, base);
                        proof {
                            step = 2 * step;
                        }
                    }
                    assert(exp_val * step + done == exp) by (nonlinear_arith)
                        requires
                            before * old_step + old_done == exp,
                            before == 2 * exp_val + 1 && done == old_done + old_step || before == 2
                                * exp_val && done == old_done,
                            exp_val > 0 && step == 2 * old_step || exp_val == 0 && step == old_step,
                    ;
                }
                proof {
                    lemma_coprime_pow(numer as nat, denom as nat, exp as nat, exp as nat);
                }
                Fraction::Rational(result.0, result.1, result.2)
            },
            Fraction::NaN => Fraction::NaN,
            Fraction::Infinity(sign) => Fraction::Infinity(sign),
        }
    }

    /// The fraction to a power that may be negative. To a negative power it
    /// is the ratio turned over, without its sign, to the opposite power;
    /// zero to a negative power is plus infinity.
    pub fn powi(&self, exp: IntegerType) -> (r: Fraction)
        requires
            self.well_formed(),
            exp > IntegerType::MIN,
            self.power_fits(
                (if exp < 0 {
                    -exp
                } else {
                    exp as int
                }) as nat,
            ),
        ensures
            r == self.powi_spec(exp as int),
            r.well_formed(),
    {
        match *self {
            Fraction::Rational(sign, numer, denom) => {
                // For negative exponent, invert the fraction.
                if exp < 0 {
                    let base = Fraction::new(denom, numer);
                    proof {
                        lemma_gcd_symmetric(numer as nat, denom as nat);
                        lemma_lowest_terms_of_coprime(denom as nat, numer as nat);
                    }
                    match base {
                        Fraction::Rational(_, _, _) => base.pow((-exp) as UnsignedIntegerType),
                        other => other,
                    }
                } else {
                    self.pow(exp as UnsignedIntegerType)
                }
            },
            Fraction::NaN => Fraction::NaN,
            Fraction::Infinity(sign) => Fraction::Infinity(sign),
        }
    }

    /// The product of two ratios in lowest terms, unless the product of the
    /// numerators or that of the denominators does not fit.
    pub fn checked_mul(&self, other: &Fraction) -> (r: Option<Fraction>)
        requires
            self.well_formed(),
            other.well_formed(),
            self is Rational,
            other is Rational,
        ensures
            r is Some <==> self->Rational_1 * other->Rational_1 <= IntegerType::MAX
                && self->Rational_2 * other->Rational_2 <= IntegerType::MAX,
            r is Some ==> r->Some_0.well_formed() && r->Some_0 is Rational && (
                r->Some_0->Rational_0,
                r->Some_0->Rational_1 as int,
                r->Some_0->Rational_2 as int,
            ) == product_of(
                (self->Rational_0, self->Rational_1, self->Rational_2),
                (other->Rational_0, other->Rational_1, other->Rational_2),
            ),
    {
        match (*self, *other) {
            (Fraction::Rational(s1, n1, d1), Fraction::Rational(s2, n2, d2)) => {
                assert(0 <= n1 * n2 <= 0x3fff_ffff_ffff_ffff_0000_0000_0000_0001 && 0 < d1 * d2
                    <= 0x3fff_ffff_ffff_ffff_0000_0000_0000_0001) by (nonlinear_arith)
                    requires
                        0 <= n1 <= 0x7fff_ffff_ffff_ffff,
                        0 <= n2 <= 0x7fff_ffff_ffff_ffff,
                        0 < d1 <= 0x7fff_ffff_ffff_ffff,
                        0 < d2 <= 0x7fff_ffff_ffff_ffff,
                ;
                let numer: i128 = (n1 as i128) * (n2 as i128);
                let denom: i128 = (d1 as i128) * (d2 as i128);
                if numer > (IntegerType::MAX as i128) || denom > (IntegerType::MAX as i128) {
                    None
                } else {
                    let product = multiply_ratios((s1, n1, d1), (s2, n2, d2));
                    proof {
                        lemma_lowest_terms_is_coprime((n1 * n2) as nat, (d1 * d2) as nat);
                    }
                    Some(Fraction::Rational(product.0, product.1, product.2))
                }
            },
            _ => None,
        }
    }
}

/// In the middle of raising a ratio of coprime numbers to the power `exp`:
/// the product of two of its powers whose exponents together do not exceed
/// `exp` is the power of the sum, it fits, and it is in lowest terms.
pub proof fn lemma_power_step(numer: IntegerType, denom: IntegerType, a: nat, b: nat, exp: nat)
    requires
        numer >= 0,
        denom > 0,
        coprime(numer as nat, denom as nat),
        a + b <= exp,
        b >= 1,
        pow(numer as int, exp) <= IntegerType::MAX,
        pow(denom as int, exp) <= IntegerType::MAX,
    ensures
        pow(numer as int, a) * pow(numer as int, b) == pow(numer as int, a + b),
        pow(denom as int, a) * pow(denom as int, b) == pow(denom as int, a + b),
        0 <= pow(numer as int, a + b) <= IntegerType::MAX,
        0 < pow(denom as int, a + b) <= IntegerType::MAX,
        lowest_terms(pow(numer as int, a + b) as nat, pow(denom as int, a + b) as nat) == (
            pow(numer as int, a + b) as nat,
            pow(denom as int, a + b) as nat,
        ),
        forall|sign: Sign|
            (b % 2 == 0 || b == 1) ==> product_sign(
                power_sign(sign, numer as int, a),
                pow(numer as int, a),
                if b == 1 {
                    sign
                } else {
                    Sign::Plus
                },
                pow(numer as int, b),
            ) == #[trigger] power_sign(sign, numer as int, a + b),
        numer == 0 ==> pow(numer as int, b) == 0,
{
    if numer == 0 {
        vstd::arithmetic::power::lemma0_pow(b);
    }
    lemma_pow_adds(numer as int, a, b);
    lemma_pow_adds(denom as int, a, b);
    lemma_pow_nonnegative(numer as nat, a + b);
    vstd::arithmetic::power::lemma_pow_positive(denom as int, a + b);
    lemma_pow_increases(denom as nat, a + b, exp);
    if numer > 0 {
        lemma_pow_increases(numer as nat, a + b, exp);
        vstd::arithmetic::power::lemma_pow_positive(numer as int, a);
        vstd::arithmetic::power::lemma_pow_positive(numer as int, b);
    } else {
        vstd::arithmetic::power::lemma0_pow(a + b);
    }
    lemma_coprime_pow(numer as nat, denom as nat, a + b, a + b);
    lemma_lowest_terms_of_coprime(pow(numer as int, a + b) as nat, pow(denom as int, a + b) as nat);
}

} // verus!
