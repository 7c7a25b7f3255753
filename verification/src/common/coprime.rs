use super::math::{divides, gcd_spec, is_gcd, lemma_gcd_spec_is_gcd, lemma_gcd_unique};
use vstd::arithmetic::power::pow;
use vstd::prelude::*;

verus! {

/// A fraction of a numerator and a positive denominator in lowest terms:
/// both divided by their greatest common divisor.
pub open spec fn lowest_terms(numer: nat, denom: nat) -> (nat, nat) {
    (numer / gcd_spec(numer, denom), denom / gcd_spec(numer, denom))
}

/// Two numbers have no common divisor but 1.
pub open spec fn coprime(a: nat, b: nat) -> bool {
    gcd_spec(a, b) == 1
}

/// Bezout's identity: the greatest common divisor of two numbers is a sum of
/// multiples of the two. The multipliers are returned.
pub proof fn lemma_bezout(a: nat, b: nat) -> (c: (int, int))
    ensures
        a * c.0 + b * c.1 == gcd_spec(a, b),
    decreases b,
{
    if b == 0 {
        (1, 0)
    } else {
        let (x, y) = lemma_bezout(b, a % b);
        let q = (a / b) as int;
        let r = (a % b) as int;
        vstd::arithmetic::div_mod::lemma_fundamental_div_mod(a as int, b as int);
        assert(a * y + b * (x - q * y) == b * x + r * y) by (nonlinear_arith)
            requires
                a == b * q + r,
        ;
        (y, x - q * y)
    }
}

/// What divides two numbers divides every sum of multiples of the two that
/// is not negative.
pub proof fn lemma_divides_combination(d: nat, a: nat, b: nat, x: int, y: int, s: nat)
    requires
        divides(d, a),
        divides(d, b),
        a * x + b * y == s,
    ensures
        divides(d, s),
{
    let ka = choose|k: nat| a == #[trigger] (d * k);
    let kb = choose|k: nat| b == #[trigger] (d * k);
    let k = ka * x + kb * y;
    assert(d * k == s) by (nonlinear_arith)
        requires
            a == d * ka,
            b == d * kb,
            a * x + b * y == s,
            k == ka * x + kb * y,
    ;
    if d == 0 {
        assert(d * k == 0) by (nonlinear_arith)
            requires
                d == 0,
        ;
        assert(s == d * 0nat);
    } else {
        assert(k >= 0) by (nonlinear_arith)
            requires
                d * k == s,
                d > 0,
                s >= 0,
        ;
        assert(s == d * (k as nat));
    }
}

/// The greatest common divisor does not depend on the order of the two.
pub proof fn lemma_gcd_symmetric(a: nat, b: nat)
    ensures
        gcd_spec(a, b) == gcd_spec(b, a),
{
    lemma_gcd_spec_is_gcd(a, b);
    lemma_gcd_spec_is_gcd(b, a);
    lemma_gcd_unique(gcd_spec(a, b), gcd_spec(b, a), a, b);
}

/// What divides 1 is 1.
pub proof fn lemma_divides_one(d: nat)
    requires
        divides(d, 1),
    ensures
        d == 1,
{
    let k = choose|k: nat| 1nat == #[trigger] (d * k);
    assert(d == 1) by (nonlinear_arith)
        requires
            d * k == 1,
    ;
}

/// Two numbers of which some sum of multiples is 1 are coprime.
pub proof fn lemma_coprime_from_combination(a: nat, b: nat, x: int, y: int)
    requires
        a * x + b * y == 1,
    ensures
        coprime(a, b),
{
    lemma_gcd_spec_is_gcd(a, b);
    lemma_divides_combination(gcd_spec(a, b), a, b, x, y, 1);
    lemma_divides_one(gcd_spec(a, b));
}

/// A number coprime to two others is coprime to their product.
pub proof fn lemma_coprime_product(a: nat, b: nat, c: nat)
    requires
        coprime(a, b),
        coprime(a, c),
    ensures
        coprime(a, b * c),
{
    let (x1, y1) = lemma_bezout(a, b);
    let (x2, y2) = lemma_bezout(a, c);
    let x = a * x1 * x2 + x1 * c * y2 + b * y1 * x2;
    let y = y1 * y2;
    assert(a * x + (b * c) * y == 1) by (nonlinear_arith)
        requires
            a * x1 + b * y1 == 1,
            a * x2 + c * y2 == 1,
            x == a * x1 * x2 + x1 * c * y2 + b * y1 * x2,
            y == y1 * y2,
    ;
    lemma_coprime_from_combination(a, b * c, x, y);
}

/// A number coprime to another is coprime to its powers.
pub proof fn lemma_coprime_pow_right(a: nat, b: nat, j: nat)
    requires
        coprime(a, b),
    ensures
        pow(b as int, j) >= 0,
        coprime(a, pow(b as int, j) as nat),
    decreases j,
{
    reveal(pow);
    lemma_pow_nonnegative(b, j);
    if j == 0 {
        lemma_coprime_one(a);
        lemma_gcd_symmetric(a, 1);
    } else {
        lemma_pow_nonnegative(b, (j - 1) as nat);
        lemma_coprime_pow_right(a, b, (j - 1) as nat);
        lemma_coprime_product(a, b, pow(b as int, (j - 1) as nat) as nat);
    }
}

/// Powers of two coprime numbers are coprime.
pub proof fn lemma_coprime_pow(a: nat, b: nat, i: nat, j: nat)
    requires
        coprime(a, b),
    ensures
        pow(a as int, i) >= 0,
        pow(b as int, j) >= 0,
        coprime(pow(a as int, i) as nat, pow(b as int, j) as nat),
{
    lemma_coprime_pow_right(a, b, j);
    let bj = pow(b as int, j) as nat;
    lemma_gcd_symmetric(a, bj);
    lemma_coprime_pow_right(bj, a, i);
    lemma_gcd_symmetric(bj, pow(a as int, i) as nat);
}

/// A power of a number that is not negative is not negative.
pub proof fn lemma_pow_nonnegative(a: nat, e: nat)
    ensures
        pow(a as int, e) >= 0,
    decreases e,
{
    reveal(pow);
    if e > 0 {
        lemma_pow_nonnegative(a, (e - 1) as nat);
        assert(a * pow(a as int, (e - 1) as nat) >= 0) by (nonlinear_arith)
            requires
                a >= 0,
                pow(a as int, (e - 1) as nat) >= 0,
        ;
    }
}

/// 1 is coprime to every number.
pub proof fn lemma_coprime_one(b: nat)
    ensures
        coprime(1, b),
{
    lemma_coprime_from_combination(1, b, 1, 0);
}

/// A fraction of coprime numbers is in lowest terms already.
pub proof fn lemma_lowest_terms_of_coprime(numer: nat, denom: nat)
    requires
        coprime(numer, denom),
    ensures
        lowest_terms(numer, denom) == (numer, denom),
{
}

/// Taking a common factor out of both numbers takes it out of their greatest
/// common divisor.
pub proof fn lemma_gcd_common_factor(k: nat, a: nat, b: nat)
    ensures
        gcd_spec(k * a, k * b) == k * gcd_spec(a, b),
{
    let g = gcd_spec(a, b);
    lemma_gcd_spec_is_gcd(a, b);
    lemma_gcd_spec_is_gcd(k * a, k * b);
    let ka = choose|q: nat| a == #[trigger] (g * q);
    let kb = choose|q: nat| b == #[trigger] (g * q);
    assert(k * a == (k * g) * ka) by (nonlinear_arith)
        requires
            a == g * ka,
    ;
    assert(k * b == (k * g) * kb) by (nonlinear_arith)
        requires
            b == g * kb,
    ;
    let (x, y) = lemma_bezout(a, b);
    assert((k * a) * x + (k * b) * y == k * g) by (nonlinear_arith)
        requires
            a * x + b * y == g,
    ;
    assert forall|d: nat| divides(d, k * a) && divides(d, k * b) implies #[trigger] divides(
        d,
        k * g,
    ) by {
        lemma_divides_combination(d, k * a, k * b, x, y, k * g);
    }
    assert(is_gcd(k * g, k * a, k * b));
    lemma_gcd_unique(k * g, gcd_spec(k * a, k * b), k * a, k * b);
}

/// A fraction of two coprime numbers, each times the same positive factor,
/// is the fraction of the two in lowest terms.
pub proof fn lemma_lowest_terms_cancels(k: nat, numer: nat, denom: nat)
    requires
        k > 0,
        coprime(numer, denom),
    ensures
        lowest_terms(k * numer, k * denom) == (numer, denom),
{
    lemma_gcd_common_factor(k, numer, denom);
    assert(k * 1 == k);
    vstd::arithmetic::div_mod::lemma_div_multiples_vanish(numer as int, k as int);
    vstd::arithmetic::div_mod::lemma_div_multiples_vanish(denom as int, k as int);
    assert(k * numer == numer * k) by (nonlinear_arith);
    assert(k * denom == denom * k) by (nonlinear_arith);
}

/// A fraction in lowest terms is one of coprime numbers, equal in value to
/// the fraction it was made from.
pub proof fn lemma_lowest_terms_is_coprime(numer: nat, denom: nat)
    requires
        denom > 0,
    ensures
        coprime(lowest_terms(numer, denom).0, lowest_terms(numer, denom).1),
        lowest_terms(numer, denom).1 > 0,
        lowest_terms(numer, denom).0 * gcd_spec(numer, denom) == numer,
        lowest_terms(numer, denom).1 * gcd_spec(numer, denom) == denom,
{
    let g = gcd_spec(numer, denom);
    lemma_gcd_spec_is_gcd(numer, denom);
    let kn = choose|q: nat| numer == #[trigger] (g * q);
    let kd = choose|q: nat| denom == #[trigger] (g * q);
    vstd::arithmetic::div_mod::lemma_div_multiples_vanish(kn as int, g as int);
    vstd::arithmetic::div_mod::lemma_div_multiples_vanish(kd as int, g as int);
    assert(g * kn == kn * g) by (nonlinear_arith);
    assert(g * kd == kd * g) by (nonlinear_arith);
    assert(lowest_terms(numer, denom) == (kn, kd));
    lemma_gcd_common_factor(g, kn, kd);
    assert(gcd_spec(kn, kd) == 1) by (nonlinear_arith)
        requires
            g == g * gcd_spec(kn, kd),
            g > 0,
    ;
    assert(kd > 0) by (nonlinear_arith)
        requires
            denom == g * kd,
            denom > 0,
            g > 0,
    ;
}

} // verus!
