use crate::defaults::UnsignedIntegerType;
use vstd::prelude::*;

verus! {

/// `d` divides `n`: some multiple of `d` is `n`.
pub open spec fn divides(d: nat, n: nat) -> bool {
    exists|k: nat| n == #[trigger] (d * k)
}

/// `g` is the greatest common divisor of `a` and `b`: it divides both, and
/// whatever divides both divides it. Of 0 and 0 this is 0.
pub open spec fn is_gcd(g: nat, a: nat, b: nat) -> bool {
    &&& divides(g, a)
    &&& divides(g, b)
    &&& forall|d: nat| divides(d, a) && divides(d, b) ==> #[trigger] divides(d, g)
}

proof fn lemma_divides_mod(d: nat, a: nat, b: nat)
    requires
        b > 0,
        divides(d, b),
    ensures
        divides(d, a) <==> divides(d, a % b),
{
    let kb = choose|k: nat| b == #[trigger] (d * k);
    let q = a / b;
    assert(a == b * q + a % b) by {
        vstd::arithmetic::div_mod::lemma_fundamental_div_mod(a as int, b as int);
    }
    if divides(d, a) {
        let ka = choose|k: nat| a == #[trigger] (d * k);
        assert(a % b == d * ka - (d * kb) * q);
        assert((d * kb) * q == d * (kb * q)) by (nonlinear_arith);
        assert(d * ka - d * (kb * q) == d * (ka - kb * q)) by (nonlinear_arith);
        if ka < kb * q {
            assert(d * (ka - kb * q) <= 0) by (nonlinear_arith)
                requires
                    ka - kb * q < 0,
                    d >= 0,
            ;
            assert(a % b == d * 0);
        } else {
            let k = (ka - kb * q) as nat;
            assert(a % b == d * k);
        }
    }
    if divides(d, a % b) {
        let kr = choose|k: nat| a % b == #[trigger] (d * k);
        assert((d * kb) * q == d * (kb * q)) by (nonlinear_arith);
        assert(d * (kb * q) + d * kr == d * (kb * q + kr)) by (nonlinear_arith);
        assert(a == d * (kb * q + kr));
    }
}

proof fn lemma_gcd_step(g: nat, a: nat, b: nat)
    requires
        b > 0,
        is_gcd(g, b, a % b),
    ensures
        is_gcd(g, a, b),
{
    lemma_divides_mod(g, a, b);
    assert forall|d: nat| divides(d, a) && divides(d, b) implies #[trigger] divides(d, g) by {
        lemma_divides_mod(d, a, b);
    }
}

proof fn lemma_gcd_zero(a: nat)
    ensures
        is_gcd(a, a, 0),
{
    assert(a == a * 1);
    assert(0 == a * 0);
}

/// The greatest common divisor of two numbers; of 0 and 0 it is 0.
pub open spec fn gcd_spec(a: nat, b: nat) -> nat
    decreases b,
{
    if b == 0 {
        a
    } else {
        gcd_spec(b, a % b)
    }
}

/// `gcd_spec` is the greatest common divisor: it divides both numbers, and
/// whatever divides both divides it.
pub proof fn lemma_gcd_spec_is_gcd(a: nat, b: nat)
    ensures
        is_gcd(gcd_spec(a, b), a, b),
        a > 0 || b > 0 ==> gcd_spec(a, b) > 0,
    decreases b,
{
    if b == 0 {
        lemma_gcd_zero(a);
    } else {
        lemma_gcd_spec_is_gcd(b, a % b);
        lemma_gcd_step(gcd_spec(a, b), a, b);
        if gcd_spec(a, b) == 0 {
            let k = choose|k: nat| b == #[trigger] (0nat * k);
            assert(0nat * k == 0) by (nonlinear_arith);
        }
    }
}

/// The least common multiple of two numbers; with 0 it is 0.
pub open spec fn lcm_spec(a: nat, b: nat) -> nat {
    if a == 0 && b == 0 {
        0
    } else {
        a * (b / gcd_spec(a, b))
    }
}

/// The least common multiple is a multiple of both numbers, and with two
/// positive numbers it is positive.
pub proof fn lemma_lcm_spec_is_common_multiple(a: nat, b: nat)
    ensures
        divides(a, lcm_spec(a, b)),
        divides(b, lcm_spec(a, b)),
        lcm_spec(a, b) * gcd_spec(a, b) == a * b,
        a > 0 && b > 0 ==> lcm_spec(a, b) >= a && lcm_spec(a, b) >= b,
{
    if a == 0 && b == 0 {
        assert(0nat == 0nat * 0nat);
    } else {
        lemma_gcd_spec_is_gcd(a, b);
        let g = gcd_spec(a, b);
        let ka = choose|k: nat| a == #[trigger] (g * k);
        let kb = choose|k: nat| b == #[trigger] (g * k);
        assert(b / g == kb) by {
            vstd::arithmetic::div_mod::lemma_div_multiples_vanish(kb as int, g as int);
            assert(g * kb == kb * g) by (nonlinear_arith);
        }
        assert(lcm_spec(a, b) == a * kb);
        assert(a * kb == b * ka) by (nonlinear_arith)
            requires
                a == g * ka,
                b == g * kb,
        ;
        assert((a * kb) * g == a * (g * kb)) by (nonlinear_arith);
        if a > 0 && b > 0 {
            assert(ka >= 1 && kb >= 1) by (nonlinear_arith)
                requires
                    a == g * ka,
                    b == g * kb,
                    a > 0,
                    b > 0,
            ;
            assert(a * kb >= a) by (nonlinear_arith)
                requires
                    kb >= 1,
            ;
            assert(b * ka >= b) by (nonlinear_arith)
                requires
                    ka >= 1,
            ;
        }
    }
}

/// Euclidean algorithm for GCD.
pub fn gcd(a: UnsignedIntegerType, b: UnsignedIntegerType) -> (g: UnsignedIntegerType)
    ensures
        g == gcd_spec(a as nat, b as nat),
        is_gcd(g as nat, a as nat, b as nat),
        (a > 0 || b > 0) ==> g > 0,
    decreases b,
{
    proof {
        lemma_gcd_spec_is_gcd(a as nat, b as nat);
    }
    if b == 0 {
        a
    } else {
        gcd(b, a % b)
    }
}

/// LCM computed via GCD: `a / gcd(a, b) * b`. Of 0 and 0 there is none, and
/// the result must fit.
pub fn lcm(a: UnsignedIntegerType, b: UnsignedIntegerType) -> (m: UnsignedIntegerType)
    requires
        a > 0 || b > 0,
        lcm_spec(a as nat, b as nat) <= UnsignedIntegerType::MAX,
    ensures
        m == lcm_spec(a as nat, b as nat),
        m * gcd_spec(a as nat, b as nat) == a * b,
{
    let g = gcd(a, b);
    proof {
        lemma_lcm_spec_is_common_multiple(a as nat, b as nat);
        let ka = choose|k: nat| a as nat == #[trigger] (g as nat * k);
        let kb = choose|k: nat| b as nat == #[trigger] (g as nat * k);
        assert(a as nat / g as nat == ka) by {
            vstd::arithmetic::div_mod::lemma_div_multiples_vanish(ka as int, g as int);
            assert(g as nat * ka == ka * g as nat) by (nonlinear_arith);
        }
        assert(b as nat / g as nat == kb) by {
            vstd::arithmetic::div_mod::lemma_div_multiples_vanish(kb as int, g as int);
            assert(g as nat * kb == kb * g as nat) by (nonlinear_arith);
        }
        assert(ka * b == a * kb) by (nonlinear_arith)
            requires
                a == g * ka,
                b == g * kb,
        ;
    }
    a / g * b
}

/// Two greatest common divisors of the same numbers are the same number.
pub proof fn lemma_gcd_unique(g: nat, h: nat, a: nat, b: nat)
    requires
        is_gcd(g, a, b),
        is_gcd(h, a, b),
    ensures
        g == h,
{
    assert(divides(g, h));
    assert(divides(h, g));
    let k1 = choose|k: nat| h == #[trigger] (g * k);
    let k2 = choose|k: nat| g == #[trigger] (h * k);
    if g == 0 {
        assert(0nat * k1 == 0) by (nonlinear_arith);
    } else if h == 0 {
        assert(0nat * k2 == 0) by (nonlinear_arith);
    } else {
        assert(k1 >= 1 && k2 >= 1) by (nonlinear_arith)
            requires
                h == g * k1,
                g == h * k2,
                g > 0,
                h > 0,
        ;
        assert(h >= g) by (nonlinear_arith)
            requires
                h == g * k1,
                k1 >= 1,
        ;
        assert(g >= h) by (nonlinear_arith)
            requires
                g == h * k2,
                k2 >= 1,
        ;
    }
}

/// The quotient of `a` by a positive `b`, rounded down.
pub fn floor_div(a: i128, b: i128) -> (q: i128)
    requires
        b > 0,
    ensures
        q == (a as int) / (b as int),
{
    if a >= 0 {
        a / b
    } else {
        let t = (-(a + 1)) / b;
        proof {
            let n = -(a + 1) as int;
            vstd::arithmetic::div_mod::lemma_fundamental_div_mod(n, b as int);
            let r = n % (b as int);
            assert(n == b * t + r);
            assert(a as int == (-t - 1) * b + (b - 1 - r)) by (nonlinear_arith)
                requires
                    n == -(a + 1),
                    n == b * t + r,
            ;
            vstd::arithmetic::div_mod::lemma_fundamental_div_mod_converse(
                a as int,
                b as int,
                -t - 1,
                b - 1 - r,
            );
        }
        -t - 1
    }
}

/// The remainder of `a` by a positive `b`, from 0 up to `b`.
pub fn floor_mod(a: i128, b: i128) -> (m: i128)
    requires
        b > 0,
    ensures
        m == (a as int) % (b as int),
        0 <= m < b,
{
    if a >= 0 {
        a % b
    } else {
        let r = (-(a + 1)) % b;
        proof {
            let n = -(a + 1) as int;
            let t = n / (b as int);
            vstd::arithmetic::div_mod::lemma_fundamental_div_mod(n, b as int);
            assert(n == b * t + r);
            assert(a as int == (-t - 1) * b + (b - 1 - r)) by (nonlinear_arith)
                requires
                    n == -(a + 1),
                    n == b * t + r,
            ;
            vstd::arithmetic::div_mod::lemma_fundamental_div_mod_converse(
                a as int,
                b as int,
                -t - 1,
                b - 1 - r,
            );
        }
        b - 1 - r
    }
}

} // verus!
