use vstd::prelude::*;
use vstd::arithmetic::div_mod::{lemma_fundamental_div_mod, lemma_mod_multiples_basic, lemma_small_mod};
use num::Integer;

verus! {

/// `d` divides `n`. Zero divides only zero.
pub open spec fn divides(d: nat, n: nat) -> bool {
    if d == 0 {
        n == 0
    } else {
        n % d == 0
    }
}

/// Greatest common divisor by Euclid's algorithm, with `gcd(a, 0) == a`
/// and `gcd(0, b) == b`.
pub open spec fn gcd(a: nat, b: nat) -> nat
    decreases b,
{
    if b == 0 {
        a
    } else {
        gcd(b, a % b)
    }
}

proof fn lemma_multiple_mod(d: int, k: int)
    requires
        d > 0,
    ensures
        (d * k) % d == 0,
{
    assert(d * k == k * d) by (nonlinear_arith);
    lemma_mod_multiples_basic(k, d);
}

/// `gcd(a, b)` divides both `a` and `b`.
pub proof fn lemma_gcd_divides(a: nat, b: nat)
    ensures
        divides(gcd(a, b), a),
        divides(gcd(a, b), b),
    decreases b,
{
    if b == 0 {
        if a > 0 {
            lemma_multiple_mod(a as int, 1);
            lemma_multiple_mod(a as int, 0);
        }
    } else {
        let r = a % b;
        lemma_gcd_divides(b, r);
        let g = gcd(b, r);
        lemma_fundamental_div_mod(a as int, b as int);
        if g == 0 {
            assert(b == 0);
        } else {
            let y = b as int / g as int;
            let z = r as int / g as int;
            lemma_fundamental_div_mod(b as int, g as int);
            lemma_fundamental_div_mod(r as int, g as int);
            let q = a as int / b as int;
            assert(a as int == g * (y * q + z)) by (nonlinear_arith)
                requires
                    a as int == b * q + r,
                    b as int == g * y,
                    r as int == g * z,
            ;
            lemma_multiple_mod(g as int, y * q + z);
        }
    }
}

/// Every common divisor of `a` and `b` divides `gcd(a, b)`.
pub proof fn lemma_gcd_greatest(a: nat, b: nat, d: nat)
    requires
        divides(d, a),
        divides(d, b),
    ensures
        divides(d, gcd(a, b)),
    decreases b,
{
    if b != 0 {
        let r = a % b;
        lemma_fundamental_div_mod(a as int, b as int);
        let q = a as int / b as int;
        if d == 0 {
            assert(false);
        } else {
            lemma_fundamental_div_mod(a as int, d as int);
            lemma_fundamental_div_mod(b as int, d as int);
            let x = a as int / d as int;
            let y = b as int / d as int;
            assert(r as int == d * (x - y * q)) by (nonlinear_arith)
                requires
                    a as int == b * q + r,
                    a as int == d * x,
                    b as int == d * y,
            ;
            assert(x - y * q >= 0) by (nonlinear_arith)
                requires
                    r as int == d * (x - y * q),
                    r >= 0,
                    d > 0,
            ;
            lemma_multiple_mod(d as int, x - y * q);
        }
        lemma_gcd_greatest(b, r, d);
    }
}

/// A positive value is at least each of its divisors.
pub proof fn lemma_divisor_le(d: nat, n: nat)
    requires
        n > 0,
        divides(d, n),
    ensures
        d <= n,
{
    if d > n {
        lemma_small_mod(n, d);
    }
}

/// Relies on `num::Integer::gcd` for `u32` (Stein's algorithm in num-integer):
/// the greatest common divisor, which is the other argument when one is zero.
#[verifier::external_body]
fn integer_gcd(x: u32, y: u32) -> (r: u32)
    ensures
        r as nat == gcd(x as nat, y as nat),
{
    x.gcd(&y)
}

/// Greatest common divisor in which zero stands for "no constraint":
/// `maybe_gcd(0, y) == y` and `maybe_gcd(x, 0) == x`.
pub fn maybe_gcd(x: u32, y: u32) -> (r: u32)
    ensures
        r as nat == gcd(x as nat, y as nat),
        x == 0 ==> r == y,
        y == 0 ==> r == x,
{
    if x == 0 {
        if y == 0 {
            0
        } else {
            assert(gcd(y as nat, 0) == y);
            y
        }
    } else {
        if y == 0 {
            x
        } else {
            integer_gcd(x, y)
        }
    }
}

} // verus!
