//! Facts about residues that the laws of the engine rest on.

use vstd::prelude::*;
use vstd::arithmetic::div_mod::{
    lemma_add_mod_noop,
    lemma_add_mod_noop_right,
    lemma_fundamental_div_mod,
    lemma_mod_multiples_basic,
    lemma_mod_multiples_vanish,
    lemma_mul_mod_noop_general,
    lemma_small_mod,
};
use crate::field::{add_mod, is_prime, mul_mod, neg_mod};

verus! {

/// Congruent summands give the same field sum.
pub proof fn lemma_add_mod_congruent(a: int, b: int, c: int, d: int, p: int)
    requires
        p > 0,
        a % p == c % p,
        b % p == d % p,
    ensures
        (a + b) % p == (c + d) % p,
{
    lemma_add_mod_noop(a, b, p);
    lemma_add_mod_noop(c, d, p);
}

/// A residue plus its additive inverse is zero.
pub proof fn lemma_neg_mod_cancels(a: nat, p: nat)
    requires
        p > 0,
    ensures
        neg_mod(a, p) < p,
        add_mod(a, neg_mod(a, p), p) == 0,
        (neg_mod(a, p) + a) % p == 0,
{
    let pi = p as int;
    let r = (a % p) as int;
    let n = neg_mod(a, p) as int;
    assert(0 <= r < pi);
    assert(n == (pi - r) % pi);
    lemma_add_mod_noop_right(a as int, pi - r, pi);
    assert((a + n) % pi == (a + (pi - r)) % pi);
    lemma_fundamental_div_mod(a as int, pi);
    let q = (a as int) / pi;
    assert(a + (pi - r) == pi * (q + 1)) by (nonlinear_arith)
        requires
            a == pi * q + r,
    ;
    lemma_mod_multiples_vanish(q + 1, 0, pi);
    assert((pi * (q + 1) + 0) % pi == 0) by {
        lemma_small_mod(0, p);
    }
}

/// Multiplying by the inverse of one negates: `(p - 1) * x` is congruent to
/// `-x`.
pub proof fn lemma_neg_one_times(x: nat, p: nat)
    requires
        p > 1,
    ensures
        neg_mod(1, p) == p - 1,
        (mul_mod(neg_mod(1, p), x, p) + x) % p == 0,
        mul_mod(x, neg_mod(1, p), p) == mul_mod(neg_mod(1, p), x, p),
{
    let pi = p as int;
    lemma_small_mod(1, p);
    lemma_small_mod((p - 1) as nat, p);
    assert(neg_mod(1, p) == p - 1);
    let m = mul_mod(neg_mod(1, p), x, p) as int;
    assert(m == ((pi - 1) * x) % pi);
    lemma_add_mod_noop_right(x as int, (pi - 1) * x, pi);
    assert((x + m) % pi == (x + (pi - 1) * x) % pi);
    assert(x + (pi - 1) * x == x * pi) by (nonlinear_arith);
    lemma_mod_multiples_basic(x as int, pi);
    assert(x * (p - 1) == (p - 1) * x) by (nonlinear_arith);
}

/// A prime that divides a product of a residue and a number divides one of
/// the two. Stated for a left factor below the prime.
proof fn lemma_prime_divides_product_reduced(p: nat, a: nat, b: nat)
    requires
        is_prime(p),
        a < p,
        (a * b) % p == 0,
    ensures
        a == 0 || b % p == 0,
    decreases a,
{
    let pi = p as int;
    if a == 0 {
    } else if a == 1 {
        assert(a * b == b) by (nonlinear_arith)
            requires
                a == 1,
        ;
    } else {
        let q = pi / (a as int);
        let r = pi % (a as int);
        lemma_fundamental_div_mod(pi, a as int);
        assert(pi == (a as int) * q + r);
        assert(0 <= r < a);
        if r == 0 {
            assert(p % a == 0);
            assert(false);
        } else {
            // r * b = p * b - q * (a * b), and p divides both parts.
            let m = ((a * b) as int) / pi;
            lemma_fundamental_div_mod((a * b) as int, pi);
            assert(a * b == pi * m);
            assert(r * b == pi * (b - q * m)) by (nonlinear_arith)
                requires
                    pi == (a as int) * q + r,
                    a * b == pi * m,
            ;
            lemma_mod_multiples_vanish(b - q * m, 0, pi);
            lemma_small_mod(0, p);
            assert((r * b) % pi == 0);
            lemma_prime_divides_product_reduced(p, r as nat, b);
        }
    }
}

/// A prime that divides a product divides one of the factors.
pub proof fn lemma_prime_divides_product(p: nat, a: nat, b: nat)
    requires
        is_prime(p),
        (a * b) % p == 0,
    ensures
        a % p == 0 || b % p == 0,
{
    let pi = p as int;
    let a0 = a % p;
    lemma_mul_mod_noop_general(a as int, b as int, pi);
    assert((a0 * b) % p == 0);
    lemma_prime_divides_product_reduced(p, a0, b);
}

/// In a prime field a product of residues is zero only where a factor is.
pub proof fn lemma_no_zero_divisors(p: nat, a: nat, b: nat)
    requires
        is_prime(p),
        a < p,
        b < p,
    ensures
        mul_mod(a, b, p) == 0 <==> (a == 0 || b == 0),
{
    lemma_small_mod(a, p);
    lemma_small_mod(b, p);
    lemma_small_mod(0, p);
    if mul_mod(a, b, p) == 0 {
        lemma_prime_divides_product(p, a, b);
    }
    if a == 0 || b == 0 {
        assert(a * b == 0) by (nonlinear_arith)
            requires
                a == 0 || b == 0,
        ;
    }
}

} // verus!
