//! Divisibility, congruences and products of moduli: the facts that the
//! solver of simultaneous congruences rests on.

use crate::arithmetic::{has_inverse_mod, is_inverse_mod};
use crate::bigint::{abs_int, trunc_rem};
use vstd::arithmetic::div_mod::{
    lemma_fundamental_div_mod, lemma_fundamental_div_mod_converse, lemma_mod_bound,
    lemma_mod_equivalence, lemma_mod_multiples_basic, lemma_mod_multiples_vanish,
    lemma_mul_mod_noop_right, lemma_small_mod,
};
use vstd::prelude::*;

verus! {

/// Product of all the numbers of a sequence; 1 for the empty sequence.
pub open spec fn product(s: Seq<int>) -> int
    decreases s.len(),
{
    if s.len() == 0 {
        1
    } else {
        product(s.drop_last()) * s.last()
    }
}

/// Product of all the numbers of a sequence but the one at index `i`.
pub open spec fn product_except(s: Seq<int>, i: int) -> int
    decreases s.len(),
{
    if s.len() == 0 {
        1
    } else if i == s.len() - 1 {
        product(s.drop_last())
    } else {
        product_except(s.drop_last(), i) * s.last()
    }
}

/// Every number of the sequence is positive.
pub open spec fn all_positive(s: Seq<int>) -> bool {
    forall|i: int| 0 <= i < s.len() ==> s[i] > 0
}

/// `a` and `b` leave the same remainder modulo `m`.
pub open spec fn congruent(a: int, b: int, m: int) -> bool {
    (a - b) % m == 0
}

/// A multiple of `d` is `d` times its quotient.
pub proof fn lemma_multiple_witness(x: int, d: int)
    requires
        d > 0,
        x % d == 0,
    ensures
        x == d * (x / d),
{
    lemma_fundamental_div_mod(x, d);
}

/// `d * k` is a multiple of `d`.
pub proof fn lemma_multiple_of(d: int, k: int)
    requires
        d > 0,
    ensures
        (d * k) % d == 0,
        (k * d) % d == 0,
{
    lemma_mod_multiples_basic(k, d);
    assert(d * k == k * d) by (nonlinear_arith);
}

/// Sums and differences of multiples of `d` are multiples of `d`.
pub proof fn lemma_multiple_add(a: int, b: int, d: int)
    requires
        d > 0,
        a % d == 0,
        b % d == 0,
    ensures
        (a + b) % d == 0,
        (a - b) % d == 0,
{
    lemma_multiple_witness(a, d);
    lemma_multiple_witness(b, d);
    let qa = a / d;
    let qb = b / d;
    assert(a + b == d * (qa + qb)) by (nonlinear_arith)
        requires
            a == d * qa,
            b == d * qb,
    ;
    assert(a - b == d * (qa - qb)) by (nonlinear_arith)
        requires
            a == d * qa,
            b == d * qb,
    ;
    lemma_multiple_of(d, qa + qb);
    lemma_multiple_of(d, qa - qb);
}

/// A multiple of `d` times anything is a multiple of `d`.
pub proof fn lemma_multiple_mul(a: int, k: int, d: int)
    requires
        d > 0,
        a % d == 0,
    ensures
        (a * k) % d == 0,
        (k * a) % d == 0,
{
    lemma_multiple_witness(a, d);
    let q = a / d;
    assert(a * k == d * (q * k)) by (nonlinear_arith)
        requires
            a == d * q,
    ;
    assert(k * a == a * k) by (nonlinear_arith);
    lemma_multiple_of(d, q * k);
}

/// A product of positive numbers is positive.
pub proof fn lemma_product_positive(s: Seq<int>)
    requires
        all_positive(s),
    ensures
        product(s) > 0,
    decreases s.len(),
{
    if s.len() > 0 {
        lemma_product_positive(s.drop_last());
        assert(product(s.drop_last()) * s.last() > 0) by (nonlinear_arith)
            requires
                product(s.drop_last()) > 0,
                s.last() > 0,
        ;
    }
}

/// The product is the number at `i` times the product of the others.
pub proof fn lemma_product_split(s: Seq<int>, i: int)
    requires
        0 <= i < s.len(),
    ensures
        product(s) == s[i] * product_except(s, i),
    decreases s.len(),
{
    if i == s.len() - 1 {
        assert(product(s.drop_last()) * s.last() == s.last() * product(s.drop_last()))
            by (nonlinear_arith);
    } else {
        lemma_product_split(s.drop_last(), i);
        let rest = product_except(s.drop_last(), i);
        assert((s[i] * rest) * s.last() == s[i] * (rest * s.last())) by (nonlinear_arith);
    }
}

/// Every number of a sequence of positive numbers divides the product.
pub proof fn lemma_product_multiple(s: Seq<int>, j: int)
    requires
        all_positive(s),
        0 <= j < s.len(),
    ensures
        product(s) % s[j] == 0,
{
    lemma_product_split(s, j);
    lemma_multiple_of(s[j], product_except(s, j));
}

/// The product of the others is positive.
pub proof fn lemma_product_except_positive(s: Seq<int>, i: int)
    requires
        all_positive(s),
        0 <= i < s.len(),
    ensures
        product_except(s, i) > 0,
    decreases s.len(),
{
    if i == s.len() - 1 {
        lemma_product_positive(s.drop_last());
    } else {
        lemma_product_except_positive(s.drop_last(), i);
        assert(product_except(s.drop_last(), i) * s.last() > 0) by (nonlinear_arith)
            requires
                product_except(s.drop_last(), i) > 0,
                s.last() > 0,
        ;
    }
}

/// Every other number divides the product of the others.
pub proof fn lemma_product_except_multiple(s: Seq<int>, i: int, j: int)
    requires
        all_positive(s),
        0 <= i < s.len(),
        0 <= j < s.len(),
        i != j,
    ensures
        product_except(s, i) % s[j] == 0,
    decreases s.len(),
{
    if i == s.len() - 1 {
        lemma_product_multiple(s.drop_last(), j);
    } else if j == s.len() - 1 {
        lemma_multiple_of(s.last(), product_except(s.drop_last(), i));
    } else {
        lemma_product_except_multiple(s.drop_last(), i, j);
        lemma_multiple_mul(product_except(s.drop_last(), i), s.last(), s[j]);
    }
}

/// Dividing the product by one of its numbers leaves the product of the
/// others.
pub proof fn lemma_product_div(s: Seq<int>, i: int)
    requires
        all_positive(s),
        0 <= i < s.len(),
    ensures
        product(s) / s[i] == product_except(s, i),
{
    lemma_product_split(s, i);
    let rest = product_except(s, i);
    assert(product(s) == rest * s[i] + 0) by (nonlinear_arith)
        requires
            product(s) == s[i] * rest,
    ;
    lemma_fundamental_div_mod_converse(product(s), s[i], rest, 0);
}

/// The truncated remainder modulo `n` is congruent to the dividend modulo
/// every divisor of `n`, and smaller than `n` in absolute value.
pub proof fn lemma_trunc_rem_congruent(x: int, n: int, d: int)
    requires
        n > 0,
        d > 0,
        n % d == 0,
    ensures
        congruent(trunc_rem(x, n), x, d),
        abs_int(trunc_rem(x, n)) < n,
        x >= 0 ==> trunc_rem(x, n) >= 0,
{
    let a = abs_int(x);
    lemma_fundamental_div_mod(a, n);
    lemma_mod_bound(a, n);
    let q = a / n;
    lemma_multiple_mul(n, q, d);
    lemma_multiple_mul(n, -q, d);
    if x >= 0 {
        assert(trunc_rem(x, n) - x == n * (-q)) by (nonlinear_arith)
            requires
                trunc_rem(x, n) == a % n,
                a == x,
                a == n * q + a % n,
        ;
    } else {
        assert(trunc_rem(x, n) - x == n * q) by (nonlinear_arith)
            requires
                trunc_rem(x, n) == -(a % n),
                a == -x,
                a == n * q + a % n,
        ;
    }
}

/// Congruence is transitive, and sums of congruent numbers are congruent.
pub proof fn lemma_congruent_add(a: int, b: int, c: int, e: int, m: int)
    requires
        m > 0,
        congruent(a, b, m),
        congruent(c, e, m),
    ensures
        congruent(a + c, b + e, m),
{
    lemma_multiple_add(a - b, c - e, m);
    assert((a + c) - (b + e) == (a - b) + (c - e));
}

pub proof fn lemma_congruent_trans(a: int, b: int, c: int, m: int)
    requires
        m > 0,
        congruent(a, b, m),
        congruent(b, c, m),
    ensures
        congruent(a, c, m),
{
    lemma_multiple_add(a - b, b - c, m);
    assert(a - c == (a - b) + (b - c));
}

/// A residue times a number and its inverse is congruent to the residue.
pub proof fn lemma_inverse_term(a: int, big: int, inv: int, m: int)
    requires
        m > 0,
        (big * inv) % m == 1int % m,
    ensures
        congruent(a * big * inv, a, m),
{
    lemma_mod_equivalence(big * inv, 1, m);
    lemma_multiple_mul(big * inv - 1, a, m);
    assert(a * big * inv - a == a * (big * inv - 1)) by (nonlinear_arith);
}

/// The greatest common divisor, by Euclid's algorithm.
pub open spec fn gcd(a: nat, b: nat) -> nat
    decreases b,
{
    if b == 0 {
        a
    } else {
        gcd(b, a % b)
    }
}

/// `p` is a prime number.
pub open spec fn is_prime(p: int) -> bool {
    p >= 2 && forall|d: int| 1 < d < p ==> #[trigger] (p % d) != 0
}

/// The greatest common divisor of two numbers that are not both zero is
/// positive and divides both.
pub proof fn lemma_gcd_divides(a: nat, b: nat)
    requires
        a > 0 || b > 0,
    ensures
        gcd(a, b) > 0,
        a % gcd(a, b) == 0,
        b % gcd(a, b) == 0,
    decreases b,
{
    if b == 0 {
        vstd::arithmetic::div_mod::lemma_mod_self_0(a as int);
        lemma_small_mod(0, a);
    } else {
        let r = a % b;
        lemma_mod_bound(a as int, b as int);
        lemma_gcd_divides(b, r);
        let g = gcd(b, r) as int;
        lemma_fundamental_div_mod(a as int, b as int);
        lemma_multiple_mul(b as int, a as int / b as int, g);
        lemma_multiple_add(b as int * (a as int / b as int), r as int, g);
    }
}

/// Bezout's identity: the greatest common divisor is a combination of the
/// two numbers. The coefficients are returned.
pub proof fn lemma_bezout(a: nat, b: nat) -> (r: (int, int))
    ensures
        a * r.0 + b * r.1 == gcd(a, b),
    decreases b,
{
    if b == 0 {
        (1, 0)
    } else {
        let rest = a % b;
        let q = a as int / b as int;
        lemma_mod_bound(a as int, b as int);
        let (x, y) = lemma_bezout(b, rest);
        lemma_fundamental_div_mod(a as int, b as int);
        assert(a * y + b * (x - q * y) == b * x + rest * y) by (nonlinear_arith)
            requires
                a == b * q + rest,
        ;
        (y, x - q * y)
    }
}

/// A number that is coprime to the modulus has an inverse.
pub proof fn lemma_coprime_has_inverse(a: nat, m: nat)
    requires
        m > 0,
        gcd(a, m) == 1,
    ensures
        has_inverse_mod(a as int, m as int),
{
    let (x, y) = lemma_bezout(a, m);
    let inverse = x % (m as int);
    lemma_mod_bound(x, m as int);
    lemma_mul_mod_noop_right(a as int, x, m as int);
    lemma_mod_multiples_vanish(y, a * x, m as int);
    assert(m * y + a * x == 1);
    assert(is_inverse_mod(a as int, inverse, m as int));
}

/// A number that has an inverse is coprime to the modulus.
pub proof fn lemma_inverse_is_coprime(a: nat, m: nat)
    requires
        m > 0,
        has_inverse_mod(a as int, m as int),
    ensures
        gcd(a, m) == 1,
{
    let x = choose|x: int| is_inverse_mod(a as int, x, m as int);
    lemma_gcd_divides(a, m);
    let g = gcd(a, m) as int;
    if m > 1 {
        // a * x is 1 more than a multiple of m, so what divides a and m divides 1.
        lemma_small_mod(1, m);
        lemma_fundamental_div_mod(a * x, m as int);
        let k = (a * x) / (m as int);
        lemma_multiple_mul(a as int, x, g);
        lemma_multiple_mul(m as int, k, g);
        lemma_multiple_add(a * x, m * k, g);
        assert(a * x - m * k == 1);
        if g > 1 {
            lemma_small_mod(1, g as nat);
        }
    } else {
        lemma_small_mod(0, 1);
        assert(1nat % (g as nat) == 0);
        if g > 1 {
            lemma_small_mod(1, g as nat);
        }
    }
}

/// A number has an inverse exactly if it is coprime to the modulus.
pub proof fn lemma_inverse_iff_coprime(a: nat, m: nat)
    requires
        m > 0,
    ensures
        has_inverse_mod(a as int, m as int) <==> gcd(a, m) == 1,
{
    if has_inverse_mod(a as int, m as int) {
        lemma_inverse_is_coprime(a, m);
    }
    if gcd(a, m) == 1 {
        lemma_coprime_has_inverse(a, m);
    }
}

/// A number that a prime does not divide is coprime to it.
pub proof fn lemma_prime_coprime(a: nat, p: nat)
    requires
        is_prime(p as int),
        a % p != 0,
    ensures
        gcd(a, p) == 1,
{
    lemma_gcd_divides(a, p);
    let g = gcd(a, p) as int;
    if g != 1 {
        lemma_multiple_witness(p as int, g);
        let k = p as int / g;
        assert(k >= 1 && g <= p) by (nonlinear_arith)
            requires
                p == g * k,
                p >= 2,
                g > 0,
        ;
        if g < p {
            assert(p as int % g != 0);
        } else {
            assert(a % p == 0);
        }
    }
}

/// Two different primes have an inverse modulo each other.
pub proof fn lemma_distinct_primes_invertible(p: int, q: int)
    requires
        is_prime(p),
        is_prime(q),
        p != q,
    ensures
        has_inverse_mod(p, q),
        has_inverse_mod(q, p),
{
    assert(q % p != 0) by {
        if p < q {
            assert(q % p != 0);
        } else {
            lemma_small_mod(q as nat, p as nat);
        }
    }
    assert(p % q != 0) by {
        if q < p {
            assert(p % q != 0);
        } else {
            lemma_small_mod(p as nat, q as nat);
        }
    }
    lemma_prime_coprime(q as nat, p as nat);
    lemma_prime_coprime(p as nat, q as nat);
    lemma_coprime_has_inverse(q as nat, p as nat);
    lemma_coprime_has_inverse(p as nat, q as nat);
}

/// One has an inverse modulo every positive number.
pub proof fn lemma_one_has_inverse(m: int)
    requires
        m > 0,
    ensures
        has_inverse_mod(1, m),
{
    if m == 1 {
        assert(is_inverse_mod(1, 0, m));
    } else {
        lemma_small_mod(1, m as nat);
        assert(is_inverse_mod(1, 1, m));
    }
}

/// The product of two numbers with an inverse has an inverse.
pub proof fn lemma_inverse_product(a: int, b: int, m: int)
    requires
        m > 0,
        has_inverse_mod(a, m),
        has_inverse_mod(b, m),
    ensures
        has_inverse_mod(a * b, m),
{
    let x = choose|x: int| is_inverse_mod(a, x, m);
    let y = choose|y: int| is_inverse_mod(b, y, m);
    let z = (x * y) % m;
    lemma_mod_bound(x * y, m);
    lemma_mul_mod_noop_right(a * b, x * y, m);
    vstd::arithmetic::div_mod::lemma_mul_mod_noop(a * x, b * y, m);
    assert((a * b) * (x * y) == (a * x) * (b * y)) by (nonlinear_arith);
    let u = (a * x) % m;
    let v = (b * y) % m;
    assert((u * v) % m == 1int % m) by {
        if m == 1 {
            assert(u == 0 && v == 0);
            assert(u * v == 0) by (nonlinear_arith)
                requires
                    u == 0,
            ;
        } else {
            lemma_small_mod(1, m as nat);
            assert(u == 1 && v == 1);
            assert(u * v == 1) by (nonlinear_arith)
                requires
                    u == 1,
                    v == 1,
            ;
        }
    }
    assert(((a * b) * z) % m == 1int % m);
    assert(is_inverse_mod(a * b, z, m));
}

/// A product of numbers that all have an inverse has an inverse.
pub proof fn lemma_product_invertible(s: Seq<int>, m: int)
    requires
        m > 0,
        forall|j: int| 0 <= j < s.len() ==> has_inverse_mod(#[trigger] s[j], m),
    ensures
        has_inverse_mod(product(s), m),
    decreases s.len(),
{
    if s.len() == 0 {
        lemma_one_has_inverse(m);
    } else {
        let init = s.drop_last();
        assert forall|j: int| 0 <= j < init.len() implies has_inverse_mod(
            #[trigger] init[j],
            m,
        ) by {
            assert(init[j] == s[j]);
        }
        lemma_product_invertible(init, m);
        assert(has_inverse_mod(s[s.len() - 1], m));
        lemma_inverse_product(product(init), s.last(), m);
    }
}

/// The product of all numbers but one has an inverse where each of them
/// has.
pub proof fn lemma_product_except_invertible(s: Seq<int>, i: int, m: int)
    requires
        m > 0,
        0 <= i < s.len(),
        forall|j: int| 0 <= j < s.len() && j != i ==> has_inverse_mod(#[trigger] s[j], m),
    ensures
        has_inverse_mod(product_except(s, i), m),
    decreases s.len(),
{
    let init = s.drop_last();
    if i == s.len() - 1 {
        assert forall|j: int| 0 <= j < init.len() implies has_inverse_mod(
            #[trigger] init[j],
            m,
        ) by {
            assert(init[j] == s[j]);
        }
        lemma_product_invertible(init, m);
    } else {
        assert forall|j: int| 0 <= j < init.len() && j != i implies has_inverse_mod(
            #[trigger] init[j],
            m,
        ) by {
            assert(init[j] == s[j]);
        }
        lemma_product_except_invertible(init, i, m);
        assert(has_inverse_mod(s[s.len() - 1], m));
        lemma_inverse_product(product_except(init, i), s.last(), m);
    }
}

/// Every modulus has an inverse modulo every other one.
pub open spec fn pairwise_coprime(moduli: Seq<int>) -> bool {
    forall|i: int, j: int|
        0 <= i < moduli.len() && 0 <= j < moduli.len() && i != j ==> has_inverse_mod(
            #[trigger] moduli[j],
            #[trigger] moduli[i],
        )
}

/// With moduli that are coprime in pairs, the product of all the others has
/// an inverse modulo each.
pub proof fn lemma_pairwise_coprime(moduli: Seq<int>, i: int)
    requires
        all_positive(moduli),
        pairwise_coprime(moduli),
        0 <= i < moduli.len(),
    ensures
        has_inverse_mod(product_except(moduli, i), moduli[i]),
{
    lemma_product_except_invertible(moduli, i, moduli[i]);
}

/// What two coprime numbers both divide, their product divides.
pub proof fn lemma_coprime_product_divides(a: int, b: int, d: int)
    requires
        a > 0,
        b > 0,
        has_inverse_mod(a, b),
        d % a == 0,
        d % b == 0,
    ensures
        d % (a * b) == 0,
{
    assert(a * b > 0) by (nonlinear_arith)
        requires
            a > 0,
            b > 0,
    ;
    let x = choose|x: int| is_inverse_mod(a, x, b);
    lemma_multiple_witness(d, a);
    lemma_multiple_witness(d, b);
    let u = d / a;
    let v = d / b;
    if b == 1 {
        assert(a * b == a);
    } else {
        // a * x is 1 more than a multiple of b.
        lemma_small_mod(1, b as nat);
        lemma_fundamental_div_mod(a * x, b);
        let k = (a * x) / b;
        assert(d == (a * b) * (v * x - u * k)) by (nonlinear_arith)
            requires
                a * x == b * k + 1,
                d == a * u,
                d == b * v,
        ;
        lemma_multiple_of(a * b, v * x - u * k);
    }
}

/// What every one of several moduli divides that are coprime in pairs,
/// their product divides.
pub proof fn lemma_pairwise_coprime_product_divides(moduli: Seq<int>, d: int)
    requires
        all_positive(moduli),
        pairwise_coprime(moduli),
        forall|i: int| 0 <= i < moduli.len() ==> d % #[trigger] moduli[i] == 0,
    ensures
        d % product(moduli) == 0,
    decreases moduli.len(),
{
    if moduli.len() == 0 {
        lemma_small_mod(0, 1);
        assert(d % 1 == 0);
    } else {
        let init = moduli.drop_last();
        let last = moduli.last();
        assert forall|i: int, j: int|
            0 <= i < init.len() && 0 <= j < init.len() && i != j implies has_inverse_mod(
            #[trigger] init[j],
            #[trigger] init[i],
        ) by {
            assert(init[i] == moduli[i] && init[j] == moduli[j]);
        }
        assert forall|i: int| 0 <= i < init.len() implies d % #[trigger] init[i] == 0 by {
            assert(init[i] == moduli[i]);
        }
        lemma_pairwise_coprime_product_divides(init, d);
        assert forall|j: int| 0 <= j < init.len() implies has_inverse_mod(
            #[trigger] init[j],
            last,
        ) by {
            assert(init[j] == moduli[j]);
            assert(has_inverse_mod(moduli[j], moduli[moduli.len() - 1]));
        }
        lemma_product_invertible(init, last);
        lemma_product_positive(init);
        assert(d % moduli[moduli.len() - 1] == 0);
        lemma_coprime_product_divides(product(init), last, d);
    }
}

/// The solution of a system of congruences is unique: two numbers in
/// `[0, product)` that are congruent modulo each of several moduli that are
/// coprime in pairs are the same.
pub proof fn lemma_crt_unique(moduli: Seq<int>, x: int, y: int)
    requires
        all_positive(moduli),
        pairwise_coprime(moduli),
        0 <= x < product(moduli),
        0 <= y < product(moduli),
        forall|i: int| 0 <= i < moduli.len() ==> congruent(x, y, #[trigger] moduli[i]),
    ensures
        x == y,
{
    let n = product(moduli);
    lemma_pairwise_coprime_product_divides(moduli, x - y);
    lemma_multiple_witness(x - y, n);
    let k = (x - y) / n;
    assert(k == 0) by (nonlinear_arith)
        requires
            x - y == n * k,
            -n < x - y < n,
            n > 0,
    ;
}

} // verus!
