//! Generators of cyclic groups, the solver of simultaneous congruences and a
//! subset test on sorted collections.

use crate::arithmetic::has_inverse_mod;
use crate::bigint::{abs_int, trunc_div, BigInt};
use crate::error::KeygenError;
use crate::number_theory::{
    all_positive, congruent, lemma_congruent_add, lemma_congruent_trans, lemma_inverse_term,
    lemma_multiple_add, lemma_multiple_mul, lemma_product_div, lemma_product_except_multiple,
    lemma_product_except_positive, lemma_product_multiple, lemma_product_positive,
    lemma_trunc_rem_congruent, product, product_except,
};
use vstd::arithmetic::power::pow;
use vstd::multiset::Multiset;
use vstd::prelude::*;
use vstd::std_specs::cmp::PartialEqSpec;

verus! {

/// How often a sampler draws again before it gives up.
pub const MAX_ITERATIONS_IN_REJECTION_SAMPLING: usize = 256;

/// Modular exponentiation with a secret exponent.
///
/// Implementations are expected to take time that does not depend on the
/// exponent; nothing here checks that they do.
pub trait Powm: Sized {
    /// The inputs on which the power is defined.
    spec fn powm_defined(&self, exponent: &Self, modulus: &Self) -> bool;

    /// `result` is `self` raised to `exponent` modulo `modulus`.
    spec fn is_powm(&self, exponent: &Self, modulus: &Self, result: &Self) -> bool;

    fn powm_sec(&self, exponent: &Self, modulus: &Self) -> (r: Self)
        requires
            self.powm_defined(exponent, modulus),
        ensures
            self.is_powm(exponent, modulus, &r),
    ;
}

impl Powm for BigInt {
    open spec fn powm_defined(&self, exponent: &Self, modulus: &Self) -> bool {
        exponent@ >= 0 && modulus@ != 0
    }

    open spec fn is_powm(&self, exponent: &Self, modulus: &Self, result: &Self) -> bool {
        result@ == pow(self@, exponent@ as nat) % abs_int(modulus@)
    }

    fn powm_sec(&self, exponent: &Self, modulus: &Self) -> (r: Self) {
        BigInt::mod_pow(self, exponent, modulus)
    }
}

/// `alpha` generates the cyclic group modulo `modulo` of the given order:
/// raised to the order divided by any of the order's factors, it is not 1.
/// Zero, which is no element of the group, passes as well.
pub open spec fn is_group_generator(alpha: int, modulo: int, order: int, factors: Seq<int>) -> bool {
    forall|i: int|
        0 <= i < factors.len() ==> pow(alpha, trunc_div(order, #[trigger] factors[i]) as nat)
            % modulo != 1
}

/// The factors by which the order can be divided: none is zero, and no
/// quotient is negative.
pub open spec fn usable_factors(order: int, factors: Seq<int>) -> bool {
    forall|i: int|
        0 <= i < factors.len() ==> #[trigger] factors[i] != 0 && trunc_div(order, factors[i]) >= 0
}

/// Tests one candidate against the factors of the group's order.
pub fn generates_cyclic_group(
    alpha: &BigInt,
    modulo: &BigInt,
    order: &BigInt,
    order_factorization: &[&BigInt],
) -> (r: bool)
    requires
        modulo@ > 0,
        usable_factors(order@, int_views(order_factorization@)),
    ensures
        r == is_group_generator(alpha@, modulo@, order@, int_views(order_factorization@)),
{
    let ghost factors = int_views(order_factorization@);
    let one = BigInt::one();
    let mut i: usize = 0;
    while i < order_factorization.len()
        invariant
            i <= order_factorization.len(),
            modulo@ > 0,
            one@ == 1,
            factors == int_views(order_factorization@),
            usable_factors(order@, factors),
            forall|j: int|
                0 <= j < i ==> pow(alpha@, trunc_div(order@, #[trigger] factors[j]) as nat)
                    % modulo@ != 1,
        decreases order_factorization.len() - i,
    {
        let x = order_factorization[i];
        assert(factors[i as int] == x@);
        let exponent = order.div(x);
        let power = alpha.powm_sec(&exponent, modulo);
        if power.eq(&one) {
            return false;
        }
        i = i + 1;
    }
    true
}

/// Finds a generator of a cyclic group of order `order`, whose prime factors
/// are `order_factorization`, by drawing candidates below `modulo`.
///
/// It gives up with `InternalInvariant` when none of
/// `MAX_ITERATIONS_IN_REJECTION_SAMPLING` candidates generates the group.
pub fn sample_generator_from_cyclic_group(
    modulo: &BigInt,
    order: &BigInt,
    order_factorization: &[&BigInt],
) -> (r: Result<BigInt, KeygenError>)
    requires
        modulo@ > 0,
        usable_factors(order@, int_views(order_factorization@)),
    ensures
        r matches Ok(alpha) ==> 0 <= alpha@ < modulo@ && is_group_generator(
            alpha@,
            modulo@,
            order@,
            int_views(order_factorization@),
        ),
        r matches Err(e) ==> e is InternalInvariant,
{
    let mut round: usize = 0;
    while round < MAX_ITERATIONS_IN_REJECTION_SAMPLING
        invariant
            modulo@ > 0,
            usable_factors(order@, int_views(order_factorization@)),
        decreases MAX_ITERATIONS_IN_REJECTION_SAMPLING - round,
    {
        let alpha = BigInt::sample_below(modulo);
        if generates_cyclic_group(&alpha, modulo, order, order_factorization) {
            return Ok(alpha);
        }
        round = round + 1;
    }
    Err(KeygenError::InternalInvariant)
}

/// `g` is `h` raised to `exponent` modulo `p` for some `h` in `[2, p)`, and
/// is not 1.
pub open spec fn is_subgroup_generator(g: int, p: int, exponent: int) -> bool {
    exists|h: int| is_subgroup_witness(h, g, p, exponent)
}

/// `h` is in `[2, p)`, and `g`, its power, is not 1.
pub open spec fn is_subgroup_witness(h: int, g: int, p: int, exponent: int) -> bool {
    2 <= h < p && g == pow(h, exponent as nat) % p && g != 1
}

/// Decides on one candidate `h` for a generator of the subgroup: it is taken
/// if it lies in `[2, p)` and its power is not 1, and the power is returned.
pub fn subgroup_generator_from(h: &BigInt, p: &BigInt, exponent: &BigInt) -> (r: Option<BigInt>)
    requires
        p@ > 0,
        exponent@ >= 0,
    ensures
        r is Some <==> 2 <= h@ < p@ && pow(h@, exponent@ as nat) % p@ != 1,
        r matches Some(g) ==> is_subgroup_witness(h@, g@, p@, exponent@),
{
    let two = BigInt::from_u64(2);
    if h.lt(&two) || !h.lt(p) {
        return None;
    }
    let g = h.powm_sec(exponent, p);
    if g.eq(&BigInt::one()) {
        None
    } else {
        Some(g)
    }
}

/// Samples a generator of the cyclic subgroup of order `p_prim` of the group
/// modulo `p`, where `p_prim` divides `p - 1`: a candidate raised to
/// `(p - 1) / p_prim`.
///
/// It gives up with `InternalInvariant` when none of
/// `MAX_ITERATIONS_IN_REJECTION_SAMPLING` candidates is taken.
pub fn sample_generator_of_cyclic_subgroup(p: &BigInt, p_prim: &BigInt) -> (r: Result<
    BigInt,
    KeygenError,
>)
    requires
        p@ > 0,
        p_prim@ > 0,
        (p@ - 1) % p_prim@ == 0,
    ensures
        r matches Ok(g) ==> is_subgroup_generator(g@, p@, (p@ - 1) / p_prim@),
        r matches Err(e) ==> e is InternalInvariant,
{
    let p_minus_one = p.sub(&BigInt::one());
    let exponent = p_minus_one.div(p_prim);
    proof {
        vstd::arithmetic::div_mod::lemma_div_pos_is_pos(p@ - 1, p_prim@);
    }
    let mut round: usize = 0;
    while round < MAX_ITERATIONS_IN_REJECTION_SAMPLING
        invariant
            p@ > 0,
            exponent@ == (p@ - 1) / p_prim@,
            exponent@ >= 0,
        decreases MAX_ITERATIONS_IN_REJECTION_SAMPLING - round,
    {
        let h = BigInt::sample_below(p);
        match subgroup_generator_from(&h, p, &exponent) {
            Some(g) => {
                return Ok(g);
            },
            None => {},
        }
        round = round + 1;
    }
    Err(KeygenError::InternalInvariant)
}

/// What `sample_generator_of_rsa_group` asks of two safe primes: both are odd
/// and at least 3, and each has an inverse modulo the other.
pub open spec fn rsa_group_moduli(safe_p: int, safe_q: int) -> bool {
    &&& safe_p >= 3
    &&& safe_q >= 3
    &&& safe_p % 2 == 1
    &&& safe_q % 2 == 1
    &&& has_inverse_mod(safe_q, safe_p)
    &&& has_inverse_mod(safe_p, safe_q)
}

/// Whether `sample_generator_of_rsa_group` takes the two numbers.
pub fn are_rsa_group_moduli(safe_p: &BigInt, safe_q: &BigInt) -> (r: bool)
    ensures
        r == rsa_group_moduli(safe_p@, safe_q@),
{
    let two = BigInt::from_u64(2);
    let three = BigInt::from_u64(3);
    if safe_p.lt(&three) || safe_q.lt(&three) {
        return false;
    }
    let one = BigInt::one();
    safe_p.modulus(&two).eq(&one) && safe_q.modulus(&two).eq(&one) && BigInt::is_invertible(
        safe_q,
        safe_p,
    ) && BigInt::is_invertible(safe_p, safe_q)
}

/// Two different odd primes are moduli that `sample_generator_of_rsa_group`
/// takes.
pub proof fn lemma_odd_primes_are_rsa_group_moduli(safe_p: int, safe_q: int)
    requires
        crate::number_theory::is_prime(safe_p),
        crate::number_theory::is_prime(safe_q),
        safe_p != safe_q,
        safe_p != 2,
        safe_q != 2,
    ensures
        rsa_group_moduli(safe_p, safe_q),
{
    crate::number_theory::lemma_distinct_primes_invertible(safe_p, safe_q);
    assert(safe_p % 2 != 0);
    assert(safe_q % 2 != 0);
}

/// Samples a generator of the RSA group modulo the product of two safe
/// primes: a generator of the subgroup of order `(P - 1) / 2` modulo each
/// prime, combined by `crt_solver`.
pub fn sample_generator_of_rsa_group(safe_p: &BigInt, safe_q: &BigInt) -> (r: Result<
    BigInt,
    KeygenError,
>)
    requires
        rsa_group_moduli(safe_p@, safe_q@),
    ensures
        r matches Ok(g) ==> {
            &&& 0 <= g@ < safe_p@ * safe_q@
            &&& is_subgroup_generator(g@ % safe_p@, safe_p@, 2)
            &&& is_subgroup_generator(g@ % safe_q@, safe_q@, 2)
        },
        r matches Err(e) ==> e is InternalInvariant,
{
    let one = BigInt::one();
    let two = BigInt::from_u64(2);
    let p_prim = safe_p.sub(&one).div(&two);
    let q_prim = safe_q.sub(&one).div(&two);
    proof {
        lemma_half_divides(safe_p@);
        lemma_half_divides(safe_q@);
    }
    let g_p = match sample_generator_of_cyclic_subgroup(safe_p, &p_prim) {
        Ok(g) => g,
        Err(e) => {
            return Err(e);
        },
    };
    let g_q = match sample_generator_of_cyclic_subgroup(safe_q, &q_prim) {
        Ok(g) => g,
        Err(e) => {
            return Err(e);
        },
    };
    let reminders = [&g_p, &g_q];
    let moduli = [safe_p, safe_q];
    proof {
        let ms = int_views(moduli@);
        assert(ms =~= seq![safe_p@, safe_q@]);
        reveal_with_fuel(product, 3);
        reveal_with_fuel(product_except, 3);
        assert(ms.drop_last() =~= seq![safe_p@]);
        assert(ms.drop_last().drop_last() =~= Seq::<int>::empty());
        assert(product(ms.drop_last()) == safe_p@) by (nonlinear_arith)
            requires
                product(ms.drop_last()) == 1 * safe_p@,
        ;
        assert(product_except(ms, 1) == safe_p@);
        assert(product_except(ms.drop_last(), 0) == 1);
        assert(product_except(ms, 0) == safe_q@) by (nonlinear_arith)
            requires
                product_except(ms, 0) == 1 * safe_q@,
        ;
        assert(product(ms) == safe_p@ * safe_q@);
    }
    let g = crt_solver(reminders.as_slice(), moduli.as_slice());
    proof {
        let ep = (safe_p@ - 1) / ((safe_p@ - 1) / 2);
        let eq = (safe_q@ - 1) / ((safe_q@ - 1) / 2);
        assert(reminders@[0]@ == g_p@ && reminders@[1]@ == g_q@);
        assert(moduli@[0]@ == safe_p@ && moduli@[1]@ == safe_q@);
        assert(congruent(g@, reminders@[0]@, moduli@[0]@));
        assert(congruent(g@, reminders@[1]@, moduli@[1]@));
        lemma_subgroup_generator_residue(g@, g_p@, safe_p@, ep);
        lemma_subgroup_generator_residue(g@, g_q@, safe_q@, eq);
    }
    Ok(g)
}

/// For an odd `p >= 3`, half of `p - 1` divides `p - 1`, and the quotient
/// is 2.
proof fn lemma_half_divides(p: int)
    requires
        p >= 3,
        p % 2 == 1,
    ensures
        (p - 1) / 2 > 0,
        (p - 1) % ((p - 1) / 2) == 0,
        (p - 1) / ((p - 1) / 2) == 2,
        trunc_div(p - 1, 2) == (p - 1) / 2,
{
    let half = (p - 1) / 2;
    assert(p - 1 == 2 * half + 0);
    vstd::arithmetic::div_mod::lemma_fundamental_div_mod_converse(p - 1, half, 2, 0);
}

/// A number congruent to a subgroup generator has that generator as its
/// residue.
proof fn lemma_subgroup_generator_residue(g: int, g_p: int, p: int, exponent: int)
    requires
        p > 0,
        congruent(g, g_p, p),
        is_subgroup_generator(g_p, p, exponent),
    ensures
        is_subgroup_generator(g % p, p, exponent),
{
    let h = choose|h: int| is_subgroup_witness(h, g_p, p, exponent);
    vstd::arithmetic::div_mod::lemma_mod_bound(pow(h, exponent as nat), p);
    vstd::arithmetic::div_mod::lemma_mod_equivalence(g, g_p, p);
    vstd::arithmetic::div_mod::lemma_small_mod(g_p as nat, p as nat);
    assert(is_subgroup_witness(h, g % p, p, exponent));
}

/// The integers that a sequence of big integers stands for.
pub open spec fn int_views(s: Seq<&BigInt>) -> Seq<int> {
    Seq::new(s.len(), |i: int| s[i]@)
}

/// The shorter of two lengths.
pub open spec fn min_len(a: int, b: int) -> int {
    if a <= b {
        a
    } else {
        b
    }
}

/// The moduli are positive, and each of the first `count` of them is coprime
/// to the product of all the others.
pub open spec fn crt_moduli(moduli: Seq<int>, count: int) -> bool {
    &&& all_positive(moduli)
    &&& forall|i: int|
        0 <= i < count && i < moduli.len() ==> has_inverse_mod(
            #[trigger] product_except(moduli, i),
            moduli[i],
        )
}

/// Whether `crt_solver` takes the moduli with `count` remainders.
pub fn are_crt_moduli(moduli: &[&BigInt], count: usize) -> (r: bool)
    ensures
        r == crt_moduli(int_views(moduli@), count as int),
{
    let ghost ms = int_views(moduli@);
    let zero = BigInt::zero();
    let mut n = BigInt::one();
    let mut k: usize = 0;
    while k < moduli.len()
        invariant
            k <= moduli.len(),
            zero@ == 0,
            ms == int_views(moduli@),
            forall|j: int| 0 <= j < k ==> ms[j] > 0,
            n@ == product(ms.take(k as int)),
        decreases moduli.len() - k,
    {
        if !zero.lt(moduli[k]) {
            assert(!(ms[k as int] > 0));
            return false;
        }
        n = n.mul(moduli[k]);
        proof {
            assert(ms.take(k + 1).drop_last() =~= ms.take(k as int));
            assert(ms.take(k + 1).last() == moduli[k as int]@);
        }
        k = k + 1;
    }
    proof {
        assert(ms.take(moduli.len() as int) =~= ms);
        lemma_product_positive(ms);
    }
    let mut i: usize = 0;
    while i < count && i < moduli.len()
        invariant
            i <= count,
            i <= moduli.len(),
            ms == int_views(moduli@),
            all_positive(ms),
            n@ == product(ms),
            n@ > 0,
            forall|j: int|
                0 <= j < i ==> has_inverse_mod(#[trigger] product_except(ms, j), ms[j]),
        decreases moduli.len() - i,
    {
        proof {
            assert(ms[i as int] == moduli[i as int]@);
            lemma_product_div(ms, i as int);
            lemma_product_except_positive(ms, i as int);
        }
        let big = n.div(moduli[i]);
        assert(big@ == product_except(ms, i as int));
        assert(abs_int(moduli[i as int]@) == ms[i as int]);
        if !BigInt::is_invertible(&big, moduli[i]) {
            return false;
        }
        i = i + 1;
    }
    true
}

/// Positive moduli that are coprime in pairs are moduli that `crt_solver`
/// takes.
pub proof fn lemma_coprime_moduli_solve(moduli: Seq<int>, count: int)
    requires
        all_positive(moduli),
        crate::number_theory::pairwise_coprime(moduli),
    ensures
        crt_moduli(moduli, count),
{
    assert forall|i: int| 0 <= i < count && i < moduli.len() implies has_inverse_mod(
        #[trigger] product_except(moduli, i),
        moduli[i],
    ) by {
        crate::number_theory::lemma_pairwise_coprime(moduli, i);
    }
}

/// Solves a system of simultaneous congruences by Gauss' algorithm.
///
/// The solution is congruent to each remainder modulo its modulus, and lies
/// strictly between minus the product of the moduli and the product; it is
/// not negative where no remainder is, and then it is the only such number
/// (`lemma_crt_unique`). Remainders and moduli are paired in order, and what
/// one slice has more than the other is left out of the system, though every
/// modulus enters the product.
pub fn crt_solver(reminders: &[&BigInt], moduli: &[&BigInt]) -> (r: BigInt)
    requires
        crt_moduli(int_views(moduli@), min_len(reminders.len() as int, moduli.len() as int)),
    ensures
        forall|i: int|
            0 <= i < min_len(reminders.len() as int, moduli.len() as int) ==> congruent(
                r@,
                #[trigger] reminders[i]@,
                moduli[i]@,
            ),
        abs_int(r@) < product(int_views(moduli@)),
        (forall|i: int|
            0 <= i < min_len(reminders.len() as int, moduli.len() as int)
                ==> #[trigger] reminders[i]@ >= 0) ==> r@ >= 0,
{
    let ghost ms = int_views(moduli@);
    let ghost count = min_len(reminders.len() as int, moduli.len() as int);
    let mut n = BigInt::one();
    let mut k: usize = 0;
    while k < moduli.len()
        invariant
            k <= moduli.len(),
            ms == int_views(moduli@),
            all_positive(ms),
            n@ == product(ms.take(k as int)),
        decreases moduli.len() - k,
    {
        n = n.mul(moduli[k]);
        proof {
            assert(ms.take(k + 1).drop_last() =~= ms.take(k as int));
            assert(ms.take(k + 1).last() == moduli[k as int]@);
        }
        k = k + 1;
    }
    proof {
        assert(ms.take(moduli.len() as int) =~= ms);
        lemma_product_positive(ms);
    }
    let mut result = BigInt::zero();
    let mut i: usize = 0;
    proof {
        assert forall|j: int| 0 <= j < moduli.len() implies congruent(0, 0, #[trigger] ms[j]) by {
            vstd::arithmetic::div_mod::lemma_small_mod(0, ms[j] as nat);
        }
    }
    while i < reminders.len() && i < moduli.len()
        invariant
            i <= count,
            count == min_len(reminders.len() as int, moduli.len() as int),
            ms == int_views(moduli@),
            crt_moduli(ms, count),
            n@ == product(ms),
            n@ > 0,
            forall|j: int| 0 <= j < i ==> congruent(result@, #[trigger] reminders[j]@, ms[j]),
            forall|j: int| i <= j < moduli.len() ==> congruent(result@, 0, #[trigger] ms[j]),
            (forall|j: int| 0 <= j < count ==> #[trigger] reminders[j]@ >= 0) ==> result@ >= 0,
        decreases moduli.len() - i,
    {
        let ai = reminders[i];
        let ni = moduli[i];
        proof {
            assert(ms[i as int] == ni@);
            lemma_product_div(ms, i as int);
            lemma_product_except_positive(ms, i as int);
            assert(has_inverse_mod(product_except(ms, i as int), ms[i as int]));
        }
        let big = n.div(ni);
        let inv = BigInt::mod_inv(&big, ni).unwrap();
        let full = ai.mul(&big).mul(&inv);
        let term = full.rem(&n);
        let ghost before = result@;
        result = result.add(&term);
        proof {
            assert(inv@ >= 0);
            assert(big@ > 0);
            if ai@ >= 0 {
                assert(ai@ * big@ * inv@ >= 0) by (nonlinear_arith)
                    requires
                        ai@ >= 0,
                        big@ > 0,
                        inv@ >= 0,
                ;
            }
            assert forall|j: int| 0 <= j < moduli.len() implies congruent(
                result@,
                before + (if j == i {
                    ai@
                } else {
                    0
                }),
                #[trigger] ms[j],
            ) by {
                lemma_product_multiple(ms, j);
                lemma_trunc_rem_congruent(full@, n@, ms[j]);
                if j == i {
                    lemma_inverse_term(ai@, big@, inv@, ms[j]);
                } else {
                    lemma_product_except_multiple(ms, i as int, j);
                    lemma_multiple_mul(big@, ai@, ms[j]);
                    lemma_multiple_mul(ai@ * big@, inv@, ms[j]);
                }
                lemma_congruent_trans(term@, full@, if j == i { ai@ } else { 0 }, ms[j]);
                lemma_multiple_add(0, 0, ms[j]);
                lemma_congruent_add(before, before, term@, if j == i { ai@ } else { 0 }, ms[j]);
            }
            assert forall|j: int| 0 <= j < i + 1 implies congruent(
                result@,
                #[trigger] reminders[j]@,
                ms[j],
            ) by {
                assert(congruent(result@, before + (if j == i { ai@ } else { 0 }), ms[j]));
                if j < i {
                    lemma_congruent_trans(result@, before, reminders[j]@, ms[j]);
                } else {
                    assert(congruent(before, 0, ms[j]));
                    lemma_multiple_add(result@ - (before + ai@), before - 0, ms[j]);
                    assert(result@ - ai@ == (result@ - (before + ai@)) + (before - 0));
                }
            }
            assert forall|j: int| i + 1 <= j < moduli.len() implies congruent(
                result@,
                0,
                #[trigger] ms[j],
            ) by {
                assert(congruent(result@, before + (if j == i { ai@ } else { 0 }), ms[j]));
                lemma_congruent_trans(result@, before, 0, ms[j]);
            }
            lemma_trunc_rem_congruent(full@, n@, n@);
        }
        i = i + 1;
    }
    let r = result.rem(&n);
    proof {
        assert forall|j: int| 0 <= j < count implies congruent(
            r@,
            #[trigger] reminders[j]@,
            moduli[j]@,
        ) by {
            lemma_product_multiple(ms, j);
            lemma_trunc_rem_congruent(result@, n@, ms[j]);
            lemma_congruent_trans(r@, result@, reminders[j]@, ms[j]);
        }
        vstd::arithmetic::div_mod::lemma_mod_self_0(n@);
        lemma_trunc_rem_congruent(result@, n@, n@);
    }
    r
}


/// No element is smaller than the one before it.
pub open spec fn is_sorted(s: Seq<u64>) -> bool {
    forall|i: int, j: int| 0 <= i <= j < s.len() ==> s[i] <= s[j]
}

/// What `is_beta_subset_of_alpha` computes on any two sequences: it walks
/// `alpha` for each element of `beta` in turn, and fails as soon as `alpha`
/// ends or shows a greater element than the one looked for.
pub open spec fn matches_in_order(alpha: Seq<u64>, beta: Seq<u64>) -> bool
    decreases alpha.len() + beta.len(),
{
    if beta.len() == 0 {
        true
    } else if alpha.len() == 0 {
        false
    } else if alpha[0] > beta[0] {
        false
    } else if alpha[0] == beta[0] {
        matches_in_order(alpha.drop_first(), beta.drop_first())
    } else {
        matches_in_order(alpha.drop_first(), beta)
    }
}

/// On sorted sequences, matching in order is inclusion: every value occurs
/// in `alpha` at least as often as in `beta`.
pub proof fn lemma_sorted_subset(alpha: Seq<u64>, beta: Seq<u64>)
    requires
        is_sorted(alpha),
        is_sorted(beta),
    ensures
        matches_in_order(alpha, beta) <==> beta.to_multiset().subset_of(alpha.to_multiset()),
    decreases alpha.len() + beta.len(),
{
    broadcast use vstd::seq_lib::group_to_multiset_ensures;

    let ma = alpha.to_multiset();
    let mb = beta.to_multiset();
    if beta.len() == 0 {
        assert(mb.len() == 0);
        assert forall|v: u64| mb.count(v) <= ma.count(v) by {
            if mb.count(v) > 0 {
                assert(beta.contains(v));
            }
        }
    } else if alpha.len() == 0 {
        assert(beta.contains(beta[0]));
        assert(mb.count(beta[0]) > 0);
        if ma.count(beta[0]) > 0 {
            assert(alpha.contains(beta[0]));
        }
    } else {
        let a0 = alpha[0];
        let b0 = beta[0];
        let ta = alpha.drop_first();
        let tb = beta.drop_first();
        assert(alpha =~= seq![a0] + ta);
        assert(beta =~= seq![b0] + tb);
        vstd::seq_lib::lemma_multiset_commutative(seq![a0], ta);
        vstd::seq_lib::lemma_multiset_commutative(seq![b0], tb);
        lemma_singleton_multiset(a0);
        lemma_singleton_multiset(b0);
        assert(ma =~= Multiset::singleton(a0).add(ta.to_multiset()));
        assert(mb =~= Multiset::singleton(b0).add(tb.to_multiset()));
        assert(is_sorted(ta)) by {
            assert forall|i: int, j: int| 0 <= i <= j < ta.len() implies ta[i] <= ta[j] by {
                assert(ta[i] == alpha[i + 1] && ta[j] == alpha[j + 1]);
            }
        }
        assert(is_sorted(tb)) by {
            assert forall|i: int, j: int| 0 <= i <= j < tb.len() implies tb[i] <= tb[j] by {
                assert(tb[i] == beta[i + 1] && tb[j] == beta[j + 1]);
            }
        }
        if a0 > b0 {
            assert(beta.contains(b0));
            assert(mb.count(b0) > 0);
            if ma.count(b0) > 0 {
                assert(alpha.contains(b0));
                let k = choose|k: int| 0 <= k < alpha.len() && alpha[k] == b0;
                assert(alpha[0] <= alpha[k]);
            }
        } else if a0 == b0 {
            lemma_sorted_subset(ta, tb);
            let mta = ta.to_multiset();
            let mtb = tb.to_multiset();
            if mtb.subset_of(mta) {
                assert forall|v: u64| mb.count(v) <= ma.count(v) by {
                    assert(mtb.count(v) <= mta.count(v));
                }
            }
            if mb.subset_of(ma) {
                assert forall|v: u64| mtb.count(v) <= mta.count(v) by {
                    assert(mb.count(v) <= ma.count(v));
                }
            }
        } else {
            lemma_sorted_subset(ta, beta);
            let mta = ta.to_multiset();
            assert(mb.count(a0) == 0) by {
                if mb.count(a0) > 0 {
                    assert(beta.contains(a0));
                    let k = choose|k: int| 0 <= k < beta.len() && beta[k] == a0;
                    assert(beta[0] <= beta[k]);
                }
            }
            if mb.subset_of(mta) {
                assert forall|v: u64| mb.count(v) <= ma.count(v) by {
                    assert(mb.count(v) <= mta.count(v));
                }
            }
            if mb.subset_of(ma) {
                assert forall|v: u64| mb.count(v) <= mta.count(v) by {
                    assert(mb.count(v) <= ma.count(v));
                }
            }
        }
    }
}

/// The multiset of a sequence of one element is that element, once.
proof fn lemma_singleton_multiset(x: u64)
    ensures
        seq![x].to_multiset() =~= Multiset::singleton(x),
{
    broadcast use vstd::seq_lib::group_to_multiset_ensures;

    let e = Seq::<u64>::empty();
    assert(seq![x] =~= e.push(x));
    assert(e.to_multiset().len() == 0);
    assert(e.to_multiset() =~= Multiset::empty()) by {
        assert forall|v: u64| e.to_multiset().count(v) == 0 by {
            if e.to_multiset().count(v) > 0 {
                assert(e.contains(v));
            }
        }
    }
}

/// Whether every element of `beta` is in `alpha`, each as often as `beta`
/// has it. Both slices have to be sorted; an empty `beta` is a subset of
/// anything.
///
/// On slices that are not sorted the answer is still `matches_in_order`.
pub fn is_beta_subset_of_alpha(alpha: &[u64], beta: &[u64]) -> (r: bool)
    ensures
        r == matches_in_order(alpha@, beta@),
        is_sorted(alpha@) && is_sorted(beta@) ==> (r <==> beta@.to_multiset().subset_of(
            alpha@.to_multiset(),
        )),
{
    proof {
        if is_sorted(alpha@) && is_sorted(beta@) {
            lemma_sorted_subset(alpha@, beta@);
        }
        assert(alpha@.skip(0) =~= alpha@);
        assert(beta@.skip(0) =~= beta@);
    }
    let mut i: usize = 0;
    let mut j: usize = 0;
    while j < beta.len()
        invariant
            i <= alpha.len(),
            j <= beta.len(),
            matches_in_order(alpha@, beta@) == matches_in_order(
                alpha@.skip(i as int),
                beta@.skip(j as int),
            ),
            is_sorted(alpha@) && is_sorted(beta@) ==> (matches_in_order(alpha@, beta@)
                <==> beta@.to_multiset().subset_of(alpha@.to_multiset())),
        decreases (alpha.len() - i) + (beta.len() - j),
    {
        let ghost ra = alpha@.skip(i as int);
        let ghost rb = beta@.skip(j as int);
        if i >= alpha.len() {
            return false;
        }
        let a = alpha[i];
        let b = beta[j];
        proof {
            assert(ra[0] == a && rb[0] == b);
            assert(ra.drop_first() =~= alpha@.skip(i + 1));
            assert(rb.drop_first() =~= beta@.skip(j + 1));
        }
        if a > b {
            return false;
        }
        if a == b {
            j = j + 1;
        }
        i = i + 1;
    }
    true
}


/// `values` are results of `f` on `items`, one for each, and every one after
/// the first is equal to the first.
pub open spec fn mapped_to_equal<T, V: PartialEq, F: Fn(&T) -> V>(
    items: Seq<T>,
    f: F,
    values: Seq<V>,
) -> bool {
    &&& values.len() == items.len()
    &&& forall|i: int| 0 <= i < items.len() ==> call_ensures(f, (&items[i],), #[trigger] values[i])
    &&& forall|i: int| 0 < i < items.len() ==> values[0].eq_spec(&#[trigger] values[i])
}

/// `first` and `other` are results of `f` on the first item and on the one
/// at `i`, and they differ.
pub open spec fn mapped_to_different<T, V: PartialEq, F: Fn(&T) -> V>(
    items: Seq<T>,
    f: F,
    i: int,
    first: V,
    other: V,
) -> bool {
    &&& 0 < i < items.len()
    &&& call_ensures(f, (&items[0],), first)
    &&& call_ensures(f, (&items[i],), other)
    &&& !first.eq_spec(&other)
}

/// Whether all items of a collection, mapped through `f`, are equal: each is
/// held against the first. True for an empty collection.
///
/// `f` is called on the items in order and no more once a difference is
/// found.
pub fn all_mapped_equal<T, V: PartialEq, F: Fn(&T) -> V>(items: &[T], f: F) -> (r: bool)
    requires
        forall|i: int| 0 <= i < items.len() ==> call_requires(f, (&#[trigger] items[i],)),
    ensures
        items.len() == 0 ==> r,
        V::obeys_eq_spec() && r ==> exists|values: Seq<V>| mapped_to_equal(items@, f, values),
        V::obeys_eq_spec() && !r ==> exists|i: int, first: V, other: V|
            mapped_to_different(items@, f, i, first, other),
{
    if items.len() == 0 {
        assert(mapped_to_equal(items@, f, Seq::<V>::empty()));
        return true;
    }
    let v = f(&items[0]);
    let ghost mut values: Seq<V> = seq![v];
    let mut i: usize = 1;
    while i < items.len()
        invariant
            1 <= i <= items.len(),
            forall|k: int| 0 <= k < items.len() ==> call_requires(f, (&#[trigger] items[k],)),
            values.len() == i,
            values[0] == v,
            forall|k: int| 0 <= k < i ==> call_ensures(f, (&items[k],), #[trigger] values[k]),
            V::obeys_eq_spec() ==> forall|k: int|
                0 < k < i ==> values[0].eq_spec(&#[trigger] values[k]),
        decreases items.len() - i,
    {
        let vv = f(&items[i]);
        if !(v == vv) {
            assert(V::obeys_eq_spec() ==> mapped_to_different(items@, f, i as int, v, vv));
            return false;
        }
        proof {
            values = values.push(vv);
        }
        i = i + 1;
    }
    assert(V::obeys_eq_spec() ==> mapped_to_equal(items@, f, values));
    true
}

} // verus!
