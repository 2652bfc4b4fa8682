//! The signed big integer that the rest of the library computes with.
//!
//! A [`BigInt`] is a sign and a big-endian magnitude; its view is the
//! mathematical integer. The arithmetic on magnitudes is the `curv` crate's;
//! the rules of signs, of rounding and of reduction are proved here.

use crate::arithmetic::{
    be_nat, has_inverse_mod, is_inverse_mod, lemma_be_nat_all_zero, lemma_be_nat_positive,
    lemma_be_nat_push, lemma_be_nat_skip_zeros, lemma_minimal_be_unique, minimal_be, nat_abs_diff, nat_add, nat_div, nat_eq, nat_lt,
    nat_mod_inv, nat_mod_pow, nat_mul, nat_pow, nat_rem, nat_sample_below, nat_sample_bits,
    wipe_bytes,
};
use vstd::arithmetic::div_mod::{
    lemma_div_denominator, lemma_fundamental_div_mod, lemma_fundamental_div_mod_converse,
    lemma_mul_mod_noop_left, lemma_small_mod,
};
use vstd::arithmetic::power::{lemma_pow_mod_noop, pow};
use vstd::prelude::*;

verus! {

/// Absolute value.
pub open spec fn abs_int(x: int) -> int {
    if x < 0 {
        -x
    } else {
        x
    }
}

/// Quotient rounded towards zero.
pub open spec fn trunc_div(a: int, b: int) -> int {
    let q = abs_int(a) / abs_int(b);
    if (a < 0) != (b < 0) {
        -q
    } else {
        q
    }
}

/// Remainder of the division that rounds towards zero: it has the sign of
/// the dividend.
pub open spec fn trunc_rem(a: int, b: int) -> int {
    let r = abs_int(a) % abs_int(b);
    if a < 0 {
        -r
    } else {
        r
    }
}

/// An odd power of a negative number is the negative of the power, an even
/// one the power itself.
pub proof fn lemma_pow_of_negative(a: int, e: nat)
    ensures
        pow(-a, e) == if e % 2 == 1 {
            -pow(a, e)
        } else {
            pow(a, e)
        },
    decreases e,
{
    reveal(pow);
    if e > 0 {
        lemma_pow_of_negative(a, (e - 1) as nat);
        let rest = pow(a, (e - 1) as nat);
        assert((-a) * rest == -(a * rest)) by (nonlinear_arith);
        assert((-a) * (-rest) == a * rest) by (nonlinear_arith);
    }
}

/// A signed integer of any size: a sign and a big-endian magnitude.
///
/// Every pair is a value: leading zero bytes are allowed, and zero may carry
/// either sign.
#[derive(Debug)]
pub struct BigInt {
    pub negative: bool,
    pub magnitude: Vec<u8>,
}

impl View for BigInt {
    type V = int;

    open spec fn view(&self) -> int {
        if self.negative {
            -(be_nat(self.magnitude@) as int)
        } else {
            be_nat(self.magnitude@) as int
        }
    }
}

impl Clone for BigInt {
    fn clone(&self) -> (r: Self)
        ensures
            r.negative == self.negative,
            r.magnitude@ == self.magnitude@,
            r@ == self@,
    {
        let magnitude = self.magnitude.clone();
        assert(magnitude@ =~= self.magnitude@);
        BigInt { negative: self.negative, magnitude }
    }
}

impl BigInt {
    /// The absolute value as a natural number.
    pub open spec fn magnitude_nat(&self) -> nat {
        be_nat(self.magnitude@)
    }

    pub fn zero() -> (r: BigInt)
        ensures
            r@ == 0,
            !r.negative,
    {
        BigInt { negative: false, magnitude: Vec::new() }
    }

    pub fn one() -> (r: BigInt)
        ensures
            r@ == 1,
            !r.negative,
    {
        let mut magnitude: Vec<u8> = Vec::new();
        magnitude.push(1u8);
        proof {
            lemma_be_nat_push(Seq::<u8>::empty(), 1u8);
            assert(magnitude@ =~= Seq::<u8>::empty().push(1u8));
        }
        BigInt { negative: false, magnitude }
    }

    /// The integer with the given value.
    pub fn from_u64(x: u64) -> (r: BigInt)
        ensures
            r@ == x,
            !r.negative,
    {
        let mut magnitude: Vec<u8> = Vec::new();
        let mut d: u64 = 0x0100_0000_0000_0000;
        let mut i: usize = 0;
        proof {
            reveal_with_fuel(pow, 8);
            assert(pow(256, 7) == 0x0100_0000_0000_0000);
        }
        while i < 8
            invariant
                i <= 8,
                d > 0 || i == 8,
                i < 8 ==> d as int == pow(256, (7 - i) as nat),
                i < 8 ==> be_nat(magnitude@) == (x as int) / (d as int * 256),
                i == 8 ==> be_nat(magnitude@) == x,
            decreases 8 - i,
        {
            let digit: u64 = (x / d) % 256;
            let byte: u8 = digit as u8;
            proof {
                lemma_be_nat_push(magnitude@, byte);
                lemma_div_denominator(x as int, d as int, 256);
                lemma_fundamental_div_mod((x / d) as int, 256);
                vstd::arithmetic::power::lemma_pow1(256);
                if i < 7 {
                    vstd::arithmetic::power::lemma_pow_adds(256, 1, (6 - i) as nat);
                    assert(d as int == 256 * pow(256, (6 - i) as nat));
                } else {
                    vstd::arithmetic::power::lemma_pow0(256);
                }
            }
            magnitude.push(byte);
            i = i + 1;
            if i < 8 {
                d = d / 256;
            }
        }
        BigInt { negative: false, magnitude }
    }

    /// The non-negative integer that `bytes` spell, most significant byte first.
    pub fn from_bytes(bytes: &[u8]) -> (r: BigInt)
        ensures
            r@ == be_nat(bytes@),
            !r.negative,
            r.magnitude@ == bytes@,
    {
        let mut magnitude: Vec<u8> = Vec::new();
        let mut i: usize = 0;
        while i < bytes.len()
            invariant
                i <= bytes.len(),
                magnitude@ == bytes@.take(i as int),
            decreases bytes.len() - i,
        {
            magnitude.push(bytes[i]);
            i = i + 1;
            assert(magnitude@ =~= bytes@.take(i as int));
        }
        assert(bytes@.take(bytes.len() as int) =~= bytes@);
        BigInt { negative: false, magnitude }
    }

    /// The shortest big-endian encoding of the absolute value: no leading zero
    /// byte, and no byte at all for zero.
    pub fn to_bytes(&self) -> (r: Vec<u8>)
        ensures
            r@ == minimal_be(abs_int(self@) as nat),
            be_nat(r@) == abs_int(self@),
            r.len() > 0 ==> r[0] != 0,
            r.len() <= self.magnitude.len(),
    {
        let n = self.magnitude.len();
        let mut start: usize = 0;
        while start < n && self.magnitude[start] == 0
            invariant
                start <= n,
                n == self.magnitude.len(),
                forall|j: int| 0 <= j < start ==> self.magnitude[j] == 0,
            decreases n - start,
        {
            start = start + 1;
        }
        let mut r: Vec<u8> = Vec::new();
        let mut i: usize = start;
        while i < n
            invariant
                start <= i <= n,
                n == self.magnitude.len(),
                r@ == self.magnitude@.subrange(start as int, i as int),
            decreases n - i,
        {
            r.push(self.magnitude[i]);
            i = i + 1;
            assert(r@ =~= self.magnitude@.subrange(start as int, i as int));
        }
        proof {
            assert(self.magnitude@.subrange(start as int, n as int) =~= self.magnitude@.skip(
                start as int,
            ));
            lemma_be_nat_skip_zeros(self.magnitude@, start as int);
            lemma_minimal_be_unique(r@);
        }
        r
    }

    pub fn is_zero(&self) -> (r: bool)
        ensures
            r == (self@ == 0),
    {
        let n = self.magnitude.len();
        let mut i: usize = 0;
        while i < n
            invariant
                i <= n,
                n == self.magnitude.len(),
                forall|j: int| 0 <= j < i ==> self.magnitude[j] == 0,
            decreases n - i,
        {
            if self.magnitude[i] != 0 {
                proof {
                    lemma_be_nat_skip_zeros(self.magnitude@, i as int);
                    lemma_be_nat_positive(self.magnitude@.skip(i as int));
                }
                return false;
            }
            i = i + 1;
        }
        proof {
            lemma_be_nat_all_zero(self.magnitude@);
        }
        true
    }

    pub fn is_negative(&self) -> (r: bool)
        ensures
            r == (self@ < 0),
    {
        self.negative && !self.is_zero()
    }

    /// The number with the opposite sign.
    pub fn neg(&self) -> (r: BigInt)
        ensures
            r@ == -self@,
    {
        BigInt { negative: !self.negative, magnitude: self.magnitude.clone() }
    }

    pub fn abs(&self) -> (r: BigInt)
        ensures
            r@ == abs_int(self@),
            !r.negative,
    {
        BigInt { negative: false, magnitude: self.magnitude.clone() }
    }

    pub fn add(&self, other: &BigInt) -> (r: BigInt)
        ensures
            r@ == self@ + other@,
    {
        if self.negative == other.negative {
            BigInt {
                negative: self.negative,
                magnitude: nat_add(&self.magnitude, &other.magnitude),
            }
        } else {
            let magnitude = nat_abs_diff(&self.magnitude, &other.magnitude);
            let negative = if nat_lt(&self.magnitude, &other.magnitude) {
                other.negative
            } else {
                self.negative
            };
            BigInt { negative, magnitude }
        }
    }

    pub fn sub(&self, other: &BigInt) -> (r: BigInt)
        ensures
            r@ == self@ - other@,
    {
        let minus = BigInt { negative: !other.negative, magnitude: other.magnitude.clone() };
        self.add(&minus)
    }

    pub fn mul(&self, other: &BigInt) -> (r: BigInt)
        ensures
            r@ == self@ * other@,
    {
        let magnitude = nat_mul(&self.magnitude, &other.magnitude);
        proof {
            let a = be_nat(self.magnitude@) as int;
            let b = be_nat(other.magnitude@) as int;
            assert((-a) * b == -(a * b)) by (nonlinear_arith);
            assert(a * (-b) == -(a * b)) by (nonlinear_arith);
            assert((-a) * (-b) == a * b) by (nonlinear_arith);
        }
        BigInt { negative: self.negative != other.negative, magnitude }
    }

    /// Division that rounds towards zero.
    pub fn div(&self, other: &BigInt) -> (r: BigInt)
        requires
            other@ != 0,
        ensures
            r@ == trunc_div(self@, other@),
    {
        let magnitude = nat_div(&self.magnitude, &other.magnitude);
        let zero = self.is_zero();
        proof {
            if be_nat(self.magnitude@) == 0 {
                assert(0int / (be_nat(other.magnitude@) as int) == 0) by (nonlinear_arith)
                    requires
                        be_nat(other.magnitude@) > 0,
                ;
            }
        }
        BigInt { negative: !zero && (self.negative != other.negative), magnitude }
    }

    /// Remainder of the division that rounds towards zero.
    pub fn rem(&self, other: &BigInt) -> (r: BigInt)
        requires
            other@ != 0,
        ensures
            r@ == trunc_rem(self@, other@),
    {
        let magnitude = nat_rem(&self.magnitude, &other.magnitude);
        let zero = self.is_zero();
        proof {
            if be_nat(self.magnitude@) == 0 {
                lemma_small_mod(0, be_nat(other.magnitude@));
            }
        }
        BigInt { negative: !zero && self.negative, magnitude }
    }

    /// The least non-negative residue modulo the absolute value of `modulus`.
    pub fn modulus(&self, modulus: &BigInt) -> (r: BigInt)
        requires
            modulus@ != 0,
        ensures
            r@ == self@ % abs_int(modulus@),
            0 <= r@ < abs_int(modulus@),
            !r.negative,
    {
        let rest = nat_rem(&self.magnitude, &modulus.magnitude);
        let ghost m = be_nat(modulus.magnitude@) as int;
        let ghost a = be_nat(self.magnitude@) as int;
        let rest_int = BigInt { negative: false, magnitude: rest };
        proof {
            lemma_fundamental_div_mod(a, m);
            vstd::arithmetic::div_mod::lemma_mod_bound(a, m);
        }
        if !self.negative {
            rest_int
        } else if rest_int.is_zero() {
            proof {
                let q = a / m;
                assert(-a == (-q) * m + 0) by (nonlinear_arith)
                    requires
                        a == m * q + 0,
                ;
                lemma_fundamental_div_mod_converse(-a, m, -q, 0);
            }
            rest_int
        } else {
            let magnitude = nat_abs_diff(&modulus.magnitude, &rest_int.magnitude);
            proof {
                let q = a / m;
                let r0 = a % m;
                assert(-a == (-q - 1) * m + (m - r0)) by (nonlinear_arith)
                    requires
                        a == m * q + r0,
                ;
                lemma_fundamental_div_mod_converse(-a, m, -q - 1, m - r0);
            }
            BigInt { negative: false, magnitude }
        }
    }

    /// Whether `self` divides `other`. Zero divides only zero.
    pub fn divides(&self, other: &BigInt) -> (r: bool)
        ensures
            self@ != 0 ==> r == (abs_int(other@) % abs_int(self@) == 0),
            self@ == 0 ==> r == (other@ == 0),
    {
        if self.is_zero() {
            other.is_zero()
        } else {
            let rest = BigInt {
                negative: false,
                magnitude: nat_rem(&other.magnitude, &self.magnitude),
            };
            rest.is_zero()
        }
    }

    /// `self` raised to a machine-sized exponent.
    pub fn pow(&self, exponent: u32) -> (r: BigInt)
        ensures
            r@ == pow(self@, exponent as nat),
    {
        proof {
            lemma_pow_of_negative(be_nat(self.magnitude@) as int, exponent as nat);
        }
        BigInt {
            negative: self.negative && exponent % 2 == 1,
            magnitude: nat_pow(&self.magnitude, exponent),
        }
    }

    /// `base` raised to `exponent`, reduced to the least non-negative residue
    /// modulo the absolute value of `modulus`.
    pub fn mod_pow(base: &BigInt, exponent: &BigInt, modulus: &BigInt) -> (r: BigInt)
        requires
            exponent@ >= 0,
            modulus@ != 0,
        ensures
            r@ == pow(base@, exponent@ as nat) % abs_int(modulus@),
            0 <= r@ < abs_int(modulus@),
            !r.negative,
    {
        let reduced = base.modulus(modulus);
        let magnitude = nat_mod_pow(&reduced.magnitude, &exponent.magnitude, &modulus.magnitude);
        proof {
            let m = abs_int(modulus@);
            lemma_pow_mod_noop(base@, exponent@ as nat, m);
            vstd::arithmetic::div_mod::lemma_mod_bound(pow(base@, exponent@ as nat), m);
        }
        BigInt { negative: false, magnitude }
    }

    /// The inverse of `a` modulo the absolute value of `modulus`, where there
    /// is one.
    pub fn mod_inv(a: &BigInt, modulus: &BigInt) -> (r: Option<BigInt>)
        requires
            modulus@ != 0,
        ensures
            r is Some <==> has_inverse_mod(a@, abs_int(modulus@)),
            r matches Some(x) ==> is_inverse_mod(a@, x@, abs_int(modulus@)) && !x.negative,
    {
        let reduced = a.modulus(modulus);
        let found = nat_mod_inv(&reduced.magnitude, &modulus.magnitude);
        let ghost m = abs_int(modulus@);
        proof {
            assert forall|x: int| is_inverse_mod(reduced@, x, m) == is_inverse_mod(a@, x, m) by {
                lemma_mul_mod_noop_left(a@, x, m);
            }
            if has_inverse_mod(a@, m) {
                let x = choose|x: int| is_inverse_mod(a@, x, m);
                assert(is_inverse_mod(reduced@, x, m));
            }
            if has_inverse_mod(reduced@, m) {
                let x = choose|x: int| is_inverse_mod(reduced@, x, m);
                assert(is_inverse_mod(a@, x, m));
            }
        }
        match found {
            Some(magnitude) => Some(BigInt { negative: false, magnitude }),
            None => None,
        }
    }

    /// Whether `a` has an inverse modulo the absolute value of `modulus`.
    pub fn is_invertible(a: &BigInt, modulus: &BigInt) -> (r: bool)
        requires
            modulus@ != 0,
        ensures
            r == has_inverse_mod(a@, abs_int(modulus@)),
    {
        BigInt::mod_inv(a, modulus).is_some()
    }

    pub fn eq(&self, other: &BigInt) -> (r: bool)
        ensures
            r == (self@ == other@),
    {
        if nat_eq(&self.magnitude, &other.magnitude) {
            self.negative == other.negative || self.is_zero()
        } else {
            false
        }
    }

    pub fn lt(&self, other: &BigInt) -> (r: bool)
        ensures
            r == (self@ < other@),
    {
        let a_neg = self.is_negative();
        let b_neg = other.is_negative();
        if a_neg && !b_neg {
            true
        } else if !a_neg && b_neg {
            false
        } else if a_neg {
            nat_lt(&other.magnitude, &self.magnitude)
        } else {
            nat_lt(&self.magnitude, &other.magnitude)
        }
    }

    /// Overwrites the number with zeros in memory; it is zero afterwards.
    pub fn zeroize(&mut self)
        ensures
            final(self)@ == 0,
            final(self).magnitude@.len() == 0,
            !final(self).negative,
        opens_invariants none
        no_unwind
    {
        wipe_bytes(&mut self.magnitude);
        self.negative = false;
        assert(self.magnitude@ =~= Seq::<u8>::empty());
    }

    /// A random integer in `[0, upper)`.
    pub fn sample_below(upper: &BigInt) -> (r: BigInt)
        requires
            upper@ > 0,
        ensures
            0 <= r@ < upper@,
            !r.negative,
    {
        BigInt { negative: false, magnitude: nat_sample_below(&upper.magnitude) }
    }

    /// A random integer in `[0, 2^bit_size)`.
    pub fn sample(bit_size: u32) -> (r: BigInt)
        ensures
            0 <= r@ < pow(2, bit_size as nat),
            !r.negative,
    {
        BigInt { negative: false, magnitude: nat_sample_bits(bit_size) }
    }
}

} // verus!
