//! Natural numbers as byte strings.
//!
//! A byte string spells a natural number, most significant byte first. The
//! arithmetic on such numbers is done by the `curv` crate; this module states
//! what each operation returns, and proves what the library needs to know of
//! the encoding itself.

use curv::arithmetic::traits::{BasicOps, Converter, Modulo, Samplable};
use vstd::arithmetic::power::pow;
use vstd::prelude::*;
use zeroize::Zeroize;

verus! {

/// The natural number that `bytes` spell in base 256, most significant byte
/// first. Leading zero bytes do not change it; the empty sequence is zero.
pub open spec fn be_nat(bytes: Seq<u8>) -> nat
    decreases bytes.len(),
{
    if bytes.len() == 0 {
        0
    } else {
        be_nat(bytes.drop_last()) * 256 + bytes.last() as nat
    }
}

/// `x` is the inverse of `a` modulo `m`, and reduced.
pub open spec fn is_inverse_mod(a: int, x: int, m: int) -> bool {
    0 <= x < m && (a * x) % m == 1int % m
}

/// `a` has an inverse modulo `m`: for `m > 0`, `a` and `m` are coprime.
pub open spec fn has_inverse_mod(a: int, m: int) -> bool {
    exists|x: int| is_inverse_mod(a, x, m)
}

/// The inverse of `a` modulo `m`, where there is one.
pub open spec fn inverse_mod(a: int, m: int) -> int {
    choose|x: int| is_inverse_mod(a, x, m)
}

/// Sum of two naturals: `curv::arithmetic::BigInt`'s `+`, between
/// `Converter::from_bytes` and `Converter::to_bytes`.
#[verifier::external_body]
pub(crate) fn nat_add(a: &Vec<u8>, b: &Vec<u8>) -> (r: Vec<u8>)
    ensures
        be_nat(r@) == be_nat(a@) + be_nat(b@),
{
    let x = curv::arithmetic::BigInt::from_bytes(a);
    let y = curv::arithmetic::BigInt::from_bytes(b);
    (x + y).to_bytes()
}

/// Distance of two naturals: `curv::arithmetic::BigInt`'s `-`, whose result
/// `Converter::to_bytes` hands out without its sign.
#[verifier::external_body]
pub(crate) fn nat_abs_diff(a: &Vec<u8>, b: &Vec<u8>) -> (r: Vec<u8>)
    ensures
        be_nat(a@) >= be_nat(b@) ==> be_nat(r@) == be_nat(a@) - be_nat(b@),
        be_nat(a@) < be_nat(b@) ==> be_nat(r@) == be_nat(b@) - be_nat(a@),
{
    let x = curv::arithmetic::BigInt::from_bytes(a);
    let y = curv::arithmetic::BigInt::from_bytes(b);
    (x - y).to_bytes()
}

/// Product of two naturals: `curv::arithmetic::BigInt`'s `*`.
#[verifier::external_body]
pub(crate) fn nat_mul(a: &Vec<u8>, b: &Vec<u8>) -> (r: Vec<u8>)
    ensures
        be_nat(r@) == be_nat(a@) * be_nat(b@),
{
    let x = curv::arithmetic::BigInt::from_bytes(a);
    let y = curv::arithmetic::BigInt::from_bytes(b);
    (x * y).to_bytes()
}

/// Quotient of two naturals: `curv::arithmetic::BigInt`'s `/`, which panics
/// on a zero divisor.
#[verifier::external_body]
pub(crate) fn nat_div(a: &Vec<u8>, b: &Vec<u8>) -> (r: Vec<u8>)
    requires
        be_nat(b@) > 0,
    ensures
        be_nat(r@) == be_nat(a@) / be_nat(b@),
{
    let x = curv::arithmetic::BigInt::from_bytes(a);
    let y = curv::arithmetic::BigInt::from_bytes(b);
    (x / y).to_bytes()
}

/// Remainder of two naturals: `curv::arithmetic::BigInt`'s `%`, which panics
/// on a zero divisor.
#[verifier::external_body]
pub(crate) fn nat_rem(a: &Vec<u8>, b: &Vec<u8>) -> (r: Vec<u8>)
    requires
        be_nat(b@) > 0,
    ensures
        be_nat(r@) == be_nat(a@) % be_nat(b@),
{
    let x = curv::arithmetic::BigInt::from_bytes(a);
    let y = curv::arithmetic::BigInt::from_bytes(b);
    (x % y).to_bytes()
}

/// Whether two byte strings spell the same natural: `==` of
/// `curv::arithmetic::BigInt`.
#[verifier::external_body]
pub(crate) fn nat_eq(a: &Vec<u8>, b: &Vec<u8>) -> (r: bool)
    ensures
        r == (be_nat(a@) == be_nat(b@)),
{
    curv::arithmetic::BigInt::from_bytes(a) == curv::arithmetic::BigInt::from_bytes(b)
}

/// Whether the first natural is the smaller one: `<` of
/// `curv::arithmetic::BigInt`.
#[verifier::external_body]
pub(crate) fn nat_lt(a: &Vec<u8>, b: &Vec<u8>) -> (r: bool)
    ensures
        r == (be_nat(a@) < be_nat(b@)),
{
    curv::arithmetic::BigInt::from_bytes(a) < curv::arithmetic::BigInt::from_bytes(b)
}

/// A natural raised to a machine-sized exponent: `BasicOps::pow` of
/// `curv::arithmetic::BigInt`.
#[verifier::external_body]
pub(crate) fn nat_pow(base: &Vec<u8>, exponent: u32) -> (r: Vec<u8>)
    ensures
        be_nat(r@) == pow(be_nat(base@) as int, exponent as nat),
{
    curv::arithmetic::BigInt::from_bytes(base).pow(exponent).to_bytes()
}

/// Modular exponentiation of naturals: `Modulo::mod_pow` of
/// `curv::arithmetic::BigInt`, which divides by the modulus and returns the
/// power reduced into `[0, modulus)`.
#[verifier::external_body]
pub(crate) fn nat_mod_pow(base: &Vec<u8>, exponent: &Vec<u8>, modulus: &Vec<u8>) -> (r: Vec<u8>)
    requires
        be_nat(modulus@) > 0,
    ensures
        be_nat(r@) == pow(be_nat(base@) as int, be_nat(exponent@)) % (be_nat(modulus@) as int),
{
    let b = curv::arithmetic::BigInt::from_bytes(base);
    let e = curv::arithmetic::BigInt::from_bytes(exponent);
    let m = curv::arithmetic::BigInt::from_bytes(modulus);
    curv::arithmetic::BigInt::mod_pow(&b, &e, &m).to_bytes()
}

/// Modular inverse of a natural: `Modulo::mod_inv` of
/// `curv::arithmetic::BigInt`. It answers `None` exactly when the two numbers
/// are not coprime, and else the inverse reduced into `[0, modulus)`; a zero
/// modulus makes it divide by zero.
#[verifier::external_body]
pub(crate) fn nat_mod_inv(a: &Vec<u8>, modulus: &Vec<u8>) -> (r: Option<Vec<u8>>)
    requires
        be_nat(modulus@) > 0,
    ensures
        r is Some <==> has_inverse_mod(be_nat(a@) as int, be_nat(modulus@) as int),
        r matches Some(x) ==> is_inverse_mod(
            be_nat(a@) as int,
            be_nat(x@) as int,
            be_nat(modulus@) as int,
        ),
{
    let x = curv::arithmetic::BigInt::from_bytes(a);
    let m = curv::arithmetic::BigInt::from_bytes(modulus);
    curv::arithmetic::BigInt::mod_inv(&x, &m).map(|i| i.to_bytes())
}

/// A random natural below `upper`: `Samplable::sample_below` of
/// `curv::arithmetic::BigInt`, which panics unless `upper` is positive. Only
/// the range is known of the outcome.
#[verifier::external_body]
pub(crate) fn nat_sample_below(upper: &Vec<u8>) -> (r: Vec<u8>)
    requires
        be_nat(upper@) > 0,
    ensures
        be_nat(r@) < be_nat(upper@),
{
    curv::arithmetic::BigInt::sample_below(&curv::arithmetic::BigInt::from_bytes(upper)).to_bytes()
}

/// A random natural of at most `bit_size` bits: `Samplable::sample` of
/// `curv::arithmetic::BigInt`. Only the range is known of the outcome.
#[verifier::external_body]
pub(crate) fn nat_sample_bits(bit_size: u32) -> (r: Vec<u8>)
    ensures
        be_nat(r@) < pow(2, bit_size as nat),
{
    curv::arithmetic::BigInt::sample(bit_size as usize).to_bytes()
}

/// Overwrites a byte string with zeros and empties it: `Zeroize::zeroize` of
/// the `zeroize` crate on a `Vec`, which does not panic.
#[verifier::external_body]
pub(crate) fn wipe_bytes(bytes: &mut Vec<u8>)
    ensures
        final(bytes)@.len() == 0,
    opens_invariants none
    no_unwind
{
    bytes.zeroize()
}

/// The inverse modulo `m` is unique.
pub proof fn lemma_inverse_unique(a: int, x: int, y: int, m: int)
    requires
        m > 0,
        is_inverse_mod(a, x, m),
        is_inverse_mod(a, y, m),
    ensures
        x == y,
{
    if m == 1 {
    } else {
        vstd::arithmetic::div_mod::lemma_small_mod(1, m as nat);
        vstd::arithmetic::div_mod::lemma_small_mod(x as nat, m as nat);
        vstd::arithmetic::div_mod::lemma_small_mod(y as nat, m as nat);
        // (x * a) * y is congruent to y, and x * (a * y) to x.
        vstd::arithmetic::div_mod::lemma_mul_mod_noop_left(x * a, y, m);
        vstd::arithmetic::div_mod::lemma_mul_mod_noop_right(x, a * y, m);
        assert(x * a == a * x) by (nonlinear_arith);
        assert((x * a) * y == x * (a * y)) by (nonlinear_arith);
        assert(1 * y == y && x * 1 == x);
    }
}

/// Appending a byte multiplies by 256 and adds the byte.
pub proof fn lemma_be_nat_push(s: Seq<u8>, b: u8)
    ensures
        be_nat(s.push(b)) == be_nat(s) * 256 + b as nat,
{
    assert(s.push(b).drop_last() =~= s);
}

/// A leading zero byte does not change the number.
pub proof fn lemma_be_nat_leading_zero(s: Seq<u8>)
    ensures
        be_nat(seq![0u8] + s) == be_nat(s),
    decreases s.len(),
{
    let z = seq![0u8];
    if s.len() == 0 {
        assert(z + s =~= z);
        assert(z.drop_last() =~= Seq::<u8>::empty());
        assert(be_nat(z.drop_last()) == 0);
    } else {
        assert((z + s).drop_last() =~= z + s.drop_last());
        assert((z + s).last() == s.last());
        lemma_be_nat_leading_zero(s.drop_last());
    }
}

/// Leading zero bytes can be dropped.
pub proof fn lemma_be_nat_skip_zeros(s: Seq<u8>, i: int)
    requires
        0 <= i <= s.len(),
        forall|j: int| 0 <= j < i ==> s[j] == 0,
    ensures
        be_nat(s.skip(i)) == be_nat(s),
    decreases i,
{
    if i == 0 {
        assert(s.skip(0) =~= s);
    } else {
        lemma_be_nat_skip_zeros(s, i - 1);
        assert(s.skip(i - 1) =~= seq![0u8] + s.skip(i));
        lemma_be_nat_leading_zero(s.skip(i));
    }
}

/// A sequence of zero bytes spells zero.
pub proof fn lemma_be_nat_all_zero(s: Seq<u8>)
    requires
        forall|j: int| 0 <= j < s.len() ==> s[j] == 0,
    ensures
        be_nat(s) == 0,
{
    lemma_be_nat_skip_zeros(s, s.len() as int);
    assert(s.skip(s.len() as int) =~= Seq::<u8>::empty());
}

/// A number whose first byte is not zero is not zero.
pub proof fn lemma_be_nat_positive(s: Seq<u8>)
    requires
        s.len() > 0,
        s[0] != 0,
    ensures
        be_nat(s) > 0,
    decreases s.len(),
{
    if s.len() == 1 {
        assert(s.drop_last() =~= Seq::<u8>::empty());
        assert(be_nat(s.drop_last()) == 0);
    } else {
        lemma_be_nat_positive(s.drop_last());
    }
}

/// The shortest big-endian encoding of a natural number: no leading zero
/// byte, and no byte at all for zero.
pub open spec fn minimal_be(n: nat) -> Seq<u8>
    decreases n,
{
    if n == 0 {
        Seq::empty()
    } else {
        minimal_be(n / 256).push((n % 256) as u8)
    }
}

/// The big-endian encoding of `n` modulo `256^width` in exactly `width`
/// bytes.
pub open spec fn fixed_be(n: nat, width: nat) -> Seq<u8>
    decreases width,
{
    if width == 0 {
        Seq::empty()
    } else {
        fixed_be(n / 256, (width - 1) as nat).push((n % 256) as u8)
    }
}

/// A byte string without a leading zero byte is the shortest encoding of
/// its number.
pub proof fn lemma_minimal_be_unique(s: Seq<u8>)
    requires
        s.len() > 0 ==> s[0] != 0,
    ensures
        s == minimal_be(be_nat(s)),
    decreases s.len(),
{
    if s.len() == 0 {
        assert(s =~= Seq::<u8>::empty());
    } else {
        let init = s.drop_last();
        let n = be_nat(s);
        lemma_be_nat_positive(s);
        assert(n == be_nat(init) * 256 + s.last() as nat);
        assert(n / 256 == be_nat(init) && n % 256 == s.last() as nat) by {
            vstd::arithmetic::div_mod::lemma_fundamental_div_mod_converse(
                n as int,
                256,
                be_nat(init) as int,
                s.last() as int,
            );
        }
        if init.len() > 0 {
            assert(init[0] == s[0]);
        }
        lemma_minimal_be_unique(init);
        assert(s =~= init.push(s.last()));
    }
}

/// A number of `len` bytes is below `256^len`.
pub proof fn lemma_be_nat_bound(s: Seq<u8>)
    ensures
        be_nat(s) < pow(256, s.len()),
    decreases s.len(),
{
    if s.len() == 0 {
        vstd::arithmetic::power::lemma_pow0(256);
    } else {
        lemma_be_nat_bound(s.drop_last());
        let k = (s.len() - 1) as nat;
        vstd::arithmetic::power::lemma_pow1(256);
        vstd::arithmetic::power::lemma_pow_adds(256, k, 1);
        assert(be_nat(s.drop_last()) * 256 + 256 <= pow(256, k) * 256) by (nonlinear_arith)
            requires
                be_nat(s.drop_last()) + 1 <= pow(256, k),
        ;
    }
}

/// An encoding of fixed width has that width.
pub proof fn lemma_fixed_be_len(n: nat, width: nat)
    ensures
        fixed_be(n, width).len() == width,
    decreases width,
{
    if width > 0 {
        lemma_fixed_be_len(n / 256, (width - 1) as nat);
    }
}

/// The encoding of fixed width spells the number, where the number fits.
pub proof fn lemma_fixed_be_value(n: nat, width: nat)
    requires
        n < pow(256, width),
    ensures
        be_nat(fixed_be(n, width)) == n,
    decreases width,
{
    if width == 0 {
        vstd::arithmetic::power::lemma_pow0(256);
    } else {
        let k = (width - 1) as nat;
        vstd::arithmetic::power::lemma_pow1(256);
        vstd::arithmetic::power::lemma_pow_adds(256, k, 1);
        assert(n / 256 < pow(256, k)) by (nonlinear_arith)
            requires
                n < pow(256, k) * 256,
        ;
        lemma_fixed_be_value(n / 256, k);
        lemma_be_nat_push(fixed_be(n / 256, k), (n % 256) as u8);
        vstd::arithmetic::div_mod::lemma_fundamental_div_mod(n as int, 256);
    }
}

/// A byte string is the encoding of its number in its own width.
pub proof fn lemma_fixed_be_of_be_nat(s: Seq<u8>)
    ensures
        fixed_be(be_nat(s), s.len()) == s,
    decreases s.len(),
{
    if s.len() == 0 {
        assert(s =~= Seq::<u8>::empty());
    } else {
        let init = s.drop_last();
        let n = be_nat(s);
        assert(n / 256 == be_nat(init) && n % 256 == s.last() as nat) by {
            vstd::arithmetic::div_mod::lemma_fundamental_div_mod_converse(
                n as int,
                256,
                be_nat(init) as int,
                s.last() as int,
            );
        }
        lemma_fixed_be_of_be_nat(init);
        assert(s =~= init.push(s.last()));
    }
}

/// A number whose shortest encoding has `len` bytes is at least
/// `256^(len - 1)`.
pub proof fn lemma_be_nat_lower_bound(s: Seq<u8>)
    requires
        s.len() > 0,
        s[0] != 0,
    ensures
        be_nat(s) >= pow(256, (s.len() - 1) as nat),
    decreases s.len(),
{
    if s.len() == 1 {
        vstd::arithmetic::power::lemma_pow0(256);
        assert(s.drop_last() =~= Seq::<u8>::empty());
        assert(be_nat(s.drop_last()) == 0);
    } else {
        lemma_be_nat_lower_bound(s.drop_last());
        let k = (s.len() - 2) as nat;
        vstd::arithmetic::power::lemma_pow1(256);
        vstd::arithmetic::power::lemma_pow_adds(256, k, 1);
        assert(be_nat(s.drop_last()) * 256 >= pow(256, k) * 256) by (nonlinear_arith)
            requires
                be_nat(s.drop_last()) >= pow(256, k),
        ;
    }
}

} // verus!
