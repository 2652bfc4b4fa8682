//! Scalars and points of the secp256k1 curve.
//!
//! A [`Scalar`] is an integer modulo the group order, computed with here. A
//! [`Point`] is held by its compressed encoding; the group law itself is the
//! `curv` crate's, and known here by name only.

use crate::arithmetic::{
    be_nat, fixed_be, has_inverse_mod, is_inverse_mod, lemma_be_nat_bound,
    lemma_be_nat_lower_bound, lemma_be_nat_positive, lemma_be_nat_skip_zeros, lemma_fixed_be_len,
    lemma_fixed_be_of_be_nat, lemma_fixed_be_value, wipe_bytes,
};
use crate::bigint::BigInt;
use curv::arithmetic::Converter;
use curv::cryptographic_primitives::proofs::sigma_dlog::DLogProof;
use curv::cryptographic_primitives::secret_sharing::feldman_vss::{
    ShamirSecretSharing, VerifiableSS,
};
use curv::elliptic::curves;
use curv::elliptic::curves::Secp256k1;
use vstd::arithmetic::power::pow;
use vstd::prelude::*;

verus! {

/// The order of the group, big-endian.
pub const CURVE_ORDER: [u8; 32] = [
    0xff, 0xff, 0xff, 0xff, 0xff, 0xff, 0xff, 0xff, 0xff, 0xff, 0xff, 0xff, 0xff, 0xff, 0xff, 0xfe,
    0xba, 0xae, 0xdc, 0xe6, 0xaf, 0x48, 0xa0, 0x3b, 0xbf, 0xd2, 0x5e, 0x8c, 0xd0, 0x36, 0x41, 0x41,
];

/// The compressed encoding of the group's generator: the tag of an even
/// ordinate, then the abscissa.
pub const GENERATOR: [u8; 33] = [
    0x02, 0x79, 0xbe, 0x66, 0x7e, 0xf9, 0xdc, 0xbb, 0xac, 0x55, 0xa0, 0x62, 0x95, 0xce, 0x87, 0x0b,
    0x07, 0x02, 0x9b, 0xfc, 0xdb, 0x2d, 0xce, 0x28, 0xd9, 0x59, 0xf2, 0x81, 0x5b, 0x16, 0xf8, 0x17,
    0x98,
];

/// The order of the group as a number.
pub open spec fn group_order() -> int {
    be_nat(CURVE_ORDER@) as int
}

/// Why a byte string is no point.
#[derive(Clone, Copy, Debug, PartialEq, Eq, Structural)]
pub enum PointFromBytesError {
    /// The bytes are no encoding of a point of the curve.
    DeserializationError,
    /// The point does not have the order of the group.
    InvalidPoint,
}

/// What `curv` makes of a byte string that is to be a point: the compressed
/// encoding of the point, or the reason for which it refuses the string.
pub uninterp spec fn decode_point(bytes: Seq<u8>) -> Result<Seq<u8>, PointFromBytesError>;

/// The encoding of the point with the given encoding, multiplied by a scalar.
pub uninterp spec fn ec_mul(point: Seq<u8>, scalar: int) -> Seq<u8>;

/// The encoding of the sum of the points with the given encodings.
pub uninterp spec fn ec_add(a: Seq<u8>, b: Seq<u8>) -> Seq<u8>;

/// The uncompressed encoding of the point with the given compressed
/// encoding.
pub uninterp spec fn ec_uncompressed(point: Seq<u8>) -> Seq<u8>;

/// The encoding of the neutral element: 33 zero bytes.
pub open spec fn neutral_encoding() -> Seq<u8> {
    Seq::new(33, |i: int| 0u8)
}

/// The abscissa of the point with the given compressed encoding: the 32
/// bytes after the tag, big-endian. The neutral element has none.
pub open spec fn ec_x_coord(point: Seq<u8>) -> Option<int> {
    if point == neutral_encoding() {
        None
    } else {
        Some(be_nat(point.subrange(1, 33)) as int)
    }
}

/// The polynomial that `commitments` commit to, at `index`, in the
/// exponent: the first commitment plus `index` times the polynomial of the
/// others.
pub open spec fn commitment_at(commitments: Seq<Seq<u8>>, index: int) -> Seq<u8>
    decreases commitments.len(),
{
    if commitments.len() <= 1 {
        commitments.first()
    } else {
        ec_add(
            commitments.first(),
            ec_mul(commitment_at(commitments.drop_first(), index), index),
        )
    }
}

/// The share `share` of the party with the number `index` lies on the
/// polynomial that `commitments` commit to: the generator times the share
/// is that polynomial at `index`.
pub open spec fn feldman_share_valid(commitments: Seq<Seq<u8>>, share: int, index: u16) -> bool {
    ec_mul(GENERATOR@, share) == commitment_at(commitments, index as int)
}

/// Whether `curv` accepts the proof of knowledge of the discrete logarithm
/// of `pk` that consists of the commitment `commitment` and the answer
/// `response`.
pub uninterp spec fn schnorr_proof_valid(pk: Seq<u8>, commitment: Seq<u8>, response: int) -> bool;

/// The encodings of a sequence of points.
pub open spec fn encodings(points: Seq<Point>) -> Seq<Seq<u8>> {
    Seq::new(points.len(), |i: int| points[i]@)
}

/// `bytes` are read as the point with the compressed encoding `point`.
pub open spec fn decodes_to(bytes: Seq<u8>, point: Seq<u8>) -> bool {
    decode_point(bytes) is Ok && decode_point(bytes)->Ok_0 == point
}

/// `bytes` are refused for the reason `reason`.
pub open spec fn is_refused(bytes: Seq<u8>, reason: PointFromBytesError) -> bool {
    decode_point(bytes) is Err && decode_point(bytes)->Err_0 == reason
}

/// `bytes` is the compressed encoding of a point: 33 bytes that decode to
/// themselves.
pub open spec fn is_point(bytes: Seq<u8>) -> bool {
    bytes.len() == 33 && decodes_to(bytes, bytes)
}

/// `Point::from_bytes` of `curv` for secp256k1, and `Point::to_bytes` in
/// compressed form on what it accepts. The encoding that comes out is 33
/// bytes long and is accepted again, as itself.
#[verifier::external_body]
fn curve_decode(bytes: &[u8]) -> (r: Result<Vec<u8>, PointFromBytesError>)
    ensures
        r matches Ok(p) ==> decode_point(bytes@) is Ok && decode_point(bytes@)->Ok_0 == p@
            && is_point(p@),
        r matches Err(e) ==> decode_point(bytes@) is Err && decode_point(bytes@)->Err_0 == e,
{
    match curves::Point::<Secp256k1>::from_bytes(bytes) {
        Ok(p) => Ok(p.to_bytes(true).to_vec()),
        Err(curves::PointFromBytesError::DeserializationError) => Err(
            PointFromBytesError::DeserializationError,
        ),
        Err(curves::PointFromBytesError::InvalidPoint(_)) => Err(PointFromBytesError::InvalidPoint),
    }
}

/// `Point::generator` of `curv` for secp256k1, compressed: the point whose
/// coordinates the `secp256k1` crate lists as `GENERATOR_X` and
/// `GENERATOR_Y`.
#[verifier::external_body]
fn curve_generator() -> (r: Vec<u8>)
    ensures
        r@ == GENERATOR@,
        is_point(r@),
{
    curves::Point::<Secp256k1>::generator().to_point().to_bytes(true).to_vec()
}

/// `Point::to_bytes` of `curv` in uncompressed form: 65 bytes, which
/// `Point::from_bytes` reads as the same point.
#[verifier::external_body]
fn curve_uncompressed(point: &Point) -> (r: Vec<u8>)
    requires
        is_point(point@),
    ensures
        r@ == ec_uncompressed(point@),
        r@.len() == 65,
        decodes_to(r@, point@),
{
    curves::Point::<Secp256k1>::from_bytes(&point.bytes).unwrap().to_bytes(false).to_vec()
}

/// The product of a point and a scalar: `*` of `curv`'s `Point` and `Scalar`.
#[verifier::external_body]
fn curve_mul(point: &Point, scalar: &Scalar) -> (r: Point)
    requires
        is_point(point@),
        scalar@ >= 0,
    ensures
        r@ == ec_mul(point@, scalar@),
        is_point(r@),
{
    let p = curves::Point::<Secp256k1>::from_bytes(&point.bytes).unwrap();
    let n = curv::BigInt::from_bytes(&scalar.value.magnitude);
    let s = curves::Scalar::<Secp256k1>::from_bigint(&n);
    Point { bytes: (p * s).to_bytes(true).to_vec() }
}

/// The sum of two points: `+` of `curv`'s `Point`.
#[verifier::external_body]
fn curve_add(a: &Point, b: &Point) -> (r: Point)
    requires
        is_point(a@),
        is_point(b@),
    ensures
        r@ == ec_add(a@, b@),
        is_point(r@),
{
    let p = curves::Point::<Secp256k1>::from_bytes(&a.bytes).unwrap();
    let q = curves::Point::<Secp256k1>::from_bytes(&b.bytes).unwrap();
    Point { bytes: (p + q).to_bytes(true).to_vec() }
}

/// The abscissa of a point: `Point::x_coord` of `curv`, which reads it from
/// the point's encoding and has none for the neutral element.
#[verifier::external_body]
fn curve_x_coord(point: &Point) -> (r: Option<BigInt>)
    requires
        is_point(point@),
    ensures
        r is Some <==> ec_x_coord(point@) is Some,
        r matches Some(x) ==> ec_x_coord(point@) == Some(x@) && x@ >= 0,
{
    let p = curves::Point::<Secp256k1>::from_bytes(&point.bytes).unwrap();
    p.x_coord().map(|x| BigInt { negative: false, magnitude: x.to_bytes() })
}

/// `VerifiableSS::validate_share` of `curv`: whether the generator times the
/// share is the commitments' polynomial at `index`, which it folds from the
/// last commitment down with `+` and `*` of `Point`. It takes the last
/// commitment first, so there has to be one.
#[verifier::external_body]
fn curve_validate_share(
    threshold: u16,
    share_count: u16,
    commitments: &Vec<Point>,
    share: &Scalar,
    index: u16,
) -> (r: bool)
    requires
        commitments.len() > 0,
        forall|i: int| 0 <= i < commitments.len() ==> is_point(#[trigger] commitments[i]@),
        share@ >= 0,
    ensures
        r == feldman_share_valid(encodings(commitments@), share@, index),
{
    let n = curv::BigInt::from_bytes(&share.value.magnitude);
    let s = curves::Scalar::<Secp256k1>::from_bigint(&n);
    let points = commitments.iter().map(
        |c| curves::Point::<Secp256k1>::from_bytes(&c.bytes).unwrap(),
    ).collect();
    let parameters = ShamirSecretSharing { threshold, share_count };
    VerifiableSS { parameters, commitments: points }.validate_share(&s, index).is_ok()
}

/// `DLogProof::verify` of `curv` over secp256k1 and SHA-256: whether the
/// proof of knowledge of the discrete logarithm of `pk` holds.
#[verifier::external_body]
fn curve_dlog_verify(pk: &Point, commitment: &Point, response: &Scalar) -> (r: bool)
    requires
        is_point(pk@),
        is_point(commitment@),
        response@ >= 0,
    ensures
        r == schnorr_proof_valid(pk@, commitment@, response@),
{
    let n = curv::BigInt::from_bytes(&response.value.magnitude);
    let proof = DLogProof::<Secp256k1, sha2::Sha256> {
        pk: curves::Point::from_bytes(&pk.bytes).unwrap(),
        pk_t_rand_commitment: curves::Point::from_bytes(&commitment.bytes).unwrap(),
        challenge_response: curves::Scalar::from_bigint(&n),
        hash_choice: Default::default(),
    };
    DLogProof::verify(&proof).is_ok()
}

/// `DLogProof::prove` of `curv` over secp256k1 and SHA-256: a proof of
/// knowledge of `sk`, as the public key, the commitment and the answer. The
/// public key is the generator times `sk`. The commitment is random;
/// whatever it is, the proof is one that `DLogProof::verify` accepts.
#[verifier::external_body]
fn curve_dlog_prove(sk: &Scalar) -> (r: (Point, Point, Scalar))
    requires
        sk@ >= 0,
    ensures
        is_point(r.0@),
        is_point(r.1@),
        0 <= r.2@ < group_order(),
        r.0@ == ec_mul(GENERATOR@, sk@),
        schnorr_proof_valid(r.0@, r.1@, r.2@),
{
    let n = curv::BigInt::from_bytes(&sk.value.magnitude);
    let proof = DLogProof::<Secp256k1, sha2::Sha256>::prove(&curves::Scalar::from_bigint(&n));
    let response = proof.challenge_response.to_bigint().to_bytes();
    (
        Point { bytes: proof.pk.to_bytes(true).to_vec() },
        Point { bytes: proof.pk_t_rand_commitment.to_bytes(true).to_vec() },
        Scalar { value: BigInt { negative: false, magnitude: response } },
    )
}

/// An integer modulo the order of the group.
#[derive(Debug)]
pub struct Scalar {
    value: BigInt,
}

impl View for Scalar {
    type V = int;

    closed spec fn view(&self) -> int {
        self.value@
    }
}

impl Clone for Scalar {
    fn clone(&self) -> (r: Self)
        ensures
            r@ == self@,
    {
        proof {
            use_type_invariant(self);
        }
        Scalar { value: self.value.clone() }
    }
}

/// A scalar on the wire: 32 bytes, big-endian.
pub open spec fn scalar_encoding(x: int) -> Seq<u8> {
    fixed_be(x as nat, 32)
}

/// The scalar that 32 bytes spell, where it is below the order of the
/// group; other byte strings are no scalar.
pub open spec fn scalar_decoding(bytes: Seq<u8>) -> Option<int> {
    if bytes.len() == 32 && be_nat(bytes) < group_order() {
        Some(be_nat(bytes) as int)
    } else {
        None
    }
}

/// The order of the group fits in 32 bytes.
pub proof fn lemma_group_order_bound()
    ensures
        group_order() < pow(256, 32),
{
    lemma_be_nat_bound(CURVE_ORDER@);
}

/// A scalar that is written and read again is the same scalar.
pub proof fn lemma_scalar_round_trip(x: int)
    requires
        0 <= x < group_order(),
    ensures
        scalar_decoding(scalar_encoding(x)) == Some(x),
{
    lemma_group_order_bound();
    lemma_fixed_be_len(x as nat, 32);
    lemma_fixed_be_value(x as nat, 32);
}

/// Bytes that are read as a scalar are what that scalar is written as.
pub proof fn lemma_scalar_encoding_canonical(bytes: Seq<u8>)
    ensures
        scalar_decoding(bytes) matches Some(x) ==> scalar_encoding(x) == bytes,
{
    lemma_fixed_be_of_be_nat(bytes);
}

/// The order of the group is positive.
pub proof fn lemma_group_order_positive()
    ensures
        group_order() > 0,
{
    assert(CURVE_ORDER@[0] == 0xff);
    lemma_be_nat_positive(CURVE_ORDER@);
}

/// The order of the group is greater than 1.
proof fn lemma_order_above_one()
    ensures
        group_order() > 1,
{
    let s = CURVE_ORDER@;
    assert(s[0] == 0xff);
    lemma_be_nat_positive(s.drop_last());
    assert(be_nat(s) == be_nat(s.drop_last()) * 256 + s.last() as nat);
}

impl Scalar {
    #[verifier::type_invariant]
    spec fn reduced(self) -> bool {
        0 <= self.value@ < group_order() && !self.value.negative
    }

    /// The order of the group.
    pub fn group_order() -> (r: BigInt)
        ensures
            r@ == group_order(),
            r@ > 0,
    {
        proof {
            lemma_group_order_positive();
        }
        BigInt::from_bytes(CURVE_ORDER.as_slice())
    }

    pub fn zero() -> (r: Scalar)
        ensures
            r@ == 0,
    {
        proof {
            lemma_group_order_positive();
        }
        Scalar { value: BigInt::zero() }
    }

    /// Overwrites the scalar with zeros in memory; it is zero afterwards.
    pub fn zeroize(&mut self)
        ensures
            final(self)@ == 0,
        opens_invariants none
        no_unwind
    {
        proof {
            lemma_group_order_positive();
        }
        self.value.zeroize();
    }

    /// The scalar `n` modulo the order of the group.
    pub fn from_bigint(n: &BigInt) -> (r: Scalar)
        ensures
            r@ == n@ % group_order(),
    {
        let q = Scalar::group_order();
        Scalar { value: n.modulus(&q) }
    }

    /// A random scalar that is not zero.
    pub fn random() -> (r: Scalar)
        ensures
            1 <= r@ < group_order(),
    {
        let q = Scalar::group_order();
        let one = BigInt::one();
        proof {
            assert(CURVE_ORDER@[0] == 0xff);
            lemma_order_above_one();
        }
        let below = BigInt::sample_below(&q.sub(&one));
        let value = below.add(&one);
        assert(!value.negative) by {
            assert(value@ >= 1);
        }
        Scalar { value }
    }

    pub fn from_u16(n: u16) -> (r: Scalar)
        ensures
            r@ == n as int % group_order(),
    {
        Scalar::from_bigint(&BigInt::from_u64(n as u64))
    }

    /// The scalar on the wire: 32 bytes, big-endian.
    pub fn to_bytes(&self) -> (r: Vec<u8>)
        ensures
            r@ == scalar_encoding(self@),
            r@.len() == 32,
    {
        proof {
            use_type_invariant(self);
            lemma_group_order_bound();
        }
        let digits = self.value.to_bytes();
        proof {
            if digits.len() > 32 {
                lemma_be_nat_lower_bound(digits@);
                vstd::arithmetic::power::lemma_pow_increases(256, 32, (digits.len() - 1) as nat);
            }
        }
        let mut r: Vec<u8> = Vec::new();
        let pad: usize = 32 - digits.len();
        let mut i: usize = 0;
        while i < pad
            invariant
                i <= pad,
                r.len() == i,
                forall|j: int| 0 <= j < i ==> r[j] == 0,
            decreases pad - i,
        {
            r.push(0u8);
            i = i + 1;
        }
        let mut k: usize = 0;
        while k < digits.len()
            invariant
                k <= digits.len(),
                pad + digits.len() == 32,
                r.len() == pad + k,
                forall|j: int| 0 <= j < pad ==> r[j] == 0,
                forall|j: int| 0 <= j < k ==> r[pad + j] == digits[j],
            decreases digits.len() - k,
        {
            r.push(digits[k]);
            k = k + 1;
        }
        proof {
            assert(r@.skip(pad as int) =~= digits@);
            lemma_be_nat_skip_zeros(r@, pad as int);
            lemma_fixed_be_of_be_nat(r@);
        }
        r
    }

    /// Reads a scalar from the wire: 32 bytes that spell a number below the
    /// order of the group.
    pub fn from_bytes(bytes: &[u8]) -> (r: Option<Scalar>)
        ensures
            r is Some <==> scalar_decoding(bytes@) is Some,
            r matches Some(x) ==> scalar_decoding(bytes@) == Some(x@),
    {
        if bytes.len() != 32 {
            return None;
        }
        let value = BigInt::from_bytes(bytes);
        if value.lt(&Scalar::group_order()) {
            Some(Scalar { value })
        } else {
            None
        }
    }

    /// The scalar as a number in `[0, group_order())`.
    pub fn to_bigint(&self) -> (r: BigInt)
        ensures
            r@ == self@,
            0 <= r@ < group_order(),
    {
        proof {
            use_type_invariant(self);
        }
        self.value.clone()
    }

    pub fn is_zero(&self) -> (r: bool)
        ensures
            r == (self@ == 0),
    {
        self.value.is_zero()
    }

    pub fn eq(&self, other: &Scalar) -> (r: bool)
        ensures
            r == (self@ == other@),
    {
        self.value.eq(&other.value)
    }

    pub fn add(&self, other: &Scalar) -> (r: Scalar)
        ensures
            r@ == (self@ + other@) % group_order(),
    {
        Scalar::from_bigint(&self.value.add(&other.value))
    }

    pub fn mul(&self, other: &Scalar) -> (r: Scalar)
        ensures
            r@ == (self@ * other@) % group_order(),
    {
        Scalar::from_bigint(&self.value.mul(&other.value))
    }

    /// The inverse modulo the order of the group, where there is one; zero
    /// has none.
    pub fn invert(&self) -> (r: Option<Scalar>)
        ensures
            r is Some <==> has_inverse_mod(self@, group_order()),
            r matches Some(x) ==> is_inverse_mod(self@, x@, group_order()),
    {
        let q = Scalar::group_order();
        match BigInt::mod_inv(&self.value, &q) {
            Some(value) => Some(Scalar { value }),
            None => None,
        }
    }
}

/// A point of the curve, or its neutral element.
#[derive(Debug)]
pub struct Point {
    bytes: Vec<u8>,
}

impl View for Point {
    type V = Seq<u8>;

    /// The compressed encoding.
    closed spec fn view(&self) -> Seq<u8> {
        self.bytes@
    }
}

impl Clone for Point {
    fn clone(&self) -> (r: Self)
        ensures
            r@ == self@,
    {
        proof {
            use_type_invariant(self);
        }
        let bytes = self.bytes.clone();
        assert(bytes@ =~= self.bytes@);
        Point { bytes }
    }
}

impl Point {
    #[verifier::type_invariant]
    spec fn encoded(self) -> bool {
        is_point(self.bytes@)
    }

    /// Reads a point in compressed or uncompressed form.
    pub fn from_bytes(bytes: &[u8]) -> (r: Result<Point, PointFromBytesError>)
        ensures
            r matches Ok(p) ==> decodes_to(bytes@, p@),
            r matches Err(e) ==> is_refused(bytes@, e),
    {
        match curve_decode(bytes) {
            Ok(encoding) => Ok(Point { bytes: encoding }),
            Err(e) => Err(e),
        }
    }

    /// The encoding of the point: 33 bytes in compressed form, 65 in
    /// uncompressed form. Either is read back as this point.
    pub fn to_bytes(&self, compressed: bool) -> (r: Vec<u8>)
        ensures
            compressed ==> r@ == self@ && is_point(r@),
            !compressed ==> r@ == ec_uncompressed(self@) && r@.len() == 65,
            decodes_to(r@, self@),
    {
        proof {
            use_type_invariant(self);
        }
        if compressed {
            let r = self.bytes.clone();
            assert(r@ =~= self.bytes@);
            r
        } else {
            curve_uncompressed(self)
        }
    }

    /// Overwrites the encoding with zeros and gives the point up.
    pub fn wipe(self) {
        let mut bytes = self.bytes;
        wipe_bytes(&mut bytes);
    }

    /// The generator of the group.
    pub fn generator() -> (r: Point)
        ensures
            r@ == GENERATOR@,
    {
        Point { bytes: curve_generator() }
    }

    pub fn mul(&self, scalar: &Scalar) -> (r: Point)
        ensures
            r@ == ec_mul(self@, scalar@),
    {
        proof {
            use_type_invariant(self);
            use_type_invariant(scalar);
        }
        curve_mul(self, scalar)
    }

    pub fn add(&self, other: &Point) -> (r: Point)
        ensures
            r@ == ec_add(self@, other@),
    {
        proof {
            use_type_invariant(self);
            use_type_invariant(other);
        }
        curve_add(self, other)
    }

    /// The abscissa, which the neutral element does not have.
    pub fn x_coord(&self) -> (r: Option<BigInt>)
        ensures
            r is Some <==> ec_x_coord(self@) is Some,
            r matches Some(x) ==> ec_x_coord(self@) == Some(x@) && x@ >= 0,
    {
        proof {
            use_type_invariant(self);
        }
        curve_x_coord(self)
    }

    /// Whether the proof of knowledge of the discrete logarithm of `pk`,
    /// made of `commitment` and `response`, holds.
    pub fn verify_dlog_proof(pk: &Point, commitment: &Point, response: &Scalar) -> (r: bool)
        ensures
            r == schnorr_proof_valid(pk@, commitment@, response@),
    {
        proof {
            use_type_invariant(pk);
            use_type_invariant(commitment);
            use_type_invariant(response);
        }
        curve_dlog_verify(pk, commitment, response)
    }

    /// Proves knowledge of `sk`: the public key of `sk`, a random commitment
    /// and the answer to the challenge that they hash to.
    pub fn prove_dlog(sk: &Scalar) -> (r: (Point, Point, Scalar))
        ensures
            r.0@ == ec_mul(GENERATOR@, sk@),
            schnorr_proof_valid(r.0@, r.1@, r.2@),
    {
        proof {
            use_type_invariant(sk);
        }
        curve_dlog_prove(sk)
    }

    /// Whether the share `share` of the party with the number `index` lies
    /// on the polynomial that `commitments` commit to. There has to be a
    /// commitment.
    pub fn validate_share(
        threshold: u16,
        share_count: u16,
        commitments: &Vec<Point>,
        share: &Scalar,
        index: u16,
    ) -> (r: bool)
        requires
            commitments.len() > 0,
        ensures
            r == feldman_share_valid(encodings(commitments@), share@, index),
    {
        proof {
            use_type_invariant(share);
        }
        let mut i: usize = 0;
        while i < commitments.len()
            invariant
                i <= commitments.len(),
                forall|j: int| 0 <= j < i ==> is_point(#[trigger] commitments[j]@),
            decreases commitments.len() - i,
        {
            let commitment = &commitments[i];
            proof {
                use_type_invariant(commitment);
            }
            i = i + 1;
        }
        curve_validate_share(threshold, share_count, commitments, share, index)
    }

    /// Whether two points are the same: their encodings are.
    pub fn eq(&self, other: &Point) -> (r: bool)
        ensures
            r == (self@ == other@),
    {
        proof {
            use_type_invariant(self);
            use_type_invariant(other);
        }
        let mut i: usize = 0;
        while i < 33
            invariant
                i <= 33,
                self.bytes.len() == 33,
                other.bytes.len() == 33,
                forall|j: int| 0 <= j < i ==> self.bytes[j] == other.bytes[j],
            decreases 33 - i,
        {
            if self.bytes[i] != other.bytes[i] {
                return false;
            }
            i = i + 1;
        }
        assert(self.bytes@ =~= other.bytes@);
        true
    }
}

/// Whether `pk` holds a point of the curve: its encoding is read again.
pub fn is_valid_curve_point(pk: &Point) -> (r: bool)
    ensures
        r,
{
    Point::from_bytes(pk.to_bytes(false).as_slice()).is_ok()
}

} // verus!
