//! Parameters of a shared key, and the values that the protocols exchange.

use crate::arithmetic::{
    be_nat, has_inverse_mod, inverse_mod, lemma_fixed_be_len, lemma_inverse_unique,
};
use crate::bigint::BigInt;
use crate::curve::{
    ec_add, ec_mul, ec_x_coord, group_order, is_valid_curve_point, lemma_group_order_positive,
    lemma_scalar_encoding_canonical, lemma_scalar_round_trip, scalar_decoding, scalar_encoding,
    Point, Scalar, GENERATOR,
};
use crate::error::{KeygenError, ParameterFault};
use crate::hashing::{hash_of, HSha512Trunc256};
use crate::utils::int_views;
use crate::paillier::{EncryptionKey, PaillierKeys};
use crate::protocol::{is_member, PartyIndex};
use vstd::arithmetic::power::pow;
use vstd::prelude::*;

verus! {

/// Parameters of a shared key in the threshold scheme.
///
/// `share_count` parties hold a share each, and any `threshold + 1` of them
/// can sign. The fields always satisfy `1 <= threshold < share_count`.
#[derive(Clone, Copy, Debug)]
pub struct Parameters {
    threshold: u16,
    share_count: u16,
}

/// What `Parameters::new` answers to a pair that it refuses: the first rule
/// that the pair breaks.
pub open spec fn parameter_fault(min_signers: u16, share_count: u16) -> ParameterFault {
    if share_count < 2 {
        ParameterFault::TooFewShares { share_count }
    } else if min_signers < 2 {
        ParameterFault::TooFewSigners { min_signers }
    } else {
        ParameterFault::TooManySigners { min_signers, share_count }
    }
}

impl Parameters {
    #[verifier::type_invariant]
    spec fn valid(self) -> bool {
        1 <= self.threshold < self.share_count
    }

    /// Degree of the sharing polynomial: one less than the number of signers.
    pub closed spec fn spec_threshold(self) -> u16 {
        self.threshold
    }

    /// Number of parties that hold a share.
    pub closed spec fn spec_share_count(self) -> u16 {
        self.share_count
    }

    /// Builds the parameters from the number of signers that a signature
    /// takes and the number of shares, where `2 <= min_signers <= share_count`,
    /// and refuses every other pair.
    pub fn new(min_signers: u16, share_count: u16) -> (r: Result<Parameters, KeygenError>)
        ensures
            r is Ok <==> 2 <= min_signers <= share_count,
            r matches Ok(p) ==> p.spec_threshold() == min_signers - 1 && p.spec_share_count()
                == share_count,
            r matches Err(e) ==> e matches KeygenError::IncorrectParameters(fault) && fault
                == parameter_fault(min_signers, share_count),
    {
        if share_count < 2 {
            return Err(
                KeygenError::IncorrectParameters(ParameterFault::TooFewShares { share_count }),
            );
        }
        if min_signers < 2 {
            return Err(
                KeygenError::IncorrectParameters(ParameterFault::TooFewSigners { min_signers }),
            );
        }
        if min_signers > share_count {
            return Err(
                KeygenError::IncorrectParameters(
                    ParameterFault::TooManySigners { min_signers, share_count },
                ),
            );
        }
        Ok(Parameters { threshold: min_signers - 1, share_count })
    }

    pub fn threshold(&self) -> (r: u16)
        ensures
            r == self.spec_threshold(),
            1 <= r < self.spec_share_count(),
    {
        proof {
            use_type_invariant(self);
        }
        self.threshold
    }

    pub fn share_count(&self) -> (r: u16)
        ensures
            r == self.spec_share_count(),
            r >= 2,
    {
        proof {
            use_type_invariant(self);
        }
        self.share_count
    }

    /// Number of parties that a signature takes.
    pub fn signers(&self) -> (r: u16)
        ensures
            r == self.spec_threshold() + 1,
            2 <= r <= self.spec_share_count(),
    {
        proof {
            use_type_invariant(self);
        }
        self.threshold + 1
    }
}


/// A point of the curve.
pub type GE = Point;

/// A scalar of the curve.
pub type FE = Scalar;

/// The hash of the message to sign, as a scalar.
pub type MessageHashType = FE;

/// Initial values of the signing protocol: the parameters of the key, the
/// set of parties that sign and the hash of the message.
///
/// The signing parties are a set: they are held in strictly ascending
/// order, each once.
#[derive(Debug)]
pub struct SigningParameters {
    keygen_params: Parameters,
    signing_parties: Vec<PartyIndex>,
    message_hash: MessageHashType,
}

/// The parties stand in strictly ascending order.
pub open spec fn is_party_set(parties: Seq<PartyIndex>) -> bool {
    forall|i: int, j: int| 0 <= i < j < parties.len() ==> parties[i].0 < parties[j].0
}

/// Puts a party into a set of parties, at its place in the order; a party
/// that is in the set already is not put in again.
pub fn insert_party(set: &mut Vec<PartyIndex>, party: PartyIndex)
    requires
        is_party_set(old(set)@),
    ensures
        is_party_set(final(set)@),
        forall|p: PartyIndex|
            is_member(final(set)@, p) <==> is_member(old(set)@, p) || p == party,
        is_member(old(set)@, party) ==> final(set)@ == old(set)@,
        !is_member(old(set)@, party) ==> final(set)@.len() == old(set)@.len() + 1,
{
    let ghost before = set@;
    let mut at: usize = 0;
    while at < set.len() && set[at].0 < party.0
        invariant
            at <= set.len(),
            set@ == before,
            forall|k: int| 0 <= k < at ==> (#[trigger] before[k]).0 < party.0,
        decreases set.len() - at,
    {
        at = at + 1;
    }
    if at < set.len() && set[at].0 == party.0 {
        proof {
            assert(before[at as int] == party);
            assert(is_member(before, party));
        }
        return ;
    }
    proof {
        if is_member(before, party) {
            let k = choose|k: int| 0 <= k < before.len() && #[trigger] before[k] == party;
            if k > at {
                assert(before[at as int].0 < before[k].0);
            }
        }
    }
    set.insert(at, party);
    proof {
        let after = set@;
        assert(after == before.insert(at as int, party));
        assert forall|i: int, j: int| 0 <= i < j < after.len() implies after[i].0
            < after[j].0 by {
            if j < at {
                assert(after[i] == before[i] && after[j] == before[j]);
            } else if j == at {
                assert(after[i] == before[i]);
            } else if i < at {
                assert(after[i] == before[i] && after[j] == before[j - 1]);
                if at < before.len() {
                    assert(before[at as int].0 <= before[j - 1].0);
                }
            } else if i == at {
                assert(after[j] == before[j - 1]);
                assert(before[at as int].0 <= before[j - 1].0);
            } else {
                assert(after[i] == before[i - 1] && after[j] == before[j - 1]);
            }
        }
        assert forall|p: PartyIndex| is_member(after, p) <==> is_member(before, p) || p
            == party by {
            if is_member(after, p) {
                let k = choose|k: int| 0 <= k < after.len() && #[trigger] after[k] == p;
                if k < at {
                    assert(before[k] == p);
                } else if k > at {
                    assert(before[k - 1] == p);
                }
            }
            if is_member(before, p) {
                let k = choose|k: int| 0 <= k < before.len() && #[trigger] before[k] == p;
                if k < at {
                    assert(after[k] == p);
                } else {
                    assert(after[k + 1] == p);
                }
            }
            if p == party {
                assert(after[at as int] == p);
            }
        }
    }
}

impl SigningParameters {
    #[verifier::type_invariant]
    spec fn ordered(self) -> bool {
        is_party_set(self.signing_parties@)
    }

    /// The parameters of the key.
    pub closed spec fn spec_keygen_params(self) -> Parameters {
        self.keygen_params
    }

    /// The signing parties, in ascending order.
    pub closed spec fn parties(self) -> Seq<PartyIndex> {
        self.signing_parties@
    }

    /// The hash of the message.
    pub closed spec fn spec_message_hash(self) -> int {
        self.message_hash@
    }

    /// The initial values with the set of the given parties: a party that
    /// is given more than once is in the set once.
    pub fn new(
        keygen_params: Parameters,
        signing_parties: &[PartyIndex],
        message_hash: MessageHashType,
    ) -> (r: SigningParameters)
        ensures
            r.spec_keygen_params() == keygen_params,
            r.spec_message_hash() == message_hash@,
            is_party_set(r.parties()),
            forall|p: PartyIndex| is_member(r.parties(), p) <==> is_member(signing_parties@, p),
    {
        let mut set: Vec<PartyIndex> = Vec::new();
        let mut i: usize = 0;
        while i < signing_parties.len()
            invariant
                i <= signing_parties.len(),
                is_party_set(set@),
                forall|p: PartyIndex|
                    is_member(set@, p) <==> is_member(signing_parties@.take(i as int), p),
            decreases signing_parties.len() - i,
        {
            let ghost seen = signing_parties@.take(i as int);
            let ghost more = signing_parties@.take(i + 1);
            let ghost before = set@;
            insert_party(&mut set, signing_parties[i]);
            proof {
                assert forall|p: PartyIndex| is_member(set@, p) <==> is_member(more, p) by {
                    if is_member(more, p) {
                        let k = choose|k: int| 0 <= k < more.len() && #[trigger] more[k] == p;
                        if k < i {
                            assert(seen[k] == p);
                        }
                    }
                    if is_member(seen, p) {
                        let k = choose|k: int| 0 <= k < seen.len() && #[trigger] seen[k] == p;
                        assert(more[k] == p);
                    }
                    if p == signing_parties[i as int] {
                        assert(more[i as int] == p);
                    }
                }
            }
            i = i + 1;
        }
        assert(signing_parties@.take(signing_parties.len() as int) =~= signing_parties@);
        SigningParameters { keygen_params, signing_parties: set, message_hash }
    }

    pub fn keygen_params(&self) -> (r: Parameters)
        ensures
            r == self.spec_keygen_params(),
    {
        self.keygen_params
    }

    /// The signing parties, in strictly ascending order.
    pub fn signing_parties(&self) -> (r: &Vec<PartyIndex>)
        ensures
            r@ == self.parties(),
            is_party_set(r@),
    {
        proof {
            use_type_invariant(self);
        }
        &self.signing_parties
    }

    pub fn message_hash(&self) -> (r: &MessageHashType)
        ensures
            r@ == self.spec_message_hash(),
    {
        &self.message_hash
    }

    /// Number of parties that sign.
    pub fn signing_party_count(&self) -> (r: usize)
        ensures
            r == self.parties().len(),
    {
        self.signing_parties.len()
    }
}

/// The key pairs that a party uses during key generation: `u_i` and `y_i`
/// for the curve, and the Paillier keys.
///
/// `u_i` and `y_i` are obsolete once the shares are dealt and have to be
/// erased then; the Paillier keys live on in the signing protocol.
#[derive(Debug)]
pub struct InitialKeys {
    pub u_i: FE,
    pub y_i: GE,
    pub paillier_keys: PaillierKeys,
}

/// `InitialKeys` without the secret part of each key.
#[derive(Debug)]
pub struct InitialPublicKeys {
    pub y_i: GE,
    pub paillier_encryption_key: EncryptionKey,
}

impl InitialPublicKeys {
    pub fn from(keys: &InitialKeys) -> (r: InitialPublicKeys)
        ensures
            r.y_i@ == keys.y_i@,
            r.paillier_encryption_key.n@ == keys.paillier_keys.ek.n@,
            r.paillier_encryption_key.nn@ == keys.paillier_keys.ek.nn@,
    {
        InitialPublicKeys {
            y_i: keys.y_i.clone(),
            paillier_encryption_key: keys.paillier_keys.ek.clone(),
        }
    }
}

/// What ECDSA verification decides on the signature `(r, s)` for the public
/// key `pubkey` and the message hash `message`: neither `r` nor `s` is zero,
/// and `r` is the abscissa, modulo the group order, of
/// `(message / s) G + (r / s) pubkey`.
pub open spec fn ecdsa_accepts(r: int, s: int, pubkey: Seq<u8>, message: int) -> bool {
    let q = group_order();
    &&& r != 0
    &&& s != 0
    &&& has_inverse_mod(s, q)
    &&& {
        let s_inv = inverse_mod(s, q);
        let u1 = (message * s_inv) % q;
        let u2 = (r * s_inv) % q;
        let point = ec_add(ec_mul(GENERATOR@, u1), ec_mul(pubkey, u2));
        ec_x_coord(point) matches Some(x) && r == x % q
    }
}

/// A signature on the wire: `r`, then `s`, in 32 bytes each.
pub open spec fn signature_encoding(r: int, s: int) -> Seq<u8> {
    scalar_encoding(r) + scalar_encoding(s)
}

/// The signature that 64 bytes spell, where each half is a scalar.
pub open spec fn signature_decoding(bytes: Seq<u8>) -> Option<(int, int)> {
    if bytes.len() != 64 {
        None
    } else {
        match (scalar_decoding(bytes.subrange(0, 32)), scalar_decoding(bytes.subrange(32, 64))) {
            (Some(r), Some(s)) => Some((r, s)),
            _ => None,
        }
    }
}

/// A signature that is written and read again is the same signature.
pub proof fn lemma_signature_round_trip(r: int, s: int)
    requires
        0 <= r < group_order(),
        0 <= s < group_order(),
    ensures
        signature_decoding(signature_encoding(r, s)) == Some((r, s)),
{
    let bytes = signature_encoding(r, s);
    lemma_fixed_be_len(r as nat, 32);
    lemma_fixed_be_len(s as nat, 32);
    assert(bytes.subrange(0, 32) =~= scalar_encoding(r));
    assert(bytes.subrange(32, 64) =~= scalar_encoding(s));
    lemma_scalar_round_trip(r);
    lemma_scalar_round_trip(s);
}

/// Bytes that are read as a signature are what that signature is written
/// as, byte for byte.
pub proof fn lemma_signature_encoding_canonical(bytes: Seq<u8>)
    ensures
        signature_decoding(bytes) matches Some(pair) ==> signature_encoding(pair.0, pair.1)
            == bytes,
{
    if signature_decoding(bytes) is Some {
        lemma_scalar_encoding_canonical(bytes.subrange(0, 32));
        lemma_scalar_encoding_canonical(bytes.subrange(32, 64));
        assert(bytes =~= bytes.subrange(0, 32) + bytes.subrange(32, 64));
    }
}

/// An ECDSA signature.
#[derive(Debug)]
pub struct Signature {
    pub r: FE,
    pub s: FE,
}

impl Signature {
    /// The signature on the wire: `r`, then `s`, as 32 big-endian bytes
    /// each.
    pub fn to_bytes(&self) -> (r: Vec<u8>)
        ensures
            r@ == signature_encoding(self.r@, self.s@),
            r@.len() == 64,
    {
        let mut bytes = self.r.to_bytes();
        let mut second = self.s.to_bytes();
        bytes.append(&mut second);
        bytes
    }

    /// Reads a signature from the wire: 64 bytes, of which each half is a
    /// scalar.
    pub fn from_bytes(bytes: &[u8]) -> (r: Option<Signature>)
        ensures
            r is Some <==> signature_decoding(bytes@) is Some,
            r matches Some(sig) ==> signature_decoding(bytes@) == Some((sig.r@, sig.s@)),
    {
        if bytes.len() != 64 {
            return None;
        }
        let mut first: Vec<u8> = Vec::new();
        let mut second: Vec<u8> = Vec::new();
        let mut i: usize = 0;
        while i < 32
            invariant
                i <= 32,
                bytes.len() == 64,
                first@ == bytes@.subrange(0, i as int),
                second@ == bytes@.subrange(32, 32 + i as int),
            decreases 32 - i,
        {
            first.push(bytes[i]);
            second.push(bytes[32 + i]);
            i = i + 1;
            assert(first@ =~= bytes@.subrange(0, i as int));
            assert(second@ =~= bytes@.subrange(32, 32 + i as int));
        }
        match (Scalar::from_bytes(first.as_slice()), Scalar::from_bytes(second.as_slice())) {
            (Some(r), Some(s)) => Some(Signature { r, s }),
            _ => None,
        }
    }

    /// Verifies the signature with the public key and the hash of the
    /// message.
    pub fn verify(&self, pubkey: &GE, message: &MessageHashType) -> (r: bool)
        ensures
            r == ecdsa_accepts(self.r@, self.s@, pubkey@, message@),
    {
        if self.s.is_zero() || self.r.is_zero() {
            return false;
        }
        let s_invert = match self.s.invert() {
            Some(x) => x,
            None => {
                return false;
            },
        };
        proof {
            lemma_group_order_positive();
            lemma_inverse_unique(
                self.s@,
                s_invert@,
                inverse_mod(self.s@, group_order()),
                group_order(),
            );
        }
        let g = GE::generator();
        let u1 = message.mul(&s_invert);
        let u2 = self.r.mul(&s_invert);
        let point = g.mul(&u1).add(&pubkey.mul(&u2));
        match point.x_coord() {
            Some(x) => self.r.eq(&FE::from_bigint(&x)),
            None => false,
        }
    }
}

/// A commitment by hash, and the blinding factor that opens it.
#[derive(Debug)]
pub struct CommitmentScheme {
    pub comm: BigInt,
    pub decomm: BigInt,
}

/// The number that a point is committed to by: its compressed encoding,
/// big-endian.
pub open spec fn point_message(point: Seq<u8>) -> int {
    be_nat(point) as int
}

/// `comm` commits to `message` under `decomm`: it is the hash of the message
/// and the blinding factor.
pub open spec fn opens_to(comm: int, decomm: int, message: int) -> bool {
    comm == hash_of(seq![message, decomm])
}

/// A message and a blinding factor determine the commitment: two
/// commitments that open to the same message under the same blinding factor
/// are the same.
pub proof fn lemma_commitment_determined(first: int, second: int, decomm: int, message: int)
    requires
        opens_to(first, decomm, message),
        opens_to(second, decomm, message),
    ensures
        first == second,
{
}

/// The commitment to `message` under the blinding factor `decomm`.
fn commitment_to(message: &BigInt, decomm: &BigInt) -> (r: BigInt)
    ensures
        opens_to(r@, decomm@, message@),
        0 <= r@ < pow(256, 32),
{
    let inputs = [message, decomm];
    assert(int_views(inputs@) =~= seq![message@, decomm@]);
    HSha512Trunc256::create_hash(inputs.as_slice())
}

impl CommitmentScheme {
    /// Commits to a point of the curve under a fresh blinding factor of 256
    /// random bits.
    #[allow(non_snake_case)]
    pub fn from_GE(elem: &GE) -> (r: CommitmentScheme)
        ensures
            opens_to(r.comm@, r.decomm@, point_message(elem@)),
            0 <= r.decomm@ < pow(2, 256),
            0 <= r.comm@ < pow(256, 32),
    {
        let decomm = BigInt::sample(256);
        let message = BigInt::from_bytes(elem.to_bytes(true).as_slice());
        let comm = commitment_to(&message, &decomm);
        CommitmentScheme { comm, decomm }
    }

    /// Commits to a number under a fresh blinding factor of 256 random bits.
    #[allow(non_snake_case)]
    pub fn from_BigInt(message: &BigInt) -> (r: CommitmentScheme)
        ensures
            opens_to(r.comm@, r.decomm@, message@),
            0 <= r.decomm@ < pow(2, 256),
            0 <= r.comm@ < pow(256, 32),
    {
        let decomm = BigInt::sample(256);
        let comm = commitment_to(message, &decomm);
        CommitmentScheme { comm, decomm }
    }

    /// Whether the commitment opens to the point `elem`.
    pub fn verify_commitment(&self, elem: &GE) -> (r: bool)
        ensures
            r == opens_to(self.comm@, self.decomm@, point_message(elem@)),
    {
        let message = BigInt::from_bytes(elem.to_bytes(true).as_slice());
        is_valid_curve_point(elem) && commitment_to(&message, &self.decomm).eq(&self.comm)
    }

    /// Whether the commitment opens to the number `hash`.
    pub fn verify_hash(&self, hash: &BigInt) -> (r: bool)
        ensures
            r == opens_to(self.comm@, self.decomm@, hash@),
    {
        commitment_to(hash, &self.decomm).eq(&self.comm)
    }
}

} // verus!
