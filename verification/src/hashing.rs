//! The hash of the Fiat-Shamir transform and of commitments: SHA-512/256
//! over a transcript in which every input is preceded by its length.

use crate::arithmetic::{be_nat, fixed_be, lemma_be_nat_bound, minimal_be};
use crate::bigint::{abs_int, BigInt};
use crate::utils::int_views;
use sha2::Digest;
use vstd::arithmetic::power::pow;
use vstd::prelude::*;

verus! {

/// The SHA-512/256 digest of a byte string, as the `sha2` crate computes it.
pub uninterp spec fn sha512_trunc256(data: Seq<u8>) -> Seq<u8>;

/// `Digest::digest` of `sha2::Sha512Trunc256`: the digest of `data`, 32 bytes
/// long.
#[verifier::external_body]
pub(crate) fn sha512_trunc256_digest(data: &Vec<u8>) -> (r: Vec<u8>)
    ensures
        r@ == sha512_trunc256(data@),
        r@.len() == 32,
{
    sha2::Sha512Trunc256::digest(data).to_vec()
}

/// One input of a transcript: the length of its shortest encoding in eight
/// bytes, then that encoding. The sign does not enter.
pub open spec fn encode_input(v: int) -> Seq<u8> {
    let bytes = minimal_be(abs_int(v) as nat);
    fixed_be(bytes.len(), 8) + bytes
}

/// The transcript of a sequence of inputs: their encodings, in order.
pub open spec fn hash_transcript(values: Seq<int>) -> Seq<u8>
    decreases values.len(),
{
    if values.len() == 0 {
        Seq::empty()
    } else {
        hash_transcript(values.drop_last()) + encode_input(values.last())
    }
}

/// The hash of a sequence of integers, as an integer.
pub open spec fn hash_of(values: Seq<int>) -> int {
    be_nat(sha512_trunc256(hash_transcript(values))) as int
}

/// Appends the eight big-endian bytes of `x`.
fn push_length(out: &mut Vec<u8>, x: u64)
    ensures
        final(out)@ == old(out)@ + fixed_be(x as nat, 8),
{
    let mut field: Vec<u8> = Vec::new();
    let mut k: usize = 0;
    while k < 8
        invariant
            k <= 8,
            field.len() == k,
        decreases 8 - k,
    {
        field.push(0u8);
        k = k + 1;
    }
    let mut rest: u64 = x;
    assert(field@.subrange(8, 8) =~= Seq::<u8>::empty());
    while k > 0
        invariant
            k <= 8,
            field.len() == 8,
            fixed_be(x as nat, 8) == fixed_be(rest as nat, k as nat) + field@.subrange(k as int, 8),
        decreases k,
    {
        let ghost before = field@;
        k = k - 1;
        let byte: u8 = (rest % 256) as u8;
        field.set(k, byte);
        proof {
            assert(field@.subrange(k as int, 8) =~= seq![byte] + before.subrange(k + 1, 8));
            assert(fixed_be(rest as nat, (k + 1) as nat) == fixed_be(
                (rest / 256) as nat,
                k as nat,
            ).push(byte));
            assert(fixed_be((rest / 256) as nat, k as nat).push(byte) + before.subrange(k + 1, 8)
                =~= fixed_be((rest / 256) as nat, k as nat) + (seq![byte] + before.subrange(
                k + 1,
                8,
            )));
        }
        rest = rest / 256;
    }
    assert(field@.subrange(0, 8) =~= field@);
    out.append(&mut field);
}

/// Appends one input of a transcript.
fn push_input(out: &mut Vec<u8>, value: &BigInt)
    ensures
        final(out)@ == old(out)@ + encode_input(value@),
{
    let mut bytes = value.to_bytes();
    let ghost start = out@;
    let ghost body = bytes@;
    push_length(out, bytes.len() as u64);
    out.append(&mut bytes);
    assert(out@ =~= start + (fixed_be(body.len(), 8) + body));
}

/// SHA-512 truncated to 256 bits, over integers.
pub struct HSha512Trunc256;

impl HSha512Trunc256 {
    /// Length of a digest in bits.
    pub const DIGEST_BIT_LENGTH: usize = 256;

    /// Hashes a sequence of integers: the digest of their transcript, read
    /// as a big-endian number. The result is not negative and below `2^256`.
    pub fn create_hash(big_ints: &[&BigInt]) -> (r: BigInt)
        ensures
            r@ == hash_of(int_views(big_ints@)),
            0 <= r@ < pow(256, 32),
            !r.negative,
    {
        let ghost values = int_views(big_ints@);
        let mut transcript: Vec<u8> = Vec::new();
        let mut i: usize = 0;
        while i < big_ints.len()
            invariant
                i <= big_ints.len(),
                values == int_views(big_ints@),
                transcript@ == hash_transcript(values.take(i as int)),
            decreases big_ints.len() - i,
        {
            push_input(&mut transcript, big_ints[i]);
            proof {
                assert(values.take(i + 1).drop_last() =~= values.take(i as int));
                assert(values.take(i + 1).last() == big_ints[i as int]@);
            }
            i = i + 1;
        }
        assert(values.take(big_ints.len() as int) =~= values);
        let digest = sha512_trunc256_digest(&transcript);
        proof {
            lemma_be_nat_bound(digest@);
        }
        BigInt::from_bytes(digest.as_slice())
    }
}

} // verus!
