//! The public-data commitment: a chained SHA-256 over the block header and the
//! block's public data, cut to fit the circuit's field.
use vstd::prelude::*;
use crypto::digest::Digest;
use crate::bytes::{be_bytes, be_nat, push_all, push_be, read_u128, zeros};
use crate::tree::Fr;

verus! {

/// The SHA-256 digest of `data`.
pub uninterp spec fn sha256_of(data: Seq<u8>) -> Seq<u8>;

/// Relies on rust-crypto's `crypto::sha2::Sha256` through its `Digest` trait:
/// after `input(data)`, `result` writes the 32-byte SHA-256 digest of `data`.
#[verifier::external_body]
pub(crate) fn sha256(data: &[u8]) -> (r: [u8; 32])
    ensures
        r@ == sha256_of(data@),
{
    let mut hasher = crypto::sha2::Sha256::new();
    hasher.input(data);
    let mut out = [0u8; 32];
    hasher.result(&mut out);
    out
}

/// `x` as a 256-bit big-endian word.
pub open spec fn be_word(x: nat) -> Seq<u8> {
    zeros(16) + be_bytes(x, 16)
}

/// What the first hash round covers: the block number, and the total fees for a
/// transfer block, each as a 256-bit big-endian word.
pub open spec fn spec_commitment_header(block_number: u32, total_fees: Option<u128>) -> Seq<u8> {
    match total_fees {
        Some(f) => be_word(block_number as nat) + be_word(f as nat),
        None => be_word(block_number as nat),
    }
}

/// A digest with its top three bits cleared, read as a field scalar.
pub open spec fn spec_fr_from_digest(d: Seq<u8>) -> Fr {
    let masked = d.update(0, d[0] & 0x1f);
    Fr { hi: be_nat(masked.subrange(0, 16)) as u128, lo: be_nat(d.subrange(16, 32)) as u128 }
}

/// The commitment to a block: `H2 = SHA256(SHA256(header) || public_data)`, cut to 253 bits.
pub open spec fn spec_public_data_commitment(
    block_number: u32,
    total_fees: Option<u128>,
    public_data: Seq<u8>,
) -> Fr {
    spec_fr_from_digest(
        sha256_of(sha256_of(spec_commitment_header(block_number, total_fees)) + public_data),
    )
}

/// The bytes that the first hash round covers.
pub fn commitment_header(block_number: u32, total_fees: Option<u128>) -> (r: Vec<u8>)
    ensures
        r@ == spec_commitment_header(block_number, total_fees),
{
    let mut data: Vec<u8> = Vec::new();
    push_be(&mut data, 0, 16);
    push_be(&mut data, block_number as u128, 16);
    match total_fees {
        Some(f) => {
            push_be(&mut data, 0, 16);
            push_be(&mut data, f, 16);
        },
        None => {},
    }
    proof {
        assert(be_bytes(0, 16) =~= zeros(16)) by {
            lemma_be_bytes_zero(16);
        }
    }
    assert(data@ =~= spec_commitment_header(block_number, total_fees));
    data
}

proof fn lemma_be_bytes_zero(n: nat)
    ensures
        be_bytes(0, n) =~= zeros(n),
    decreases n,
{
    if n > 0 {
        lemma_be_bytes_zero((n - 1) as nat);
        assert(be_bytes(0, n) =~= zeros((n - 1) as nat).push(0u8));
    }
}

/// Clears the top three bits of a digest and reads it as a field scalar.
pub fn fr_from_digest(d: &[u8; 32]) -> (r: Fr)
    ensures
        r == spec_fr_from_digest(d@),
{
    let mut masked: [u8; 32] = *d;
    masked[0] = d[0] & 0x1f;
    let hi = read_u128(&masked, 0);
    let lo = read_u128(d, 16);
    proof {
        assert(masked@ =~= d@.update(0, d@[0] & 0x1f));
    }
    Fr { hi, lo }
}

/// The second hash round's input: the first round's digest, then the public data.
pub fn chain_input(first: &[u8; 32], public_data: &[u8]) -> (r: Vec<u8>)
    ensures
        r@ == first@ + public_data@,
{
    let mut data: Vec<u8> = Vec::new();
    push_all(&mut data, first);
    push_all(&mut data, public_data);
    data
}

/// The commitment to a block's number, total fees (transfer blocks only) and public data.
pub fn public_data_commitment(block_number: u32, total_fees: Option<u128>, public_data: &[u8]) -> (r: Fr)
    ensures
        r == spec_public_data_commitment(block_number, total_fees, public_data@),
{
    let header = commitment_header(block_number, total_fees);
    let first = sha256(header.as_slice());
    let second_input = chain_input(&first, public_data);
    let second = sha256(second_input.as_slice());
    fr_from_digest(&second)
}

/// The commitment is a function of its inputs: equal inputs give equal commitments.
pub proof fn lemma_commitment_deterministic(
    block_number: u32,
    total_fees: Option<u128>,
    public_data: Seq<u8>,
    other_public_data: Seq<u8>,
)
    requires
        public_data == other_public_data,
    ensures
        spec_public_data_commitment(block_number, total_fees, public_data)
            == spec_public_data_commitment(block_number, total_fees, other_public_data),
{
}

} // verus!
