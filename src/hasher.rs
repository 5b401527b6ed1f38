//! Circuit primitives built on SHA-256, for tools and tests that make no proofs.
use vstd::prelude::*;
use crate::bytes::{be_bytes, push_be};
use crate::commitment::{fr_from_digest, sha256, sha256_of, spec_fr_from_digest};
use crate::tree::{Account, CircuitParams, Fr};

verus! {

/// High half of the order of the BN254 scalar field.
pub const FIELD_MODULUS_HI: u128 = 0x30644e72e131a029b85045b68181585d;

/// Low half of the order of the BN254 scalar field.
pub const FIELD_MODULUS_LO: u128 = 0x2833e84879b9709143e1f593f0000001;

/// Whether `x` is below the field's order.
pub open spec fn is_field_element(x: Fr) -> bool {
    x.hi < FIELD_MODULUS_HI || (x.hi == FIELD_MODULUS_HI && x.lo < FIELD_MODULUS_LO)
}

/// The 32 big-endian bytes of a scalar.
pub open spec fn fr_bytes(x: Fr) -> Seq<u8> {
    be_bytes(x.hi as nat, 16) + be_bytes(x.lo as nat, 16)
}

/// What a leaf hash covers: balance (16 bytes), nonce (4), then both key coordinates.
pub open spec fn leaf_bytes(leaf: Account) -> Seq<u8> {
    be_bytes(leaf.balance as nat, 16) + be_bytes(leaf.nonce as nat, 4) + fr_bytes(leaf.pub_x) + fr_bytes(leaf.pub_y)
}

/// What a node hash covers: the children's level (4 bytes), then both children.
pub open spec fn node_bytes(level: nat, left: Fr, right: Fr) -> Seq<u8> {
    be_bytes(level, 4) + fr_bytes(left) + fr_bytes(right)
}

/// Leaf and node hashes are SHA-256 digests cut to 253 bits, as the commitment is.
/// The key check asks only that both coordinates be field elements: the curve
/// equation itself is the circuit's.
#[derive(Clone, Copy, Debug)]
pub struct Sha256Params;

fn push_fr(out: &mut Vec<u8>, x: &Fr)
    ensures
        final(out)@ == old(out)@ + fr_bytes(*x),
{
    push_be(out, x.hi, 16);
    push_be(out, x.lo, 16);
    assert(final(out)@ =~= old(out)@ + fr_bytes(*x));
}

impl CircuitParams for Sha256Params {
    open spec fn spec_hash_leaf(leaf: Account) -> Fr {
        spec_fr_from_digest(sha256_of(leaf_bytes(leaf)))
    }

    open spec fn spec_compress(level: nat, left: Fr, right: Fr) -> Fr {
        spec_fr_from_digest(sha256_of(node_bytes(level, left, right)))
    }

    open spec fn spec_is_on_curve(x: Fr, y: Fr) -> bool {
        is_field_element(x) && is_field_element(y)
    }

    fn hash_leaf(&self, leaf: &Account) -> (r: Fr) {
        let mut data: Vec<u8> = Vec::new();
        push_be(&mut data, leaf.balance, 16);
        push_be(&mut data, leaf.nonce as u128, 4);
        push_fr(&mut data, &leaf.pub_x);
        push_fr(&mut data, &leaf.pub_y);
        assert(data@ =~= leaf_bytes(*leaf));
        let d = sha256(data.as_slice());
        fr_from_digest(&d)
    }

    fn compress(&self, level: usize, left: &Fr, right: &Fr) -> (r: Fr) {
        let mut data: Vec<u8> = Vec::new();
        push_be(&mut data, level as u128, 4);
        push_fr(&mut data, left);
        push_fr(&mut data, right);
        assert(data@ =~= node_bytes(level as nat, *left, *right));
        let d = sha256(data.as_slice());
        fr_from_digest(&d)
    }

    fn is_on_curve(&self, x: &Fr, y: &Fr) -> (r: bool) {
        let x_ok = x.hi < FIELD_MODULUS_HI || (x.hi == FIELD_MODULUS_HI && x.lo < FIELD_MODULUS_LO);
        let y_ok = y.hi < FIELD_MODULUS_HI || (y.hi == FIELD_MODULUS_HI && y.lo < FIELD_MODULUS_LO);
        x_ok && y_ok
    }
}

} // verus!
