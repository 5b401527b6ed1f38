//! Widths and sizes fixed by the circuit and the on-chain verifier.
use vstd::prelude::*;

verus! {

/// Bytes in one chunk of public data.
pub const CHUNK_BYTES: usize = 9;

/// Bytes of an account id in public data.
pub const ACCOUNT_ID_BYTES: usize = 4;

/// Bytes of a token id in public data.
pub const TOKEN_BYTES: usize = 2;

/// Bytes of a raw (unpacked) amount in public data.
pub const BALANCE_BYTES: usize = 16;

/// Bytes of an Ethereum address.
pub const ADDRESS_BYTES: usize = 20;

/// Bytes of a new public-key hash.
pub const PUBKEY_HASH_BYTES: usize = 20;

/// Bytes of a nonce in public data.
pub const NONCE_BYTES: usize = 4;

/// Bits of the decimal exponent of a packed amount.
pub const AMOUNT_EXPONENT_BIT_WIDTH: usize = 5;

/// Bits of the mantissa of a packed amount.
pub const AMOUNT_MANTISSA_BIT_WIDTH: usize = 35;

/// Bits of the decimal exponent of a packed fee.
pub const FEE_EXPONENT_BIT_WIDTH: usize = 5;

/// Bits of the mantissa of a packed fee.
pub const FEE_MANTISSA_BIT_WIDTH: usize = 11;

/// Bytes of a packed amount: `(AMOUNT_EXPONENT_BIT_WIDTH + AMOUNT_MANTISSA_BIT_WIDTH) / 8`.
pub const PACKED_AMOUNT_BYTES: usize = 5;

/// Bytes of a packed fee: `(FEE_EXPONENT_BIT_WIDTH + FEE_MANTISSA_BIT_WIDTH) / 8`.
pub const PACKED_FEE_BYTES: usize = 2;

/// Depth of the balance tree.
pub const BALANCE_TREE_DEPTH: usize = 24;

} // verus!
