//! Block operations and their chunked public-data encoding.
use vstd::prelude::*;
use crate::bytes::{
    be_bytes, be_nat, pad_to, pad_zeros, push_all, push_be, read_bytes20, read_u128,
    read_u16, read_u32, zeros,
};
use crate::packing::{
    fee_in_range, is_packable, pack_fee_amount, spec_rounded_fee, spec_rounded_token, pack_token_amount, spec_pack_fee,
    spec_pack_token, spec_unpack_fee, spec_unpack_token, unpack_fee_amount, unpack_token_amount,
    AMOUNT_MAX_MANTISSA, FEE_MAX_MANTISSA,
};
use crate::params::CHUNK_BYTES;
use crate::tx::{
    AccountId, Address, ChangePubKey, Close, Deposit, ForcedExit, FranklinPriorityOp, FranklinTx,
    FullExit, PubKeyHash, Transfer, TxSignature, Withdraw,
};

verus! {

/// Why public data could not be read as an operation.
#[derive(Clone, Copy, Debug, PartialEq, Eq)]
pub enum CodecError {
    /// The bytes are not as long as the operation's chunks.
    WrongLength,
    /// A packed amount stands for more than a `u128` holds.
    InvalidPackedAmount,
    /// A packed fee stands for more than a `u128` holds.
    InvalidPackedFee,
    /// A filler chunk holds a byte other than zero.
    MalformedNoop,
    /// There is no byte to read an operation code from.
    EmptyPubdata,
    /// The operation code names no operation.
    UnknownOpCode(u8),
}

/// A deposit credited to an account.
#[derive(Clone, Copy, Debug, PartialEq, Eq)]
pub struct DepositOp {
    pub priority_op: Deposit,
    pub account_id: AccountId,
}

impl DepositOp {
    pub const CHUNKS: usize = 6;
    pub const OP_CODE: u8 = 0x01;

    /// `[0x01 | account_id(4) | token(2) | amount(16) | to(20)]`, zero-padded to six chunks.
    pub open spec fn spec_public_data(self) -> Seq<u8> {
        pad_to(
            seq![Self::OP_CODE] + be_bytes(self.account_id as nat, 4) + be_bytes(
                self.priority_op.token as nat,
                2,
            ) + be_bytes(self.priority_op.amount as nat, 16) + self.priority_op.to.data@,
            54,
        )
    }

    /// Why `b` is no deposit's public data, if it is none.
    pub open spec fn decode_error(b: Seq<u8>) -> Option<CodecError> {
        if b.len() != 54 {
            Some(CodecError::WrongLength)
        } else {
            None
        }
    }

    /// Whether `self` is what `b` decodes to.
    pub open spec fn is_decoding_of(self, b: Seq<u8>) -> bool {
        &&& b.len() == 54
        &&& self.account_id as nat == be_nat(b.subrange(1, 5))
        &&& self.priority_op.token as nat == be_nat(b.subrange(5, 7))
        &&& self.priority_op.amount as nat == be_nat(b.subrange(7, 23))
        &&& self.priority_op.to.data@ == b.subrange(23, 43)
        &&& self.priority_op.from.data@ == zeros(20)
    }

    /// Whether `self` agrees with `op` on all that public data carries, and holds
    /// the zero address where `op` has its sender.
    pub open spec fn is_projection_of(self, op: Self) -> bool {
        &&& self.account_id == op.account_id
        &&& self.priority_op.token == op.priority_op.token
        &&& self.priority_op.amount == op.priority_op.amount
        &&& self.priority_op.to.data@ == op.priority_op.to.data@
        &&& self.priority_op.from.data@ == zeros(20)
    }

    /// The operation's public data.
    pub fn get_public_data(&self) -> (r: Vec<u8>)
        ensures
            r@ == self.spec_public_data(),
            r@.len() == Self::CHUNKS * CHUNK_BYTES,
    {
        let mut data: Vec<u8> = Vec::new();
        data.push(Self::OP_CODE);
        push_be(&mut data, self.account_id as u128, 4);
        push_be(&mut data, self.priority_op.token as u128, 2);
        push_be(&mut data, self.priority_op.amount, 16);
        push_all(&mut data, &self.priority_op.to.data);
        pad_zeros(&mut data, Self::CHUNKS * CHUNK_BYTES);
        assert(data@ =~= self.spec_public_data());
        data
    }

    /// Reads the operation back from its public data; what public data does not
    /// carry comes back zero.
    pub fn from_public_data(bytes: &[u8]) -> (r: Result<Self, CodecError>)
        ensures
            match r {
                Ok(op) => Self::decode_error(bytes@) is None && op.is_decoding_of(bytes@),
                Err(e) => Self::decode_error(bytes@) == Some(e),
            },
    {
        if bytes.len() != Self::CHUNKS * CHUNK_BYTES {
            return Err(CodecError::WrongLength);
        }
        let account_id = read_u32(bytes, 1);
        let token = read_u16(bytes, 5);
        let amount = read_u128(bytes, 7);
        let to = Address { data: read_bytes20(bytes, 23) };
        let from = Address::zero();
        Ok(DepositOp { priority_op: Deposit { from, token, amount, to }, account_id })
    }

    /// Decoding the encoding of a deposit succeeds and gives back its projection.
    pub proof fn lemma_round_trip(op: Self)
        ensures
            op.spec_public_data().len() == Self::CHUNKS * CHUNK_BYTES,
            Self::decode_error(op.spec_public_data()) is None,
            forall|d: Self| #[trigger] d.is_decoding_of(op.spec_public_data()) ==> d.is_projection_of(op),
    {
        let b = op.spec_public_data();
        lemma_be_u32(op.account_id);
        lemma_be_u16(op.priority_op.token);
        lemma_be_u128(op.priority_op.amount);
        assert(b.subrange(1, 5) =~= be_bytes(op.account_id as nat, 4));
        assert(b.subrange(5, 7) =~= be_bytes(op.priority_op.token as nat, 2));
        assert(b.subrange(7, 23) =~= be_bytes(op.priority_op.amount as nat, 16));
        assert(b.subrange(23, 43) =~= op.priority_op.to.data@);
        assert forall|d: Self| #[trigger] d.is_decoding_of(op.spec_public_data()) implies d.is_projection_of(op) by {}
    }
}

/// A filler operation: one chunk of zeros.
#[derive(Clone, Copy, Debug, PartialEq, Eq)]
pub struct NoopOp {}

impl NoopOp {
    pub const CHUNKS: usize = 1;
    pub const OP_CODE: u8 = 0x00;

    pub open spec fn spec_public_data(self) -> Seq<u8> {
        zeros(9)
    }

    /// Only a single chunk of zeros is a filler.
    pub open spec fn decode_error(b: Seq<u8>) -> Option<CodecError> {
        if b != zeros(9) {
            Some(CodecError::MalformedNoop)
        } else {
            None
        }
    }

    pub open spec fn is_decoding_of(self, b: Seq<u8>) -> bool {
        b == zeros(9)
    }

    /// Reads the operation back from its public data; what public data does not
    /// carry comes back zero.
    pub fn from_public_data(bytes: &[u8]) -> (r: Result<Self, CodecError>)
        ensures
            match r {
                Ok(op) => Self::decode_error(bytes@) is None && op.is_decoding_of(bytes@),
                Err(e) => Self::decode_error(bytes@) == Some(e),
            },
    {
        if bytes.len() != CHUNK_BYTES || !all_zero(bytes) {
            assert(bytes@.len() != 9 ==> bytes@ != zeros(9));
            return Err(CodecError::MalformedNoop);
        }
        Ok(NoopOp {})
    }

    /// The operation's public data.
    pub fn get_public_data(&self) -> (r: Vec<u8>)
        ensures
            r@ == self.spec_public_data(),
            r@.len() == Self::CHUNKS * CHUNK_BYTES,
    {
        let mut data: Vec<u8> = Vec::new();
        pad_zeros(&mut data, Self::CHUNKS * CHUNK_BYTES);
        assert(data@ =~= zeros(9));
        data
    }
}

/// Whether every byte of `b` is zero.
fn all_zero(b: &[u8]) -> (r: bool)
    ensures
        r == (b@ == zeros(b@.len())),
{
    let mut i: usize = 0;
    while i < b.len()
        invariant
            i <= b@.len(),
            forall|j: int| 0 <= j < i ==> b@[j] == 0,
        decreases b@.len() - i,
    {
        if b[i] != 0 {
            assert(b@[i as int] != zeros(b@.len())[i as int]);
            return false;
        }
        i = i + 1;
    }
    assert(b@ =~= zeros(b@.len()));
    true
}

/// A transfer to an account that the same block creates.
#[derive(Clone, Copy, Debug, PartialEq, Eq)]
pub struct TransferToNewOp {
    pub tx: Transfer,
    pub from: AccountId,
    pub to: AccountId,
}

impl TransferToNewOp {
    pub const CHUNKS: usize = 6;
    pub const OP_CODE: u8 = 0x02;

    /// `[0x02 | from(4) | token(2) | amount(5, packed) | to address(20) | to(4) | fee(2, packed)]`,
    /// zero-padded to six chunks.
    pub open spec fn spec_public_data(self) -> Seq<u8> {
        pad_to(
            seq![Self::OP_CODE] + be_bytes(self.from as nat, 4) + be_bytes(self.tx.token as nat, 2)
                + spec_pack_token(self.tx.amount as nat) + self.tx.to.data@ + be_bytes(
                self.to as nat,
                4,
            ) + spec_pack_fee(self.tx.fee as nat),
            54,
        )
    }

    /// Amounts and fees that packing keeps exactly.
    pub open spec fn is_exact(self) -> bool {
        &&& is_packable(self.tx.amount as nat, AMOUNT_MAX_MANTISSA as nat)
        &&& is_packable(self.tx.fee as nat, FEE_MAX_MANTISSA as nat)
        &&& fee_in_range(self.tx.fee as nat)
    }

    pub open spec fn decode_error(b: Seq<u8>) -> Option<CodecError> {
        if b.len() != 54 {
            Some(CodecError::WrongLength)
        } else if spec_unpack_token(b.subrange(7, 12)) is None {
            Some(CodecError::InvalidPackedAmount)
        } else if spec_unpack_fee(b.subrange(36, 38)) is None {
            Some(CodecError::InvalidPackedFee)
        } else {
            None
        }
    }

    pub open spec fn is_decoding_of(self, b: Seq<u8>) -> bool {
        &&& b.len() == 54
        &&& self.from as nat == be_nat(b.subrange(1, 5))
        &&& self.tx.account_id == self.from
        &&& self.tx.token as nat == be_nat(b.subrange(5, 7))
        &&& spec_unpack_token(b.subrange(7, 12)) == Some(self.tx.amount as nat)
        &&& self.tx.to.data@ == b.subrange(12, 32)
        &&& self.to as nat == be_nat(b.subrange(32, 36))
        &&& spec_unpack_fee(b.subrange(36, 38)) == Some(self.tx.fee as nat)
        &&& self.tx.from.data@ == zeros(20)
        &&& self.tx.nonce == 0
        &&& self.tx.signature.is_empty()
    }

    /// Agreement on what public data carries; sender address, nonce and
    /// signature at their zero values.
    pub open spec fn is_projection_of(self, op: Self) -> bool {
        &&& self.from == op.from
        &&& self.to == op.to
        &&& self.tx.account_id == op.from
        &&& self.tx.token == op.tx.token
        &&& self.tx.amount as nat == spec_rounded_token(op.tx.amount as nat)
        &&& self.tx.fee as nat == spec_rounded_fee(op.tx.fee as nat)
        &&& self.tx.to.data@ == op.tx.to.data@
        &&& self.tx.from.data@ == zeros(20)
        &&& self.tx.nonce == 0
        &&& self.tx.signature.is_empty()
    }

    /// The operation's public data.
    pub fn get_public_data(&self) -> (r: Vec<u8>)
        requires
            fee_in_range(self.tx.fee as nat),
        ensures
            r@ == self.spec_public_data(),
            r@.len() == Self::CHUNKS * CHUNK_BYTES,
    {
        let mut data: Vec<u8> = Vec::new();
        data.push(Self::OP_CODE);
        push_be(&mut data, self.from as u128, 4);
        push_be(&mut data, self.tx.token as u128, 2);
        let amount = pack_token_amount(self.tx.amount);
        push_all(&mut data, amount.as_slice());
        push_all(&mut data, &self.tx.to.data);
        push_be(&mut data, self.to as u128, 4);
        let fee = pack_fee_amount(self.tx.fee);
        push_all(&mut data, fee.as_slice());
        pad_zeros(&mut data, Self::CHUNKS * CHUNK_BYTES);
        assert(data@ =~= self.spec_public_data());
        data
    }

    /// Reads the operation back from its public data; what public data does not
    /// carry comes back zero.
    pub fn from_public_data(bytes: &[u8]) -> (r: Result<Self, CodecError>)
        ensures
            match r {
                Ok(op) => Self::decode_error(bytes@) is None && op.is_decoding_of(bytes@),
                Err(e) => Self::decode_error(bytes@) == Some(e),
            },
    {
        if bytes.len() != Self::CHUNKS * CHUNK_BYTES {
            return Err(CodecError::WrongLength);
        }
        let from_id = read_u32(bytes, 1);
        let to_id = read_u32(bytes, 32);
        let from = Address::zero();
        let to = Address { data: read_bytes20(bytes, 12) };
        let token = read_u16(bytes, 5);
        let amount = match unpack_token_amount(slice_range(bytes, 7, 12).as_slice()) {
            Some(a) => a,
            None => {
                return Err(CodecError::InvalidPackedAmount);
            },
        };
        let fee = match unpack_fee_amount(slice_range(bytes, 36, 38).as_slice()) {
            Some(f) => f,
            None => {
                return Err(CodecError::InvalidPackedFee);
            },
        };
        let tx = Transfer {
            account_id: from_id,
            from,
            to,
            token,
            amount,
            fee,
            nonce: 0,
            signature: TxSignature::empty(),
        };
        Ok(TransferToNewOp { tx, from: from_id, to: to_id })
    }

    /// Decoding the encoding of a transfer succeeds and gives back its projection,
    /// amount and fee as packing rounds them.
    pub proof fn lemma_round_trip(op: Self)
        requires
            fee_in_range(op.tx.fee as nat),
        ensures
            op.spec_public_data().len() == Self::CHUNKS * CHUNK_BYTES,
            Self::decode_error(op.spec_public_data()) is None,
            forall|d: Self| #[trigger] d.is_decoding_of(op.spec_public_data()) ==> d.is_projection_of(op),
    {
        let b = op.spec_public_data();
        lemma_be_u32(op.from);
        lemma_be_u32(op.to);
        lemma_be_u16(op.tx.token);
        crate::packing::lemma_packed_lengths(op.tx.amount as nat);
        crate::packing::lemma_packed_lengths(op.tx.fee as nat);
        crate::packing::lemma_token_unpack_pack_rounds(op.tx.amount);
        crate::packing::lemma_fee_unpack_pack_rounds(op.tx.fee);
        assert(b.subrange(1, 5) =~= be_bytes(op.from as nat, 4));
        assert(b.subrange(5, 7) =~= be_bytes(op.tx.token as nat, 2));
        assert(b.subrange(7, 12) =~= spec_pack_token(op.tx.amount as nat));
        assert(b.subrange(12, 32) =~= op.tx.to.data@);
        assert(b.subrange(32, 36) =~= be_bytes(op.to as nat, 4));
        assert(b.subrange(36, 38) =~= spec_pack_fee(op.tx.fee as nat));
        assert forall|d: Self| #[trigger] d.is_decoding_of(op.spec_public_data()) implies d.is_projection_of(op) by {}
    }
}

/// A transfer between two existing accounts.
#[derive(Clone, Copy, Debug, PartialEq, Eq)]
pub struct TransferOp {
    pub tx: Transfer,
    pub from: AccountId,
    pub to: AccountId,
}

impl TransferOp {
    pub const CHUNKS: usize = 2;
    pub const OP_CODE: u8 = 0x05;

    /// `[0x05 | from(4) | token(2) | to(4) | amount(5, packed) | fee(2, packed)]`: two chunks.
    pub open spec fn spec_public_data(self) -> Seq<u8> {
        pad_to(
            seq![Self::OP_CODE] + be_bytes(self.from as nat, 4) + be_bytes(self.tx.token as nat, 2)
                + be_bytes(self.to as nat, 4) + spec_pack_token(self.tx.amount as nat)
                + spec_pack_fee(self.tx.fee as nat),
            18,
        )
    }

    pub open spec fn is_exact(self) -> bool {
        &&& is_packable(self.tx.amount as nat, AMOUNT_MAX_MANTISSA as nat)
        &&& is_packable(self.tx.fee as nat, FEE_MAX_MANTISSA as nat)
        &&& fee_in_range(self.tx.fee as nat)
    }

    pub open spec fn decode_error(b: Seq<u8>) -> Option<CodecError> {
        if b.len() != 18 {
            Some(CodecError::WrongLength)
        } else if spec_unpack_token(b.subrange(11, 16)) is None {
            Some(CodecError::InvalidPackedAmount)
        } else if spec_unpack_fee(b.subrange(16, 18)) is None {
            Some(CodecError::InvalidPackedFee)
        } else {
            None
        }
    }

    pub open spec fn is_decoding_of(self, b: Seq<u8>) -> bool {
        &&& b.len() == 18
        &&& self.from as nat == be_nat(b.subrange(1, 5))
        &&& self.tx.account_id == self.from
        &&& self.tx.token as nat == be_nat(b.subrange(5, 7))
        &&& self.to as nat == be_nat(b.subrange(7, 11))
        &&& spec_unpack_token(b.subrange(11, 16)) == Some(self.tx.amount as nat)
        &&& spec_unpack_fee(b.subrange(16, 18)) == Some(self.tx.fee as nat)
        &&& self.tx.from.data@ == zeros(20)
        &&& self.tx.to.data@ == zeros(20)
        &&& self.tx.nonce == 0
        &&& self.tx.signature.is_empty()
    }

    /// Agreement on what public data carries; addresses, nonce and signature at
    /// their zero values.
    pub open spec fn is_projection_of(self, op: Self) -> bool {
        &&& self.from == op.from
        &&& self.to == op.to
        &&& self.tx.account_id == op.from
        &&& self.tx.token == op.tx.token
        &&& self.tx.amount as nat == spec_rounded_token(op.tx.amount as nat)
        &&& self.tx.fee as nat == spec_rounded_fee(op.tx.fee as nat)
        &&& self.tx.from.data@ == zeros(20)
        &&& self.tx.to.data@ == zeros(20)
        &&& self.tx.nonce == 0
        &&& self.tx.signature.is_empty()
    }

    /// The operation's public data.
    pub fn get_public_data(&self) -> (r: Vec<u8>)
        requires
            fee_in_range(self.tx.fee as nat),
        ensures
            r@ == self.spec_public_data(),
            r@.len() == Self::CHUNKS * CHUNK_BYTES,
    {
        let mut data: Vec<u8> = Vec::new();
        data.push(Self::OP_CODE);
        push_be(&mut data, self.from as u128, 4);
        push_be(&mut data, self.tx.token as u128, 2);
        push_be(&mut data, self.to as u128, 4);
        let amount = pack_token_amount(self.tx.amount);
        push_all(&mut data, amount.as_slice());
        let fee = pack_fee_amount(self.tx.fee);
        push_all(&mut data, fee.as_slice());
        pad_zeros(&mut data, Self::CHUNKS * CHUNK_BYTES);
        assert(data@ =~= self.spec_public_data());
        data
    }

    /// Reads the operation back from its public data; what public data does not
    /// carry comes back zero.
    pub fn from_public_data(bytes: &[u8]) -> (r: Result<Self, CodecError>)
        ensures
            match r {
                Ok(op) => Self::decode_error(bytes@) is None && op.is_decoding_of(bytes@),
                Err(e) => Self::decode_error(bytes@) == Some(e),
            },
    {
        if bytes.len() != Self::CHUNKS * CHUNK_BYTES {
            return Err(CodecError::WrongLength);
        }
        let token = read_u16(bytes, 5);
        let amount = match unpack_token_amount(slice_range(bytes, 11, 16).as_slice()) {
            Some(a) => a,
            None => {
                return Err(CodecError::InvalidPackedAmount);
            },
        };
        let fee = match unpack_fee_amount(slice_range(bytes, 16, 18).as_slice()) {
            Some(f) => f,
            None => {
                return Err(CodecError::InvalidPackedFee);
            },
        };
        let from_id = read_u32(bytes, 1);
        let to_id = read_u32(bytes, 7);
        let tx = Transfer {
            account_id: from_id,
            from: Address::zero(),
            to: Address::zero(),
            token,
            amount,
            fee,
            nonce: 0,
            signature: TxSignature::empty(),
        };
        Ok(TransferOp { tx, from: from_id, to: to_id })
    }

    /// Decoding the encoding of a transfer succeeds and gives back its projection,
    /// amount and fee as packing rounds them.
    pub proof fn lemma_round_trip(op: Self)
        requires
            fee_in_range(op.tx.fee as nat),
        ensures
            op.spec_public_data().len() == Self::CHUNKS * CHUNK_BYTES,
            Self::decode_error(op.spec_public_data()) is None,
            forall|d: Self| #[trigger] d.is_decoding_of(op.spec_public_data()) ==> d.is_projection_of(op),
    {
        let b = op.spec_public_data();
        lemma_be_u32(op.from);
        lemma_be_u32(op.to);
        lemma_be_u16(op.tx.token);
        crate::packing::lemma_packed_lengths(op.tx.amount as nat);
        crate::packing::lemma_packed_lengths(op.tx.fee as nat);
        crate::packing::lemma_token_unpack_pack_rounds(op.tx.amount);
        crate::packing::lemma_fee_unpack_pack_rounds(op.tx.fee);
        assert(b.subrange(1, 5) =~= be_bytes(op.from as nat, 4));
        assert(b.subrange(5, 7) =~= be_bytes(op.tx.token as nat, 2));
        assert(b.subrange(7, 11) =~= be_bytes(op.to as nat, 4));
        assert(b.subrange(11, 16) =~= spec_pack_token(op.tx.amount as nat));
        assert(b.subrange(16, 18) =~= spec_pack_fee(op.tx.fee as nat));
        assert forall|d: Self| #[trigger] d.is_decoding_of(op.spec_public_data()) implies d.is_projection_of(op) by {}
    }
}

/// A withdrawal from an account to the base chain.
#[derive(Clone, Copy, Debug, PartialEq, Eq)]
pub struct WithdrawOp {
    pub tx: Withdraw,
    pub account_id: AccountId,
}

impl WithdrawOp {
    pub const CHUNKS: usize = 6;
    pub const OP_CODE: u8 = 0x03;
    /// Leading byte of the withdrawal data: the withdrawal goes to the pending queue.
    pub const WITHDRAW_DATA_PREFIX: u8 = 1;

    /// `[0x03 | account_id(4) | token(2) | amount(16) | fee(2, packed) | to(20)]`,
    /// zero-padded to six chunks.
    pub open spec fn spec_public_data(self) -> Seq<u8> {
        pad_to(
            seq![Self::OP_CODE] + be_bytes(self.account_id as nat, 4) + be_bytes(
                self.tx.token as nat,
                2,
            ) + be_bytes(self.tx.amount as nat, 16) + spec_pack_fee(self.tx.fee as nat)
                + self.tx.to.data@,
            54,
        )
    }

    /// `[0x01 | to(20) | token(2) | amount(16)]`.
    pub open spec fn spec_withdrawal_data(self) -> Seq<u8> {
        seq![Self::WITHDRAW_DATA_PREFIX] + self.tx.to.data@ + be_bytes(self.tx.token as nat, 2)
            + be_bytes(self.tx.amount as nat, 16)
    }

    pub open spec fn is_exact(self) -> bool {
        &&& is_packable(self.tx.fee as nat, FEE_MAX_MANTISSA as nat)
        &&& fee_in_range(self.tx.fee as nat)
    }

    pub open spec fn decode_error(b: Seq<u8>) -> Option<CodecError> {
        if b.len() != 54 {
            Some(CodecError::WrongLength)
        } else if spec_unpack_fee(b.subrange(23, 25)) is None {
            Some(CodecError::InvalidPackedFee)
        } else {
            None
        }
    }

    pub open spec fn is_decoding_of(self, b: Seq<u8>) -> bool {
        &&& b.len() == 54
        &&& self.account_id as nat == be_nat(b.subrange(1, 5))
        &&& self.tx.account_id == self.account_id
        &&& self.tx.token as nat == be_nat(b.subrange(5, 7))
        &&& self.tx.amount as nat == be_nat(b.subrange(7, 23))
        &&& spec_unpack_fee(b.subrange(23, 25)) == Some(self.tx.fee as nat)
        &&& self.tx.to.data@ == b.subrange(25, 45)
        &&& self.tx.from.data@ == zeros(20)
        &&& self.tx.nonce == 0
        &&& self.tx.signature.is_empty()
    }

    pub open spec fn is_projection_of(self, op: Self) -> bool {
        &&& self.account_id == op.account_id
        &&& self.tx.account_id == op.account_id
        &&& self.tx.token == op.tx.token
        &&& self.tx.amount == op.tx.amount
        &&& self.tx.fee as nat == spec_rounded_fee(op.tx.fee as nat)
        &&& self.tx.to.data@ == op.tx.to.data@
        &&& self.tx.from.data@ == zeros(20)
        &&& self.tx.nonce == 0
        &&& self.tx.signature.is_empty()
    }

    /// The operation's public data.
    pub fn get_public_data(&self) -> (r: Vec<u8>)
        requires
            fee_in_range(self.tx.fee as nat),
        ensures
            r@ == self.spec_public_data(),
            r@.len() == Self::CHUNKS * CHUNK_BYTES,
    {
        let mut data: Vec<u8> = Vec::new();
        data.push(Self::OP_CODE);
        push_be(&mut data, self.account_id as u128, 4);
        push_be(&mut data, self.tx.token as u128, 2);
        push_be(&mut data, self.tx.amount, 16);
        let fee = pack_fee_amount(self.tx.fee);
        push_all(&mut data, fee.as_slice());
        push_all(&mut data, &self.tx.to.data);
        pad_zeros(&mut data, Self::CHUNKS * CHUNK_BYTES);
        assert(data@ =~= self.spec_public_data());
        data
    }

    /// What the base-chain contract adds to its pending-withdrawals queue.
    pub fn get_withdrawal_data(&self) -> (r: Vec<u8>)
        ensures
            r@ == self.spec_withdrawal_data(),
    {
        let mut data: Vec<u8> = Vec::new();
        data.push(Self::WITHDRAW_DATA_PREFIX);
        push_all(&mut data, &self.tx.to.data);
        push_be(&mut data, self.tx.token as u128, 2);
        push_be(&mut data, self.tx.amount, 16);
        assert(data@ =~= self.spec_withdrawal_data());
        data
    }

    /// Reads the operation back from its public data; what public data does not
    /// carry comes back zero.
    pub fn from_public_data(bytes: &[u8]) -> (r: Result<Self, CodecError>)
        ensures
            match r {
                Ok(op) => Self::decode_error(bytes@) is None && op.is_decoding_of(bytes@),
                Err(e) => Self::decode_error(bytes@) == Some(e),
            },
    {
        if bytes.len() != Self::CHUNKS * CHUNK_BYTES {
            return Err(CodecError::WrongLength);
        }
        let account_id = read_u32(bytes, 1);
        let token = read_u16(bytes, 5);
        let to = Address { data: read_bytes20(bytes, 25) };
        let amount = read_u128(bytes, 7);
        let fee = match unpack_fee_amount(slice_range(bytes, 23, 25).as_slice()) {
            Some(f) => f,
            None => {
                return Err(CodecError::InvalidPackedFee);
            },
        };
        let tx = Withdraw {
            account_id,
            from: Address::zero(),
            to,
            token,
            amount,
            fee,
            nonce: 0,
            signature: TxSignature::empty(),
        };
        Ok(WithdrawOp { tx, account_id })
    }

    /// Decoding the encoding of a withdrawal succeeds and gives back its projection,
    /// the fee as packing rounds it.
    pub proof fn lemma_round_trip(op: Self)
        requires
            fee_in_range(op.tx.fee as nat),
        ensures
            op.spec_public_data().len() == Self::CHUNKS * CHUNK_BYTES,
            Self::decode_error(op.spec_public_data()) is None,
            forall|d: Self| #[trigger] d.is_decoding_of(op.spec_public_data()) ==> d.is_projection_of(op),
    {
        let b = op.spec_public_data();
        lemma_be_u32(op.account_id);
        lemma_be_u16(op.tx.token);
        lemma_be_u128(op.tx.amount);
        crate::packing::lemma_packed_lengths(op.tx.fee as nat);
        crate::packing::lemma_fee_unpack_pack_rounds(op.tx.fee);
        assert(b.subrange(1, 5) =~= be_bytes(op.account_id as nat, 4));
        assert(b.subrange(5, 7) =~= be_bytes(op.tx.token as nat, 2));
        assert(b.subrange(7, 23) =~= be_bytes(op.tx.amount as nat, 16));
        assert(b.subrange(23, 25) =~= spec_pack_fee(op.tx.fee as nat));
        assert(b.subrange(25, 45) =~= op.tx.to.data@);
        assert forall|d: Self| #[trigger] d.is_decoding_of(op.spec_public_data()) implies d.is_projection_of(op) by {}
    }
}

/// A withdrawal forced on a target account.
#[derive(Clone, Copy, Debug, PartialEq, Eq)]
pub struct ForcedExitOp {
    pub tx: ForcedExit,
    /// Account to which the forced exit is applied.
    pub target_account_id: AccountId,
    /// `None` where the withdrawal did not succeed.
    pub withdraw_amount: Option<u128>,
}

impl ForcedExitOp {
    pub const CHUNKS: usize = 6;
    pub const OP_CODE: u8 = 0x08;
    /// Leading byte of the withdrawal data: the withdrawal goes to the pending queue.
    pub const WITHDRAW_DATA_PREFIX: u8 = 1;

    /// The amount withdrawn, zero where none was.
    pub open spec fn spec_amount(self) -> u128 {
        match self.withdraw_amount {
            Some(a) => a,
            None => 0,
        }
    }

    /// `[0x08 | initiator(4) | target(4) | token(2) | amount(16) | fee(2, packed) | target address(20)]`,
    /// zero-padded to six chunks.
    pub open spec fn spec_public_data(self) -> Seq<u8> {
        pad_to(
            seq![Self::OP_CODE] + be_bytes(self.tx.initiator_account_id as nat, 4) + be_bytes(
                self.target_account_id as nat,
                4,
            ) + be_bytes(self.tx.token as nat, 2) + be_bytes(self.spec_amount() as nat, 16)
                + spec_pack_fee(self.tx.fee as nat) + self.tx.target.data@,
            54,
        )
    }

    /// `[0x01 | target address(20) | token(2) | amount(16)]`.
    pub open spec fn spec_withdrawal_data(self) -> Seq<u8> {
        seq![Self::WITHDRAW_DATA_PREFIX] + self.tx.target.data@ + be_bytes(self.tx.token as nat, 2)
            + be_bytes(self.spec_amount() as nat, 16)
    }

    pub open spec fn is_exact(self) -> bool {
        &&& is_packable(self.tx.fee as nat, FEE_MAX_MANTISSA as nat)
        &&& fee_in_range(self.tx.fee as nat)
    }

    pub open spec fn decode_error(b: Seq<u8>) -> Option<CodecError> {
        if b.len() != 54 {
            Some(CodecError::WrongLength)
        } else if spec_unpack_fee(b.subrange(27, 29)) is None {
            Some(CodecError::InvalidPackedFee)
        } else {
            None
        }
    }

    pub open spec fn is_decoding_of(self, b: Seq<u8>) -> bool {
        &&& b.len() == 54
        &&& self.tx.initiator_account_id as nat == be_nat(b.subrange(1, 5))
        &&& self.target_account_id as nat == be_nat(b.subrange(5, 9))
        &&& self.tx.token as nat == be_nat(b.subrange(9, 11))
        &&& self.withdraw_amount matches Some(a) && a as nat == be_nat(b.subrange(11, 27))
        &&& spec_unpack_fee(b.subrange(27, 29)) == Some(self.tx.fee as nat)
        &&& self.tx.target.data@ == b.subrange(29, 49)
        &&& self.tx.nonce == 0
        &&& self.tx.signature.is_empty()
    }

    /// Agreement on what public data carries, the amount read as withdrawn;
    /// nonce and signature at their zero values.
    pub open spec fn is_projection_of(self, op: Self) -> bool {
        &&& self.tx.initiator_account_id == op.tx.initiator_account_id
        &&& self.target_account_id == op.target_account_id
        &&& self.tx.token == op.tx.token
        &&& self.withdraw_amount == Some(op.spec_amount())
        &&& self.tx.fee as nat == spec_rounded_fee(op.tx.fee as nat)
        &&& self.tx.target.data@ == op.tx.target.data@
        &&& self.tx.nonce == 0
        &&& self.tx.signature.is_empty()
    }

    pub fn amount(&self) -> (r: u128)
        ensures
            r == self.spec_amount(),
    {
        match self.withdraw_amount {
            Some(a) => a,
            None => 0,
        }
    }

    /// The operation's public data.
    pub fn get_public_data(&self) -> (r: Vec<u8>)
        requires
            fee_in_range(self.tx.fee as nat),
        ensures
            r@ == self.spec_public_data(),
            r@.len() == Self::CHUNKS * CHUNK_BYTES,
    {
        let mut data: Vec<u8> = Vec::new();
        data.push(Self::OP_CODE);
        push_be(&mut data, self.tx.initiator_account_id as u128, 4);
        push_be(&mut data, self.target_account_id as u128, 4);
        push_be(&mut data, self.tx.token as u128, 2);
        push_be(&mut data, self.amount(), 16);
        let fee = pack_fee_amount(self.tx.fee);
        push_all(&mut data, fee.as_slice());
        push_all(&mut data, &self.tx.target.data);
        pad_zeros(&mut data, Self::CHUNKS * CHUNK_BYTES);
        assert(data@ =~= self.spec_public_data());
        data
    }

    /// What the base-chain contract adds to its pending-withdrawals queue.
    pub fn get_withdrawal_data(&self) -> (r: Vec<u8>)
        ensures
            r@ == self.spec_withdrawal_data(),
    {
        let mut data: Vec<u8> = Vec::new();
        data.push(Self::WITHDRAW_DATA_PREFIX);
        push_all(&mut data, &self.tx.target.data);
        push_be(&mut data, self.tx.token as u128, 2);
        push_be(&mut data, self.amount(), 16);
        assert(data@ =~= self.spec_withdrawal_data());
        data
    }

    /// Reads the operation back from its public data; what public data does not
    /// carry comes back zero.
    pub fn from_public_data(bytes: &[u8]) -> (r: Result<Self, CodecError>)
        ensures
            match r {
                Ok(op) => Self::decode_error(bytes@) is None && op.is_decoding_of(bytes@),
                Err(e) => Self::decode_error(bytes@) == Some(e),
            },
    {
        if bytes.len() != Self::CHUNKS * CHUNK_BYTES {
            return Err(CodecError::WrongLength);
        }
        let initiator_account_id = read_u32(bytes, 1);
        let target_account_id = read_u32(bytes, 5);
        let token = read_u16(bytes, 9);
        let amount = read_u128(bytes, 11);
        let fee = match unpack_fee_amount(slice_range(bytes, 27, 29).as_slice()) {
            Some(f) => f,
            None => {
                return Err(CodecError::InvalidPackedFee);
            },
        };
        let target = Address { data: read_bytes20(bytes, 29) };
        let tx = ForcedExit {
            initiator_account_id,
            target,
            token,
            fee,
            nonce: 0,
            signature: TxSignature::empty(),
        };
        Ok(ForcedExitOp { tx, target_account_id, withdraw_amount: Some(amount) })
    }

    /// Decoding the encoding of a forced exit succeeds and gives back its projection,
    /// the fee as packing rounds it.
    pub proof fn lemma_round_trip(op: Self)
        requires
            fee_in_range(op.tx.fee as nat),
        ensures
            op.spec_public_data().len() == Self::CHUNKS * CHUNK_BYTES,
            Self::decode_error(op.spec_public_data()) is None,
            forall|d: Self| #[trigger] d.is_decoding_of(op.spec_public_data()) ==> d.is_projection_of(op),
    {
        let b = op.spec_public_data();
        lemma_be_u32(op.tx.initiator_account_id);
        lemma_be_u32(op.target_account_id);
        lemma_be_u16(op.tx.token);
        lemma_be_u128(op.spec_amount());
        crate::packing::lemma_packed_lengths(op.tx.fee as nat);
        crate::packing::lemma_fee_unpack_pack_rounds(op.tx.fee);
        assert(b.subrange(1, 5) =~= be_bytes(op.tx.initiator_account_id as nat, 4));
        assert(b.subrange(5, 9) =~= be_bytes(op.target_account_id as nat, 4));
        assert(b.subrange(9, 11) =~= be_bytes(op.tx.token as nat, 2));
        assert(b.subrange(11, 27) =~= be_bytes(op.spec_amount() as nat, 16));
        assert(b.subrange(27, 29) =~= spec_pack_fee(op.tx.fee as nat));
        assert(b.subrange(29, 49) =~= op.tx.target.data@);
        assert forall|d: Self| #[trigger] d.is_decoding_of(op.spec_public_data()) implies d.is_projection_of(op) by {}
    }
}

/// Closing an account.
#[derive(Clone, Copy, Debug, PartialEq, Eq)]
pub struct CloseOp {
    pub tx: Close,
    pub account_id: AccountId,
}

impl CloseOp {
    pub const CHUNKS: usize = 1;
    pub const OP_CODE: u8 = 0x04;

    /// `[0x04 | account_id(4)]`, zero-padded to one chunk.
    pub open spec fn spec_public_data(self) -> Seq<u8> {
        pad_to(seq![Self::OP_CODE] + be_bytes(self.account_id as nat, 4), 9)
    }

    pub open spec fn decode_error(b: Seq<u8>) -> Option<CodecError> {
        if b.len() != 9 {
            Some(CodecError::WrongLength)
        } else {
            None
        }
    }

    pub open spec fn is_decoding_of(self, b: Seq<u8>) -> bool {
        &&& b.len() == 9
        &&& self.account_id as nat == be_nat(b.subrange(1, 5))
        &&& self.tx.account.data@ == zeros(20)
        &&& self.tx.nonce == 0
        &&& self.tx.signature.is_empty()
    }

    pub open spec fn is_projection_of(self, op: Self) -> bool {
        &&& self.account_id == op.account_id
        &&& self.tx.account.data@ == zeros(20)
        &&& self.tx.nonce == 0
        &&& self.tx.signature.is_empty()
    }

    /// The operation's public data.
    pub fn get_public_data(&self) -> (r: Vec<u8>)
        ensures
            r@ == self.spec_public_data(),
            r@.len() == Self::CHUNKS * CHUNK_BYTES,
    {
        let mut data: Vec<u8> = Vec::new();
        data.push(Self::OP_CODE);
        push_be(&mut data, self.account_id as u128, 4);
        pad_zeros(&mut data, Self::CHUNKS * CHUNK_BYTES);
        assert(data@ =~= self.spec_public_data());
        data
    }

    /// Reads the operation back from its public data; what public data does not
    /// carry comes back zero.
    pub fn from_public_data(bytes: &[u8]) -> (r: Result<Self, CodecError>)
        ensures
            match r {
                Ok(op) => Self::decode_error(bytes@) is None && op.is_decoding_of(bytes@),
                Err(e) => Self::decode_error(bytes@) == Some(e),
            },
    {
        if bytes.len() != Self::CHUNKS * CHUNK_BYTES {
            return Err(CodecError::WrongLength);
        }
        let account_id = read_u32(bytes, 1);
        let tx = Close { account: Address::zero(), nonce: 0, signature: TxSignature::empty() };
        Ok(CloseOp { tx, account_id })
    }

    /// Decoding the encoding of a close succeeds and gives back its projection.
    pub proof fn lemma_round_trip(op: Self)
        ensures
            op.spec_public_data().len() == Self::CHUNKS * CHUNK_BYTES,
            Self::decode_error(op.spec_public_data()) is None,
            forall|d: Self| #[trigger] d.is_decoding_of(op.spec_public_data()) ==> d.is_projection_of(op),
    {
        let b = op.spec_public_data();
        lemma_be_u32(op.account_id);
        assert(b.subrange(1, 5) =~= be_bytes(op.account_id as nat, 4));
        assert forall|d: Self| #[trigger] d.is_decoding_of(op.spec_public_data()) implies d.is_projection_of(op) by {}
    }
}

/// Setting the signing key of an account.
#[derive(Clone, Copy, Debug, PartialEq, Eq)]
pub struct ChangePubKeyOp {
    pub tx: ChangePubKey,
    pub account_id: AccountId,
}

impl ChangePubKeyOp {
    pub const CHUNKS: usize = 6;
    pub const OP_CODE: u8 = 0x07;

    /// `[0x07 | account_id(4) | new key hash(20) | account address(20) | nonce(4) | fee token(2) | fee(2, packed)]`,
    /// zero-padded to six chunks.
    pub open spec fn spec_public_data(self) -> Seq<u8> {
        pad_to(
            seq![Self::OP_CODE] + be_bytes(self.account_id as nat, 4) + self.tx.new_pk_hash.data@
                + self.tx.account.data@ + be_bytes(self.tx.nonce as nat, 4) + be_bytes(
                self.tx.fee_token as nat,
                2,
            ) + spec_pack_fee(self.tx.fee as nat),
            54,
        )
    }

    /// The packed Ethereum signature, or nothing.
    pub open spec fn spec_eth_witness(self) -> Seq<u8> {
        match self.tx.eth_signature {
            Some(sig) => sig.data@,
            None => Seq::empty(),
        }
    }

    pub open spec fn is_exact(self) -> bool {
        &&& is_packable(self.tx.fee as nat, FEE_MAX_MANTISSA as nat)
        &&& fee_in_range(self.tx.fee as nat)
    }

    pub open spec fn decode_error(b: Seq<u8>) -> Option<CodecError> {
        if b.len() != 54 {
            Some(CodecError::WrongLength)
        } else if spec_unpack_fee(b.subrange(51, 53)) is None {
            Some(CodecError::InvalidPackedFee)
        } else {
            None
        }
    }

    pub open spec fn is_decoding_of(self, b: Seq<u8>) -> bool {
        &&& b.len() == 54
        &&& self.account_id as nat == be_nat(b.subrange(1, 5))
        &&& self.tx.account_id == self.account_id
        &&& self.tx.new_pk_hash.data@ == b.subrange(5, 25)
        &&& self.tx.account.data@ == b.subrange(25, 45)
        &&& self.tx.nonce as nat == be_nat(b.subrange(45, 49))
        &&& self.tx.fee_token as nat == be_nat(b.subrange(49, 51))
        &&& spec_unpack_fee(b.subrange(51, 53)) == Some(self.tx.fee as nat)
        &&& self.tx.signature.is_empty()
        &&& self.tx.eth_signature is None
    }

    /// Agreement on what public data carries; no signatures.
    pub open spec fn is_projection_of(self, op: Self) -> bool {
        &&& self.account_id == op.account_id
        &&& self.tx.account_id == op.account_id
        &&& self.tx.new_pk_hash.data@ == op.tx.new_pk_hash.data@
        &&& self.tx.account.data@ == op.tx.account.data@
        &&& self.tx.nonce == op.tx.nonce
        &&& self.tx.fee_token == op.tx.fee_token
        &&& self.tx.fee as nat == spec_rounded_fee(op.tx.fee as nat)
        &&& self.tx.signature.is_empty()
        &&& self.tx.eth_signature is None
    }

    /// The operation's public data.
    pub fn get_public_data(&self) -> (r: Vec<u8>)
        requires
            fee_in_range(self.tx.fee as nat),
        ensures
            r@ == self.spec_public_data(),
            r@.len() == Self::CHUNKS * CHUNK_BYTES,
    {
        let mut data: Vec<u8> = Vec::new();
        data.push(Self::OP_CODE);
        push_be(&mut data, self.account_id as u128, 4);
        push_all(&mut data, &self.tx.new_pk_hash.data);
        push_all(&mut data, &self.tx.account.data);
        push_be(&mut data, self.tx.nonce as u128, 4);
        push_be(&mut data, self.tx.fee_token as u128, 2);
        let fee = pack_fee_amount(self.tx.fee);
        push_all(&mut data, fee.as_slice());
        pad_zeros(&mut data, Self::CHUNKS * CHUNK_BYTES);
        assert(data@ =~= self.spec_public_data());
        data
    }

    pub fn get_eth_witness(&self) -> (r: Vec<u8>)
        ensures
            r@ == self.spec_eth_witness(),
    {
        let mut data: Vec<u8> = Vec::new();
        match &self.tx.eth_signature {
            Some(sig) => {
                push_all(&mut data, &sig.data);
                assert(data@ =~= sig.data@);
            },
            None => {},
        }
        data
    }

    /// Reads the operation back from its public data; what public data does not
    /// carry comes back zero.
    pub fn from_public_data(bytes: &[u8]) -> (r: Result<Self, CodecError>)
        ensures
            match r {
                Ok(op) => Self::decode_error(bytes@) is None && op.is_decoding_of(bytes@),
                Err(e) => Self::decode_error(bytes@) == Some(e),
            },
    {
        if bytes.len() != Self::CHUNKS * CHUNK_BYTES {
            return Err(CodecError::WrongLength);
        }
        let account_id = read_u32(bytes, 1);
        let new_pk_hash = PubKeyHash { data: read_bytes20(bytes, 5) };
        let account = Address { data: read_bytes20(bytes, 25) };
        let nonce = read_u32(bytes, 45);
        let fee_token = read_u16(bytes, 49);
        let fee = match unpack_fee_amount(slice_range(bytes, 51, 53).as_slice()) {
            Some(f) => f,
            None => {
                return Err(CodecError::InvalidPackedFee);
            },
        };
        let tx = ChangePubKey {
            account_id,
            account,
            new_pk_hash,
            fee_token,
            fee,
            nonce,
            signature: TxSignature::empty(),
            eth_signature: None,
        };
        Ok(ChangePubKeyOp { tx, account_id })
    }

    /// Decoding the encoding of a key change succeeds and gives back its projection,
    /// the fee as packing rounds it.
    pub proof fn lemma_round_trip(op: Self)
        requires
            fee_in_range(op.tx.fee as nat),
        ensures
            op.spec_public_data().len() == Self::CHUNKS * CHUNK_BYTES,
            Self::decode_error(op.spec_public_data()) is None,
            forall|d: Self| #[trigger] d.is_decoding_of(op.spec_public_data()) ==> d.is_projection_of(op),
    {
        let b = op.spec_public_data();
        lemma_be_u32(op.account_id);
        lemma_be_u32(op.tx.nonce);
        lemma_be_u16(op.tx.fee_token);
        crate::packing::lemma_packed_lengths(op.tx.fee as nat);
        crate::packing::lemma_fee_unpack_pack_rounds(op.tx.fee);
        assert(b.subrange(1, 5) =~= be_bytes(op.account_id as nat, 4));
        assert(b.subrange(5, 25) =~= op.tx.new_pk_hash.data@);
        assert(b.subrange(25, 45) =~= op.tx.account.data@);
        assert(b.subrange(45, 49) =~= be_bytes(op.tx.nonce as nat, 4));
        assert(b.subrange(49, 51) =~= be_bytes(op.tx.fee_token as nat, 2));
        assert(b.subrange(51, 53) =~= spec_pack_fee(op.tx.fee as nat));
        assert forall|d: Self| #[trigger] d.is_decoding_of(op.spec_public_data()) implies d.is_projection_of(op) by {}
    }
}

/// A full exit of an account requested from the base chain.
#[derive(Clone, Copy, Debug, PartialEq, Eq)]
pub struct FullExitOp {
    pub priority_op: FullExit,
    /// `None` where the withdrawal did not succeed.
    pub withdraw_amount: Option<u128>,
}

impl FullExitOp {
    pub const CHUNKS: usize = 6;
    pub const OP_CODE: u8 = 0x06;
    /// Leading byte of the withdrawal data: a full exit does not go to the pending queue.
    pub const WITHDRAW_DATA_PREFIX: u8 = 0;

    /// The amount withdrawn, zero where none was.
    pub open spec fn spec_amount(self) -> u128 {
        match self.withdraw_amount {
            Some(a) => a,
            None => 0,
        }
    }

    /// `[0x06 | account_id(4) | eth address(20) | token(2) | amount(16)]`, zero-padded to six chunks.
    pub open spec fn spec_public_data(self) -> Seq<u8> {
        pad_to(
            seq![Self::OP_CODE] + be_bytes(self.priority_op.account_id as nat, 4)
                + self.priority_op.eth_address.data@ + be_bytes(self.priority_op.token as nat, 2)
                + be_bytes(self.spec_amount() as nat, 16),
            54,
        )
    }

    /// `[0x00 | eth address(20) | token(2) | amount(16)]`.
    pub open spec fn spec_withdrawal_data(self) -> Seq<u8> {
        seq![Self::WITHDRAW_DATA_PREFIX] + self.priority_op.eth_address.data@ + be_bytes(
            self.priority_op.token as nat,
            2,
        ) + be_bytes(self.spec_amount() as nat, 16)
    }

    pub open spec fn decode_error(b: Seq<u8>) -> Option<CodecError> {
        if b.len() != 54 {
            Some(CodecError::WrongLength)
        } else {
            None
        }
    }

    pub open spec fn is_decoding_of(self, b: Seq<u8>) -> bool {
        &&& b.len() == 54
        &&& self.priority_op.account_id as nat == be_nat(b.subrange(1, 5))
        &&& self.priority_op.eth_address.data@ == b.subrange(5, 25)
        &&& self.priority_op.token as nat == be_nat(b.subrange(25, 27))
        &&& self.withdraw_amount matches Some(a) && a as nat == be_nat(b.subrange(27, 43))
    }

    /// Agreement on what public data carries, the amount read as withdrawn.
    pub open spec fn is_projection_of(self, op: Self) -> bool {
        &&& self.priority_op.account_id == op.priority_op.account_id
        &&& self.priority_op.eth_address.data@ == op.priority_op.eth_address.data@
        &&& self.priority_op.token == op.priority_op.token
        &&& self.withdraw_amount == Some(op.spec_amount())
    }

    fn amount(&self) -> (r: u128)
        ensures
            r == self.spec_amount(),
    {
        match self.withdraw_amount {
            Some(a) => a,
            None => 0,
        }
    }

    /// The operation's public data.
    pub fn get_public_data(&self) -> (r: Vec<u8>)
        ensures
            r@ == self.spec_public_data(),
            r@.len() == Self::CHUNKS * CHUNK_BYTES,
    {
        let mut data: Vec<u8> = Vec::new();
        data.push(Self::OP_CODE);
        push_be(&mut data, self.priority_op.account_id as u128, 4);
        push_all(&mut data, &self.priority_op.eth_address.data);
        push_be(&mut data, self.priority_op.token as u128, 2);
        push_be(&mut data, self.amount(), 16);
        pad_zeros(&mut data, Self::CHUNKS * CHUNK_BYTES);
        assert(data@ =~= self.spec_public_data());
        data
    }

    /// What the base-chain contract adds to its pending-withdrawals queue.
    pub fn get_withdrawal_data(&self) -> (r: Vec<u8>)
        ensures
            r@ == self.spec_withdrawal_data(),
    {
        let mut data: Vec<u8> = Vec::new();
        data.push(Self::WITHDRAW_DATA_PREFIX);
        push_all(&mut data, &self.priority_op.eth_address.data);
        push_be(&mut data, self.priority_op.token as u128, 2);
        push_be(&mut data, self.amount(), 16);
        assert(data@ =~= self.spec_withdrawal_data());
        data
    }

    /// Reads the operation back from its public data; what public data does not
    /// carry comes back zero.
    pub fn from_public_data(bytes: &[u8]) -> (r: Result<Self, CodecError>)
        ensures
            match r {
                Ok(op) => Self::decode_error(bytes@) is None && op.is_decoding_of(bytes@),
                Err(e) => Self::decode_error(bytes@) == Some(e),
            },
    {
        if bytes.len() != Self::CHUNKS * CHUNK_BYTES {
            return Err(CodecError::WrongLength);
        }
        let account_id = read_u32(bytes, 1);
        let eth_address = Address { data: read_bytes20(bytes, 5) };
        let token = read_u16(bytes, 25);
        let amount = read_u128(bytes, 27);
        Ok(FullExitOp {
            priority_op: FullExit { account_id, eth_address, token },
            withdraw_amount: Some(amount),
        })
    }

    /// Decoding the encoding of a full exit succeeds and gives back its projection.
    pub proof fn lemma_round_trip(op: Self)
        ensures
            op.spec_public_data().len() == Self::CHUNKS * CHUNK_BYTES,
            Self::decode_error(op.spec_public_data()) is None,
            forall|d: Self| #[trigger] d.is_decoding_of(op.spec_public_data()) ==> d.is_projection_of(op),
    {
        let b = op.spec_public_data();
        lemma_be_u32(op.priority_op.account_id);
        lemma_be_u16(op.priority_op.token);
        lemma_be_u128(op.spec_amount());
        assert(b.subrange(1, 5) =~= be_bytes(op.priority_op.account_id as nat, 4));
        assert(b.subrange(5, 25) =~= op.priority_op.eth_address.data@);
        assert(b.subrange(25, 27) =~= be_bytes(op.priority_op.token as nat, 2));
        assert(b.subrange(27, 43) =~= be_bytes(op.spec_amount() as nat, 16));
        assert forall|d: Self| #[trigger] d.is_decoding_of(op.spec_public_data()) implies d.is_projection_of(op) by {}
    }
}

/// A block operation: the tag is the operation code.
#[derive(Clone, Copy, Debug, PartialEq, Eq)]
pub enum FranklinOp {
    Noop(NoopOp),
    Deposit(DepositOp),
    TransferToNew(TransferToNewOp),
    Withdraw(WithdrawOp),
    Close(CloseOp),
    Transfer(TransferOp),
    FullExit(FullExitOp),
    ChangePubKeyOffchain(ChangePubKeyOp),
    ForcedExit(ForcedExitOp),
}

/// The operation is not of the kind asked for.
#[derive(Clone, Copy, Debug, PartialEq, Eq)]
pub struct WrongOperationType;

impl FranklinOp {
    /// Chunks of each operation code; `None` for a code that names no operation.
    pub open spec fn spec_chunks_of(op_type: u8) -> Option<nat> {
        if op_type == NoopOp::OP_CODE {
            Some(NoopOp::CHUNKS as nat)
        } else if op_type == DepositOp::OP_CODE {
            Some(DepositOp::CHUNKS as nat)
        } else if op_type == TransferToNewOp::OP_CODE {
            Some(TransferToNewOp::CHUNKS as nat)
        } else if op_type == WithdrawOp::OP_CODE {
            Some(WithdrawOp::CHUNKS as nat)
        } else if op_type == CloseOp::OP_CODE {
            Some(CloseOp::CHUNKS as nat)
        } else if op_type == TransferOp::OP_CODE {
            Some(TransferOp::CHUNKS as nat)
        } else if op_type == FullExitOp::OP_CODE {
            Some(FullExitOp::CHUNKS as nat)
        } else if op_type == ChangePubKeyOp::OP_CODE {
            Some(ChangePubKeyOp::CHUNKS as nat)
        } else if op_type == ForcedExitOp::OP_CODE {
            Some(ForcedExitOp::CHUNKS as nat)
        } else {
            None
        }
    }

    pub open spec fn spec_op_code(self) -> u8 {
        match self {
            FranklinOp::Noop(_) => NoopOp::OP_CODE,
            FranklinOp::Deposit(_) => DepositOp::OP_CODE,
            FranklinOp::TransferToNew(_) => TransferToNewOp::OP_CODE,
            FranklinOp::Withdraw(_) => WithdrawOp::OP_CODE,
            FranklinOp::Close(_) => CloseOp::OP_CODE,
            FranklinOp::Transfer(_) => TransferOp::OP_CODE,
            FranklinOp::FullExit(_) => FullExitOp::OP_CODE,
            FranklinOp::ChangePubKeyOffchain(_) => ChangePubKeyOp::OP_CODE,
            FranklinOp::ForcedExit(_) => ForcedExitOp::OP_CODE,
        }
    }

    pub open spec fn spec_chunks(self) -> nat {
        Self::spec_chunks_of(self.spec_op_code())->0
    }

    /// Fees within what the packed form takes.
    pub open spec fn can_encode(self) -> bool {
        match self {
            FranklinOp::TransferToNew(op) => fee_in_range(op.tx.fee as nat),
            FranklinOp::Withdraw(op) => fee_in_range(op.tx.fee as nat),
            FranklinOp::Transfer(op) => fee_in_range(op.tx.fee as nat),
            FranklinOp::ChangePubKeyOffchain(op) => fee_in_range(op.tx.fee as nat),
            FranklinOp::ForcedExit(op) => fee_in_range(op.tx.fee as nat),
            _ => true,
        }
    }

    /// Amounts and fees that packing keeps exactly.
    pub open spec fn is_exact(self) -> bool {
        match self {
            FranklinOp::TransferToNew(op) => op.is_exact(),
            FranklinOp::Withdraw(op) => op.is_exact(),
            FranklinOp::Transfer(op) => op.is_exact(),
            FranklinOp::ChangePubKeyOffchain(op) => op.is_exact(),
            FranklinOp::ForcedExit(op) => op.is_exact(),
            _ => true,
        }
    }

    pub open spec fn spec_public_data(self) -> Seq<u8> {
        match self {
            FranklinOp::Noop(op) => op.spec_public_data(),
            FranklinOp::Deposit(op) => op.spec_public_data(),
            FranklinOp::TransferToNew(op) => op.spec_public_data(),
            FranklinOp::Withdraw(op) => op.spec_public_data(),
            FranklinOp::Close(op) => op.spec_public_data(),
            FranklinOp::Transfer(op) => op.spec_public_data(),
            FranklinOp::FullExit(op) => op.spec_public_data(),
            FranklinOp::ChangePubKeyOffchain(op) => op.spec_public_data(),
            FranklinOp::ForcedExit(op) => op.spec_public_data(),
        }
    }

    /// Why `b` is no operation's public data, if it is none.
    pub open spec fn decode_error(b: Seq<u8>) -> Option<CodecError> {
        if b.len() == 0 {
            Some(CodecError::EmptyPubdata)
        } else if b[0] == NoopOp::OP_CODE {
            NoopOp::decode_error(b)
        } else if b[0] == DepositOp::OP_CODE {
            DepositOp::decode_error(b)
        } else if b[0] == TransferToNewOp::OP_CODE {
            TransferToNewOp::decode_error(b)
        } else if b[0] == WithdrawOp::OP_CODE {
            WithdrawOp::decode_error(b)
        } else if b[0] == CloseOp::OP_CODE {
            CloseOp::decode_error(b)
        } else if b[0] == TransferOp::OP_CODE {
            TransferOp::decode_error(b)
        } else if b[0] == FullExitOp::OP_CODE {
            FullExitOp::decode_error(b)
        } else if b[0] == ChangePubKeyOp::OP_CODE {
            ChangePubKeyOp::decode_error(b)
        } else if b[0] == ForcedExitOp::OP_CODE {
            ForcedExitOp::decode_error(b)
        } else {
            Some(CodecError::UnknownOpCode(b[0]))
        }
    }

    /// Whether `self` is what `b` decodes to: the first byte picks the kind.
    pub open spec fn is_decoding_of(self, b: Seq<u8>) -> bool {
        &&& b.len() > 0
        &&& b[0] == self.spec_op_code()
        &&& match self {
            FranklinOp::Noop(op) => op.is_decoding_of(b),
            FranklinOp::Deposit(op) => op.is_decoding_of(b),
            FranklinOp::TransferToNew(op) => op.is_decoding_of(b),
            FranklinOp::Withdraw(op) => op.is_decoding_of(b),
            FranklinOp::Close(op) => op.is_decoding_of(b),
            FranklinOp::Transfer(op) => op.is_decoding_of(b),
            FranklinOp::FullExit(op) => op.is_decoding_of(b),
            FranklinOp::ChangePubKeyOffchain(op) => op.is_decoding_of(b),
            FranklinOp::ForcedExit(op) => op.is_decoding_of(b),
        }
    }

    /// Same kind, and agreement on what public data carries.
    pub open spec fn is_projection_of(self, other: Self) -> bool {
        match (self, other) {
            (FranklinOp::Noop(_), FranklinOp::Noop(_)) => true,
            (FranklinOp::Deposit(a), FranklinOp::Deposit(o)) => a.is_projection_of(o),
            (FranklinOp::TransferToNew(a), FranklinOp::TransferToNew(o)) => a.is_projection_of(o),
            (FranklinOp::Withdraw(a), FranklinOp::Withdraw(o)) => a.is_projection_of(o),
            (FranklinOp::Close(a), FranklinOp::Close(o)) => a.is_projection_of(o),
            (FranklinOp::Transfer(a), FranklinOp::Transfer(o)) => a.is_projection_of(o),
            (FranklinOp::FullExit(a), FranklinOp::FullExit(o)) => a.is_projection_of(o),
            (
                FranklinOp::ChangePubKeyOffchain(a),
                FranklinOp::ChangePubKeyOffchain(o),
            ) => a.is_projection_of(o),
            (FranklinOp::ForcedExit(a), FranklinOp::ForcedExit(o)) => a.is_projection_of(o),
            _ => false,
        }
    }

    pub open spec fn spec_eth_witness(self) -> Option<Seq<u8>> {
        match self {
            FranklinOp::ChangePubKeyOffchain(op) => Some(op.spec_eth_witness()),
            _ => None,
        }
    }

    pub open spec fn spec_withdrawal_data(self) -> Option<Seq<u8>> {
        match self {
            FranklinOp::Withdraw(op) => Some(op.spec_withdrawal_data()),
            FranklinOp::FullExit(op) => Some(op.spec_withdrawal_data()),
            FranklinOp::ForcedExit(op) => Some(op.spec_withdrawal_data()),
            _ => None,
        }
    }

    pub fn chunks(&self) -> (r: usize)
        ensures
            r == self.spec_chunks(),
    {
        match self {
            FranklinOp::Noop(_) => NoopOp::CHUNKS,
            FranklinOp::Deposit(_) => DepositOp::CHUNKS,
            FranklinOp::TransferToNew(_) => TransferToNewOp::CHUNKS,
            FranklinOp::Withdraw(_) => WithdrawOp::CHUNKS,
            FranklinOp::Close(_) => CloseOp::CHUNKS,
            FranklinOp::Transfer(_) => TransferOp::CHUNKS,
            FranklinOp::FullExit(_) => FullExitOp::CHUNKS,
            FranklinOp::ChangePubKeyOffchain(_) => ChangePubKeyOp::CHUNKS,
            FranklinOp::ForcedExit(_) => ForcedExitOp::CHUNKS,
        }
    }

    pub fn public_data(&self) -> (r: Vec<u8>)
        requires
            self.can_encode(),
        ensures
            r@ == self.spec_public_data(),
            r@.len() == self.spec_chunks() * CHUNK_BYTES,
    {
        match self {
            FranklinOp::Noop(op) => op.get_public_data(),
            FranklinOp::Deposit(op) => op.get_public_data(),
            FranklinOp::TransferToNew(op) => op.get_public_data(),
            FranklinOp::Withdraw(op) => op.get_public_data(),
            FranklinOp::Close(op) => op.get_public_data(),
            FranklinOp::Transfer(op) => op.get_public_data(),
            FranklinOp::FullExit(op) => op.get_public_data(),
            FranklinOp::ChangePubKeyOffchain(op) => op.get_public_data(),
            FranklinOp::ForcedExit(op) => op.get_public_data(),
        }
    }

    pub fn eth_witness(&self) -> (r: Option<Vec<u8>>)
        ensures
            match (r, self.spec_eth_witness()) {
                (Some(w), Some(s)) => w@ == s,
                (None, None) => true,
                _ => false,
            },
    {
        match self {
            FranklinOp::ChangePubKeyOffchain(op) => Some(op.get_eth_witness()),
            _ => None,
        }
    }

    pub fn withdrawal_data(&self) -> (r: Option<Vec<u8>>)
        ensures
            match (r, self.spec_withdrawal_data()) {
                (Some(w), Some(s)) => w@ == s,
                (None, None) => true,
                _ => false,
            },
    {
        match self {
            FranklinOp::Withdraw(op) => Some(op.get_withdrawal_data()),
            FranklinOp::FullExit(op) => Some(op.get_withdrawal_data()),
            FranklinOp::ForcedExit(op) => Some(op.get_withdrawal_data()),
            _ => None,
        }
    }

    /// Reads the operation back from its public data; what public data does not
    /// carry comes back zero.
    pub fn from_public_data(bytes: &[u8]) -> (r: Result<Self, CodecError>)
        ensures
            match r {
                Ok(op) => Self::decode_error(bytes@) is None && op.is_decoding_of(bytes@),
                Err(e) => Self::decode_error(bytes@) == Some(e),
            },
    {
        if bytes.len() == 0 {
            return Err(CodecError::EmptyPubdata);
        }
        let op_type: u8 = bytes[0];
        if op_type == NoopOp::OP_CODE {
            Ok(FranklinOp::Noop(NoopOp::from_public_data(bytes)?))
        } else if op_type == DepositOp::OP_CODE {
            Ok(FranklinOp::Deposit(DepositOp::from_public_data(bytes)?))
        } else if op_type == TransferToNewOp::OP_CODE {
            Ok(FranklinOp::TransferToNew(TransferToNewOp::from_public_data(bytes)?))
        } else if op_type == WithdrawOp::OP_CODE {
            Ok(FranklinOp::Withdraw(WithdrawOp::from_public_data(bytes)?))
        } else if op_type == CloseOp::OP_CODE {
            Ok(FranklinOp::Close(CloseOp::from_public_data(bytes)?))
        } else if op_type == TransferOp::OP_CODE {
            Ok(FranklinOp::Transfer(TransferOp::from_public_data(bytes)?))
        } else if op_type == FullExitOp::OP_CODE {
            Ok(FranklinOp::FullExit(FullExitOp::from_public_data(bytes)?))
        } else if op_type == ChangePubKeyOp::OP_CODE {
            Ok(FranklinOp::ChangePubKeyOffchain(ChangePubKeyOp::from_public_data(bytes)?))
        } else if op_type == ForcedExitOp::OP_CODE {
            Ok(FranklinOp::ForcedExit(ForcedExitOp::from_public_data(bytes)?))
        } else {
            Err(CodecError::UnknownOpCode(op_type))
        }
    }

    /// Bytes of public data of the operation with code `op_type`.
    pub fn public_data_length(op_type: u8) -> (r: Result<usize, CodecError>)
        ensures
            match Self::spec_chunks_of(op_type) {
                Some(c) => r == Ok::<usize, CodecError>((c * CHUNK_BYTES) as usize),
                None => r == Err::<usize, CodecError>(CodecError::UnknownOpCode(op_type)),
            },
    {
        let chunks: usize = if op_type == NoopOp::OP_CODE {
            NoopOp::CHUNKS
        } else if op_type == DepositOp::OP_CODE {
            DepositOp::CHUNKS
        } else if op_type == TransferToNewOp::OP_CODE {
            TransferToNewOp::CHUNKS
        } else if op_type == WithdrawOp::OP_CODE {
            WithdrawOp::CHUNKS
        } else if op_type == CloseOp::OP_CODE {
            CloseOp::CHUNKS
        } else if op_type == TransferOp::OP_CODE {
            TransferOp::CHUNKS
        } else if op_type == FullExitOp::OP_CODE {
            FullExitOp::CHUNKS
        } else if op_type == ChangePubKeyOp::OP_CODE {
            ChangePubKeyOp::CHUNKS
        } else if op_type == ForcedExitOp::OP_CODE {
            ForcedExitOp::CHUNKS
        } else {
            return Err(CodecError::UnknownOpCode(op_type));
        };
        Ok(chunks * CHUNK_BYTES)
    }

    /// The transaction that the operation carries, for operations that users submit.
    pub fn try_get_tx(&self) -> (r: Result<FranklinTx, WrongOperationType>)
        ensures
            match (self, r) {
                (FranklinOp::Transfer(op), Ok(FranklinTx::Transfer(t))) => t == op.tx,
                (FranklinOp::TransferToNew(op), Ok(FranklinTx::Transfer(t))) => t == op.tx,
                (FranklinOp::Withdraw(op), Ok(FranklinTx::Withdraw(t))) => t == op.tx,
                (FranklinOp::Close(op), Ok(FranklinTx::Close(t))) => t == op.tx,
                (FranklinOp::ChangePubKeyOffchain(op), Ok(FranklinTx::ChangePubKey(t))) => t == op.tx,
                (FranklinOp::ForcedExit(op), Ok(FranklinTx::ForcedExit(t))) => t == op.tx,
                (FranklinOp::Noop(_), Err(_)) => true,
                (FranklinOp::Deposit(_), Err(_)) => true,
                (FranklinOp::FullExit(_), Err(_)) => true,
                _ => false,
            },
    {
        match self {
            FranklinOp::Transfer(op) => Ok(FranklinTx::Transfer(op.tx)),
            FranklinOp::TransferToNew(op) => Ok(FranklinTx::Transfer(op.tx)),
            FranklinOp::Withdraw(op) => Ok(FranklinTx::Withdraw(op.tx)),
            FranklinOp::Close(op) => Ok(FranklinTx::Close(op.tx)),
            FranklinOp::ChangePubKeyOffchain(op) => Ok(FranklinTx::ChangePubKey(op.tx)),
            FranklinOp::ForcedExit(op) => Ok(FranklinTx::ForcedExit(op.tx)),
            _ => Err(WrongOperationType),
        }
    }

    /// The priority operation that the operation carries, for operations from the base chain.
    pub fn try_get_priority_op(&self) -> (r: Result<FranklinPriorityOp, WrongOperationType>)
        ensures
            match (self, r) {
                (FranklinOp::Deposit(op), Ok(FranklinPriorityOp::Deposit(d))) => d == op.priority_op,
                (FranklinOp::FullExit(op), Ok(FranklinPriorityOp::FullExit(e))) => e == op.priority_op,
                (FranklinOp::Deposit(_), _) => false,
                (FranklinOp::FullExit(_), _) => false,
                (_, Err(_)) => true,
                _ => false,
            },
    {
        match self {
            FranklinOp::Deposit(op) => Ok(FranklinPriorityOp::Deposit(op.priority_op)),
            FranklinOp::FullExit(op) => Ok(FranklinPriorityOp::FullExit(op.priority_op)),
            _ => Err(WrongOperationType),
        }
    }
}

/// Codec round trip: for every operation whose fees fit the packed form, the
/// encoding is as long as the operation's chunks and decodes without error, to
/// an operation of the same kind that agrees with it on every field public data
/// carries (amounts and fees as packing rounds them), the others at their zero
/// values. Where packing keeps amounts and fees exactly, the decoded operation
/// encodes back to the same bytes.
pub proof fn lemma_codec_round_trip(op: FranklinOp)
    requires
        op.can_encode(),
    ensures
        op.spec_public_data().len() == op.spec_chunks() * CHUNK_BYTES,
        FranklinOp::decode_error(op.spec_public_data()) is None,
        forall|d: FranklinOp| #[trigger] d.is_decoding_of(op.spec_public_data()) ==> {
            &&& d.is_projection_of(op)
            &&& op.is_exact() ==> d.spec_public_data() == op.spec_public_data()
        },
{
    let b = op.spec_public_data();
    match op {
        FranklinOp::Noop(o) => {
            assert(b.len() == 9);
        },
        FranklinOp::Deposit(o) => {
            DepositOp::lemma_round_trip(o);
        },
        FranklinOp::TransferToNew(o) => {
            TransferToNewOp::lemma_round_trip(o);
        },
        FranklinOp::Withdraw(o) => {
            WithdrawOp::lemma_round_trip(o);
        },
        FranklinOp::Close(o) => {
            CloseOp::lemma_round_trip(o);
        },
        FranklinOp::Transfer(o) => {
            TransferOp::lemma_round_trip(o);
        },
        FranklinOp::FullExit(o) => {
            FullExitOp::lemma_round_trip(o);
        },
        FranklinOp::ChangePubKeyOffchain(o) => {
            ChangePubKeyOp::lemma_round_trip(o);
        },
        FranklinOp::ForcedExit(o) => {
            ForcedExitOp::lemma_round_trip(o);
        },
    }
    assert(b[0] == op.spec_op_code());
    assert forall|d: FranklinOp| #[trigger] d.is_decoding_of(b) implies {
        &&& d.is_projection_of(op)
        &&& op.is_exact() ==> d.spec_public_data() == b
    } by {
        match (d, op) {
            (FranklinOp::Deposit(x), FranklinOp::Deposit(o)) => {
                assert(x.is_decoding_of(o.spec_public_data()));
            },
            (FranklinOp::TransferToNew(x), FranklinOp::TransferToNew(o)) => {
                assert(x.is_decoding_of(o.spec_public_data()));
            },
            (FranklinOp::Withdraw(x), FranklinOp::Withdraw(o)) => {
                assert(x.is_decoding_of(o.spec_public_data()));
            },
            (FranklinOp::Close(x), FranklinOp::Close(o)) => {
                assert(x.is_decoding_of(o.spec_public_data()));
            },
            (FranklinOp::Transfer(x), FranklinOp::Transfer(o)) => {
                assert(x.is_decoding_of(o.spec_public_data()));
            },
            (FranklinOp::FullExit(x), FranklinOp::FullExit(o)) => {
                assert(x.is_decoding_of(o.spec_public_data()));
            },
            (FranklinOp::ChangePubKeyOffchain(x), FranklinOp::ChangePubKeyOffchain(o)) => {
                assert(x.is_decoding_of(o.spec_public_data()));
            },
            (FranklinOp::ForcedExit(x), FranklinOp::ForcedExit(o)) => {
                assert(x.is_decoding_of(o.spec_public_data()));
            },
            _ => {},
        }
    }
}

/// Copies `b[start..end]` into a vector.
fn slice_range(b: &[u8], start: usize, end: usize) -> (r: Vec<u8>)
    requires
        start <= end <= b@.len(),
    ensures
        r@ == b@.subrange(start as int, end as int),
{
    let mut out: Vec<u8> = Vec::new();
    let mut i: usize = start;
    while i < end
        invariant
            start <= i <= end,
            end <= b@.len(),
            out@ == b@.subrange(start as int, i as int),
        decreases end - i,
    {
        out.push(b[i]);
        i = i + 1;
        assert(out@ =~= b@.subrange(start as int, i as int));
    }
    out
}

proof fn lemma_be_u16(x: u16)
    ensures
        be_nat(be_bytes(x as nat, 2)) == x,
        be_bytes(x as nat, 2).len() == 2,
{
    crate::bytes::lemma_pow256_values();
    crate::bytes::lemma_be_round_trip(x as nat, 2);
}

proof fn lemma_be_u32(x: u32)
    ensures
        be_nat(be_bytes(x as nat, 4)) == x,
        be_bytes(x as nat, 4).len() == 4,
{
    crate::bytes::lemma_pow256_values();
    crate::bytes::lemma_be_round_trip(x as nat, 4);
}

proof fn lemma_be_u128(x: u128)
    ensures
        be_nat(be_bytes(x as nat, 16)) == x,
        be_bytes(x as nat, 16).len() == 16,
{
    crate::bytes::lemma_pow256_values();
    crate::bytes::lemma_be_round_trip(x as nat, 16);
}

/// A full exit that withdrew nothing records amount 0 and still fills six chunks.
pub proof fn lemma_full_exit_without_amount(op: FullExitOp)
    requires
        op.withdraw_amount is None || op.withdraw_amount == Some(0u128),
    ensures
        op.spec_public_data().len() == FullExitOp::CHUNKS * CHUNK_BYTES,
        op.spec_public_data().subrange(27, 43) == zeros(16),
{
    let b = op.spec_public_data();
    lemma_be_u32(op.priority_op.account_id);
    lemma_be_u16(op.priority_op.token);
    lemma_be_u128(0);
    crate::bytes::lemma_be_bytes_of_nat(zeros(16));
    assert(be_nat(zeros(16)) == 0) by {
        lemma_be_nat_zeros(16);
    }
    assert(b.subrange(27, 43) =~= be_bytes(0, 16));
}

proof fn lemma_be_nat_zeros(n: nat)
    ensures
        be_nat(zeros(n)) == 0,
    decreases n,
{
    if n > 0 {
        assert(zeros(n).drop_last() =~= zeros((n - 1) as nat));
        lemma_be_nat_zeros((n - 1) as nat);
    }
}

/// A close carries only its operation code and account id, then zeros.
pub proof fn lemma_close_layout(op: CloseOp)
    ensures
        op.spec_public_data() == seq![CloseOp::OP_CODE] + be_bytes(op.account_id as nat, 4) + zeros(4),
{
    lemma_be_u32(op.account_id);
    assert(op.spec_public_data() =~= seq![CloseOp::OP_CODE] + be_bytes(op.account_id as nat, 4) + zeros(4));
}

} // verus!
