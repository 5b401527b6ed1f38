//! Transactions and priority operations as carried inside block operations.
use vstd::prelude::*;
use crate::bytes::zeros;

verus! {

/// Account index in the balance tree.
pub type AccountId = u32;

/// Token index.
pub type TokenId = u16;

/// An Ethereum address.
#[derive(Clone, Copy, Debug, PartialEq, Eq)]
pub struct Address {
    pub data: [u8; 20],
}

impl Address {
    /// The address with every byte zero.
    pub fn zero() -> (r: Address)
        ensures
            r.data@ == zeros(20),
    {
        let r = Address { data: [0u8; 20] };
        assert(r.data@ =~= zeros(20));
        r
    }
}

/// Hash of a new signing public key.
#[derive(Clone, Copy, Debug, PartialEq, Eq)]
pub struct PubKeyHash {
    pub data: [u8; 20],
}

/// A packed signing public key with a packed signature over a transaction.
#[derive(Clone, Copy, Debug, PartialEq, Eq)]
pub struct TxSignature {
    pub pub_key: [u8; 32],
    pub signature: [u8; 64],
}

impl TxSignature {
    /// Whether every byte is zero: the signature a decoded operation carries.
    pub open spec fn is_empty(self) -> bool {
        self.pub_key@ == zeros(32) && self.signature@ == zeros(64)
    }

    /// The signature with every byte zero.
    pub fn empty() -> (r: TxSignature)
        ensures
            r.is_empty(),
    {
        let r = TxSignature { pub_key: [0u8; 32], signature: [0u8; 64] };
        assert(r.pub_key@ =~= zeros(32));
        assert(r.signature@ =~= zeros(64));
        r
    }
}

/// An Ethereum signature in its 65-byte packed form.
#[derive(Clone, Copy, Debug, PartialEq, Eq)]
pub struct PackedEthSignature {
    pub data: [u8; 65],
}

/// A deposit from the base chain.
#[derive(Clone, Copy, Debug, PartialEq, Eq)]
pub struct Deposit {
    pub from: Address,
    pub token: TokenId,
    pub amount: u128,
    pub to: Address,
}

/// A transfer between accounts.
#[derive(Clone, Copy, Debug, PartialEq, Eq)]
pub struct Transfer {
    pub account_id: AccountId,
    pub from: Address,
    pub to: Address,
    pub token: TokenId,
    pub amount: u128,
    pub fee: u128,
    pub nonce: u32,
    pub signature: TxSignature,
}

/// A withdrawal to the base chain.
#[derive(Clone, Copy, Debug, PartialEq, Eq)]
pub struct Withdraw {
    pub account_id: AccountId,
    pub from: Address,
    pub to: Address,
    pub token: TokenId,
    pub amount: u128,
    pub fee: u128,
    pub nonce: u32,
    pub signature: TxSignature,
}

/// A withdrawal forced on a target account by another account.
#[derive(Clone, Copy, Debug, PartialEq, Eq)]
pub struct ForcedExit {
    pub initiator_account_id: AccountId,
    pub target: Address,
    pub token: TokenId,
    pub fee: u128,
    pub nonce: u32,
    pub signature: TxSignature,
}

/// Closing an account.
#[derive(Clone, Copy, Debug, PartialEq, Eq)]
pub struct Close {
    pub account: Address,
    pub nonce: u32,
    pub signature: TxSignature,
}

/// Setting the signing key of an account.
#[derive(Clone, Copy, Debug, PartialEq, Eq)]
pub struct ChangePubKey {
    pub account_id: AccountId,
    pub account: Address,
    pub new_pk_hash: PubKeyHash,
    pub fee_token: TokenId,
    pub fee: u128,
    pub nonce: u32,
    pub signature: TxSignature,
    pub eth_signature: Option<PackedEthSignature>,
}

/// A full exit requested from the base chain.
#[derive(Clone, Copy, Debug, PartialEq, Eq)]
pub struct FullExit {
    pub account_id: AccountId,
    pub eth_address: Address,
    pub token: TokenId,
}

/// A transaction submitted on the rollup.
#[derive(Clone, Copy, Debug, PartialEq, Eq)]
pub enum FranklinTx {
    Transfer(Transfer),
    Withdraw(Withdraw),
    Close(Close),
    ChangePubKey(ChangePubKey),
    ForcedExit(ForcedExit),
}

/// An operation that originates on the base chain.
#[derive(Clone, Copy, Debug, PartialEq, Eq)]
pub enum FranklinPriorityOp {
    Deposit(Deposit),
    FullExit(FullExit),
}

} // verus!
