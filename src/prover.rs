//! The prover engine: applies a block's transactions to its mirror of the balance
//! tree, records the witnesses the circuit needs, checks the resulting root and
//! computes the public-data commitment. Making and checking the Groth16 proof is
//! left to the caller, which reports the outcome through `commit_proof`.
use vstd::prelude::*;
use std::marker::PhantomData;
use crate::commitment::{public_data_commitment, spec_public_data_commitment};
use crate::operations::{DepositOp, FullExitOp, TransferOp};
use crate::packing::{
    fee_in_range, pack_fee_amount, pack_token_amount, pow10, spec_pack_fee, spec_pack_token,
    spec_unpack_fee, spec_unpack_token, unpack_fee_amount, unpack_token_amount,
};
use crate::tree::{
    leaf_at, root_of, spec_verify_merkle, Account, BalanceTree, CircuitParams, Fr, TREE_CAPACITY,
};
use crate::tx::{AccountId, Address, Deposit, FullExit, TokenId, Transfer, TxSignature};

verus! {

/// Why a block could not be applied or proved.
#[derive(Clone, Debug, PartialEq, Eq)]
pub enum BabyProverErr {
    /// An amount does not survive packing.
    InvalidAmountEncoding,
    /// A fee is beyond what the packed form holds.
    InvalidFeeEncoding,
    /// The sending (or exiting) account is not in the tree.
    InvalidSender,
    /// The receiving account lies beyond the tree.
    InvalidRecipient,
    /// A transaction breaks a rule of the circuit.
    InvalidTransaction(String),
    /// Reading proving keys or state failed.
    IoError(String),
    /// The block is not the next one this prover expects.
    WrongBlockNumber,
    /// The block does not hold as many transactions as the circuit takes.
    BatchSizeMismatch,
    /// The sender's balance does not cover amount and fee.
    InsufficientBalance,
    /// A balance would pass 128 bits.
    BalanceOverflow,
    /// A nonce would pass 32 bits.
    NonceOverflow,
    /// The block's total fees would pass 128 bits.
    FeeOverflow,
    /// A deposited key is no point of the curve.
    InvalidPublicKey,
    /// Applying the block left the root as it was.
    RootUnchanged,
    /// The root after the block is not the one the block declares.
    RootMismatch,
    /// The proof was not made or did not verify.
    ProofRejected,
    /// An account id lies beyond the tree.
    AccountOutOfRange,
    /// Anything else.
    Other(String),
}

impl BabyProverErr {
    pub open spec fn spec_description(&self) -> Seq<char> {
        match self {
            BabyProverErr::InvalidAmountEncoding => "transfer amount is malformed or too large"@,
            BabyProverErr::InvalidFeeEncoding => "transfer fee is malformed or too large"@,
            BabyProverErr::InvalidSender => "sender account is unknown"@,
            BabyProverErr::InvalidRecipient => "recipient account is unknown"@,
            BabyProverErr::InvalidTransaction(reason) => "invalid tx data: "@ + reason@,
            BabyProverErr::IoError(_) => "encountered an I/O error"@,
            BabyProverErr::WrongBlockNumber => "block is not the next one to prove"@,
            BabyProverErr::BatchSizeMismatch => "number of transactions does not match the circuit"@,
            BabyProverErr::InsufficientBalance => "sender balance does not cover amount and fee"@,
            BabyProverErr::BalanceOverflow => "balance overflows 128 bits"@,
            BabyProverErr::NonceOverflow => "nonce overflows 32 bits"@,
            BabyProverErr::FeeOverflow => "total fees overflow 128 bits"@,
            BabyProverErr::InvalidPublicKey => "public key is not a point of the curve"@,
            BabyProverErr::RootUnchanged => "block leaves the root unchanged"@,
            BabyProverErr::RootMismatch => "root after the block differs from the declared one"@,
            BabyProverErr::ProofRejected => "proof is invalid"@,
            BabyProverErr::AccountOutOfRange => "account id lies beyond the tree"@,
            BabyProverErr::Other(reason) => "Prover error: "@ + reason@,
        }
    }

    /// A sentence that says what went wrong.
    pub fn description(&self) -> (r: String)
        ensures
            r@ == self.spec_description(),
    {
        match self {
            BabyProverErr::InvalidAmountEncoding => "transfer amount is malformed or too large".to_owned(),
            BabyProverErr::InvalidFeeEncoding => "transfer fee is malformed or too large".to_owned(),
            BabyProverErr::InvalidSender => "sender account is unknown".to_owned(),
            BabyProverErr::InvalidRecipient => "recipient account is unknown".to_owned(),
            BabyProverErr::InvalidTransaction(reason) => {
                let mut s = "invalid tx data: ".to_owned();
                s.append(reason.as_str());
                s
            },
            BabyProverErr::IoError(_) => "encountered an I/O error".to_owned(),
            BabyProverErr::WrongBlockNumber => "block is not the next one to prove".to_owned(),
            BabyProverErr::BatchSizeMismatch => "number of transactions does not match the circuit".to_owned(),
            BabyProverErr::InsufficientBalance => "sender balance does not cover amount and fee".to_owned(),
            BabyProverErr::BalanceOverflow => "balance overflows 128 bits".to_owned(),
            BabyProverErr::NonceOverflow => "nonce overflows 32 bits".to_owned(),
            BabyProverErr::FeeOverflow => "total fees overflow 128 bits".to_owned(),
            BabyProverErr::InvalidPublicKey => "public key is not a point of the curve".to_owned(),
            BabyProverErr::RootUnchanged => "block leaves the root unchanged".to_owned(),
            BabyProverErr::RootMismatch => "root after the block differs from the declared one".to_owned(),
            BabyProverErr::ProofRejected => "proof is invalid".to_owned(),
            BabyProverErr::AccountOutOfRange => "account id lies beyond the tree".to_owned(),
            BabyProverErr::Other(reason) => {
                let mut s = "Prover error: ".to_owned();
                s.append(reason.as_str());
                s
            },
        }
    }
}

/// Largest fee plus one that the packed fee form takes: `2048 * 10^31`.
pub const FEE_LIMIT: u128 = 20480000000000000000000000000000000;

proof fn lemma_fee_limit()
    ensures
        FEE_LIMIT == (crate::packing::FEE_MAX_MANTISSA + 1) * pow10(31),
{
    reveal_with_fuel(pow10, 32);
    assert(pow10(31) == 10000000000000000000000000000000);
}

/// A transfer as the block producer hands it over.
#[derive(Clone, Copy, Debug, PartialEq, Eq)]
pub struct TransferTx {
    pub from: AccountId,
    pub to: AccountId,
    pub token: TokenId,
    pub amount: u128,
    pub fee: u128,
    pub nonce: u32,
    pub good_until_block: u32,
    pub signature: TxSignature,
}

/// What the circuit needs of one transfer: the amounts as unpacked, and both
/// leaves with their paths as they stood before the transfer.
#[derive(Clone, Debug)]
pub struct TransferWitness {
    pub tx: TransferTx,
    pub amount: u128,
    pub fee: u128,
    pub auth_path_from: Vec<Fr>,
    pub leaf_from: Account,
    pub auth_path_to: Vec<Fr>,
    pub leaf_to: Account,
}

/// Amount and fee as they come out of their packed forms.
pub open spec fn transfer_amounts(tx: TransferTx) -> Result<(nat, nat), BabyProverErr> {
    if !fee_in_range(tx.fee as nat) {
        Err(BabyProverErr::InvalidFeeEncoding)
    } else {
        match (spec_unpack_token(spec_pack_token(tx.amount as nat)), spec_unpack_fee(spec_pack_fee(tx.fee as nat))) {
            (Some(a), Some(f)) => Ok((a, f)),
            _ => Err(BabyProverErr::InvalidAmountEncoding),
        }
    }
}

/// One transfer applied to the leaves, with the fee it pays. The sender is debited
/// first and the recipient credited after, so a transfer to oneself pays only the
/// fee and raises the nonce; account 0 receives no credit.
pub open spec fn transfer_step(m: Map<u32, Account>, tx: TransferTx) -> Result<(Map<u32, Account>, nat), BabyProverErr> {
    if !m.contains_key(tx.from) {
        Err(BabyProverErr::InvalidSender)
    } else if tx.to >= TREE_CAPACITY {
        Err(BabyProverErr::InvalidRecipient)
    } else {
        match transfer_amounts(tx) {
            Err(e) => Err(e),
            Ok((a, f)) => {
                let s = m[tx.from];
                if s.balance < a + f {
                    Err(BabyProverErr::InsufficientBalance)
                } else if s.nonce == u32::MAX {
                    Err(BabyProverErr::NonceOverflow)
                } else {
                    let s2 = Account {
                        balance: (s.balance - a - f) as u128,
                        nonce: (s.nonce + 1) as u32,
                        pub_x: s.pub_x,
                        pub_y: s.pub_y,
                    };
                    let r = if tx.to == tx.from {
                        s2
                    } else {
                        leaf_at(m, tx.to as int)
                    };
                    if tx.to != 0 && r.balance + a > u128::MAX {
                        Err(BabyProverErr::BalanceOverflow)
                    } else {
                        let r2 = if tx.to != 0 {
                            Account { balance: (r.balance + a) as u128, nonce: r.nonce, pub_x: r.pub_x, pub_y: r.pub_y }
                        } else {
                            r
                        };
                        Ok((m.insert(tx.from, s2).insert(tx.to, r2), f))
                    }
                }
            },
        }
    }
}

/// A batch of transfers applied in order, with the fees it collects.
pub open spec fn apply_transfers(m: Map<u32, Account>, txs: Seq<TransferTx>) -> Result<(Map<u32, Account>, nat), BabyProverErr>
    decreases txs.len(),
{
    if txs.len() == 0 {
        Ok((m, 0))
    } else {
        match apply_transfers(m, txs.drop_last()) {
            Err(e) => Err(e),
            Ok((m1, fees)) => match transfer_step(m1, txs.last()) {
                Err(e) => Err(e),
                Ok((m2, f)) => if fees + f > u128::MAX {
                    Err(BabyProverErr::FeeOverflow)
                } else {
                    Ok((m2, fees + f))
                },
            },
        }
    }
}

/// The leaves before the `j`-th transfer of the batch.
pub open spec fn transfer_prefix(m: Map<u32, Account>, txs: Seq<TransferTx>, j: int) -> Map<u32, Account> {
    match apply_transfers(m, txs.take(j)) {
        Ok((mm, _)) => mm,
        Err(_) => m,
    }
}

/// The public data of one transfer: its two-chunk operation encoding.
pub open spec fn transfer_tx_public_data(tx: TransferTx) -> Seq<u8> {
    crate::bytes::pad_to(
        seq![TransferOp::OP_CODE] + crate::bytes::be_bytes(tx.from as nat, 4) + crate::bytes::be_bytes(tx.token as nat, 2)
            + crate::bytes::be_bytes(tx.to as nat, 4) + spec_pack_token(tx.amount as nat)
            + spec_pack_fee(tx.fee as nat),
        18,
    )
}

/// The public data of a batch of transfers.
pub open spec fn transfers_public_data(txs: Seq<TransferTx>) -> Seq<u8>
    decreases txs.len(),
{
    if txs.len() == 0 {
        Seq::empty()
    } else {
        transfers_public_data(txs.drop_last()) + transfer_tx_public_data(txs.last())
    }
}

/// `w` holds the leaves of `tx` as they stood in `before`, with paths that lead to its root.
pub open spec fn transfer_witness_ok<P: CircuitParams>(w: TransferWitness, tx: TransferTx, before: Map<u32, Account>) -> bool {
    &&& w.tx == tx
    &&& transfer_amounts(tx) == Ok::<(nat, nat), BabyProverErr>((w.amount as nat, w.fee as nat))
    &&& w.leaf_from == leaf_at(before, tx.from as int)
    &&& w.leaf_to == leaf_at(before, tx.to as int)
    &&& spec_verify_merkle::<P>(w.auth_path_from@, tx.from as int, w.leaf_from, root_of::<P>(before))
    &&& spec_verify_merkle::<P>(w.auth_path_to@, tx.to as int, w.leaf_to, root_of::<P>(before))
}

proof fn lemma_transfer_error_stays(m: Map<u32, Account>, txs: Seq<TransferTx>, i: int, k: int)
    requires
        0 <= i <= k <= txs.len(),
        apply_transfers(m, txs.take(i)) is Err,
    ensures
        apply_transfers(m, txs.take(k)) == apply_transfers(m, txs.take(i)),
    decreases k - i,
{
    if k > i {
        lemma_transfer_error_stays(m, txs, i, k - 1);
        assert(txs.take(k).drop_last() =~= txs.take(k - 1));
    }
}

/// The public data of one transfer.
fn transfer_public_data(tx: &TransferTx) -> (r: Vec<u8>)
    requires
        fee_in_range(tx.fee as nat),
    ensures
        r@ == transfer_tx_public_data(*tx),
{
    let op = TransferOp {
        tx: Transfer {
            account_id: tx.from,
            from: Address::zero(),
            to: Address::zero(),
            token: tx.token,
            amount: tx.amount,
            fee: tx.fee,
            nonce: tx.nonce,
            signature: tx.signature,
        },
        from: tx.from,
        to: tx.to,
    };
    op.get_public_data()
}

/// Applies one transfer to `tree`; `total_fees` is what the batch collected before it.
fn apply_one_transfer<P: CircuitParams>(params: &P, tree: &mut BalanceTree, tx: TransferTx, total_fees: u128) -> (r: Result<(TransferWitness, u128), BabyProverErr>)
    requires
        old(tree).wf::<P>(),
    ensures
        final(tree).wf::<P>(),
        match r {
            Ok((w, f)) => {
                &&& transfer_step(old(tree)@, tx) == Ok::<(Map<u32, Account>, nat), BabyProverErr>((final(tree)@, f as nat))
                &&& total_fees + f <= u128::MAX
                &&& transfer_witness_ok::<P>(w, tx, old(tree)@)
                &&& fee_in_range(tx.fee as nat)
            },
            Err(e) => match transfer_step(old(tree)@, tx) {
                Err(e2) => e == e2,
                Ok((_, f)) => total_fees + f > u128::MAX && e == BabyProverErr::FeeOverflow,
            },
        },
{
    proof {
        tree.lemma_keys_in_range::<P>();
        lemma_fee_limit();
    }
    let sender = match tree.get(tx.from) {
        Some(a) => a,
        None => {
            return Err(BabyProverErr::InvalidSender);
        },
    };
    if tx.to >= TREE_CAPACITY {
        return Err(BabyProverErr::InvalidRecipient);
    }
    if tx.fee >= FEE_LIMIT {
        return Err(BabyProverErr::InvalidFeeEncoding);
    }
    let amount_packed = pack_token_amount(tx.amount);
    let fee_packed = pack_fee_amount(tx.fee);
    let amount_opt = unpack_token_amount(amount_packed.as_slice());
    let fee_opt = unpack_fee_amount(fee_packed.as_slice());
    let (amount, fee) = match (amount_opt, fee_opt) {
        (Some(a), Some(f)) => (a, f),
        _ => {
            return Err(BabyProverErr::InvalidAmountEncoding);
        },
    };
    let recipient = match tree.get(tx.to) {
        Some(a) => a,
        None => Account::empty(),
    };
    if sender.balance < amount || sender.balance - amount < fee {
        return Err(BabyProverErr::InsufficientBalance);
    }
    if sender.nonce == u32::MAX {
        return Err(BabyProverErr::NonceOverflow);
    }
    let auth_path_from = tree.merkle_path::<P>(tx.from);
    let auth_path_to = tree.merkle_path::<P>(tx.to);
    let new_sender = Account {
        balance: sender.balance - amount - fee,
        nonce: sender.nonce + 1,
        pub_x: sender.pub_x,
        pub_y: sender.pub_y,
    };
    let credited = if tx.to == tx.from {
        new_sender
    } else {
        recipient
    };
    if tx.to != 0 && credited.balance > u128::MAX - amount {
        return Err(BabyProverErr::BalanceOverflow);
    }
    if total_fees > u128::MAX - fee {
        return Err(BabyProverErr::FeeOverflow);
    }
    let new_recipient = if tx.to != 0 {
        Account {
            balance: credited.balance + amount,
            nonce: credited.nonce,
            pub_x: credited.pub_x,
            pub_y: credited.pub_y,
        }
    } else {
        credited
    };
    tree.insert(params, tx.from, new_sender);
    tree.insert(params, tx.to, new_recipient);
    let w = TransferWitness {
        tx,
        amount,
        fee,
        auth_path_from,
        leaf_from: sender,
        auth_path_to,
        leaf_to: recipient,
    };
    Ok((w, fee))
}

proof fn lemma_transfer_batch_fails(
    m0: Map<u32, Account>,
    txs: Seq<TransferTx>,
    i: int,
    before: Map<u32, Account>,
    fees: nat,
    e: BabyProverErr,
)
    requires
        0 <= i < txs.len(),
        apply_transfers(m0, txs.take(i)) == Ok::<(Map<u32, Account>, nat), BabyProverErr>((before, fees)),
        match transfer_step(before, txs[i]) {
            Err(e2) => e == e2,
            Ok((_, f)) => fees + f > u128::MAX && e == BabyProverErr::FeeOverflow,
        },
    ensures
        apply_transfers(m0, txs) == Err::<(Map<u32, Account>, nat), BabyProverErr>(e),
{
    let t = txs.take(i + 1);
    assert(t.drop_last() =~= txs.take(i));
    assert(t.last() == txs[i]);
    assert(apply_transfers(m0, t) == Err::<(Map<u32, Account>, nat), BabyProverErr>(e));
    lemma_transfer_error_stays(m0, txs, i + 1, txs.len() as int);
    assert(txs.take(txs.len() as int) =~= txs);
}

proof fn lemma_transfer_batch_steps(
    m0: Map<u32, Account>,
    txs: Seq<TransferTx>,
    i: int,
    before: Map<u32, Account>,
    after: Map<u32, Account>,
    fees: nat,
    f: nat,
)
    requires
        0 <= i < txs.len(),
        apply_transfers(m0, txs.take(i)) == Ok::<(Map<u32, Account>, nat), BabyProverErr>((before, fees)),
        transfer_step(before, txs[i]) == Ok::<(Map<u32, Account>, nat), BabyProverErr>((after, f)),
        fees + f <= u128::MAX,
    ensures
        apply_transfers(m0, txs.take(i + 1)) == Ok::<(Map<u32, Account>, nat), BabyProverErr>((after, fees + f)),
        transfers_public_data(txs.take(i + 1)) == transfers_public_data(txs.take(i)) + transfer_tx_public_data(txs[i]),
        transfer_prefix(m0, txs, i) == before,
{
    let t = txs.take(i + 1);
    assert(t.drop_last() =~= txs.take(i));
    assert(t.last() == txs[i]);
}

/// Applies a batch of transfers to `tree`, recording witnesses and public data.
/// On success the tree holds the leaves after the batch; on failure it is left
/// half-way and must be dropped.
pub fn apply_transfer_batch<P: CircuitParams>(params: &P, tree: &mut BalanceTree, txs: &Vec<TransferTx>) -> (r: Result<(Vec<TransferWitness>, Vec<u8>, u128), BabyProverErr>)
    requires
        old(tree).wf::<P>(),
    ensures
        final(tree).wf::<P>(),
        match r {
            Ok((ws, data, fees)) => {
                &&& apply_transfers(old(tree)@, txs@) == Ok::<(Map<u32, Account>, nat), BabyProverErr>((final(tree)@, fees as nat))
                &&& data@ == transfers_public_data(txs@)
                &&& ws@.len() == txs@.len()
                &&& forall|j: int| 0 <= j < txs@.len() ==> transfer_witness_ok::<P>(#[trigger] ws@[j], txs@[j], transfer_prefix(old(tree)@, txs@, j))
            },
            Err(e) => apply_transfers(old(tree)@, txs@) == Err::<(Map<u32, Account>, nat), BabyProverErr>(e),
        },
{
    let ghost m0 = tree@;
    let mut witnesses: Vec<TransferWitness> = Vec::new();
    let mut public_data: Vec<u8> = Vec::new();
    let mut total_fees: u128 = 0;
    let mut i: usize = 0;
    proof {
        assert(txs@.take(0) =~= Seq::<TransferTx>::empty());
    }
    while i < txs.len()
        invariant
            i <= txs@.len(),
            m0 == old(tree)@,
            tree.wf::<P>(),
            apply_transfers(m0, txs@.take(i as int)) == Ok::<(Map<u32, Account>, nat), BabyProverErr>((tree@, total_fees as nat)),
            public_data@ == transfers_public_data(txs@.take(i as int)),
            witnesses@.len() == i,
            forall|j: int| 0 <= j < i ==> transfer_witness_ok::<P>(#[trigger] witnesses@[j], txs@[j], transfer_prefix(m0, txs@, j)),
        decreases txs.len() - i,
    {
        let tx = txs[i];
        let ghost before = tree@;
        match apply_one_transfer(params, tree, tx, total_fees) {
            Ok((w, fee)) => {
                let data = transfer_public_data(&tx);
                crate::bytes::push_all(&mut public_data, data.as_slice());
                total_fees = total_fees + fee;
                witnesses.push(w);
                proof {
                    lemma_transfer_batch_steps(m0, txs@, i as int, before, tree@, (total_fees - fee) as nat, fee as nat);
                    assert(witnesses@[i as int] == w);
                }
            },
            Err(e) => {
                proof {
                    lemma_transfer_batch_fails(m0, txs@, i as int, before, total_fees as nat, e);
                }
                return Err(e);
            },
        }
        i = i + 1;
    }
    proof {
        assert(txs@.take(txs@.len() as int) =~= txs@);
    }
    Ok((witnesses, public_data, total_fees))
}

/// A deposit as the block producer hands it over.
#[derive(Clone, Copy, Debug, PartialEq, Eq)]
pub struct DepositTx {
    pub account: AccountId,
    pub token: TokenId,
    pub amount: u128,
    pub address: Address,
    pub pub_x: Fr,
    pub pub_y: Fr,
}

/// What the circuit needs of one deposit: the leaf and its path before it, whether
/// the leaf was empty, and the key the leaf holds after it.
#[derive(Clone, Debug)]
pub struct DepositWitness {
    pub tx: DepositTx,
    pub auth_path: Vec<Fr>,
    pub leaf: Account,
    pub leaf_is_empty: bool,
    pub new_pub_x: Fr,
    pub new_pub_y: Fr,
}

/// The leaf after a deposit: an empty position takes the deposit's balance and
/// key, an occupied one only adds to its balance.
pub open spec fn deposited_leaf(m: Map<u32, Account>, tx: DepositTx) -> Account {
    if m.contains_key(tx.account) {
        let old = m[tx.account];
        Account { balance: (old.balance + tx.amount) as u128, nonce: old.nonce, pub_x: old.pub_x, pub_y: old.pub_y }
    } else {
        Account { balance: tx.amount, nonce: 0, pub_x: tx.pub_x, pub_y: tx.pub_y }
    }
}

/// One deposit applied to the leaves.
pub open spec fn deposit_step<P: CircuitParams>(m: Map<u32, Account>, tx: DepositTx) -> Result<Map<u32, Account>, BabyProverErr> {
    if tx.account >= TREE_CAPACITY {
        Err(BabyProverErr::InvalidRecipient)
    } else if m.contains_key(tx.account) && m[tx.account].balance + tx.amount > u128::MAX {
        Err(BabyProverErr::BalanceOverflow)
    } else if !P::spec_is_on_curve(deposited_leaf(m, tx).pub_x, deposited_leaf(m, tx).pub_y) {
        Err(BabyProverErr::InvalidPublicKey)
    } else {
        Ok(m.insert(tx.account, deposited_leaf(m, tx)))
    }
}

/// A batch of deposits applied in order.
pub open spec fn apply_deposits<P: CircuitParams>(m: Map<u32, Account>, txs: Seq<DepositTx>) -> Result<Map<u32, Account>, BabyProverErr>
    decreases txs.len(),
{
    if txs.len() == 0 {
        Ok(m)
    } else {
        match apply_deposits::<P>(m, txs.drop_last()) {
            Err(e) => Err(e),
            Ok(m1) => deposit_step::<P>(m1, txs.last()),
        }
    }
}

/// The leaves before the `j`-th deposit of the batch.
pub open spec fn deposit_prefix<P: CircuitParams>(m: Map<u32, Account>, txs: Seq<DepositTx>, j: int) -> Map<u32, Account> {
    match apply_deposits::<P>(m, txs.take(j)) {
        Ok(mm) => mm,
        Err(_) => m,
    }
}

/// The public data of one deposit: its six-chunk operation encoding.
pub open spec fn deposit_tx_public_data(tx: DepositTx) -> Seq<u8> {
    crate::bytes::pad_to(
        seq![DepositOp::OP_CODE] + crate::bytes::be_bytes(tx.account as nat, 4) + crate::bytes::be_bytes(tx.token as nat, 2)
            + crate::bytes::be_bytes(tx.amount as nat, 16) + tx.address.data@,
        54,
    )
}

/// The public data of a batch of deposits.
pub open spec fn deposits_public_data(txs: Seq<DepositTx>) -> Seq<u8>
    decreases txs.len(),
{
    if txs.len() == 0 {
        Seq::empty()
    } else {
        deposits_public_data(txs.drop_last()) + deposit_tx_public_data(txs.last())
    }
}

/// `w` holds the leaf of `tx` as it stood in `before`, with a path to its root.
pub open spec fn deposit_witness_ok<P: CircuitParams>(w: DepositWitness, tx: DepositTx, before: Map<u32, Account>) -> bool {
    &&& w.tx == tx
    &&& w.leaf == leaf_at(before, tx.account as int)
    &&& w.leaf_is_empty == !before.contains_key(tx.account)
    &&& w.new_pub_x == deposited_leaf(before, tx).pub_x
    &&& w.new_pub_y == deposited_leaf(before, tx).pub_y
    &&& spec_verify_merkle::<P>(w.auth_path@, tx.account as int, w.leaf, root_of::<P>(before))
}

/// Applies one deposit to `tree`.
fn apply_one_deposit<P: CircuitParams>(params: &P, tree: &mut BalanceTree, tx: DepositTx) -> (r: Result<DepositWitness, BabyProverErr>)
    requires
        old(tree).wf::<P>(),
    ensures
        final(tree).wf::<P>(),
        match r {
            Ok(w) => deposit_step::<P>(old(tree)@, tx) == Ok::<Map<u32, Account>, BabyProverErr>(final(tree)@)
                && deposit_witness_ok::<P>(w, tx, old(tree)@),
            Err(e) => deposit_step::<P>(old(tree)@, tx) == Err::<Map<u32, Account>, BabyProverErr>(e),
        },
{
    if tx.account >= TREE_CAPACITY {
        return Err(BabyProverErr::InvalidRecipient);
    }
    let (old_leaf, new_leaf, leaf_is_empty) = match tree.get(tx.account) {
        None => {
            let new_leaf = Account { balance: tx.amount, nonce: 0, pub_x: tx.pub_x, pub_y: tx.pub_y };
            (Account::empty(), new_leaf, true)
        },
        Some(old_leaf) => {
            if old_leaf.balance > u128::MAX - tx.amount {
                return Err(BabyProverErr::BalanceOverflow);
            }
            let new_leaf = Account {
                balance: old_leaf.balance + tx.amount,
                nonce: old_leaf.nonce,
                pub_x: old_leaf.pub_x,
                pub_y: old_leaf.pub_y,
            };
            (old_leaf, new_leaf, false)
        },
    };
    let auth_path = tree.merkle_path::<P>(tx.account);
    if !params.is_on_curve(&new_leaf.pub_x, &new_leaf.pub_y) {
        return Err(BabyProverErr::InvalidPublicKey);
    }
    tree.insert(params, tx.account, new_leaf);
    Ok(DepositWitness {
        tx,
        auth_path,
        leaf: old_leaf,
        leaf_is_empty,
        new_pub_x: new_leaf.pub_x,
        new_pub_y: new_leaf.pub_y,
    })
}

/// The public data of one deposit.
fn deposit_public_data(tx: &DepositTx) -> (r: Vec<u8>)
    ensures
        r@ == deposit_tx_public_data(*tx),
{
    let op = DepositOp {
        priority_op: Deposit { from: Address::zero(), token: tx.token, amount: tx.amount, to: tx.address },
        account_id: tx.account,
    };
    op.get_public_data()
}

proof fn lemma_deposit_error_stays<P: CircuitParams>(m: Map<u32, Account>, txs: Seq<DepositTx>, i: int, k: int)
    requires
        0 <= i <= k <= txs.len(),
        apply_deposits::<P>(m, txs.take(i)) is Err,
    ensures
        apply_deposits::<P>(m, txs.take(k)) == apply_deposits::<P>(m, txs.take(i)),
    decreases k - i,
{
    if k > i {
        lemma_deposit_error_stays::<P>(m, txs, i, k - 1);
        assert(txs.take(k).drop_last() =~= txs.take(k - 1));
    }
}

proof fn lemma_deposit_batch_fails<P: CircuitParams>(
    m0: Map<u32, Account>,
    txs: Seq<DepositTx>,
    i: int,
    before: Map<u32, Account>,
    e: BabyProverErr,
)
    requires
        0 <= i < txs.len(),
        apply_deposits::<P>(m0, txs.take(i)) == Ok::<Map<u32, Account>, BabyProverErr>(before),
        deposit_step::<P>(before, txs[i]) == Err::<Map<u32, Account>, BabyProverErr>(e),
    ensures
        apply_deposits::<P>(m0, txs) == Err::<Map<u32, Account>, BabyProverErr>(e),
{
    let t = txs.take(i + 1);
    assert(t.drop_last() =~= txs.take(i));
    assert(t.last() == txs[i]);
    lemma_deposit_error_stays::<P>(m0, txs, i + 1, txs.len() as int);
    assert(txs.take(txs.len() as int) =~= txs);
}

proof fn lemma_deposit_batch_steps<P: CircuitParams>(
    m0: Map<u32, Account>,
    txs: Seq<DepositTx>,
    i: int,
    before: Map<u32, Account>,
    after: Map<u32, Account>,
)
    requires
        0 <= i < txs.len(),
        apply_deposits::<P>(m0, txs.take(i)) == Ok::<Map<u32, Account>, BabyProverErr>(before),
        deposit_step::<P>(before, txs[i]) == Ok::<Map<u32, Account>, BabyProverErr>(after),
    ensures
        apply_deposits::<P>(m0, txs.take(i + 1)) == Ok::<Map<u32, Account>, BabyProverErr>(after),
        deposits_public_data(txs.take(i + 1)) == deposits_public_data(txs.take(i)) + deposit_tx_public_data(txs[i]),
        deposit_prefix::<P>(m0, txs, i) == before,
{
    let t = txs.take(i + 1);
    assert(t.drop_last() =~= txs.take(i));
    assert(t.last() == txs[i]);
}

/// Applies a batch of deposits to `tree`, recording witnesses and public data.
/// On failure the tree is left half-way and must be dropped.
pub fn apply_deposit_batch<P: CircuitParams>(params: &P, tree: &mut BalanceTree, txs: &Vec<DepositTx>) -> (r: Result<(Vec<DepositWitness>, Vec<u8>), BabyProverErr>)
    requires
        old(tree).wf::<P>(),
    ensures
        final(tree).wf::<P>(),
        match r {
            Ok((ws, data)) => {
                &&& apply_deposits::<P>(old(tree)@, txs@) == Ok::<Map<u32, Account>, BabyProverErr>(final(tree)@)
                &&& data@ == deposits_public_data(txs@)
                &&& ws@.len() == txs@.len()
                &&& forall|j: int| 0 <= j < txs@.len() ==> deposit_witness_ok::<P>(#[trigger] ws@[j], txs@[j], deposit_prefix::<P>(old(tree)@, txs@, j))
            },
            Err(e) => apply_deposits::<P>(old(tree)@, txs@) == Err::<Map<u32, Account>, BabyProverErr>(e),
        },
{
    let ghost m0 = tree@;
    let mut witnesses: Vec<DepositWitness> = Vec::new();
    let mut public_data: Vec<u8> = Vec::new();
    let mut i: usize = 0;
    proof {
        assert(txs@.take(0) =~= Seq::<DepositTx>::empty());
    }
    while i < txs.len()
        invariant
            i <= txs@.len(),
            m0 == old(tree)@,
            tree.wf::<P>(),
            apply_deposits::<P>(m0, txs@.take(i as int)) == Ok::<Map<u32, Account>, BabyProverErr>(tree@),
            public_data@ == deposits_public_data(txs@.take(i as int)),
            witnesses@.len() == i,
            forall|j: int| 0 <= j < i ==> deposit_witness_ok::<P>(#[trigger] witnesses@[j], txs@[j], deposit_prefix::<P>(m0, txs@, j)),
        decreases txs.len() - i,
    {
        let tx = txs[i];
        let ghost before = tree@;
        match apply_one_deposit(params, tree, tx) {
            Ok(w) => {
                let data = deposit_public_data(&tx);
                crate::bytes::push_all(&mut public_data, data.as_slice());
                witnesses.push(w);
                proof {
                    lemma_deposit_batch_steps::<P>(m0, txs@, i as int, before, tree@);
                    assert(witnesses@[i as int] == w);
                }
            },
            Err(e) => {
                proof {
                    lemma_deposit_batch_fails::<P>(m0, txs@, i as int, before, e);
                }
                return Err(e);
            },
        }
        i = i + 1;
    }
    proof {
        assert(txs@.take(txs@.len() as int) =~= txs@);
    }
    Ok((witnesses, public_data))
}

/// An exit as the block producer hands it over.
#[derive(Clone, Copy, Debug, PartialEq, Eq)]
pub struct ExitTx {
    pub account: AccountId,
    pub eth_address: Address,
    pub token: TokenId,
}

/// What the circuit needs of one exit: the amount taken out, and the leaf with its
/// path before the exit.
#[derive(Clone, Debug)]
pub struct ExitWitness {
    pub tx: ExitTx,
    pub amount: u128,
    pub auth_path: Vec<Fr>,
    pub leaf: Account,
}

/// The public data of one exit that takes out `amount`: a full-exit operation.
pub open spec fn exit_tx_public_data(tx: ExitTx, amount: u128) -> Seq<u8> {
    crate::bytes::pad_to(
        seq![FullExitOp::OP_CODE] + crate::bytes::be_bytes(tx.account as nat, 4) + tx.eth_address.data@
            + crate::bytes::be_bytes(tx.token as nat, 2) + crate::bytes::be_bytes(amount as nat, 16),
        54,
    )
}

/// One exit applied to the leaves: the account must exist, its whole balance
/// leaves and its leaf is emptied. Gives the new leaves and the public data.
pub open spec fn exit_step(m: Map<u32, Account>, tx: ExitTx) -> Result<(Map<u32, Account>, Seq<u8>), BabyProverErr> {
    if !m.contains_key(tx.account) {
        Err(BabyProverErr::InvalidSender)
    } else {
        Ok((m.insert(tx.account, Account::spec_empty()), exit_tx_public_data(tx, m[tx.account].balance)))
    }
}

/// A batch of exits applied in order, with the public data it builds.
pub open spec fn apply_exits(m: Map<u32, Account>, txs: Seq<ExitTx>) -> Result<(Map<u32, Account>, Seq<u8>), BabyProverErr>
    decreases txs.len(),
{
    if txs.len() == 0 {
        Ok((m, Seq::empty()))
    } else {
        match apply_exits(m, txs.drop_last()) {
            Err(e) => Err(e),
            Ok((m1, data)) => match exit_step(m1, txs.last()) {
                Err(e) => Err(e),
                Ok((m2, d)) => Ok((m2, data + d)),
            },
        }
    }
}

/// The leaves before the `j`-th exit of the batch.
pub open spec fn exit_prefix(m: Map<u32, Account>, txs: Seq<ExitTx>, j: int) -> Map<u32, Account> {
    match apply_exits(m, txs.take(j)) {
        Ok((mm, _)) => mm,
        Err(_) => m,
    }
}

/// `w` holds the leaf of `tx` as it stood in `before`, with a path to its root.
pub open spec fn exit_witness_ok<P: CircuitParams>(w: ExitWitness, tx: ExitTx, before: Map<u32, Account>) -> bool {
    &&& w.tx == tx
    &&& w.leaf == leaf_at(before, tx.account as int)
    &&& w.amount == w.leaf.balance
    &&& spec_verify_merkle::<P>(w.auth_path@, tx.account as int, w.leaf, root_of::<P>(before))
}

/// Applies one exit to `tree`.
fn apply_one_exit<P: CircuitParams>(params: &P, tree: &mut BalanceTree, tx: ExitTx) -> (r: Result<(ExitWitness, Vec<u8>), BabyProverErr>)
    requires
        old(tree).wf::<P>(),
    ensures
        final(tree).wf::<P>(),
        match r {
            Ok((w, data)) => exit_step(old(tree)@, tx) == Ok::<(Map<u32, Account>, Seq<u8>), BabyProverErr>((final(tree)@, data@))
                && exit_witness_ok::<P>(w, tx, old(tree)@),
            Err(e) => exit_step(old(tree)@, tx) == Err::<(Map<u32, Account>, Seq<u8>), BabyProverErr>(e),
        },
{
    proof {
        tree.lemma_keys_in_range::<P>();
    }
    let old_leaf = match tree.get(tx.account) {
        Some(a) => a,
        None => {
            return Err(BabyProverErr::InvalidSender);
        },
    };
    let auth_path = tree.merkle_path::<P>(tx.account);
    let op = FullExitOp {
        priority_op: FullExit { account_id: tx.account, eth_address: tx.eth_address, token: tx.token },
        withdraw_amount: Some(old_leaf.balance),
    };
    let data = op.get_public_data();
    tree.insert(params, tx.account, Account::empty());
    Ok((ExitWitness { tx, amount: old_leaf.balance, auth_path, leaf: old_leaf }, data))
}

proof fn lemma_exit_error_stays(m: Map<u32, Account>, txs: Seq<ExitTx>, i: int, k: int)
    requires
        0 <= i <= k <= txs.len(),
        apply_exits(m, txs.take(i)) is Err,
    ensures
        apply_exits(m, txs.take(k)) == apply_exits(m, txs.take(i)),
    decreases k - i,
{
    if k > i {
        lemma_exit_error_stays(m, txs, i, k - 1);
        assert(txs.take(k).drop_last() =~= txs.take(k - 1));
    }
}

proof fn lemma_exit_batch_fails(
    m0: Map<u32, Account>,
    txs: Seq<ExitTx>,
    i: int,
    before: Map<u32, Account>,
    data: Seq<u8>,
    e: BabyProverErr,
)
    requires
        0 <= i < txs.len(),
        apply_exits(m0, txs.take(i)) == Ok::<(Map<u32, Account>, Seq<u8>), BabyProverErr>((before, data)),
        exit_step(before, txs[i]) == Err::<(Map<u32, Account>, Seq<u8>), BabyProverErr>(e),
    ensures
        apply_exits(m0, txs) == Err::<(Map<u32, Account>, Seq<u8>), BabyProverErr>(e),
{
    let t = txs.take(i + 1);
    assert(t.drop_last() =~= txs.take(i));
    assert(t.last() == txs[i]);
    lemma_exit_error_stays(m0, txs, i + 1, txs.len() as int);
    assert(txs.take(txs.len() as int) =~= txs);
}

proof fn lemma_exit_batch_steps(
    m0: Map<u32, Account>,
    txs: Seq<ExitTx>,
    i: int,
    before: Map<u32, Account>,
    data: Seq<u8>,
    after: Map<u32, Account>,
    d: Seq<u8>,
)
    requires
        0 <= i < txs.len(),
        apply_exits(m0, txs.take(i)) == Ok::<(Map<u32, Account>, Seq<u8>), BabyProverErr>((before, data)),
        exit_step(before, txs[i]) == Ok::<(Map<u32, Account>, Seq<u8>), BabyProverErr>((after, d)),
    ensures
        apply_exits(m0, txs.take(i + 1)) == Ok::<(Map<u32, Account>, Seq<u8>), BabyProverErr>((after, data + d)),
        exit_prefix(m0, txs, i) == before,
{
    let t = txs.take(i + 1);
    assert(t.drop_last() =~= txs.take(i));
    assert(t.last() == txs[i]);
}

/// Applies a batch of exits to `tree`, recording witnesses and building the public
/// data from the balances found. On failure the tree is left half-way and must be dropped.
pub fn apply_exit_batch<P: CircuitParams>(params: &P, tree: &mut BalanceTree, txs: &Vec<ExitTx>) -> (r: Result<(Vec<ExitWitness>, Vec<u8>), BabyProverErr>)
    requires
        old(tree).wf::<P>(),
    ensures
        final(tree).wf::<P>(),
        match r {
            Ok((ws, data)) => {
                &&& apply_exits(old(tree)@, txs@) == Ok::<(Map<u32, Account>, Seq<u8>), BabyProverErr>((final(tree)@, data@))
                &&& ws@.len() == txs@.len()
                &&& forall|j: int| 0 <= j < txs@.len() ==> exit_witness_ok::<P>(#[trigger] ws@[j], txs@[j], exit_prefix(old(tree)@, txs@, j))
            },
            Err(e) => apply_exits(old(tree)@, txs@) == Err::<(Map<u32, Account>, Seq<u8>), BabyProverErr>(e),
        },
{
    let ghost m0 = tree@;
    let mut witnesses: Vec<ExitWitness> = Vec::new();
    let mut public_data: Vec<u8> = Vec::new();
    let mut i: usize = 0;
    proof {
        assert(txs@.take(0) =~= Seq::<ExitTx>::empty());
    }
    while i < txs.len()
        invariant
            i <= txs@.len(),
            m0 == old(tree)@,
            tree.wf::<P>(),
            apply_exits(m0, txs@.take(i as int)) == Ok::<(Map<u32, Account>, Seq<u8>), BabyProverErr>((tree@, public_data@)),
            witnesses@.len() == i,
            forall|j: int| 0 <= j < i ==> exit_witness_ok::<P>(#[trigger] witnesses@[j], txs@[j], exit_prefix(m0, txs@, j)),
        decreases txs.len() - i,
    {
        let tx = txs[i];
        let ghost before = tree@;
        let ghost data_before = public_data@;
        match apply_one_exit(params, tree, tx) {
            Ok((w, data)) => {
                crate::bytes::push_all(&mut public_data, data.as_slice());
                witnesses.push(w);
                proof {
                    lemma_exit_batch_steps(m0, txs@, i as int, before, data_before, tree@, data@);
                    assert(witnesses@[i as int] == w);
                }
            },
            Err(e) => {
                proof {
                    lemma_exit_batch_fails(m0, txs@, i as int, before, data_before, e);
                }
                return Err(e);
            },
        }
        i = i + 1;
    }
    proof {
        assert(txs@.take(txs@.len() as int) =~= txs@);
    }
    Ok((witnesses, public_data))
}

/// What a block holds, by kind.
#[derive(Clone, Debug)]
pub enum BlockData {
    Transfer { total_fees: u128, transactions: Vec<TransferTx> },
    Deposit { batch_number: u32, transactions: Vec<DepositTx> },
    Exit { batch_number: u32, transactions: Vec<ExitTx> },
}

/// A block to prove: its number, the root it declares after its transactions, and
/// the transactions.
#[derive(Clone, Debug)]
pub struct Block {
    pub block_number: u32,
    pub new_root_hash: Fr,
    pub block_data: BlockData,
}

/// The witnesses of a block, by kind.
#[derive(Clone, Debug)]
pub enum BlockWitnesses {
    Transfer(Vec<TransferWitness>),
    Deposit(Vec<DepositWitness>),
    Exit(Vec<ExitWitness>),
}

/// The leaves after a sequence of account snapshots, each replacing the leaf at its id.
pub open spec fn replay(m: Map<u32, Account>, accounts: Seq<(AccountId, Account)>) -> Map<u32, Account>
    decreases accounts.len(),
{
    if accounts.len() == 0 {
        m
    } else {
        replay(m, accounts.drop_last()).insert(accounts.last().0, accounts.last().1)
    }
}

/// Every id of `accounts` lies within the tree.
pub open spec fn all_in_range(accounts: Seq<(AccountId, Account)>) -> bool {
    forall|i: int| 0 <= i < accounts.len() ==> (#[trigger] accounts[i]).0 < TREE_CAPACITY
}

/// Why a block cannot be proved from `leaves` at block number `expected`, if it
/// can be: the failure of the batch, or a root that did not move or disagrees.
pub open spec fn block_error<P: CircuitParams>(
    expected: u32,
    batch_size: nat,
    leaves: Map<u32, Account>,
    block: Block,
    len: nat,
    outcome: Result<Map<u32, Account>, BabyProverErr>,
) -> Option<BabyProverErr> {
    if block.block_number != expected {
        Some(BabyProverErr::WrongBlockNumber)
    } else if len != batch_size {
        Some(BabyProverErr::BatchSizeMismatch)
    } else {
        match outcome {
            Err(e) => Some(e),
            Ok(m) => if root_of::<P>(m) == root_of::<P>(leaves) {
                Some(BabyProverErr::RootUnchanged)
            } else if root_of::<P>(m) != block.new_root_hash {
                Some(BabyProverErr::RootMismatch)
            } else {
                None
            },
        }
    }
}

/// Leaves after a transfer batch, forgetting the fees.
pub open spec fn transfer_outcome(r: Result<(Map<u32, Account>, nat), BabyProverErr>) -> Result<Map<u32, Account>, BabyProverErr> {
    match r {
        Ok((m, _)) => Ok(m),
        Err(e) => Err(e),
    }
}

/// Leaves after an exit batch, forgetting the public data.
pub open spec fn exit_outcome(r: Result<(Map<u32, Account>, Seq<u8>), BabyProverErr>) -> Result<Map<u32, Account>, BabyProverErr> {
    match r {
        Ok((m, _)) => Ok(m),
        Err(e) => Err(e),
    }
}

/// A block applied and checked, ready for the circuit: the public inputs, the
/// public data and the witnesses, with the tree as it stands after the block.
#[derive(Debug)]
pub struct ProvingJob<P: CircuitParams> {
    block_number: u32,
    old_root: Fr,
    new_root: Fr,
    public_data_commitment: Fr,
    total_fees: u128,
    public_data: Vec<u8>,
    witnesses: BlockWitnesses,
    tree_after: BalanceTree,
    params: PhantomData<P>,
}

impl<P: CircuitParams> ProvingJob<P> {
    #[verifier::type_invariant]
    closed spec fn inv(&self) -> bool {
        self.tree_after.wf::<P>()
    }

    pub closed spec fn spec_block_number(&self) -> u32 {
        self.block_number
    }

    pub closed spec fn spec_old_root(&self) -> Fr {
        self.old_root
    }

    pub closed spec fn spec_new_root(&self) -> Fr {
        self.new_root
    }

    pub closed spec fn spec_commitment(&self) -> Fr {
        self.public_data_commitment
    }

    pub closed spec fn spec_total_fees(&self) -> u128 {
        self.total_fees
    }

    pub closed spec fn spec_public_data(&self) -> Seq<u8> {
        self.public_data@
    }

    pub closed spec fn spec_witnesses(&self) -> BlockWitnesses {
        self.witnesses
    }

    /// The leaves after the block.
    pub closed spec fn leaves_after(&self) -> Map<u32, Account> {
        self.tree_after@
    }

    pub fn block_number(&self) -> (r: u32)
        ensures
            r == self.spec_block_number(),
    {
        self.block_number
    }

    /// The circuit's public inputs, in its order: old root, new root, commitment.
    pub fn public_inputs(&self) -> (r: [Fr; 3])
        ensures
            r@ == seq![self.spec_old_root(), self.spec_new_root(), self.spec_commitment()],
    {
        let r = [self.old_root, self.new_root, self.public_data_commitment];
        assert(r@ =~= seq![self.old_root, self.new_root, self.public_data_commitment]);
        r
    }

    pub fn total_fees(&self) -> (r: u128)
        ensures
            r == self.spec_total_fees(),
    {
        self.total_fees
    }

    pub fn public_data(&self) -> (r: &Vec<u8>)
        ensures
            r@ == self.spec_public_data(),
    {
        &self.public_data
    }

    pub fn witnesses(&self) -> (r: &BlockWitnesses)
        ensures
            *r == self.spec_witnesses(),
    {
        &self.witnesses
    }
}

/// The prover: its mirror of the balance tree and the number of the next block to prove.
#[derive(Debug)]
pub struct Prover<P: CircuitParams> {
    transfer_batch_size: usize,
    deposit_batch_size: usize,
    exit_batch_size: usize,
    block_number: u32,
    accounts_tree: BalanceTree,
    params: P,
}

/// Applies account snapshots to `tree` in order.
fn insert_accounts<P: CircuitParams>(params: &P, tree: &mut BalanceTree, accounts: &Vec<(AccountId, Account)>)
    requires
        old(tree).wf::<P>(),
        all_in_range(accounts@),
    ensures
        final(tree).wf::<P>(),
        final(tree)@ == replay(old(tree)@, accounts@),
{
    let ghost m0 = tree@;
    let mut i: usize = 0;
    proof {
        assert(accounts@.take(0) =~= Seq::<(AccountId, Account)>::empty());
    }
    while i < accounts.len()
        invariant
            i <= accounts@.len(),
            tree.wf::<P>(),
            all_in_range(accounts@),
            tree@ == replay(m0, accounts@.take(i as int)),
        decreases accounts.len() - i,
    {
        let (id, leaf) = accounts[i];
        proof {
            assert(accounts@[i as int].0 < TREE_CAPACITY);
            let t = accounts@.take(i + 1);
            assert(t.drop_last() =~= accounts@.take(i as int));
            assert(t.last() == (id, leaf));
        }
        tree.insert(params, id, leaf);
        i = i + 1;
    }
    proof {
        assert(accounts@.take(accounts@.len() as int) =~= accounts@);
    }
}

/// Whether every id of `accounts` lies within the tree.
fn check_in_range(accounts: &Vec<(AccountId, Account)>) -> (r: bool)
    ensures
        r == all_in_range(accounts@),
{
    let mut i: usize = 0;
    while i < accounts.len()
        invariant
            i <= accounts@.len(),
            forall|j: int| 0 <= j < i ==> (#[trigger] accounts@[j]).0 < TREE_CAPACITY,
        decreases accounts.len() - i,
    {
        if accounts[i].0 >= TREE_CAPACITY {
            assert(accounts@[i as int].0 >= TREE_CAPACITY);
            return false;
        }
        i = i + 1;
    }
    true
}

impl<P: CircuitParams> Prover<P> {
    #[verifier::type_invariant]
    closed spec fn inv(&self) -> bool {
        self.accounts_tree.wf::<P>()
    }

    /// The leaves of the prover's tree.
    pub closed spec fn accounts(&self) -> Map<u32, Account> {
        self.accounts_tree@
    }

    pub closed spec fn spec_block_number(&self) -> u32 {
        self.block_number
    }

    pub closed spec fn spec_transfer_batch_size(&self) -> usize {
        self.transfer_batch_size
    }

    pub closed spec fn spec_deposit_batch_size(&self) -> usize {
        self.deposit_batch_size
    }

    pub closed spec fn spec_exit_batch_size(&self) -> usize {
        self.exit_batch_size
    }

    /// What applying a transfer block gives: the job, or exactly the first failure.
    pub open spec fn transfer_outcome_holds(&self, block: Block, transactions: Seq<TransferTx>, r: Result<ProvingJob<P>, BabyProverErr>) -> bool {
        match r {
            Ok(job) => {
                &&& block_error::<P>(self.spec_block_number(), self.spec_transfer_batch_size() as nat, self.accounts(), block, transactions.len(), transfer_outcome(apply_transfers(self.accounts(), transactions))) is None
                &&& apply_transfers(self.accounts(), transactions) == Ok::<(Map<u32, Account>, nat), BabyProverErr>((job.leaves_after(), job.spec_total_fees() as nat))
                &&& job.spec_block_number() == block.block_number
                &&& job.spec_old_root() == root_of::<P>(self.accounts())
                &&& job.spec_new_root() == root_of::<P>(job.leaves_after())
                &&& job.spec_public_data() == transfers_public_data(transactions)
                &&& job.spec_commitment() == spec_public_data_commitment(block.block_number, Some(job.spec_total_fees()), job.spec_public_data())
                &&& job.spec_witnesses() matches BlockWitnesses::Transfer(ws) && ws@.len() == transactions.len()
                    && forall|j: int| 0 <= j < transactions.len() ==> transfer_witness_ok::<P>(#[trigger] ws@[j], transactions[j], transfer_prefix(self.accounts(), transactions, j))
            },
            Err(e) => block_error::<P>(self.spec_block_number(), self.spec_transfer_batch_size() as nat, self.accounts(), block, transactions.len(), transfer_outcome(apply_transfers(self.accounts(), transactions))) == Some(e),
        }
    }

    /// What applying a deposit block gives: the job, or exactly the first failure.
    pub open spec fn deposit_outcome_holds(&self, block: Block, transactions: Seq<DepositTx>, r: Result<ProvingJob<P>, BabyProverErr>) -> bool {
        match r {
            Ok(job) => {
                &&& block_error::<P>(self.spec_block_number(), self.spec_deposit_batch_size() as nat, self.accounts(), block, transactions.len(), apply_deposits::<P>(self.accounts(), transactions)) is None
                &&& apply_deposits::<P>(self.accounts(), transactions) == Ok::<Map<u32, Account>, BabyProverErr>(job.leaves_after())
                &&& job.spec_block_number() == block.block_number
                &&& job.spec_old_root() == root_of::<P>(self.accounts())
                &&& job.spec_new_root() == root_of::<P>(job.leaves_after())
                &&& job.spec_total_fees() == 0
                &&& job.spec_public_data() == deposits_public_data(transactions)
                &&& job.spec_commitment() == spec_public_data_commitment(block.block_number, None, job.spec_public_data())
                &&& job.spec_witnesses() matches BlockWitnesses::Deposit(ws) && ws@.len() == transactions.len()
                    && forall|j: int| 0 <= j < transactions.len() ==> deposit_witness_ok::<P>(#[trigger] ws@[j], transactions[j], deposit_prefix::<P>(self.accounts(), transactions, j))
            },
            Err(e) => block_error::<P>(self.spec_block_number(), self.spec_deposit_batch_size() as nat, self.accounts(), block, transactions.len(), apply_deposits::<P>(self.accounts(), transactions)) == Some(e),
        }
    }

    /// What applying a exit block gives: the job, or exactly the first failure.
    pub open spec fn exit_outcome_holds(&self, block: Block, transactions: Seq<ExitTx>, r: Result<ProvingJob<P>, BabyProverErr>) -> bool {
        match r {
            Ok(job) => {
                &&& block_error::<P>(self.spec_block_number(), self.spec_deposit_batch_size() as nat, self.accounts(), block, transactions.len(), exit_outcome(apply_exits(self.accounts(), transactions))) is None
                &&& apply_exits(self.accounts(), transactions) == Ok::<(Map<u32, Account>, Seq<u8>), BabyProverErr>((job.leaves_after(), job.spec_public_data()))
                &&& job.spec_block_number() == block.block_number
                &&& job.spec_old_root() == root_of::<P>(self.accounts())
                &&& job.spec_new_root() == root_of::<P>(job.leaves_after())
                &&& job.spec_total_fees() == 0
                &&& job.spec_commitment() == spec_public_data_commitment(block.block_number, None, job.spec_public_data())
                &&& job.spec_witnesses() matches BlockWitnesses::Exit(ws) && ws@.len() == transactions.len()
                    && forall|j: int| 0 <= j < transactions.len() ==> exit_witness_ok::<P>(#[trigger] ws@[j], transactions[j], exit_prefix(self.accounts(), transactions, j))
            },
            Err(e) => block_error::<P>(self.spec_block_number(), self.spec_deposit_batch_size() as nat, self.accounts(), block, transactions.len(), exit_outcome(apply_exits(self.accounts(), transactions))) == Some(e),
        }
    }

    /// A prover over the verified state: the accounts after the last verified block,
    /// which must hash to `supplied_root`.
    pub fn create(
        params: P,
        last_verified_block: u32,
        accounts: &Vec<(AccountId, Account)>,
        supplied_root: Fr,
        transfer_batch_size: usize,
        deposit_batch_size: usize,
        exit_batch_size: usize,
    ) -> (r: Result<Self, BabyProverErr>)
        requires
            last_verified_block < u32::MAX,
        ensures
            match r {
                Ok(p) => {
                    &&& all_in_range(accounts@)
                    &&& p.accounts() == replay(Map::empty(), accounts@)
                    &&& root_of::<P>(p.accounts()) == supplied_root
                    &&& p.spec_block_number() == last_verified_block + 1
                    &&& p.spec_transfer_batch_size() == transfer_batch_size
                    &&& p.spec_deposit_batch_size() == deposit_batch_size
                    &&& p.spec_exit_batch_size() == exit_batch_size
                },
                Err(e) => if !all_in_range(accounts@) {
                    e == BabyProverErr::AccountOutOfRange
                } else {
                    root_of::<P>(replay(Map::empty(), accounts@)) != supplied_root
                        && e == BabyProverErr::RootMismatch
                },
            },
    {
        if !check_in_range(accounts) {
            return Err(BabyProverErr::AccountOutOfRange);
        }
        let mut tree = BalanceTree::new(&params);
        insert_accounts(&params, &mut tree, accounts);
        let root = tree.root_hash::<P>();
        if root != supplied_root {
            return Err(BabyProverErr::RootMismatch);
        }
        Ok(Prover {
            transfer_batch_size,
            deposit_batch_size,
            exit_batch_size,
            block_number: last_verified_block + 1,
            accounts_tree: tree,
            params,
        })
    }

    pub fn block_number(&self) -> (r: u32)
        ensures
            r == self.spec_block_number(),
    {
        self.block_number
    }

    pub fn root_hash(&self) -> (r: Fr)
        ensures
            r == root_of::<P>(self.accounts()),
    {
        proof {
            use_type_invariant(self);
        }
        self.accounts_tree.root_hash::<P>()
    }

    /// The leaf stored at `id`, if any.
    pub fn account(&self, id: AccountId) -> (r: Option<Account>)
        ensures
            match r {
                Some(a) => self.accounts().contains_key(id) && self.accounts()[id] == a,
                None => !self.accounts().contains_key(id),
            },
    {
        self.accounts_tree.get(id)
    }

    /// Brings the tree forward by the account snapshots of the blocks verified
    /// since; nothing changes when an id lies beyond the tree.
    pub fn extend_accounts(&mut self, accounts: &Vec<(AccountId, Account)>) -> (r: Result<(), BabyProverErr>)
        ensures
            final(self).spec_block_number() == old(self).spec_block_number(),
            match r {
                Ok(_) => all_in_range(accounts@) && final(self).accounts() == replay(old(self).accounts(), accounts@),
                Err(e) => !all_in_range(accounts@) && e == BabyProverErr::AccountOutOfRange
                    && final(self).accounts() == old(self).accounts(),
            },
    {
        if !check_in_range(accounts) {
            return Err(BabyProverErr::AccountOutOfRange);
        }
        proof {
            use_type_invariant(&*self);
        }
        let mut tree = self.accounts_tree.snapshot::<P>();
        insert_accounts(&self.params, &mut tree, accounts);
        self.accounts_tree = tree;
        Ok(())
    }

    /// Applies a transfer block to a copy of the tree and readies it for the circuit.
    pub fn apply_and_prove_transfer(&self, block: &Block, transactions: &Vec<TransferTx>) -> (r: Result<ProvingJob<P>, BabyProverErr>)
        ensures
            self.transfer_outcome_holds(*block, transactions@, r),

    {
        proof {
            use_type_invariant(self);
        }
        if block.block_number != self.block_number {
            return Err(BabyProverErr::WrongBlockNumber);
        }
        if transactions.len() != self.transfer_batch_size {
            return Err(BabyProverErr::BatchSizeMismatch);
        }
        let initial_root = self.accounts_tree.root_hash::<P>();
        let mut tree = self.accounts_tree.snapshot::<P>();
        let (witnesses, public_data, total_fees) = apply_transfer_batch(&self.params, &mut tree, transactions)?;
        let final_root = tree.root_hash::<P>();
        if initial_root == final_root {
            return Err(BabyProverErr::RootUnchanged);
        }
        if block.new_root_hash != final_root {
            return Err(BabyProverErr::RootMismatch);
        }
        let commitment = public_data_commitment(block.block_number, Some(total_fees), public_data.as_slice());
        Ok(ProvingJob {
            block_number: block.block_number,
            old_root: initial_root,
            new_root: final_root,
            public_data_commitment: commitment,
            total_fees,
            public_data,
            witnesses: BlockWitnesses::Transfer(witnesses),
            tree_after: tree,
            params: PhantomData,
        })
    }
    /// Applies a deposit block to a copy of the tree and readies it for the circuit.
    pub fn apply_and_prove_deposit(&self, block: &Block, transactions: &Vec<DepositTx>) -> (r: Result<ProvingJob<P>, BabyProverErr>)
        ensures
            self.deposit_outcome_holds(*block, transactions@, r),

    {
        proof {
            use_type_invariant(self);
        }
        if block.block_number != self.block_number {
            return Err(BabyProverErr::WrongBlockNumber);
        }
        if transactions.len() != self.deposit_batch_size {
            return Err(BabyProverErr::BatchSizeMismatch);
        }
        let initial_root = self.accounts_tree.root_hash::<P>();
        let mut tree = self.accounts_tree.snapshot::<P>();
        let (witnesses, public_data) = apply_deposit_batch(&self.params, &mut tree, transactions)?;
        let final_root = tree.root_hash::<P>();
        if initial_root == final_root {
            return Err(BabyProverErr::RootUnchanged);
        }
        if block.new_root_hash != final_root {
            return Err(BabyProverErr::RootMismatch);
        }
        let commitment = public_data_commitment(block.block_number, None, public_data.as_slice());
        Ok(ProvingJob {
            block_number: block.block_number,
            old_root: initial_root,
            new_root: final_root,
            public_data_commitment: commitment,
            total_fees: 0,
            public_data,
            witnesses: BlockWitnesses::Deposit(witnesses),
            tree_after: tree,
            params: PhantomData,
        })
    }

    /// Applies an exit block to a copy of the tree and readies it for the circuit.
    /// The number of exits is checked against the deposit batch size, not the
    /// exit batch size: changing that must wait until the exit circuit's batch
    /// arity is confirmed.
    pub fn apply_and_prove_exit(&self, block: &Block, transactions: &Vec<ExitTx>) -> (r: Result<ProvingJob<P>, BabyProverErr>)
        ensures
            self.exit_outcome_holds(*block, transactions@, r),

    {
        proof {
            use_type_invariant(self);
        }
        if block.block_number != self.block_number {
            return Err(BabyProverErr::WrongBlockNumber);
        }
        if transactions.len() != self.deposit_batch_size {
            return Err(BabyProverErr::BatchSizeMismatch);
        }
        let initial_root = self.accounts_tree.root_hash::<P>();
        let mut tree = self.accounts_tree.snapshot::<P>();
        let (witnesses, public_data) = apply_exit_batch(&self.params, &mut tree, transactions)?;
        let final_root = tree.root_hash::<P>();
        if initial_root == final_root {
            return Err(BabyProverErr::RootUnchanged);
        }
        if block.new_root_hash != final_root {
            return Err(BabyProverErr::RootMismatch);
        }
        let commitment = public_data_commitment(block.block_number, None, public_data.as_slice());
        Ok(ProvingJob {
            block_number: block.block_number,
            old_root: initial_root,
            new_root: final_root,
            public_data_commitment: commitment,
            total_fees: 0,
            public_data,
            witnesses: BlockWitnesses::Exit(witnesses),
            tree_after: tree,
            params: PhantomData,
        })
    }

    /// Applies a block of any kind to a copy of the tree and readies it for the circuit.
    pub fn apply_and_prove(&self, block: &Block) -> (r: Result<ProvingJob<P>, BabyProverErr>)
        ensures
            match block.block_data {
                BlockData::Transfer { transactions, .. } => self.transfer_outcome_holds(*block, transactions@, r),
                BlockData::Deposit { transactions, .. } => self.deposit_outcome_holds(*block, transactions@, r),
                BlockData::Exit { transactions, .. } => self.exit_outcome_holds(*block, transactions@, r),
            },
    {
        match &block.block_data {
            BlockData::Deposit { transactions, .. } => self.apply_and_prove_deposit(block, transactions),
            BlockData::Exit { transactions, .. } => self.apply_and_prove_exit(block, transactions),
            BlockData::Transfer { transactions, .. } => self.apply_and_prove_transfer(block, transactions),
        }
    }

    /// Takes in the outcome of proving `job`: when the proof was made and verified
    /// against the job's public inputs, the tree moves to the state after the block
    /// and the next block is expected; otherwise nothing changes.
    pub fn commit_proof(&mut self, job: ProvingJob<P>, proof_verified: bool) -> (r: Result<(), BabyProverErr>)
        ensures
            match r {
                Ok(_) => {
                    &&& proof_verified
                    &&& job.spec_block_number() == old(self).spec_block_number()
                    &&& job.spec_old_root() == root_of::<P>(old(self).accounts())
                    &&& final(self).spec_block_number() == job.spec_block_number() + 1
                    &&& final(self).accounts() == job.leaves_after()
                },
                Err(e) => {
                    &&& final(self).accounts() == old(self).accounts()
                    &&& final(self).spec_block_number() == old(self).spec_block_number()
                    &&& e == if job.spec_block_number() != old(self).spec_block_number() || old(self).spec_block_number() == u32::MAX {
                        BabyProverErr::WrongBlockNumber
                    } else if job.spec_old_root() != root_of::<P>(old(self).accounts()) {
                        BabyProverErr::RootMismatch
                    } else {
                        BabyProverErr::ProofRejected
                    }
                },
            },
            proof_verified && job.spec_block_number() == old(self).spec_block_number()
                && old(self).spec_block_number() < u32::MAX
                && job.spec_old_root() == root_of::<P>(old(self).accounts()) ==> r is Ok,
            final(self).spec_transfer_batch_size() == old(self).spec_transfer_batch_size(),
            final(self).spec_deposit_batch_size() == old(self).spec_deposit_batch_size(),
            final(self).spec_exit_batch_size() == old(self).spec_exit_batch_size(),
    {
        proof {
            use_type_invariant(&*self);
            use_type_invariant(&job);
        }
        if job.block_number != self.block_number || self.block_number == u32::MAX {
            return Err(BabyProverErr::WrongBlockNumber);
        }
        let root = self.accounts_tree.root_hash::<P>();
        if job.old_root != root {
            return Err(BabyProverErr::RootMismatch);
        }
        if !proof_verified {
            return Err(BabyProverErr::ProofRejected);
        }
        self.accounts_tree = job.tree_after;
        self.block_number = self.block_number + 1;
        Ok(())
    }
}

/// A point of the first source group, by its affine coordinates.
#[derive(Clone, Copy, Debug, PartialEq, Eq)]
pub struct G1Point {
    pub x: Fr,
    pub y: Fr,
}

/// A point of the second source group: each coordinate has two components.
#[derive(Clone, Copy, Debug, PartialEq, Eq)]
pub struct G2Point {
    pub x_c0: Fr,
    pub x_c1: Fr,
    pub y_c0: Fr,
    pub y_c1: Fr,
}

/// A Groth16 proof.
#[derive(Clone, Copy, Debug, PartialEq, Eq)]
pub struct Groth16Proof {
    pub a: G1Point,
    pub b: G2Point,
    pub c: G1Point,
}

/// The proof as the verifier contract reads it:
/// `[a.x, a.y, b.x1, b.x0, b.y1, b.y0, c.x, c.y]`.
pub open spec fn spec_encode_proof(proof: Groth16Proof) -> Seq<Fr> {
    seq![proof.a.x, proof.a.y, proof.b.x_c1, proof.b.x_c0, proof.b.y_c1, proof.b.y_c0, proof.c.x, proof.c.y]
}

/// A proved block: the proof, its public inputs (old root, new root, commitment),
/// and what the commitment covers.
#[derive(Clone, Debug)]
pub struct FullBabyProof {
    pub proof: Groth16Proof,
    pub inputs: [Fr; 3],
    pub block_number: u32,
    pub total_fees: u128,
    pub public_data: Vec<u8>,
}

impl<P: CircuitParams> ProvingJob<P> {
    /// The proved block, once `proof` has been made for this job; the job stays.
    pub fn full_proof(&self, proof: Groth16Proof) -> (r: FullBabyProof)
        ensures
            r.proof == proof,
            r.inputs@ == seq![self.spec_old_root(), self.spec_new_root(), self.spec_commitment()],
            r.block_number == self.spec_block_number(),
            r.total_fees == self.spec_total_fees(),
            r.public_data@ == self.spec_public_data(),
    {
        let inputs = self.public_inputs();
        let mut public_data: Vec<u8> = Vec::new();
        crate::bytes::push_all(&mut public_data, self.public_data.as_slice());
        FullBabyProof {
            proof,
            inputs,
            block_number: self.block_number,
            total_fees: self.total_fees,
            public_data,
        }
    }
}

impl<P: CircuitParams> Prover<P> {
    /// Lays a proof out for the verifier contract.
    pub fn encode_proof(proof: &FullBabyProof) -> (r: [Fr; 8])
        ensures
            r@ == spec_encode_proof(proof.proof),
    {
        let p = proof.proof;
        let r = [p.a.x, p.a.y, p.b.x_c1, p.b.x_c0, p.b.y_c1, p.b.y_c0, p.c.x, p.c.y];
        assert(r@ =~= spec_encode_proof(p));
        r
    }
}

/// A transfer to oneself pays the fee and raises the nonce; the amount stays.
pub proof fn lemma_self_transfer(m: Map<u32, Account>, tx: TransferTx)
    requires
        tx.to == tx.from,
        tx.from != 0,
    ensures
        match transfer_step(m, tx) {
            Ok((m2, f)) => {
                &&& m2[tx.from].balance == m[tx.from].balance - f
                &&& m2[tx.from].nonce == m[tx.from].nonce + 1
                &&& m2[tx.from].pub_x == m[tx.from].pub_x
                &&& m2[tx.from].pub_y == m[tx.from].pub_y
            },
            Err(_) => true,
        },
{
}

/// The last snapshot of `id` in `accounts`, if any.
pub open spec fn last_snapshot(accounts: Seq<(AccountId, Account)>, id: u32) -> Option<Account>
    decreases accounts.len(),
{
    if accounts.len() == 0 {
        None
    } else if accounts.last().0 == id {
        Some(accounts.last().1)
    } else {
        last_snapshot(accounts.drop_last(), id)
    }
}

/// After replaying snapshots, each position holds the last snapshot of its id,
/// or what it held before where there is none.
pub proof fn lemma_replay_last_snapshot(m: Map<u32, Account>, accounts: Seq<(AccountId, Account)>, id: u32)
    ensures
        leaf_at(replay(m, accounts), id as int) == match last_snapshot(accounts, id) {
            Some(a) => a,
            None => leaf_at(m, id as int),
        },
    decreases accounts.len(),
{
    if accounts.len() > 0 {
        lemma_replay_last_snapshot(m, accounts.drop_last(), id);
        let r = replay(m, accounts.drop_last());
        assert(replay(m, accounts) == r.insert(accounts.last().0, accounts.last().1));
        if accounts.last().0 != id {
            assert(r.insert(accounts.last().0, accounts.last().1).contains_key(id) == r.contains_key(id));
        }
    }
}

} // verus!
