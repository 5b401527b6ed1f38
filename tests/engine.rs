use franklin_core::commitment::{chain_input, commitment_header, fr_from_digest, public_data_commitment};
use franklin_core::prover::{
    BabyProverErr, Block, BlockData, BlockWitnesses, DepositTx, ExitTx, G1Point,
    G2Point, Groth16Proof, Prover, TransferTx,
};
use franklin_core::hasher::Sha256Params;
use franklin_core::tree::{verify_merkle, Account, BalanceTree, Fr};
use franklin_core::tx::{Address, TxSignature};
use sha2::Digest;

fn leaf(balance: u128, nonce: u32) -> Account {
    Account { balance, nonce, pub_x: Fr { hi: 1, lo: 2 }, pub_y: Fr { hi: 3, lo: 4 } }
}

fn transfer(from: u32, to: u32, amount: u128, fee: u128) -> TransferTx {
    TransferTx {
        from,
        to,
        token: 0,
        amount,
        fee,
        nonce: 0,
        good_until_block: 100,
        signature: TxSignature::empty(),
    }
}

fn root_of(accounts: &Vec<(u32, Account)>) -> Fr {
    let mut tree = BalanceTree::new(&Sha256Params);
    for (id, a) in accounts {
        tree.insert(&Sha256Params, *id, *a);
    }
    tree.root_hash::<Sha256Params>()
}

fn prover_with(accounts: Vec<(u32, Account)>, batch: usize) -> Prover<Sha256Params> {
    let root = root_of(&accounts);
    Prover::create(Sha256Params, 7, &accounts, root, batch, batch, batch).unwrap()
}

#[test]
fn batch_root_transition() {
    let accounts = vec![(1u32, leaf(1000, 0))];
    let prover = prover_with(accounts.clone(), 1);
    assert_eq!(prover.block_number(), 8);
    let pre_root = prover.root_hash();
    let expected_after = root_of(&vec![(1u32, leaf(890, 1)), (2u32, Account { balance: 100, ..Account::empty() })]);
    let txs = vec![transfer(1, 2, 100, 10)];
    let block = Block {
        block_number: 8,
        new_root_hash: expected_after,
        block_data: BlockData::Transfer { total_fees: 10, transactions: txs.clone() },
    };
    let job = prover.apply_and_prove(&block).unwrap();
    let inputs = job.public_inputs();
    assert_eq!(inputs[0], pre_root);
    assert_eq!(inputs[1], expected_after);
    assert_ne!(inputs[0], inputs[1]);
    assert_eq!(job.total_fees(), 10);
    match job.witnesses() {
        BlockWitnesses::Transfer(ws) => {
            assert_eq!(ws.len(), 1);
            assert_eq!(ws[0].leaf_from, leaf(1000, 0));
            assert_eq!(ws[0].leaf_to, Account::empty());
            assert!(verify_merkle(&Sha256Params, &ws[0].auth_path_from, 1, &ws[0].leaf_from, &pre_root));
            assert!(verify_merkle(&Sha256Params, &ws[0].auth_path_to, 2, &ws[0].leaf_to, &pre_root));
            assert!(!verify_merkle(&Sha256Params, &ws[0].auth_path_from, 1, &leaf(999, 0), &pre_root));
        }
        _ => panic!("wrong witness kind"),
    }
    let mut prover = prover;
    prover.commit_proof(job, true).unwrap();
    assert_eq!(prover.block_number(), 9);
    assert_eq!(prover.account(1), Some(leaf(890, 1)));
    assert_eq!(prover.account(2).unwrap().balance, 100);
    assert_eq!(prover.account(2).unwrap().nonce, 0);
    assert_eq!(prover.root_hash(), expected_after);
}

#[test]
fn transfer_public_data_and_commitment() {
    let prover = prover_with(vec![(1u32, leaf(1000, 0))], 1);
    let txs = vec![transfer(1, 2, 100, 10)];
    let after = root_of(&vec![(1u32, leaf(890, 1)), (2u32, Account { balance: 100, ..Account::empty() })]);
    let block = Block { block_number: 8, new_root_hash: after, block_data: BlockData::Transfer { total_fees: 0, transactions: txs.clone() } };
    let job = prover.apply_and_prove_transfer(&block, &txs).unwrap();
    let data = job.public_data().clone();
    assert_eq!(data, vec![0x05, 0, 0, 0, 1, 0, 0, 0, 0, 0, 2, 0, 0, 0, 0x0c, 0x80, 0x01, 0x40]);
    assert_eq!(job.public_inputs()[2], public_data_commitment(8, Some(10), &data));
}

#[test]
fn sequence_guard_leaves_state() {
    let mut prover = prover_with(vec![(1u32, leaf(1000, 0))], 1);
    let root = prover.root_hash();
    let block = Block {
        block_number: 10,
        new_root_hash: root,
        block_data: BlockData::Transfer { total_fees: 0, transactions: vec![transfer(1, 2, 1, 1)] },
    };
    assert_eq!(prover.apply_and_prove(&block).unwrap_err(), BabyProverErr::WrongBlockNumber);
    assert_eq!(prover.root_hash(), root);
    assert_eq!(prover.block_number(), 8);
    let ok_block = Block { block_number: 8, ..block };
    let after = root_of(&vec![(1u32, leaf(998, 1)), (2u32, Account { balance: 1, ..Account::empty() })]);
    let ok_block = Block { new_root_hash: after, ..ok_block };
    let job = prover.apply_and_prove(&ok_block).unwrap();
    assert_eq!(prover.commit_proof(job, false).unwrap_err(), BabyProverErr::ProofRejected);
    assert_eq!(prover.block_number(), 8);
    assert_eq!(prover.root_hash(), root);
}

#[test]
fn transfer_errors() {
    let prover = prover_with(vec![(1u32, leaf(100, 0))], 1);
    let root = prover.root_hash();
    let block = |txs: Vec<TransferTx>| Block { block_number: 8, new_root_hash: root, block_data: BlockData::Transfer { total_fees: 0, transactions: txs } };
    assert_eq!(prover.apply_and_prove(&block(vec![transfer(5, 2, 1, 1)])).unwrap_err(), BabyProverErr::InvalidSender);
    assert_eq!(prover.apply_and_prove(&block(vec![transfer(1, 2, 100, 1)])).unwrap_err(), BabyProverErr::InsufficientBalance);
    assert_eq!(prover.apply_and_prove(&block(vec![transfer(1, 1 << 24, 1, 1)])).unwrap_err(), BabyProverErr::InvalidRecipient);
    assert_eq!(prover.apply_and_prove(&block(vec![transfer(1, 2, 1, u128::MAX)])).unwrap_err(), BabyProverErr::InvalidFeeEncoding);
    assert_eq!(prover.apply_and_prove(&block(vec![])).unwrap_err(), BabyProverErr::BatchSizeMismatch);
    assert_eq!(prover.apply_and_prove(&block(vec![transfer(1, 2, 1, 1)])).unwrap_err(), BabyProverErr::RootMismatch);
}

#[test]
fn transfer_to_account_zero_credits_nothing() {
    let zero = leaf(5, 0);
    let prover = prover_with(vec![(0u32, zero), (1u32, leaf(100, 0))], 1);
    let after = root_of(&vec![(0u32, zero), (1u32, leaf(89, 1))]);
    let txs = vec![transfer(1, 0, 10, 1)];
    let block = Block { block_number: 8, new_root_hash: after, block_data: BlockData::Transfer { total_fees: 0, transactions: txs } };
    let job = prover.apply_and_prove(&block).unwrap();
    let mut prover = prover;
    prover.commit_proof(job, true).unwrap();
    assert_eq!(prover.account(0), Some(zero));
    assert_eq!(prover.account(1), Some(leaf(89, 1)));
}

#[test]
fn deposit_to_empty_and_occupied_leaves() {
    let prover = prover_with(vec![(1u32, leaf(50, 3))], 2);
    let key_x = Fr { hi: 10, lo: 11 };
    let key_y = Fr { hi: 12, lo: 13 };
    let txs = vec![
        DepositTx { account: 2, token: 0, amount: 70, address: Address { data: [0x21; 20] }, pub_x: key_x, pub_y: key_y },
        DepositTx { account: 1, token: 0, amount: 5, address: Address { data: [0x22; 20] }, pub_x: key_x, pub_y: key_y },
    ];
    let after = root_of(&vec![
        (1u32, leaf(55, 3)),
        (2u32, Account { balance: 70, nonce: 0, pub_x: key_x, pub_y: key_y }),
    ]);
    let block = Block { block_number: 8, new_root_hash: after, block_data: BlockData::Deposit { batch_number: 0, transactions: txs.clone() } };
    let job = prover.apply_and_prove(&block).unwrap();
    assert_eq!(job.total_fees(), 0);
    assert_eq!(job.public_data().len(), 108);
    assert_eq!(job.public_data()[0], 0x01);
    assert_eq!(job.public_data()[54], 0x01);
    match job.witnesses() {
        BlockWitnesses::Deposit(ws) => {
            assert!(ws[0].leaf_is_empty);
            assert!(!ws[1].leaf_is_empty);
            assert_eq!(ws[0].new_pub_x, key_x);
            assert_eq!(ws[1].new_pub_x, Fr { hi: 1, lo: 2 });
        }
        _ => panic!("wrong witness kind"),
    }
    let mut prover = prover;
    prover.commit_proof(job, true).unwrap();
    assert_eq!(prover.account(1), Some(leaf(55, 3)));
    assert_eq!(prover.account(2), Some(Account { balance: 70, nonce: 0, pub_x: key_x, pub_y: key_y }));
}

#[test]
fn deposit_with_key_off_the_curve() {
    let prover = prover_with(vec![(1u32, leaf(50, 3))], 1);
    let bad = Fr { hi: u128::MAX, lo: 0 };
    let txs = vec![DepositTx { account: 4, token: 0, amount: 1, address: Address { data: [0; 20] }, pub_x: bad, pub_y: bad }];
    let block = Block { block_number: 8, new_root_hash: prover.root_hash(), block_data: BlockData::Deposit { batch_number: 0, transactions: txs } };
    assert_eq!(prover.apply_and_prove(&block).unwrap_err(), BabyProverErr::InvalidPublicKey);
}

#[test]
fn exit_empties_the_leaf() {
    let prover = prover_with(vec![(1u32, leaf(50, 3)), (2u32, leaf(7, 0))], 1);
    let after = root_of(&vec![(1u32, Account::empty()), (2u32, leaf(7, 0))]);
    let txs = vec![ExitTx { account: 1, eth_address: Address { data: [0x31; 20] }, token: 4 }];
    let block = Block { block_number: 8, new_root_hash: after, block_data: BlockData::Exit { batch_number: 0, transactions: txs } };
    let job = prover.apply_and_prove(&block).unwrap();
    let data = job.public_data();
    assert_eq!(data.len(), 54);
    assert_eq!(&data[0..5], &[0x06, 0, 0, 0, 1]);
    assert_eq!(&data[5..25], &[0x31u8; 20]);
    assert_eq!(&data[25..27], &[0, 4]);
    assert_eq!(data[42], 50);
    let missing = Block {
        block_number: 8,
        new_root_hash: after,
        block_data: BlockData::Exit { batch_number: 0, transactions: vec![ExitTx { account: 9, eth_address: Address { data: [0; 20] }, token: 0 }] },
    };
    assert_eq!(prover.apply_and_prove(&missing).unwrap_err(), BabyProverErr::InvalidSender);
}

#[test]
fn create_checks_the_root() {
    let accounts = vec![(1u32, leaf(1, 1))];
    let wrong = Fr { hi: 0, lo: 1 };
    assert_eq!(Prover::create(Sha256Params, 0, &accounts, wrong, 1, 1, 1).err(), Some(BabyProverErr::RootMismatch));
    let far = vec![(1u32 << 24, leaf(1, 1))];
    assert_eq!(Prover::create(Sha256Params, 0, &far, wrong, 1, 1, 1).err(), Some(BabyProverErr::AccountOutOfRange));
}

#[test]
fn replay_reproduces_root() {
    let updates = vec![(3u32, leaf(1, 0)), (9u32, leaf(2, 0)), (3u32, leaf(4, 1))];
    assert_eq!(root_of(&updates), root_of(&updates));
    assert_eq!(root_of(&updates), root_of(&vec![(9u32, leaf(2, 0)), (3u32, leaf(4, 1))]));
    let mut prover = prover_with(vec![], 1);
    prover.extend_accounts(&updates).unwrap();
    assert_eq!(prover.root_hash(), root_of(&updates));
    assert_eq!(prover.extend_accounts(&vec![(1u32 << 30, leaf(1, 1))]).unwrap_err(), BabyProverErr::AccountOutOfRange);
    assert_eq!(prover.root_hash(), root_of(&updates));
    let mut tree = BalanceTree::new(&Sha256Params);
    let empty_root = tree.root_hash::<Sha256Params>();
    tree.insert(&Sha256Params, 5, Account::empty());
    assert_eq!(tree.root_hash::<Sha256Params>(), empty_root);
    let path = tree.merkle_path::<Sha256Params>(5);
    assert_eq!(path.len(), 24);
    assert!(verify_merkle(&Sha256Params, &path, 5, &Account::empty(), &empty_root));
}

#[test]
fn commitment_matches_chained_sha256() {
    let header = commitment_header(1, Some(0));
    let mut expected_header = vec![0u8; 64];
    expected_header[31] = 1;
    assert_eq!(header, expected_header);
    let h1 = sha2::Sha256::digest(&header);
    let h2 = sha2::Sha256::digest(h1.as_slice());
    let mut masked = [0u8; 32];
    masked.copy_from_slice(h2.as_slice());
    masked[0] &= 0x1f;
    let hi = u128::from_be_bytes(masked[0..16].try_into().unwrap());
    let lo = u128::from_be_bytes(masked[16..32].try_into().unwrap());
    assert_eq!(public_data_commitment(1, Some(0), &[]), Fr { hi, lo });
    let with_data = public_data_commitment(1, Some(0), &[1, 2, 3]);
    let mut first = [0u8; 32];
    first.copy_from_slice(h1.as_slice());
    let h2b = sha2::Sha256::digest(&chain_input(&first, &[1, 2, 3]));
    let mut d = [0u8; 32];
    d.copy_from_slice(h2b.as_slice());
    assert_eq!(with_data, fr_from_digest(&d));
    assert_eq!(commitment_header(1, None).len(), 32);
    assert_ne!(public_data_commitment(1, None, &[]), public_data_commitment(1, Some(0), &[]));
}

#[test]
fn digest_masking() {
    let d = [0xffu8; 32];
    assert_eq!(fr_from_digest(&d), Fr { hi: u128::MAX >> 3, lo: u128::MAX });
    let mut e = [0u8; 32];
    e[0] = 0x20;
    e[31] = 5;
    assert_eq!(fr_from_digest(&e), Fr { hi: 0, lo: 5 });
}

#[test]
fn proof_layout_swaps_g2_components() {
    let f = |n: u128| Fr { hi: 0, lo: n };
    let proof = Groth16Proof {
        a: G1Point { x: f(1), y: f(2) },
        b: G2Point { x_c0: f(3), x_c1: f(4), y_c0: f(5), y_c1: f(6) },
        c: G1Point { x: f(7), y: f(8) },
    };
    let prover = prover_with(vec![(1u32, leaf(100, 0))], 1);
    let after = root_of(&vec![(1u32, leaf(89, 1)), (2u32, Account { balance: 10, ..Account::empty() })]);
    let block = Block { block_number: 8, new_root_hash: after, block_data: BlockData::Transfer { total_fees: 0, transactions: vec![transfer(1, 2, 10, 1)] } };
    let job = prover.apply_and_prove(&block).unwrap();
    let inputs = job.public_inputs();
    let full = job.full_proof(proof);
    assert_eq!(full.inputs, inputs);
    assert_eq!(full.block_number, 8);
    assert_eq!(full.total_fees, 1);
    assert_eq!(full.public_data.len(), 18);
    assert_eq!(Prover::<Sha256Params>::encode_proof(&full), [f(1), f(2), f(4), f(3), f(6), f(5), f(7), f(8)]);
}

#[test]
fn error_descriptions() {
    assert_eq!(BabyProverErr::InvalidSender.description(), "sender account is unknown");
    assert_eq!(BabyProverErr::InvalidTransaction("bad".to_string()).description(), "invalid tx data: bad");
    assert_eq!(BabyProverErr::Other("x".to_string()).description(), "Prover error: x");
}

#[test]
fn overflow_and_unchanged_root_errors() {
    let full = Account { balance: u128::MAX, nonce: u32::MAX, ..leaf(0, 0) };
    let prover = prover_with(vec![(1u32, leaf(100, 0)), (2u32, full), (3u32, Account { nonce: u32::MAX, ..leaf(100, 0) })], 1);
    let root = prover.root_hash();
    let tblock = |txs: Vec<TransferTx>| Block { block_number: 8, new_root_hash: root, block_data: BlockData::Transfer { total_fees: 0, transactions: txs } };
    assert_eq!(prover.apply_and_prove(&tblock(vec![transfer(1, 2, 10, 1)])).unwrap_err(), BabyProverErr::BalanceOverflow);
    assert_eq!(prover.apply_and_prove(&tblock(vec![transfer(3, 1, 10, 1)])).unwrap_err(), BabyProverErr::NonceOverflow);
    let deposit = |account: u32, amount: u128| DepositTx { account, token: 0, amount, address: Address { data: [0; 20] }, pub_x: Fr { hi: 0, lo: 1 }, pub_y: Fr { hi: 0, lo: 1 } };
    let dblock = |txs: Vec<DepositTx>| Block { block_number: 8, new_root_hash: root, block_data: BlockData::Deposit { batch_number: 0, transactions: txs } };
    assert_eq!(prover.apply_and_prove(&dblock(vec![deposit(2, 1)])).unwrap_err(), BabyProverErr::BalanceOverflow);
    assert_eq!(prover.apply_and_prove(&dblock(vec![deposit(1, 0)])).unwrap_err(), BabyProverErr::RootUnchanged);
    assert_eq!(prover.apply_and_prove(&dblock(vec![deposit(1 << 24, 1)])).unwrap_err(), BabyProverErr::InvalidRecipient);
}

#[test]
fn stale_job_is_refused() {
    let mut prover = prover_with(vec![(1u32, leaf(100, 0))], 1);
    let a1 = root_of(&vec![(1u32, leaf(89, 1)), (2u32, Account { balance: 10, ..Account::empty() })]);
    let b1 = Block { block_number: 8, new_root_hash: a1, block_data: BlockData::Transfer { total_fees: 0, transactions: vec![transfer(1, 2, 10, 1)] } };
    let job1 = prover.apply_and_prove(&b1).unwrap();
    let job2 = prover.apply_and_prove(&b1).unwrap();
    prover.commit_proof(job1, true).unwrap();
    assert_eq!(prover.commit_proof(job2, true).unwrap_err(), BabyProverErr::WrongBlockNumber);
    assert_eq!(prover.block_number(), 9);
    assert_eq!(prover.root_hash(), a1);
}

#[test]
fn self_transfer_pays_only_the_fee() {
    let prover = prover_with(vec![(1u32, leaf(100, 4))], 1);
    let after = root_of(&vec![(1u32, leaf(99, 5))]);
    let block = Block { block_number: 8, new_root_hash: after, block_data: BlockData::Transfer { total_fees: 0, transactions: vec![transfer(1, 1, 30, 1)] } };
    let job = prover.apply_and_prove(&block).unwrap();
    assert_eq!(job.total_fees(), 1);
    let mut prover = prover;
    prover.commit_proof(job, true).unwrap();
    assert_eq!(prover.account(1), Some(leaf(99, 5)));
}
