use franklin_core::operations::{
    ChangePubKeyOp, CloseOp, CodecError, DepositOp, ForcedExitOp, FranklinOp, FullExitOp, NoopOp,
    TransferOp, TransferToNewOp, WithdrawOp,
};
use franklin_core::packing::{pack_fee_amount, pack_token_amount, unpack_fee_amount, unpack_token_amount};
use franklin_core::tx::{
    Address, ChangePubKey, Close, Deposit, ForcedExit, FranklinPriorityOp, FranklinTx, FullExit,
    PackedEthSignature, PubKeyHash, Transfer, TxSignature, Withdraw,
};

fn addr(b: u8) -> Address {
    Address { data: [b; 20] }
}

fn sig() -> TxSignature {
    TxSignature { pub_key: [7u8; 32], signature: [9u8; 64] }
}

fn transfer_tx(from: u32, token: u16, amount: u128, fee: u128) -> Transfer {
    Transfer {
        account_id: from,
        from: addr(0x22),
        to: addr(0x33),
        token,
        amount,
        fee,
        nonce: 12,
        signature: sig(),
    }
}

#[test]
fn deposit_codec_scenario() {
    let op = DepositOp {
        priority_op: Deposit { from: addr(0x99), token: 1, amount: 100, to: addr(0x11) },
        account_id: 5,
    };
    let data = op.get_public_data();
    let mut expected = vec![0x01, 0, 0, 0, 5, 0, 1];
    expected.extend_from_slice(&[0u8; 15]);
    expected.push(0x64);
    expected.extend_from_slice(&[0x11u8; 20]);
    expected.resize(54, 0);
    assert_eq!(data, expected);
    let back = DepositOp::from_public_data(&data).unwrap();
    assert_eq!(back.account_id, 5);
    assert_eq!(back.priority_op.token, 1);
    assert_eq!(back.priority_op.amount, 100);
    assert_eq!(back.priority_op.to, addr(0x11));
    assert_eq!(back.priority_op.from, addr(0));
}

#[test]
fn transfer_codec_scenario() {
    let op = TransferOp { tx: transfer_tx(7, 2, 1000, 1), from: 7, to: 9 };
    let data = op.get_public_data();
    assert_eq!(data.len(), 18);
    assert_eq!(data[0], 0x05);
    assert_eq!(
        data,
        vec![0x05, 0, 0, 0, 7, 0, 2, 0, 0, 0, 9, 0x00, 0x00, 0x00, 0x7d, 0x00, 0x00, 0x20]
    );
    let back = TransferOp::from_public_data(&data).unwrap();
    assert_eq!(back.from, 7);
    assert_eq!(back.to, 9);
    assert_eq!(back.tx.account_id, 7);
    assert_eq!(back.tx.token, 2);
    assert_eq!(back.tx.amount, 1000);
    assert_eq!(back.tx.fee, 1);
    assert_eq!(back.tx.nonce, 0);
    assert_eq!(back.tx.from, addr(0));
    assert_eq!(back.tx.to, addr(0));
    assert_eq!(back.tx.signature, TxSignature::empty());
}

#[test]
fn forced_exit_public_data_scenario() {
    let op = ForcedExitOp {
        tx: ForcedExit {
            initiator_account_id: 3,
            target: addr(0xaa),
            token: 1,
            fee: 2,
            nonce: 4,
            signature: sig(),
        },
        target_account_id: 7,
        withdraw_amount: Some(500),
    };
    let data = op.get_public_data();
    assert_eq!(data.len(), 54);
    let mut expected = vec![0x08, 0, 0, 0, 3, 0, 0, 0, 7, 0, 1];
    expected.extend_from_slice(&[0u8; 14]);
    expected.extend_from_slice(&[0x01, 0xf4]);
    expected.extend_from_slice(&pack_fee_amount(2));
    expected.extend_from_slice(&[0xaau8; 20]);
    expected.resize(54, 0);
    assert_eq!(data, expected);
    assert_eq!(&data[27..29], &[0x00, 0x40]);
    let back = ForcedExitOp::from_public_data(&data).unwrap();
    assert_eq!(back.tx.initiator_account_id, 3);
    assert_eq!(back.target_account_id, 7);
    assert_eq!(back.withdraw_amount, Some(500));
    assert_eq!(back.tx.fee, 2);
    assert_eq!(back.tx.target, addr(0xaa));
    assert_eq!(back.tx.nonce, 0);
}

#[test]
fn forced_exit_withdrawal_data() {
    let op = ForcedExitOp {
        tx: ForcedExit { initiator_account_id: 3, target: addr(0xaa), token: 1, fee: 2, nonce: 4, signature: sig() },
        target_account_id: 7,
        withdraw_amount: None,
    };
    assert_eq!(op.amount(), 0);
    let w = op.get_withdrawal_data();
    let mut expected = vec![0x01];
    expected.extend_from_slice(&[0xaau8; 20]);
    expected.extend_from_slice(&[0, 1]);
    expected.extend_from_slice(&[0u8; 16]);
    assert_eq!(w, expected);
}

#[test]
fn transfer_to_new_round_trip() {
    let op = TransferToNewOp { tx: transfer_tx(4, 3, 123000, 5), from: 4, to: 77 };
    let data = op.get_public_data();
    assert_eq!(data.len(), 54);
    assert_eq!(data[0], 0x02);
    assert_eq!(&data[12..32], &[0x33u8; 20]);
    assert_eq!(&data[32..36], &[0, 0, 0, 77]);
    let back = TransferToNewOp::from_public_data(&data).unwrap();
    assert_eq!(back.from, 4);
    assert_eq!(back.to, 77);
    assert_eq!(back.tx.amount, 123000);
    assert_eq!(back.tx.fee, 5);
    assert_eq!(back.tx.to, addr(0x33));
    assert_eq!(back.tx.from, addr(0));
}

#[test]
fn withdraw_round_trip_and_withdrawal_data() {
    let op = WithdrawOp {
        tx: Withdraw {
            account_id: 8,
            from: addr(0x01),
            to: addr(0x44),
            token: 6,
            amount: 0x0102,
            fee: 30,
            nonce: 3,
            signature: sig(),
        },
        account_id: 8,
    };
    let data = op.get_public_data();
    assert_eq!(data.len(), 54);
    assert_eq!(&data[0..7], &[0x03, 0, 0, 0, 8, 0, 6]);
    assert_eq!(&data[21..23], &[0x01, 0x02]);
    assert_eq!(&data[25..45], &[0x44u8; 20]);
    let back = WithdrawOp::from_public_data(&data).unwrap();
    assert_eq!(back.account_id, 8);
    assert_eq!(back.tx.account_id, 8);
    assert_eq!(back.tx.amount, 0x0102);
    assert_eq!(back.tx.fee, 30);
    assert_eq!(back.tx.to, addr(0x44));
    let w = op.get_withdrawal_data();
    assert_eq!(w.len(), 39);
    assert_eq!(w[0], 1);
    assert_eq!(&w[1..21], &[0x44u8; 20]);
    assert_eq!(&w[21..23], &[0, 6]);
    assert_eq!(&w[37..39], &[0x01, 0x02]);
}

#[test]
fn close_has_only_opcode_and_account() {
    let op = CloseOp { tx: Close { account: addr(0x55), nonce: 9, signature: sig() }, account_id: 0x01020304 };
    let data = op.get_public_data();
    assert_eq!(data, vec![0x04, 1, 2, 3, 4, 0, 0, 0, 0]);
    let back = CloseOp::from_public_data(&data).unwrap();
    assert_eq!(back.account_id, 0x01020304);
    assert_eq!(back.tx.account, addr(0));
    assert_eq!(back.tx.nonce, 0);
}

#[test]
fn change_pubkey_round_trip_and_witness() {
    let op = ChangePubKeyOp {
        tx: ChangePubKey {
            account_id: 11,
            account: addr(0x66),
            new_pk_hash: PubKeyHash { data: [0x77; 20] },
            fee_token: 4,
            fee: 7,
            nonce: 0x0a0b0c0d,
            signature: sig(),
            eth_signature: Some(PackedEthSignature { data: [0x5a; 65] }),
        },
        account_id: 11,
    };
    let data = op.get_public_data();
    assert_eq!(data.len(), 54);
    assert_eq!(data[0], 0x07);
    assert_eq!(&data[5..25], &[0x77u8; 20]);
    assert_eq!(&data[25..45], &[0x66u8; 20]);
    assert_eq!(&data[45..51], &[0x0a, 0x0b, 0x0c, 0x0d, 0, 4]);
    let back = ChangePubKeyOp::from_public_data(&data).unwrap();
    assert_eq!(back.account_id, 11);
    assert_eq!(back.tx.nonce, 0x0a0b0c0d);
    assert_eq!(back.tx.fee, 7);
    assert_eq!(back.tx.new_pk_hash, PubKeyHash { data: [0x77; 20] });
    assert_eq!(back.tx.eth_signature, None);
    assert_eq!(op.get_eth_witness(), vec![0x5au8; 65]);
    assert_eq!(back.get_eth_witness(), Vec::<u8>::new());
    let franklin = FranklinOp::ChangePubKeyOffchain(op);
    assert_eq!(franklin.eth_witness(), Some(vec![0x5au8; 65]));
}

#[test]
fn full_exit_failed_amount_is_zero() {
    let op = FullExitOp {
        priority_op: FullExit { account_id: 2, eth_address: addr(0x10), token: 3 },
        withdraw_amount: None,
    };
    let data = op.get_public_data();
    assert_eq!(data.len(), 54);
    assert_eq!(&data[0..5], &[0x06, 0, 0, 0, 2]);
    assert_eq!(&data[27..43], &[0u8; 16]);
    let w = op.get_withdrawal_data();
    assert_eq!(w[0], 0);
    assert_eq!(&w[23..39], &[0u8; 16]);
    let back = FullExitOp::from_public_data(&data).unwrap();
    assert_eq!(back.withdraw_amount, Some(0));
    assert_eq!(back.priority_op.eth_address, addr(0x10));
}

#[test]
fn noop_accepts_only_zero_chunk() {
    let op = NoopOp {};
    assert_eq!(op.get_public_data(), vec![0u8; 9]);
    assert!(NoopOp::from_public_data(&[0u8; 9]).is_ok());
    let mut bad = [0u8; 9];
    bad[8] = 1;
    assert_eq!(NoopOp::from_public_data(&bad).unwrap_err(), CodecError::MalformedNoop);
    assert_eq!(NoopOp::from_public_data(&[0u8; 18]).unwrap_err(), CodecError::MalformedNoop);
}

#[test]
fn decode_errors() {
    assert_eq!(DepositOp::from_public_data(&[1u8; 53]).unwrap_err(), CodecError::WrongLength);
    assert_eq!(FranklinOp::from_public_data(&[]).unwrap_err(), CodecError::EmptyPubdata);
    assert_eq!(FranklinOp::from_public_data(&[0x09, 0, 0]).unwrap_err(), CodecError::UnknownOpCode(9));
    let mut bad_amount = vec![0x05u8; 18];
    // mantissa 2^35 - 1 with exponent 31 stands for more than u128 holds
    bad_amount[11..16].copy_from_slice(&[0xff, 0xff, 0xff, 0xff, 0xff]);
    assert_eq!(TransferOp::from_public_data(&bad_amount).unwrap_err(), CodecError::InvalidPackedAmount);
    assert_eq!(FranklinOp::from_public_data(&bad_amount).unwrap_err(), CodecError::InvalidPackedAmount);
    assert_eq!(FranklinOp::from_public_data(&[0x05u8; 17]).unwrap_err(), CodecError::WrongLength);
}

#[test]
fn dispatch_by_opcode() {
    let op = FranklinOp::Transfer(TransferOp { tx: transfer_tx(7, 2, 1000, 1), from: 7, to: 9 });
    assert_eq!(op.chunks(), 2);
    let data = op.public_data();
    match FranklinOp::from_public_data(&data).unwrap() {
        FranklinOp::Transfer(t) => {
            assert_eq!(t.from, 7);
            assert_eq!(t.to, 9);
        }
        other => panic!("decoded {:?}", other),
    }
    let noop = FranklinOp::from_public_data(&[0u8; 9]).unwrap();
    assert_eq!(noop, FranklinOp::Noop(NoopOp {}));
    assert_eq!(noop.chunks(), 1);
    assert_eq!(noop.withdrawal_data(), None);
    assert_eq!(noop.eth_witness(), None);
}

#[test]
fn public_data_lengths() {
    assert_eq!(FranklinOp::public_data_length(0x00), Ok(9));
    assert_eq!(FranklinOp::public_data_length(0x01), Ok(54));
    assert_eq!(FranklinOp::public_data_length(0x04), Ok(9));
    assert_eq!(FranklinOp::public_data_length(0x05), Ok(18));
    assert_eq!(FranklinOp::public_data_length(0x08), Ok(54));
    assert_eq!(FranklinOp::public_data_length(0x09), Err(CodecError::UnknownOpCode(9)));
}

#[test]
fn tx_and_priority_op_views() {
    let t = transfer_tx(7, 2, 1000, 1);
    let op = FranklinOp::TransferToNew(TransferToNewOp { tx: t, from: 7, to: 9 });
    assert_eq!(op.try_get_tx(), Ok(FranklinTx::Transfer(t)));
    assert!(op.try_get_priority_op().is_err());
    let d = Deposit { from: addr(1), token: 1, amount: 5, to: addr(2) };
    let dep = FranklinOp::Deposit(DepositOp { priority_op: d, account_id: 3 });
    assert_eq!(dep.try_get_priority_op(), Ok(FranklinPriorityOp::Deposit(d)));
    assert!(dep.try_get_tx().is_err());
    let w = FranklinOp::FullExit(FullExitOp {
        priority_op: FullExit { account_id: 1, eth_address: addr(3), token: 2 },
        withdraw_amount: Some(9),
    });
    let data = w.withdrawal_data().unwrap();
    assert_eq!(data.len(), 39);
    assert_eq!(data[38], 9);
}

#[test]
fn amount_packing_vectors() {
    assert_eq!(pack_token_amount(1000), vec![0, 0, 0, 0x7d, 0x00]);
    assert_eq!(unpack_token_amount(&[0, 0, 0, 0x7d, 0x00]), Some(1000));
    assert_eq!(pack_fee_amount(1), vec![0x00, 0x20]);
    assert_eq!(unpack_fee_amount(&[0x00, 0x20]), Some(1));
    // 123456 does not fit eleven bits: it packs as 1234 * 10^2
    assert_eq!(pack_fee_amount(123456), vec![0x9a, 0x42]);
    assert_eq!(unpack_fee_amount(&[0x9a, 0x42]), Some(123400));
    assert_eq!(unpack_fee_amount(&[0x00]), None);
    assert_eq!(unpack_token_amount(&[0xff; 5]), None);
    let big = pack_token_amount(u128::MAX);
    let back = unpack_token_amount(&big).unwrap();
    assert!(back <= u128::MAX && back > u128::MAX / 2);
}

#[test]
fn packing_round_trips() {
    for a in [0u128, 1, 9, 2047, 20470, 34359738367, 34359738367 * 1000] {
        assert_eq!(unpack_token_amount(&pack_token_amount(a)), Some(a));
    }
    for f in [0u128, 1, 2, 2047, 2047 * 100_000] {
        assert_eq!(unpack_fee_amount(&pack_fee_amount(f)), Some(f));
    }
    let canonical = [0x9a, 0x42];
    let v = unpack_fee_amount(&canonical).unwrap();
    assert_eq!(pack_fee_amount(v), canonical.to_vec());
    // mantissa 1, exponent 1 is not canonical: it packs back as mantissa 10
    let not_canonical = [0x00, 0x21];
    assert_eq!(unpack_fee_amount(&not_canonical), Some(10));
    assert_eq!(pack_fee_amount(10), vec![0x01, 0x40]);
}

#[test]
fn lossy_amounts_decode_rounded() {
    let op = TransferOp { tx: transfer_tx(7, 2, 34359738367 * 10 + 9, 123456), from: 7, to: 9 };
    let back = TransferOp::from_public_data(&op.get_public_data()).unwrap();
    assert_eq!(back.tx.amount, 34359738367 * 10);
    assert_eq!(back.tx.fee, 123400);
    let w = WithdrawOp {
        tx: Withdraw { account_id: 1, from: addr(1), to: addr(2), token: 0, amount: 5, fee: 20480, nonce: 0, signature: sig() },
        account_id: 1,
    };
    let wb = WithdrawOp::from_public_data(&w.get_public_data()).unwrap();
    assert_eq!(wb.tx.amount, 5);
    assert_eq!(wb.tx.fee, 20400);
}
