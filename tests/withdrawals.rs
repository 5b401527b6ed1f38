use franklin_core::withdrawals::{CompleteWithdrawalsTx, EventDecodeError};

fn word(v: u64) -> Vec<u8> {
    let mut w = vec![0u8; 24];
    w.extend_from_slice(&v.to_be_bytes());
    w
}

#[test]
fn complete_withdrawals_event() {
    let mut data = word(3);
    data.extend(word(0x0102_0304));
    let tx = CompleteWithdrawalsTx::try_from_event(&data, Some([0xab; 32])).unwrap();
    assert_eq!(tx.tx_hash, [0xab; 32]);
    assert_eq!(tx.pending_withdrawals_queue_start_index, 3);
    assert_eq!(tx.pending_withdrawals_queue_end_index, 0x0102_0304);
}

#[test]
fn complete_withdrawals_event_errors() {
    let mut data = word(3);
    assert_eq!(CompleteWithdrawalsTx::try_from_event(&data, Some([0; 32])), Err(EventDecodeError::InvalidData));
    assert_eq!(CompleteWithdrawalsTx::try_from_event(&[], Some([0; 32])), Err(EventDecodeError::InvalidData));
    data.extend(word(4));
    assert_eq!(CompleteWithdrawalsTx::try_from_event(&data, None), Err(EventDecodeError::MissingTransactionHash));
    let mut big = word(1 << 32);
    big.extend(word(4));
    assert_eq!(CompleteWithdrawalsTx::try_from_event(&big, Some([0; 32])), Err(EventDecodeError::IndexOutOfRange));
    let mut longer = data.clone();
    longer.extend_from_slice(&[7u8; 5]);
    assert_eq!(CompleteWithdrawalsTx::try_from_event(&longer, Some([1; 32])).unwrap().pending_withdrawals_queue_end_index, 4);
}
