//! Events of the base-chain contract that completes pending withdrawals.
use vstd::prelude::*;
use crate::bytes::{be_nat, read_u32, zeros};

verus! {

/// A completed batch of withdrawals: the transaction that completed it and the
/// range of the pending-withdrawals queue it took.
#[derive(Clone, Copy, Debug, PartialEq, Eq)]
pub struct CompleteWithdrawalsTx {
    pub tx_hash: [u8; 32],
    pub pending_withdrawals_queue_start_index: u32,
    pub pending_withdrawals_queue_end_index: u32,
}

/// Why an event could not be read.
#[derive(Clone, Copy, Debug, PartialEq, Eq)]
pub enum EventDecodeError {
    /// The event data holds fewer than two 32-byte words.
    InvalidData,
    /// The event names no transaction.
    MissingTransactionHash,
    /// A queue index does not fit 32 bits.
    IndexOutOfRange,
}

/// Relies on `ethabi::decode` with two `ParamType::Uint(32)`: it reads one 32-byte
/// word per parameter from the start of `data`, fails exactly when `data` holds
/// fewer than two words, and gives each word as a `Token::Uint` read big-endian.
#[verifier::external_body]
fn decode_two_words(data: &[u8]) -> (r: Option<([u8; 32], [u8; 32])>)
    ensures
        r is Some <==> data@.len() >= 64,
        r matches Some((a, b)) ==> a@ == data@.subrange(0, 32) && b@ == data@.subrange(32, 64),
{
    let types = [ethabi::ParamType::Uint(32), ethabi::ParamType::Uint(32)];
    match ethabi::decode(&types, data) {
        Ok(tokens) => match (&tokens[0], &tokens[1]) {
            (ethabi::Token::Uint(a), ethabi::Token::Uint(b)) => Some(((*a).into(), (*b).into())),
            _ => None,
        },
        Err(_) => None,
    }
}

/// Whether a 32-byte word holds a value that fits 32 bits.
pub open spec fn fits_u32(w: Seq<u8>) -> bool {
    w.subrange(0, 28) == zeros(28)
}

/// The word as a 32-bit number, where it fits.
fn word_to_u32(w: &[u8; 32]) -> (r: Option<u32>)
    ensures
        r is Some <==> fits_u32(w@),
        r matches Some(v) ==> v as nat == be_nat(w@),
{
    let mut i: usize = 0;
    while i < 28
        invariant
            i <= 28,
            forall|j: int| 0 <= j < i ==> w@[j] == 0,
        decreases 28 - i,
    {
        if w[i] != 0 {
            assert(w@.subrange(0, 28)[i as int] != zeros(28)[i as int]);
            return None;
        }
        i = i + 1;
    }
    assert(w@.subrange(0, 28) =~= zeros(28));
    let v = read_u32(w, 28);
    proof {
        lemma_be_nat_split(w@);
    }
    Some(v)
}

/// A word whose first 28 bytes are zero spells what its last four spell.
proof fn lemma_be_nat_split(w: Seq<u8>)
    requires
        w.len() == 32,
        w.subrange(0, 28) == zeros(28),
    ensures
        be_nat(w) == be_nat(w.subrange(28, 32)),
{
    assert forall|j: int| 0 <= j < 28 implies w[j] == 0 by {
        assert(w[j] == w.subrange(0, 28)[j]);
    }
    lemma_be_nat_leading_zeros(w, 28);
}

proof fn lemma_be_nat_leading_zeros(w: Seq<u8>, k: int)
    requires
        0 <= k <= w.len(),
        forall|j: int| 0 <= j < k ==> w[j] == 0,
    ensures
        be_nat(w) == be_nat(w.subrange(k, w.len() as int)),
    decreases w.len(),
{
    if k == w.len() {
        assert(w.subrange(k, w.len() as int) =~= Seq::<u8>::empty());
        lemma_be_nat_zero_seq(w);
    } else if w.len() > 0 {
        let d = w.drop_last();
        assert forall|j: int| 0 <= j < k implies d[j] == 0 by {
            assert(d[j] == w[j]);
        }
        lemma_be_nat_leading_zeros(d, k);
        assert(w.subrange(k, w.len() as int).drop_last() =~= d.subrange(k, d.len() as int));
    }
}

proof fn lemma_be_nat_zero_seq(w: Seq<u8>)
    requires
        forall|j: int| 0 <= j < w.len() ==> w[j] == 0,
    ensures
        be_nat(w) == 0,
    decreases w.len(),
{
    if w.len() > 0 {
        let d = w.drop_last();
        assert forall|j: int| 0 <= j < d.len() implies d[j] == 0 by {
            assert(d[j] == w[j]);
        }
        lemma_be_nat_zero_seq(d);
    }
}

impl CompleteWithdrawalsTx {
    /// Why an event with this data and transaction hash is no completed batch, if it is one.
    pub open spec fn decode_error(data: Seq<u8>, tx_hash: Option<[u8; 32]>) -> Option<EventDecodeError> {
        if data.len() < 64 {
            Some(EventDecodeError::InvalidData)
        } else if tx_hash is None {
            Some(EventDecodeError::MissingTransactionHash)
        } else if !fits_u32(data.subrange(0, 32)) || !fits_u32(data.subrange(32, 64)) {
            Some(EventDecodeError::IndexOutOfRange)
        } else {
            None
        }
    }

    /// Reads the event's two queue indices, each an ABI `uint32` word.
    pub fn try_from_event(data: &[u8], tx_hash: Option<[u8; 32]>) -> (r: Result<Self, EventDecodeError>)
        ensures
            match r {
                Ok(tx) => {
                    &&& Self::decode_error(data@, tx_hash) is None
                    &&& tx_hash == Some(tx.tx_hash)
                    &&& tx.pending_withdrawals_queue_start_index as nat == be_nat(data@.subrange(0, 32))
                    &&& tx.pending_withdrawals_queue_end_index as nat == be_nat(data@.subrange(32, 64))
                },
                Err(e) => Self::decode_error(data@, tx_hash) == Some(e),
            },
    {
        let (start_word, end_word) = match decode_two_words(data) {
            Some(words) => words,
            None => {
                return Err(EventDecodeError::InvalidData);
            },
        };
        let hash = match tx_hash {
            Some(h) => h,
            None => {
                return Err(EventDecodeError::MissingTransactionHash);
            },
        };
        let start = match word_to_u32(&start_word) {
            Some(v) => v,
            None => {
                return Err(EventDecodeError::IndexOutOfRange);
            },
        };
        let end = match word_to_u32(&end_word) {
            Some(v) => v,
            None => {
                return Err(EventDecodeError::IndexOutOfRange);
            },
        };
        Ok(CompleteWithdrawalsTx {
            tx_hash: hash,
            pending_withdrawals_queue_start_index: start,
            pending_withdrawals_queue_end_index: end,
        })
    }
}

} // verus!
