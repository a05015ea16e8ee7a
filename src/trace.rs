//! The parts of an execution trace that balance-change inference reads.
use vstd::prelude::*;
use vstd::utf8::encode_utf8;
use crate::amount::U256;

verus! {

/// One write to a contract's storage.
pub struct StorageChange {
    /// The contract whose storage was written.
    pub address: Vec<u8>,
    /// The storage slot, a 32-byte hash.
    pub key: Vec<u8>,
    pub old_value: U256,
    pub new_value: U256,
    /// Position within the block.
    pub ordinal: u64,
}

/// A slot hash and the keccak preimage recorded for it, both as hex text.
pub struct KeccakPreimage {
    pub hash: String,
    pub preimage: String,
}

impl View for KeccakPreimage {
    /// The UTF-8 bytes of the hash text and of the preimage text.
    type V = (Seq<u8>, Seq<u8>);

    open spec fn view(&self) -> (Seq<u8>, Seq<u8>) {
        (encode_utf8(self.hash@), encode_utf8(self.preimage@))
    }
}

/// One call frame, committed to chain state.
pub struct Call {
    pub index: u32,
    pub address: Vec<u8>,
    pub keccak_preimages: Vec<KeccakPreimage>,
    /// In execution order.
    pub storage_changes: Vec<StorageChange>,
}

/// A successful transaction: its calls in execution order, and the logs of
/// the calls committed to chain state, by ordinal.
pub struct TransactionTrace {
    pub hash: Vec<u8>,
    pub calls: Vec<Call>,
    pub logs: Vec<CallLog>,
}

/// The successful transactions of a block, in order.
pub struct Block {
    pub number: u64,
    pub transactions: Vec<TransactionTrace>,
}

/// A decoded ERC-20 `Transfer` event.
pub struct Transfer {
    pub from: Vec<u8>,
    pub to: Vec<u8>,
    pub value: U256,
}

} // verus!

verus! {

/// An event log.
pub struct Log {
    pub index: u32,
    pub block_index: u32,
    pub ordinal: u64,
    pub topics: Vec<Vec<u8>>,
    pub data: Vec<u8>,
}

/// A log and the position, in its transaction's `calls`, of the call that
/// emitted it.
pub struct CallLog {
    pub call_pos: usize,
    pub log: Log,
}

/// Sender, recipient and amount.
pub type TransferView = (Seq<u8>, Seq<u8>, nat);

impl View for Transfer {
    type V = TransferView;

    open spec fn view(&self) -> TransferView {
        (self.from@, self.to@, self.value@)
    }
}

} // verus!
