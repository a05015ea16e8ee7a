//! Output records: a transfer, and a balance change beside the transfer that
//! caused it, with hex-encoded bytes and decimal amounts.
use vstd::prelude::*;
use crate::amount::U256;
use crate::correlate::BalanceChangeType;
use crate::hexcodec::lower_hex;
use crate::trace::{Call, Log, StorageChange, TransactionTrace, Transfer};

verus! {

/// Lower-case hex text of a byte string, as characters.
pub open spec fn lower_hex_text(bs: Seq<u8>) -> Seq<char> {
    lower_hex(bs).map_values(|c: u8| c as char)
}

/// The decimal digit for `d < 10`.
pub open spec fn decimal_digit(d: nat) -> char {
    ((48 + d) as u8) as char
}

/// Decimal text of a natural number, without leading zeros.
pub open spec fn decimal(n: nat) -> Seq<char>
    decreases n,
{
    if n < 10 {
        seq![decimal_digit(n)]
    } else {
        decimal(n / 10).push(decimal_digit(n % 10))
    }
}

/// Decimal text of an integer, with a leading `-` when negative.
pub open spec fn signed_decimal(x: int) -> Seq<char> {
    if x < 0 {
        seq!['-'] + decimal((-x) as nat)
    } else {
        decimal(x as nat)
    }
}

/// Relies on `substreams::Hex::encode`: two lower-case hex digits per byte,
/// high digit first.
#[verifier::external_body]
fn hex_encode(b: &[u8]) -> (r: String)
    ensures
        r@ == lower_hex_text(b@),
{
    substreams::Hex::<&[u8]>::encode(b)
}

/// Relies on `substreams::scalar::BigInt::from_unsigned_bytes_be` and its
/// `Display`, which prints the number in decimal.
#[verifier::external_body]
fn decimal_text(v: &U256) -> (r: String)
    ensures
        r@ == decimal(v@),
{
    let mut bytes = v.hi.to_be_bytes().to_vec();
    bytes.extend_from_slice(&v.lo.to_be_bytes());
    substreams::scalar::BigInt::from_unsigned_bytes_be(&bytes).to_string()
}

/// Relies on `substreams::scalar::BigInt::from_unsigned_bytes_be`, its
/// `-=` and its `Display`: `new - old` in decimal, signed.
#[verifier::external_body]
fn delta_text(old: &U256, new: &U256) -> (r: String)
    ensures
        r@ == signed_decimal(new@ - old@),
{
    let mut o = old.hi.to_be_bytes().to_vec();
    o.extend_from_slice(&old.lo.to_be_bytes());
    let mut n = new.hi.to_be_bytes().to_vec();
    n.extend_from_slice(&new.lo.to_be_bytes());
    let mut delta = substreams::scalar::BigInt::from_unsigned_bytes_be(&n);
    delta -= &substreams::scalar::BigInt::from_unsigned_bytes_be(&o);
    delta.to_string()
}

/// The block that records belong to.
pub struct ClockInfo {
    pub number: u64,
    pub id: String,
}

/// A transfer, with its block, transaction, call and log.
pub struct TransferEvent {
    pub block_num: u64,
    pub block_hash: String,
    pub transaction_id: String,
    pub call_index: u32,
    pub log_index: u32,
    pub log_block_index: u32,
    pub log_ordinal: u64,
    pub data: String,
    pub topic0: String,
    pub contract: String,
    pub from: String,
    pub to: String,
    pub value: String,
}

/// A balance change, beside the transfer that caused it.
pub struct BalanceChangeEvent {
    pub block_num: u64,
    pub block_hash: String,
    pub transaction_id: String,
    pub call_index: u32,
    pub log_index: u32,
    pub log_block_index: u32,
    pub log_ordinal: u64,
    pub storage_key: String,
    pub storage_ordinal: u64,
    pub storage_address: String,
    pub contract: String,
    pub owner: String,
    pub old_balance: String,
    pub new_balance: String,
    pub amount: String,
    pub from: String,
    pub to: String,
    pub value: String,
    pub change_type: BalanceChangeType,
}

/// The record of a transfer.
pub fn to_transfer(
    clock: &ClockInfo,
    trx: &TransactionTrace,
    call: &Call,
    log: &Log,
    transfer: &Transfer,
) -> (r: TransferEvent)
    requires
        log.topics@.len() >= 1,
    ensures
        r.block_num == clock.number,
        r.block_hash@ == clock.id@,
        r.transaction_id@ == lower_hex_text(trx.hash@),
        r.call_index == call.index,
        r.log_index == log.index,
        r.log_block_index == log.block_index,
        r.log_ordinal == log.ordinal,
        r.data@ == lower_hex_text(log.data@),
        r.topic0@ == lower_hex_text(log.topics@[0]@),
        r.contract@ == lower_hex_text(call.address@),
        r.from@ == lower_hex_text(transfer.from@),
        r.to@ == lower_hex_text(transfer.to@),
        r.value@ == decimal(transfer.value@),
{
    TransferEvent {
        block_num: clock.number,
        block_hash: clock.id.clone(),
        transaction_id: hex_encode(trx.hash.as_slice()),
        call_index: call.index,
        log_index: log.index,
        log_block_index: log.block_index,
        log_ordinal: log.ordinal,
        data: hex_encode(log.data.as_slice()),
        topic0: hex_encode(log.topics[0].as_slice()),
        contract: hex_encode(call.address.as_slice()),
        from: hex_encode(transfer.from.as_slice()),
        to: hex_encode(transfer.to.as_slice()),
        value: decimal_text(&transfer.value),
    }
}

/// The record of a balance change of `owner` made by `storage_change` for
/// `transfer`: old and new balance, and their signed difference.
pub fn to_balance_change(
    clock: &ClockInfo,
    trx: &TransactionTrace,
    call: &Call,
    log: &Log,
    transfer: &Transfer,
    owner: Vec<u8>,
    storage_change: &StorageChange,
    change_type: BalanceChangeType,
) -> (r: BalanceChangeEvent)
    ensures
        r.block_num == clock.number,
        r.block_hash@ == clock.id@,
        r.transaction_id@ == lower_hex_text(trx.hash@),
        r.call_index == call.index,
        r.log_index == log.index,
        r.log_block_index == log.block_index,
        r.log_ordinal == log.ordinal,
        r.storage_key@ == lower_hex_text(storage_change.key@),
        r.storage_ordinal == storage_change.ordinal,
        r.storage_address@ == lower_hex_text(storage_change.address@),
        r.contract@ == lower_hex_text(call.address@),
        r.owner@ == lower_hex_text(owner@),
        r.old_balance@ == decimal(storage_change.old_value@),
        r.new_balance@ == decimal(storage_change.new_value@),
        r.amount@ == signed_decimal(storage_change.new_value@ - storage_change.old_value@),
        r.from@ == lower_hex_text(transfer.from@),
        r.to@ == lower_hex_text(transfer.to@),
        r.value@ == decimal(transfer.value@),
        r.change_type == change_type,
{
    BalanceChangeEvent {
        block_num: clock.number,
        block_hash: clock.id.clone(),
        transaction_id: hex_encode(trx.hash.as_slice()),
        call_index: call.index,
        log_index: log.index,
        log_block_index: log.block_index,
        log_ordinal: log.ordinal,
        storage_key: hex_encode(storage_change.key.as_slice()),
        storage_ordinal: storage_change.ordinal,
        storage_address: hex_encode(storage_change.address.as_slice()),
        contract: hex_encode(call.address.as_slice()),
        owner: hex_encode(owner.as_slice()),
        old_balance: decimal_text(&storage_change.old_value),
        new_balance: decimal_text(&storage_change.new_value),
        amount: delta_text(&storage_change.old_value, &storage_change.new_value),
        from: hex_encode(transfer.from.as_slice()),
        to: hex_encode(transfer.to.as_slice()),
        value: decimal_text(&transfer.value),
        change_type,
    }
}

} // verus!
