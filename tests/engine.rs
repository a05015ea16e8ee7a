use erc20_balance_changes::amount::U256;
use erc20_balance_changes::correlate::{
    find_erc20_balance_changes_algorithm1, find_erc20_balance_changes_algorithm2,
    is_erc20_valid_address, is_erc20_valid_balance, iter_balance_changes_algorithms,
    BalanceChangeType,
};
use erc20_balance_changes::events::{decode_transfer, map_events, Events};
use erc20_balance_changes::records::{to_balance_change, to_transfer, ClockInfo};
use erc20_balance_changes::resolver::{
    addresses_for_storage_keys, get_keccak_address, MalformedHex, PreimageMap,
};
use erc20_balance_changes::trace::{
    Block, Call, CallLog, KeccakPreimage, Log, StorageChange, TransactionTrace, Transfer,
};

const NULL_ADDRESS: [u8; 20] = [0u8; 20];

fn addr(b: u8) -> Vec<u8> {
    vec![b; 20]
}

fn hex_lower(bytes: &[u8]) -> String {
    bytes.iter().map(|b| format!("{:02x}", b)).collect()
}

fn slot_hash(n: u8) -> Vec<u8> {
    let mut h = vec![0xabu8; 32];
    h[31] = n;
    h
}

/// `pad32(address) ++ pad32(slot)` in hex.
fn canonical_preimage(address: &[u8], slot: u8) -> String {
    let mut raw = vec![0u8; 12];
    raw.extend_from_slice(address);
    raw.extend_from_slice(&[0u8; 31]);
    raw.push(slot);
    hex_lower(&raw)
}

fn u(v: u128) -> U256 {
    U256::from_u128(v)
}

fn change(key: Vec<u8>, old: u128, new: u128, ordinal: u64) -> StorageChange {
    StorageChange { address: addr(0xcc), key, old_value: u(old), new_value: u(new), ordinal }
}

fn transfer(from: Vec<u8>, to: Vec<u8>, value: u128) -> Transfer {
    Transfer { from, to, value: u(value) }
}

fn word(address: &[u8]) -> Vec<u8> {
    let mut w = vec![0u8; 12];
    w.extend_from_slice(address);
    w
}

fn transfer_log(from: &[u8], to: &[u8], value: u128) -> Log {
    let topic0 = vec![
        0xdd, 0xf2, 0x52, 0xad, 0x1b, 0xe2, 0xc8, 0x9b, 0x69, 0xc2, 0xb0, 0x68, 0xfc, 0x37, 0x8d,
        0xaa, 0x95, 0x2b, 0xa7, 0xf1, 0x63, 0xc4, 0xa1, 0x16, 0x28, 0xf5, 0x5a, 0x4d, 0xf5, 0x23,
        0xb3, 0xef,
    ];
    let mut data = vec![0u8; 16];
    data.extend_from_slice(&value.to_be_bytes());
    Log { index: 0, block_index: 0, ordinal: 1, topics: vec![topic0, word(from), word(to)], data }
}

/// One call holding the preimage of `A`'s slot, a change of that slot from
/// `old` to `new`, and a transfer of `value` from `A` to `B`.
fn scenario_block(old: u128, new: u128, value: u128) -> Block {
    let a = addr(0xaa);
    let b = addr(0xbb);
    let call = Call {
        index: 1,
        address: addr(0xcc),
        keccak_preimages: vec![KeccakPreimage {
            hash: hex_lower(&slot_hash(1)),
            preimage: canonical_preimage(&a, 0),
        }],
        storage_changes: vec![change(slot_hash(1), old, new, 5)],
    };
    let trx = TransactionTrace {
        hash: vec![1u8; 32],
        calls: vec![call],
        logs: vec![CallLog { call_pos: 0, log: transfer_log(&a, &b, value) }],
    };
    Block { number: 100, transactions: vec![trx] }
}

fn one_call_trx(preimages: Vec<KeccakPreimage>) -> Call {
    Call { index: 0, address: addr(0xcc), keccak_preimages: preimages, storage_changes: vec![] }
}

#[test]
fn test_is_erc20_valid_address() {
    let transfer = Transfer {
        from: NULL_ADDRESS.to_vec(),
        to: vec![
            0x12, 0x34, 0x56, 0x78, 0x90, 0x12, 0x34, 0x56, 0x78, 0x90, 0x12, 0x34, 0x56, 0x78,
            0x90, 0x12, 0x34, 0x56, 0x78, 0x90,
        ],
        value: U256::zero(),
    };

    let address = NULL_ADDRESS.to_vec();
    assert!(is_erc20_valid_address(&address, &transfer), "0x000 Null address should be valid");
}

#[test]
fn null_address_valid_as_sender_and_recipient() {
    let t = transfer(NULL_ADDRESS.to_vec(), NULL_ADDRESS.to_vec(), 0);
    assert!(is_erc20_valid_address(&NULL_ADDRESS.to_vec(), &t));
    assert!(!is_erc20_valid_address(&addr(1), &t));
}

#[test]
fn address_outside_transfer_is_invalid() {
    let t = transfer(addr(1), addr(2), 5);
    assert!(is_erc20_valid_address(&addr(1), &t));
    assert!(is_erc20_valid_address(&addr(2), &t));
    assert!(!is_erc20_valid_address(&addr(3), &t));
}

#[test]
fn balance_tolerance_of_one_unit() {
    let t = transfer(addr(1), addr(2), 40);
    assert!(is_erc20_valid_balance(&t, &change(slot_hash(0), 100, 60, 0)));
    assert!(is_erc20_valid_balance(&t, &change(slot_hash(0), 100, 61, 0)));
    assert!(is_erc20_valid_balance(&t, &change(slot_hash(0), 100, 59, 0)));
    assert!(is_erc20_valid_balance(&t, &change(slot_hash(0), 60, 100, 0)));
    assert!(!is_erc20_valid_balance(&t, &change(slot_hash(0), 100, 55, 0)));
    assert!(!is_erc20_valid_balance(&t, &change(slot_hash(0), 100, 62, 0)));
    assert!(!is_erc20_valid_balance(&t, &change(slot_hash(0), 100, 58, 0)));
}

#[test]
fn balance_check_across_the_128_bit_halves() {
    // old = 2^128, new = 2^128 - 7: the delta is 7
    let old = U256 { hi: 1, lo: 0 };
    let new = U256 { hi: 0, lo: u128::MAX - 6 };
    let sc = StorageChange { address: addr(0), key: slot_hash(0), old_value: old, new_value: new, ordinal: 0 };
    assert!(is_erc20_valid_balance(&transfer(addr(1), addr(2), 7), &sc));
    assert!(is_erc20_valid_balance(&transfer(addr(1), addr(2), 8), &sc));
    assert!(!is_erc20_valid_balance(&transfer(addr(1), addr(2), 9), &sc));
}

#[test]
fn u256_from_be_bytes() {
    assert_eq!(U256::from_be_bytes(&[]), Some(U256::zero()));
    assert_eq!(U256::from_be_bytes(&[1, 0]), Some(u(256)));
    let mut b = vec![0u8; 32];
    b[15] = 1;
    b[31] = 2;
    assert_eq!(U256::from_be_bytes(&b), Some(U256 { hi: 1, lo: 2 }));
    assert_eq!(U256::from_be_bytes(&[0u8; 33]), None);
    assert!(U256::from_be_bytes(&[0u8; 32]).unwrap().is_zero());
}

#[test]
fn u256_abs_diff() {
    assert_eq!(u(3).abs_diff(&u(10)), u(7));
    assert_eq!(u(10).abs_diff(&u(3)), u(7));
    let big = U256 { hi: 2, lo: 5 };
    assert_eq!(big.abs_diff(&U256 { hi: 1, lo: 6 }), U256 { hi: 0, lo: u128::MAX });
}

#[test]
fn resolver_recovers_address_at_slot() {
    let a = addr(0xaa);
    for slot in [0u8, 3, 255] {
        let call = one_call_trx(vec![KeccakPreimage {
            hash: hex_lower(&slot_hash(7)),
            preimage: canonical_preimage(&a, slot),
        }]);
        let map = addresses_for_storage_keys(&call).unwrap();
        assert_eq!(map.get(&slot_hash(7)), Some(&a));
    }
}

#[test]
fn resolver_decodes_hex_of_either_case() {
    let mut raw = vec![0u8; 12];
    raw.extend_from_slice(&[0xabu8; 20]);
    raw.extend_from_slice(&[0u8; 32]);
    let text = hex_lower(&raw).to_uppercase();
    let call = one_call_trx(vec![KeccakPreimage { hash: format!("0x{}", hex_lower(&slot_hash(2))), preimage: text }]);
    let map = addresses_for_storage_keys(&call).unwrap();
    assert_eq!(map.get(&slot_hash(2)), Some(&vec![0xabu8; 20]));
}

#[test]
fn resolver_skips_wrong_length() {
    let a = addr(0xaa);
    let mut p = canonical_preimage(&a, 1);
    p.push_str("00");
    let call = one_call_trx(vec![
        KeccakPreimage { hash: hex_lower(&slot_hash(1)), preimage: p },
        KeccakPreimage { hash: "zz".to_string(), preimage: "00".to_string() },
    ]);
    let map = addresses_for_storage_keys(&call).unwrap();
    assert_eq!(map.get(&slot_hash(1)), None);
}

#[test]
fn resolver_skips_nonzero_padding() {
    let a = addr(0xaa);
    let mut p: Vec<u8> = canonical_preimage(&a, 1).into_bytes();
    p[100] = b'1';
    let call = one_call_trx(vec![KeccakPreimage {
        hash: hex_lower(&slot_hash(1)),
        preimage: String::from_utf8(p).unwrap(),
    }]);
    let map = addresses_for_storage_keys(&call).unwrap();
    assert_eq!(map.get(&slot_hash(1)), None);
}

#[test]
fn resolver_rejects_malformed_hex() {
    let a = addr(0xaa);
    let call = one_call_trx(vec![KeccakPreimage {
        hash: "not hex".to_string(),
        preimage: canonical_preimage(&a, 1),
    }]);
    assert_eq!(addresses_for_storage_keys(&call).err(), Some(MalformedHex));
    let mut p: Vec<u8> = canonical_preimage(&a, 1).into_bytes();
    p[30] = b'g';
    let call = one_call_trx(vec![KeccakPreimage {
        hash: hex_lower(&slot_hash(1)),
        preimage: String::from_utf8(p).unwrap(),
    }]);
    assert_eq!(addresses_for_storage_keys(&call).err(), Some(MalformedHex));
}

#[test]
fn preimage_map_later_entry_wins() {
    let mut m = PreimageMap::new();
    m.insert(slot_hash(1), addr(1));
    let mut other = PreimageMap::new();
    other.insert(slot_hash(1), addr(2));
    other.insert(slot_hash(2), addr(3));
    m.extend(other);
    assert_eq!(m.get(&slot_hash(1)), Some(&addr(2)));
    assert_eq!(m.get(&slot_hash(2)), Some(&addr(3)));
    assert_eq!(get_keccak_address(&m, &change(slot_hash(2), 0, 0, 0)), Some(addr(3)));
    assert_eq!(get_keccak_address(&m, &change(slot_hash(9), 0, 0, 0)), None);
}

#[test]
fn decode_transfer_log() {
    let log = transfer_log(&addr(0xaa), &addr(0xbb), 40);
    let t = decode_transfer(&log).unwrap();
    assert_eq!(t.from, addr(0xaa));
    assert_eq!(t.to, addr(0xbb));
    assert_eq!(t.value, u(40));
    let mut other = log;
    other.topics[0][0] = 0;
    assert!(decode_transfer(&other).is_none());
}

fn only_balance_changes(events: &Events) -> Vec<(Vec<u8>, usize, usize, BalanceChangeType)> {
    events
        .balance_changes
        .iter()
        .map(|r| (r.candidate.owner.clone(), r.candidate.call_pos, r.candidate.change_pos, r.candidate.change_type))
        .collect()
}

#[test]
fn scenario_exact_delta_matches() {
    let events = map_events(&scenario_block(100, 60, 40)).unwrap();
    assert_eq!(events.transfers.len(), 1);
    assert_eq!(only_balance_changes(&events), vec![(addr(0xaa), 0, 0, BalanceChangeType::Algorithm1)]);
}

#[test]
fn scenario_off_by_one_matches() {
    let events = map_events(&scenario_block(100, 61, 40)).unwrap();
    assert_eq!(only_balance_changes(&events), vec![(addr(0xaa), 0, 0, BalanceChangeType::Algorithm1)]);
}

#[test]
fn scenario_delta_too_far_gives_nothing() {
    let events = map_events(&scenario_block(100, 55, 40)).unwrap();
    assert_eq!(events.transfers.len(), 1);
    assert!(events.balance_changes.is_empty());
}

#[test]
fn scenario_zero_value_is_excluded() {
    let events = map_events(&scenario_block(100, 100, 0)).unwrap();
    assert!(events.transfers.is_empty());
    assert!(events.balance_changes.is_empty());
}

#[test]
fn two_runs_give_identical_records() {
    let block = scenario_block(100, 60, 40);
    let first = map_events(&block).unwrap();
    let second = map_events(&block).unwrap();
    assert_eq!(only_balance_changes(&first), only_balance_changes(&second));
    assert_eq!(first.transfers.len(), second.transfers.len());
    assert_eq!(first.transfers[0].transfer.value, second.transfers[0].transfer.value);
}

#[test]
fn algorithm2_finds_change_in_other_call() {
    let a = addr(0xaa);
    let b = addr(0xbb);
    let emitting = Call {
        index: 1,
        address: addr(0xcc),
        keccak_preimages: vec![
            KeccakPreimage { hash: hex_lower(&slot_hash(1)), preimage: canonical_preimage(&a, 0) },
            KeccakPreimage { hash: hex_lower(&slot_hash(2)), preimage: canonical_preimage(&b, 0) },
        ],
        storage_changes: vec![],
    };
    let writing = Call {
        index: 2,
        address: addr(0xdd),
        keccak_preimages: vec![],
        storage_changes: vec![change(slot_hash(1), 100, 60, 3), change(slot_hash(3), 0, 40, 4), change(slot_hash(2), 0, 40, 5)],
    };
    let trx = TransactionTrace { hash: vec![2u8; 32], calls: vec![emitting, writing], logs: vec![] };
    let map = addresses_for_storage_keys(&trx.calls[0]).unwrap();
    let t = transfer(a.clone(), b.clone(), 40);
    assert!(find_erc20_balance_changes_algorithm1(&trx, 0, &t, &map).is_empty());
    let found = find_erc20_balance_changes_algorithm2(&trx, 0, &t, &map);
    let got: Vec<_> = found.iter().map(|c| (c.owner.clone(), c.call_pos, c.change_pos, c.change_type)).collect();
    assert_eq!(
        got,
        vec![(a.clone(), 1, 0, BalanceChangeType::Algorithm2), (b.clone(), 1, 2, BalanceChangeType::Algorithm2)]
    );
    assert_eq!(iter_balance_changes_algorithms(&trx, 0, &t, &map).len(), 2);
}

#[test]
fn block_with_malformed_preimage_fails() {
    let mut block = scenario_block(100, 60, 40);
    block.transactions[0].calls[0].keccak_preimages[0].hash = "0xq1".to_string();
    assert_eq!(map_events(&block).err(), Some(MalformedHex));
}

#[test]
fn transfer_record_fields() {
    let block = scenario_block(100, 60, 40);
    let trx = &block.transactions[0];
    let log = &trx.logs[0].log;
    let t = decode_transfer(log).unwrap();
    let info = ClockInfo { number: 7, id: "abc".to_string() };
    let r = to_transfer(&info, trx, &trx.calls[0], log, &t);
    assert_eq!(r.block_num, 7);
    assert_eq!(r.block_hash, "abc");
    assert_eq!(r.transaction_id, "01".repeat(32));
    assert_eq!(r.from, "aa".repeat(20));
    assert_eq!(r.to, "bb".repeat(20));
    assert_eq!(r.contract, "cc".repeat(20));
    assert_eq!(r.value, "40");
    assert_eq!(r.topic0, "ddf252ad1be2c89b69c2b068fc378daa952ba7f163c4a11628f55a4df523b3ef");
}

#[test]
fn balance_change_record_fields() {
    let block = scenario_block(100, 60, 40);
    let trx = &block.transactions[0];
    let log = &trx.logs[0].log;
    let t = decode_transfer(log).unwrap();
    let info = ClockInfo { number: 7, id: "abc".to_string() };
    let sc = &trx.calls[0].storage_changes[0];
    let r = to_balance_change(&info, trx, &trx.calls[0], log, &t, addr(0xaa), sc, BalanceChangeType::Algorithm1);
    assert_eq!(r.owner, "aa".repeat(20));
    assert_eq!(r.old_balance, "100");
    assert_eq!(r.new_balance, "60");
    assert_eq!(r.amount, "-40");
    assert_eq!(r.value, "40");
    assert_eq!(r.storage_ordinal, 5);
    assert_eq!(r.change_type, BalanceChangeType::Algorithm1);
    let up = StorageChange { address: addr(1), key: slot_hash(1), old_value: u(0), new_value: U256 { hi: 1, lo: 0 }, ordinal: 0 };
    let r = to_balance_change(&info, trx, &trx.calls[0], log, &t, addr(0xaa), &up, BalanceChangeType::Algorithm2);
    assert_eq!(r.amount, "340282366920938463463374607431768211456");
    assert_eq!(r.old_balance, "0");
}

#[test]
fn algorithm2_orders_by_ordinal() {
    let a = addr(0xaa);
    let b = addr(0xbb);
    let emitting = Call {
        index: 1,
        address: addr(0xcc),
        keccak_preimages: vec![
            KeccakPreimage { hash: hex_lower(&slot_hash(1)), preimage: canonical_preimage(&a, 0) },
            KeccakPreimage { hash: hex_lower(&slot_hash(2)), preimage: canonical_preimage(&b, 0) },
        ],
        storage_changes: vec![],
    };
    // the parent writes after its child returns: a later ordinal in an earlier call
    let parent = Call { index: 2, address: addr(0xdd), keccak_preimages: vec![], storage_changes: vec![change(slot_hash(1), 100, 60, 9)] };
    let child = Call { index: 3, address: addr(0xdd), keccak_preimages: vec![], storage_changes: vec![change(slot_hash(2), 0, 40, 4)] };
    let trx = TransactionTrace { hash: vec![3u8; 32], calls: vec![emitting, parent, child], logs: vec![] };
    let map = addresses_for_storage_keys(&trx.calls[0]).unwrap();
    let t = transfer(a.clone(), b.clone(), 40);
    let found = find_erc20_balance_changes_algorithm2(&trx, 0, &t, &map);
    let got: Vec<_> = found.iter().map(|c| (c.owner.clone(), c.call_pos, c.change_pos, c.ordinal)).collect();
    assert_eq!(got, vec![(b.clone(), 2, 0, 4), (a.clone(), 1, 0, 9)]);
}
