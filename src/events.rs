//! Decoding of `Transfer` logs and the per-block driver.
use vstd::prelude::*;
use crate::amount::{be_nat, U256};
use crate::correlate::{
    algorithm1, algorithm2, candidates_view, iter_balance_changes_algorithms,
    BalanceChangeCandidate, CandidateView,
};
use crate::resolver::{
    addresses_for_storage_keys, copy_bytes, entries_decode, resolved, MalformedHex, PreimageMap,
};
use crate::trace::{Block, Log, TransactionTrace, Transfer, TransferView};

verus! {

/// `keccak256("Transfer(address,address,uint256)")`, the first topic of an
/// ERC-20 `Transfer` log.
pub open spec fn transfer_topic() -> Seq<u8> {
    seq![
        0xddu8, 0xf2u8, 0x52u8, 0xadu8, 0x1bu8, 0xe2u8, 0xc8u8, 0x9bu8,
        0x69u8, 0xc2u8, 0xb0u8, 0x68u8, 0xfcu8, 0x37u8, 0x8du8, 0xaau8,
        0x95u8, 0x2bu8, 0xa7u8, 0xf1u8, 0x63u8, 0xc4u8, 0xa1u8, 0x16u8,
        0x28u8, 0xf5u8, 0x5au8, 0x4du8, 0xf5u8, 0x23u8, 0xb3u8, 0xefu8,
    ]
}

/// A log with the `Transfer` signature, two 32-byte indexed addresses and a
/// 32-byte amount.
pub open spec fn is_transfer_log(log: Log) -> bool {
    &&& log.topics@.len() == 3
    &&& log.topics@[0]@ == transfer_topic()
    &&& log.topics@[1]@.len() == 32
    &&& log.topics@[2]@.len() == 32
    &&& log.data@.len() == 32
}

/// The transfer that a log records, if it is a `Transfer` log.
pub open spec fn transfer_of(log: Log) -> Option<TransferView> {
    if is_transfer_log(log) {
        Some(
            (
                log.topics@[1]@.subrange(12, 32),
                log.topics@[2]@.subrange(12, 32),
                be_nat(log.data@),
            ),
        )
    } else {
        None
    }
}

/// Decodes an ERC-20 `Transfer` log: the addresses are the last 20 bytes of
/// the second and third topics, the amount is the data.
pub fn decode_transfer(log: &Log) -> (r: Option<Transfer>)
    ensures
        r matches Some(t) ==> transfer_of(*log) == Some(t@),
        r is None ==> transfer_of(*log) is None,
{
    if log.topics.len() != 3 || log.data.len() != 32 {
        return None;
    }
    let expected: [u8; 32] = [
        0xdd, 0xf2, 0x52, 0xad, 0x1b, 0xe2, 0xc8, 0x9b, 0x69, 0xc2, 0xb0, 0x68, 0xfc, 0x37, 0x8d,
        0xaa, 0x95, 0x2b, 0xa7, 0xf1, 0x63, 0xc4, 0xa1, 0x16, 0x28, 0xf5, 0x5a, 0x4d, 0xf5, 0x23,
        0xb3, 0xef,
    ];
    assert(expected@ =~= transfer_topic());
    if !crate::resolver::bytes_eq(log.topics[0].as_slice(), expected.as_slice()) {
        return None;
    }
    if log.topics[1].len() != 32 || log.topics[2].len() != 32 {
        return None;
    }
    let from = copy_bytes(&log.topics[1].as_slice()[12..32]);
    let to = copy_bytes(&log.topics[2].as_slice()[12..32]);
    match U256::from_be_bytes(log.data.as_slice()) {
        Some(value) => Some(Transfer { from, to, value }),
        None => None,
    }
}

/// A transfer, by the positions of its transaction in the block and of its
/// log in the transaction.
pub struct TransferRecord {
    pub trx_pos: usize,
    pub log_pos: usize,
    pub transfer: Transfer,
}

/// A balance change, by the positions of the transfer it carries out.
pub struct BalanceChangeRecord {
    pub trx_pos: usize,
    pub log_pos: usize,
    pub candidate: BalanceChangeCandidate,
}

/// What a block gives.
pub struct Events {
    pub transfers: Vec<TransferRecord>,
    pub balance_changes: Vec<BalanceChangeRecord>,
}

pub type TransferRecordView = (int, int, TransferView);

pub type BalanceChangeRecordView = (int, int, CandidateView);

/// The preimage map and the records gathered so far in a block.
pub type BlockState = (Map<Seq<u8>, Seq<u8>>, Seq<TransferRecordView>, Seq<BalanceChangeRecordView>);

pub open spec fn transfers_view(v: Seq<TransferRecord>) -> Seq<TransferRecordView> {
    v.map_values(|t: TransferRecord| (t.trx_pos as int, t.log_pos as int, t.transfer@))
}

pub open spec fn changes_view(v: Seq<BalanceChangeRecord>) -> Seq<BalanceChangeRecordView> {
    v.map_values(|c: BalanceChangeRecord| (c.trx_pos as int, c.log_pos as int, c.candidate@))
}

pub open spec fn tag_candidates(ti: int, li: int, cs: Seq<CandidateView>) -> Seq<
    BalanceChangeRecordView,
> {
    cs.map_values(|c: CandidateView| (ti, li, c))
}

/// The effect of the log at `li` of transaction `trx` (at `ti` in the block).
/// A `Transfer` of non-zero value is recorded; the preimages of its call join
/// the map; both algorithms' candidates are recorded. Hex in the call's
/// preimages that does not decode fails the block.
pub open spec fn log_step(s: BlockState, trx: TransactionTrace, ti: int, li: int) -> Option<
    BlockState,
> {
    let cl = trx.logs@[li];
    match transfer_of(cl.log) {
        None => Some(s),
        Some(t) => {
            if t.2 == 0 || cl.call_pos >= trx.calls@.len() {
                Some(s)
            } else {
                let call = trx.calls@[cl.call_pos as int];
                if !entries_decode(call.keccak_preimages@) {
                    None
                } else {
                    let m = s.0.union_prefer_right(resolved(call.keccak_preimages@));
                    let cs = algorithm1(m, trx, cl.call_pos as int, t) + algorithm2(
                        m,
                        trx,
                        cl.call_pos as int,
                        t,
                    );
                    Some((m, s.1.push((ti, li, t)), s.2 + tag_candidates(ti, li, cs)))
                }
            }
        },
    }
}

/// The state once the logs before log `li` of transaction `ti` are done.
pub open spec fn state_before(block: Block, ti: nat, li: nat) -> Option<BlockState>
    decreases ti, li,
{
    if li > 0 {
        match state_before(block, ti, (li - 1) as nat) {
            None => None,
            Some(s) => log_step(s, block.transactions@[ti as int], ti as int, li - 1),
        }
    } else if ti > 0 {
        state_before(block, (ti - 1) as nat, block.transactions@[ti - 1].logs@.len())
    } else {
        Some((Map::empty(), Seq::empty(), Seq::empty()))
    }
}

/// What a whole block gives, or `None` where it fails.
pub open spec fn block_events(block: Block) -> Option<BlockState> {
    state_before(block, block.transactions@.len(), 0)
}

/// Carries out `log_step` on the log at `li` of `trx`.
fn process_log(
    keccak_address_map: &mut PreimageMap,
    trx: &TransactionTrace,
    ti: usize,
    li: usize,
    transfers: &mut Vec<TransferRecord>,
    changes: &mut Vec<BalanceChangeRecord>,
) -> (r: Result<(), MalformedHex>)
    requires
        li < trx.logs@.len(),
    ensures
        match log_step(
            (old(keccak_address_map)@, transfers_view(old(transfers)@), changes_view(old(changes)@)),
            *trx,
            ti as int,
            li as int,
        ) {
            Some(s) => r is Ok && s == (
                final(keccak_address_map)@,
                transfers_view(final(transfers)@),
                changes_view(final(changes)@),
            ),
            None => r is Err,
        },
{
    let cl = &trx.logs[li];
    let transfer = match decode_transfer(&cl.log) {
        Some(t) => t,
        None => return Ok(()),
    };
    if transfer.value.is_zero() || cl.call_pos >= trx.calls.len() {
        return Ok(());
    }
    let call = &trx.calls[cl.call_pos];
    let found = addresses_for_storage_keys(call)?;
    keccak_address_map.extend(found);
    let cands = iter_balance_changes_algorithms(trx, cl.call_pos, &transfer, keccak_address_map);
    let ghost t = transfer@;
    let ghost cs = candidates_view(cands@);
    let ghost start = changes_view(changes@);
    let mut i: usize = 0;
    assert(start + tag_candidates(ti as int, li as int, cs.subrange(0, 0)) =~= start);
    while i < cands.len()
        invariant
            i <= cands@.len(),
            cs == candidates_view(cands@),
            changes_view(changes@) == start + tag_candidates(
                ti as int,
                li as int,
                cs.subrange(0, i as int),
            ),
        decreases cands@.len() - i,
    {
        let c = &cands[i];
        let ghost before = changes_view(changes@);
        let owner = copy_bytes(c.owner.as_slice());
        changes.push(
            BalanceChangeRecord {
                trx_pos: ti,
                log_pos: li,
                candidate: BalanceChangeCandidate {
                    owner,
                    call_pos: c.call_pos,
                    change_pos: c.change_pos,
                    ordinal: c.ordinal,
                    change_type: c.change_type,
                },
            },
        );
        assert(changes_view(changes@) =~= before.push((ti as int, li as int, cs[i as int])));
        i = i + 1;
        assert(tag_candidates(ti as int, li as int, cs.subrange(0, i as int)) =~= tag_candidates(
            ti as int,
            li as int,
            cs.subrange(0, i - 1),
        ).push((ti as int, li as int, cs[i - 1])));
    }
    assert(cs.subrange(0, i as int) =~= cs);
    let ghost before_t = transfers_view(transfers@);
    transfers.push(TransferRecord { trx_pos: ti, log_pos: li, transfer });
    assert(transfers_view(transfers@) =~= before_t.push((ti as int, li as int, t)));
    Ok(())
}

/// Two runs on the same block give the same records in the same order: the
/// result is a function of the block alone.
pub proof fn lemma_block_events_deterministic(b1: Block, b2: Block)
    requires
        b1 == b2,
    ensures
        block_events(b1) == block_events(b2),
{
}

/// A block that fails at some log fails as a whole.
proof fn lemma_failure_persists(block: Block, ti: nat, li: nat)
    requires
        ti < block.transactions@.len(),
        li <= block.transactions@[ti as int].logs@.len(),
        state_before(block, ti, li) is None,
    ensures
        block_events(block) is None,
    decreases block.transactions@.len() - ti, block.transactions@[ti as int].logs@.len() - li,
{
    if li < block.transactions@[ti as int].logs@.len() {
        lemma_failure_persists(block, ti, li + 1);
    } else {
        assert(state_before(block, ti + 1, 0) is None);
        if ti + 1 < block.transactions@.len() {
            lemma_failure_persists(block, ti + 1, 0);
        }
    }
}

/// Appends what a block gives to `events`: for each successful transaction,
/// for each log by ordinal, a `Transfer` of non-zero value and the balance
/// changes that both algorithms pair with it. The preimage map starts empty
/// and grows over the whole block. Hex in a preimage that does not decode
/// fails the block.
pub fn insert_events(block: &Block, events: &mut Events) -> (r: Result<(), MalformedHex>)
    ensures
        r is Ok <==> block_events(*block) is Some,
        r is Ok ==> transfers_view(final(events).transfers@) == transfers_view(
            old(events).transfers@,
        ) + block_events(*block).unwrap().1,
        r is Ok ==> changes_view(final(events).balance_changes@) == changes_view(
            old(events).balance_changes@,
        ) + block_events(*block).unwrap().2,
{
    let mut keccak_address_map = PreimageMap::new();
    let mut transfers: Vec<TransferRecord> = Vec::new();
    let mut changes: Vec<BalanceChangeRecord> = Vec::new();
    let mut ti: usize = 0;
    proof {
        assert(transfers_view(transfers@) =~= Seq::<TransferRecordView>::empty());
        assert(changes_view(changes@) =~= Seq::<BalanceChangeRecordView>::empty());
    }
    while ti < block.transactions.len()
        invariant
            ti <= block.transactions@.len(),
            state_before(*block, ti as nat, 0) == Some(
                (keccak_address_map@, transfers_view(transfers@), changes_view(changes@)),
            ),
        decreases block.transactions@.len() - ti,
    {
        let trx = &block.transactions[ti];
        let mut li: usize = 0;
        while li < trx.logs.len()
            invariant
                ti < block.transactions@.len(),
                *trx == block.transactions@[ti as int],
                li <= trx.logs@.len(),
                state_before(*block, ti as nat, li as nat) == Some(
                    (keccak_address_map@, transfers_view(transfers@), changes_view(changes@)),
                ),
            decreases trx.logs@.len() - li,
        {
            match process_log(&mut keccak_address_map, trx, ti, li, &mut transfers, &mut changes) {
                Ok(()) => {},
                Err(e) => {
                    proof {
                        lemma_failure_persists(*block, ti as nat, (li + 1) as nat);
                    }
                    return Err(e);
                },
            }
            li = li + 1;
        }
        ti = ti + 1;
    }
    let ghost t0 = transfers_view(events.transfers@);
    let ghost c0 = changes_view(events.balance_changes@);
    let ghost t1 = transfers_view(transfers@);
    let ghost c1 = changes_view(changes@);
    events.transfers.append(&mut transfers);
    events.balance_changes.append(&mut changes);
    assert(transfers_view(events.transfers@) =~= t0 + t1);
    assert(changes_view(events.balance_changes@) =~= c0 + c1);
    Ok(())
}

/// What a block gives, gathered from nothing.
pub fn map_events(block: &Block) -> (r: Result<Events, MalformedHex>)
    ensures
        r is Ok <==> block_events(*block) is Some,
        r matches Ok(e) ==> transfers_view(e.transfers@) == block_events(*block).unwrap().1
            && changes_view(e.balance_changes@) == block_events(*block).unwrap().2,
{
    let mut events = Events { transfers: Vec::new(), balance_changes: Vec::new() };
    assert(transfers_view(events.transfers@) =~= Seq::<TransferRecordView>::empty());
    assert(changes_view(events.balance_changes@) =~= Seq::<BalanceChangeRecordView>::empty());
    match insert_events(block, &mut events) {
        Ok(()) => {
            assert(Seq::<TransferRecordView>::empty() + block_events(*block).unwrap().1
                =~= block_events(*block).unwrap().1);
            assert(Seq::<BalanceChangeRecordView>::empty() + block_events(*block).unwrap().2
                =~= block_events(*block).unwrap().2);
            Ok(events)
        },
        Err(e) => Err(e),
    }
}

} // verus!
