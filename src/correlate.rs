//! Pairing of storage changes with a decoded transfer.
use vstd::prelude::*;
use crate::amount::{abs_diff, U256};
use crate::resolver::{bytes_eq, get_keccak_address, PreimageMap};
use crate::trace::{Call, StorageChange, TransactionTrace, Transfer, TransferView};

verus! {

/// Which algorithm paired a storage change with a transfer.
#[derive(Clone, Copy, Debug, PartialEq, Eq, Structural)]
pub enum BalanceChangeType {
    /// The storage change is in the call that emitted the transfer.
    Algorithm1,
    /// The storage change is in another call of the same transaction.
    Algorithm2,
}

/// A storage change believed to carry out a transfer: its owner, the
/// positions of its call in the transaction and of the change in the call,
/// the change's ordinal, and the algorithm that found it.
pub struct BalanceChangeCandidate {
    pub owner: Vec<u8>,
    pub call_pos: usize,
    pub change_pos: usize,
    pub ordinal: u64,
    pub change_type: BalanceChangeType,
}

pub type CandidateView = (Seq<u8>, int, int, int, BalanceChangeType);

impl View for BalanceChangeCandidate {
    type V = CandidateView;

    open spec fn view(&self) -> CandidateView {
        (
            self.owner@,
            self.call_pos as int,
            self.change_pos as int,
            self.ordinal as int,
            self.change_type,
        )
    }
}

pub open spec fn candidates_view(v: Seq<BalanceChangeCandidate>) -> Seq<CandidateView> {
    v.map_values(|c: BalanceChangeCandidate| c@)
}

/// The owner is the sender or the recipient of the transfer.
pub open spec fn valid_address(a: Seq<u8>, t: TransferView) -> bool {
    a == t.0 || a == t.1
}

/// `| |new - old| - value | <= 1`: the balance moved by the transfer's value,
/// up to one unit.
pub open spec fn valid_balance(value: nat, old_balance: nat, new_balance: nat) -> bool {
    abs_diff(abs_diff(new_balance as int, old_balance as int) as int, value as int) <= 1
}

/// The storage change has a known owner that takes part in the transfer, and
/// its delta agrees with the transfer's value.
pub open spec fn change_matches(m: Map<Seq<u8>, Seq<u8>>, t: TransferView, sc: StorageChange) -> bool {
    &&& m.contains_key(sc.key@)
    &&& valid_address(m[sc.key@], t)
    &&& valid_balance(t.2, sc.old_value@, sc.new_value@)
}

/// The candidates among the first `n` storage changes of a call, in order.
pub open spec fn call_candidates(
    m: Map<Seq<u8>, Seq<u8>>,
    t: TransferView,
    call: Call,
    call_pos: int,
    tag: BalanceChangeType,
    n: int,
) -> Seq<CandidateView>
    decreases n,
{
    if n <= 0 {
        Seq::empty()
    } else {
        let prev = call_candidates(m, t, call, call_pos, tag, n - 1);
        let sc = call.storage_changes@[n - 1];
        if change_matches(m, t, sc) {
            prev.push((m[sc.key@], call_pos, n - 1, sc.ordinal as int, tag))
        } else {
            prev
        }
    }
}

/// The candidates of the first `n` calls but the one at `call_pos`, in order.
pub open spec fn other_calls_candidates(
    m: Map<Seq<u8>, Seq<u8>>,
    t: TransferView,
    calls: Seq<Call>,
    call_pos: int,
    n: int,
) -> Seq<CandidateView>
    decreases n,
{
    if n <= 0 {
        Seq::empty()
    } else {
        let prev = other_calls_candidates(m, t, calls, call_pos, n - 1);
        if n - 1 == call_pos {
            prev
        } else {
            let c = calls[n - 1];
            prev + call_candidates(
                m,
                t,
                c,
                n - 1,
                BalanceChangeType::Algorithm2,
                c.storage_changes@.len() as int,
            )
        }
    }
}

/// What the first algorithm finds: the matching storage changes of the
/// emitting call.
pub open spec fn algorithm1(
    m: Map<Seq<u8>, Seq<u8>>,
    trx: TransactionTrace,
    call_pos: int,
    t: TransferView,
) -> Seq<CandidateView> {
    let c = trx.calls@[call_pos];
    call_candidates(
        m,
        t,
        c,
        call_pos,
        BalanceChangeType::Algorithm1,
        c.storage_changes@.len() as int,
    )
}

/// `s` with `x` placed after every element whose ordinal is at most its own.
pub open spec fn insert_by_ordinal(s: Seq<CandidateView>, x: CandidateView) -> Seq<CandidateView>
    decreases s.len(),
{
    if s.len() == 0 {
        seq![x]
    } else if s.last().3 <= x.3 {
        s.push(x)
    } else {
        insert_by_ordinal(s.drop_last(), x).push(s.last())
    }
}

/// `s` ordered by ordinal; elements with equal ordinals keep their order.
pub open spec fn sort_by_ordinal(s: Seq<CandidateView>) -> Seq<CandidateView>
    decreases s.len(),
{
    if s.len() == 0 {
        s
    } else {
        insert_by_ordinal(sort_by_ordinal(s.drop_last()), s.last())
    }
}

pub open spec fn is_sorted_by_ordinal(s: Seq<CandidateView>) -> bool {
    forall|i: int, j: int| 0 <= i < j < s.len() ==> s[i].3 <= s[j].3
}

/// What the second algorithm finds: the matching storage changes of the
/// transaction's other calls, in execution order (by ordinal).
pub open spec fn algorithm2(
    m: Map<Seq<u8>, Seq<u8>>,
    trx: TransactionTrace,
    call_pos: int,
    t: TransferView,
) -> Seq<CandidateView> {
    sort_by_ordinal(other_calls_candidates(m, t, trx.calls@, call_pos, trx.calls@.len() as int))
}

proof fn lemma_insert_at(s: Seq<CandidateView>, x: CandidateView, p: int)
    requires
        0 <= p <= s.len(),
        forall|j: int| p <= j < s.len() ==> #[trigger] s[j].3 > x.3,
        p == 0 || s[p - 1].3 <= x.3,
    ensures
        insert_by_ordinal(s, x) == s.insert(p, x),
    decreases s.len(),
{
    if s.len() == 0 {
        assert(s.insert(p, x) =~= seq![x]);
    } else if p == s.len() {
        assert(s.insert(p, x) =~= s.push(x));
    } else {
        assert(s.last().3 > x.3);
        lemma_insert_at(s.drop_last(), x, p);
        assert(s.drop_last().insert(p, x).push(s.last()) =~= s.insert(p, x));
    }
}

proof fn lemma_insert_bound(s: Seq<CandidateView>, x: CandidateView, b: int)
    requires
        forall|j: int| 0 <= j < s.len() ==> #[trigger] s[j].3 <= b,
        x.3 <= b,
    ensures
        forall|j: int|
            0 <= j < insert_by_ordinal(s, x).len() ==> #[trigger] insert_by_ordinal(s, x)[j].3 <= b,
        insert_by_ordinal(s, x).len() == s.len() + 1,
    decreases s.len(),
{
    if s.len() > 0 && s.last().3 > x.3 {
        lemma_insert_bound(s.drop_last(), x, b);
    }
}

proof fn lemma_insert_sorted(s: Seq<CandidateView>, x: CandidateView)
    requires
        is_sorted_by_ordinal(s),
    ensures
        is_sorted_by_ordinal(insert_by_ordinal(s, x)),
    decreases s.len(),
{
    if s.len() > 0 && s.last().3 > x.3 {
        let d = s.drop_last();
        lemma_insert_sorted(d, x);
        lemma_insert_bound(d, x, s.last().3);
    }
}

/// The second algorithm's candidates come out in execution order.
pub proof fn lemma_sort_by_ordinal_sorted(s: Seq<CandidateView>)
    ensures
        is_sorted_by_ordinal(sort_by_ordinal(s)),
    decreases s.len(),
{
    if s.len() > 0 {
        lemma_sort_by_ordinal_sorted(s.drop_last());
        lemma_insert_sorted(sort_by_ordinal(s.drop_last()), s.last());
    }
}

/// Puts the candidates in order of ordinal, keeping the order of equal ones.
fn sort_candidates_by_ordinal(v: Vec<BalanceChangeCandidate>) -> (r: Vec<BalanceChangeCandidate>)
    ensures
        candidates_view(r@) == sort_by_ordinal(candidates_view(v@)),
{
    let ghost all = candidates_view(v@);
    let mut rest = v;
    let mut out: Vec<BalanceChangeCandidate> = Vec::new();
    proof {
        assert(all.subrange(0, 0) =~= Seq::<CandidateView>::empty());
        assert(candidates_view(out@) =~= Seq::<CandidateView>::empty());
    }
    while rest.len() > 0
        invariant
            rest@.len() <= all.len(),
            candidates_view(rest@) == all.subrange(all.len() - rest@.len(), all.len() as int),
            candidates_view(out@) == sort_by_ordinal(
                all.subrange(0, all.len() - rest@.len()),
            ),
        decreases rest@.len(),
    {
        let ghost k = all.len() - rest@.len();
        let ghost sorted = candidates_view(out@);
        let ghost before = rest@;
        let x = rest.remove(0);
        proof {
            assert(candidates_view(before)[0] == all.subrange(k, all.len() as int)[0]);
            assert(x == before[0]);
            assert(x@ == all[k]);
            assert(rest@ =~= before.subrange(1, before.len() as int));
            assert forall|j: int| 0 <= j < rest@.len() implies #[trigger] candidates_view(rest@)[j]
                == all.subrange(k + 1, all.len() as int)[j] by {
                assert(rest@[j] == before[j + 1]);
                assert(candidates_view(before)[j + 1] == all.subrange(k, all.len() as int)[j + 1]);
            }
            assert(candidates_view(rest@) =~= all.subrange(k + 1, all.len() as int));
            assert(all.subrange(0, k + 1).drop_last() =~= all.subrange(0, k));
        }
        let mut p: usize = out.len();
        while p > 0 && out[p - 1].ordinal > x.ordinal
            invariant
                p <= out@.len(),
                sorted == candidates_view(out@),
                forall|j: int| p <= j < out@.len() ==> #[trigger] sorted[j].3 > x@.3,
            decreases p,
        {
            p = p - 1;
        }
        proof {
            lemma_insert_at(sorted, x@, p as int);
        }
        out.insert(p, x);
        assert(candidates_view(out@) =~= sorted.insert(p as int, x@));
    }
    assert(all.subrange(0, all.len() as int) =~= all);
    out
}

/// A storage delta equal to the transfer's value, or one unit above or below
/// it, is accepted; a delta further from the value is refused.
pub proof fn lemma_balance_tolerance(value: nat, old_balance: nat, new_balance: nat)
    ensures
        abs_diff(new_balance as int, old_balance as int) == value ==> valid_balance(
            value,
            old_balance,
            new_balance,
        ),
        abs_diff(new_balance as int, old_balance as int) == value + 1 ==> valid_balance(
            value,
            old_balance,
            new_balance,
        ),
        abs_diff(new_balance as int, old_balance as int) + 1 == value ==> valid_balance(
            value,
            old_balance,
            new_balance,
        ),
        abs_diff(abs_diff(new_balance as int, old_balance as int) as int, value as int) > 1
            ==> !valid_balance(value, old_balance, new_balance),
{
}

/// Whether `address` is the sender or the recipient of `transfer`.
pub fn is_erc20_valid_address(address: &Vec<u8>, transfer: &Transfer) -> (r: bool)
    ensures
        r == valid_address(address@, transfer@),
{
    bytes_eq(address.as_slice(), transfer.from.as_slice()) || bytes_eq(
        address.as_slice(),
        transfer.to.as_slice(),
    )
}

/// Whether the storage change's delta is the transfer's value, up to one
/// unit.
pub fn is_erc20_valid_balance(transfer: &Transfer, storage_change: &StorageChange) -> (r: bool)
    ensures
        r == valid_balance(
            transfer.value@,
            storage_change.old_value@,
            storage_change.new_value@,
        ),
{
    let balance_change_abs = storage_change.new_value.abs_diff(&storage_change.old_value);
    let diff = balance_change_abs.abs_diff(&transfer.value);
    diff.is_at_most_one()
}

/// Appends the candidates that the storage changes of `call` give.
fn push_call_candidates(
    out: &mut Vec<BalanceChangeCandidate>,
    keccak_address_map: &PreimageMap,
    call: &Call,
    call_pos: usize,
    transfer: &Transfer,
    tag: BalanceChangeType,
)
    ensures
        candidates_view(final(out)@) == candidates_view(old(out)@) + call_candidates(
            keccak_address_map@,
            transfer@,
            *call,
            call_pos as int,
            tag,
            call.storage_changes@.len() as int,
        ),
{
    let ghost m = keccak_address_map@;
    let ghost start = candidates_view(out@);
    let mut i: usize = 0;
    assert(start + Seq::<CandidateView>::empty() =~= start);
    while i < call.storage_changes.len()
        invariant
            i <= call.storage_changes@.len(),
            m == keccak_address_map@,
            candidates_view(out@) == start + call_candidates(
                m,
                transfer@,
                *call,
                call_pos as int,
                tag,
                i as int,
            ),
        decreases call.storage_changes@.len() - i,
    {
        let sc = &call.storage_changes[i];
        let ghost before = candidates_view(out@);
        match get_keccak_address(keccak_address_map, sc) {
            Some(owner) => {
                if is_erc20_valid_address(&owner, transfer) && is_erc20_valid_balance(transfer, sc) {
                    out.push(
                        BalanceChangeCandidate {
                            owner,
                            call_pos,
                            change_pos: i,
                            ordinal: sc.ordinal,
                            change_type: tag,
                        },
                    );
                    assert(candidates_view(out@) =~= before.push(
                        (m[sc.key@], call_pos as int, i as int, sc.ordinal as int, tag),
                    ));
                }
            },
            None => {},
        }
        i = i + 1;
    }
}

/// The first algorithm: storage changes of the call that emitted the
/// transfer, whose owner is its sender or recipient and whose delta is its
/// value.
pub fn find_erc20_balance_changes_algorithm1(
    trx: &TransactionTrace,
    call_pos: usize,
    transfer: &Transfer,
    keccak_address_map: &PreimageMap,
) -> (r: Vec<BalanceChangeCandidate>)
    requires
        call_pos < trx.calls@.len(),
    ensures
        candidates_view(r@) == algorithm1(keccak_address_map@, *trx, call_pos as int, transfer@),
{
    let mut out: Vec<BalanceChangeCandidate> = Vec::new();
    assert(candidates_view(out@) =~= Seq::<CandidateView>::empty());
    push_call_candidates(
        &mut out,
        keccak_address_map,
        &trx.calls[call_pos],
        call_pos,
        transfer,
        BalanceChangeType::Algorithm1,
    );
    assert(Seq::<CandidateView>::empty() + algorithm1(
        keccak_address_map@,
        *trx,
        call_pos as int,
        transfer@,
    ) =~= algorithm1(keccak_address_map@, *trx, call_pos as int, transfer@));
    out
}

/// The second algorithm: the same checks on the storage changes of the
/// transaction's other calls, for transfers whose storage is written in a
/// different call frame than the one that logs them. The candidates come in
/// order of ordinal.
pub fn find_erc20_balance_changes_algorithm2(
    trx: &TransactionTrace,
    call_pos: usize,
    transfer: &Transfer,
    keccak_address_map: &PreimageMap,
) -> (r: Vec<BalanceChangeCandidate>)
    ensures
        candidates_view(r@) == algorithm2(keccak_address_map@, *trx, call_pos as int, transfer@),
{
    let mut out: Vec<BalanceChangeCandidate> = Vec::new();
    let mut k: usize = 0;
    assert(candidates_view(out@) =~= Seq::<CandidateView>::empty());
    while k < trx.calls.len()
        invariant
            k <= trx.calls@.len(),
            candidates_view(out@) == other_calls_candidates(
                keccak_address_map@,
                transfer@,
                trx.calls@,
                call_pos as int,
                k as int,
            ),
        decreases trx.calls@.len() - k,
    {
        if k != call_pos {
            push_call_candidates(
                &mut out,
                keccak_address_map,
                &trx.calls[k],
                k,
                transfer,
                BalanceChangeType::Algorithm2,
            );
        }
        k = k + 1;
    }
    sort_candidates_by_ordinal(out)
}

/// Both algorithms' candidates, the first's before the second's, each
/// tagged with its algorithm; nothing is removed between them.
pub fn iter_balance_changes_algorithms(
    trx: &TransactionTrace,
    call_pos: usize,
    transfer: &Transfer,
    keccak_address_map: &PreimageMap,
) -> (r: Vec<BalanceChangeCandidate>)
    requires
        call_pos < trx.calls@.len(),
    ensures
        candidates_view(r@) == algorithm1(keccak_address_map@, *trx, call_pos as int, transfer@)
            + algorithm2(keccak_address_map@, *trx, call_pos as int, transfer@),
{
    let mut out = find_erc20_balance_changes_algorithm1(
        trx,
        call_pos,
        transfer,
        keccak_address_map,
    );
    let mut more = find_erc20_balance_changes_algorithm2(
        trx,
        call_pos,
        transfer,
        keccak_address_map,
    );
    let ghost a = out@;
    let ghost b = more@;
    out.append(&mut more);
    assert(candidates_view(out@) =~= candidates_view(a) + candidates_view(b));
    out
}

} // verus!
