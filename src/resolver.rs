//! Recovery of balance owners from the keccak preimages of storage slots.
use vstd::prelude::*;
use crate::hexcodec::{decodes_as_hex, decoded_hex, hex_decode, lemma_lower_hex_decodes, lower_hex};
use crate::trace::{Call, KeccakPreimage, StorageChange};

verus! {

/// Slot hash -> owner address, one pair per entry; a later entry wins.
pub open spec fn map_of(entries: Seq<(Seq<u8>, Seq<u8>)>) -> Map<Seq<u8>, Seq<u8>>
    decreases entries.len(),
{
    if entries.len() == 0 {
        Map::empty()
    } else {
        map_of(entries.drop_last()).insert(entries.last().0, entries.last().1)
    }
}

/// A preimage of the shape `keccak(pad32(address) ++ slot)` with a slot index
/// below 256, as 128 hex digits: the slot word's first 62 digits are `0`.
pub open spec fn is_balance_preimage(p: Seq<u8>) -> bool {
    &&& p.len() == 128
    &&& forall|i: int| 64 <= i < 126 ==> #[trigger] p[i] == 48u8
}

/// The hex digits of the owner address: the last 20 bytes of the first word.
pub open spec fn owner_text(p: Seq<u8>) -> Seq<u8> {
    p.subrange(24, 64)
}

/// An entry that is skipped, or whose hash and owner both decode.
pub open spec fn entry_decodes(e: (Seq<u8>, Seq<u8>)) -> bool {
    is_balance_preimage(e.1) ==> decodes_as_hex(e.0) && decodes_as_hex(owner_text(e.1))
}

pub open spec fn entries_decode(es: Seq<KeccakPreimage>) -> bool {
    forall|i: int| 0 <= i < es.len() ==> entry_decodes(#[trigger] es[i]@)
}

/// The slot-to-owner map that a call's preimages give.
pub open spec fn resolved(es: Seq<KeccakPreimage>) -> Map<Seq<u8>, Seq<u8>>
    decreases es.len(),
{
    if es.len() == 0 {
        Map::empty()
    } else {
        let m = resolved(es.drop_last());
        let e = es.last()@;
        if is_balance_preimage(e.1) {
            m.insert(decoded_hex(e.0), decoded_hex(owner_text(e.1)))
        } else {
            m
        }
    }
}

/// Hex text in a preimage or slot hash that does not decode.
#[derive(Clone, Copy, Debug, PartialEq, Eq)]
pub struct MalformedHex;

/// Slot hash -> owner address, built up over the calls of a block.
pub struct PreimageMap {
    entries: Vec<(Vec<u8>, Vec<u8>)>,
}

pub open spec fn entries_view(v: Seq<(Vec<u8>, Vec<u8>)>) -> Seq<(Seq<u8>, Seq<u8>)> {
    v.map_values(|e: (Vec<u8>, Vec<u8>)| (e.0@, e.1@))
}

impl View for PreimageMap {
    type V = Map<Seq<u8>, Seq<u8>>;

    closed spec fn view(&self) -> Map<Seq<u8>, Seq<u8>> {
        map_of(entries_view(self.entries@))
    }
}

/// The bytes of `a`, copied.
pub fn copy_bytes(a: &[u8]) -> (r: Vec<u8>)
    ensures
        r@ == a@,
{
    let mut r: Vec<u8> = Vec::new();
    let mut i: usize = 0;
    while i < a.len()
        invariant
            i <= a@.len(),
            r@ == a@.subrange(0, i as int),
        decreases a@.len() - i,
    {
        r.push(a[i]);
        i = i + 1;
        assert(r@ =~= a@.subrange(0, i as int));
    }
    assert(r@ =~= a@);
    r
}

/// Byte-wise equality.
pub fn bytes_eq(a: &[u8], b: &[u8]) -> (r: bool)
    ensures
        r == (a@ == b@),
{
    if a.len() != b.len() {
        return false;
    }
    let mut i: usize = 0;
    while i < a.len()
        invariant
            i <= a@.len() == b@.len(),
            forall|j: int| 0 <= j < i ==> a@[j] == b@[j],
        decreases a@.len() - i,
    {
        if a[i] != b[i] {
            return false;
        }
        i = i + 1;
    }
    assert(a@ =~= b@);
    true
}

proof fn lemma_map_of_append(a: Seq<(Seq<u8>, Seq<u8>)>, b: Seq<(Seq<u8>, Seq<u8>)>)
    ensures
        map_of(a + b) == map_of(a).union_prefer_right(map_of(b)),
    decreases b.len(),
{
    if b.len() == 0 {
        assert(a + b =~= a);
        assert(map_of(a).union_prefer_right(Map::empty()) =~= map_of(a));
    } else {
        let b0 = b.drop_last();
        lemma_map_of_append(a, b0);
        assert((a + b).drop_last() =~= a + b0);
        assert(map_of(a + b) =~= map_of(a).union_prefer_right(map_of(b)));
    }
}

impl PreimageMap {
    pub fn new() -> (r: PreimageMap)
        ensures
            r@ == Map::<Seq<u8>, Seq<u8>>::empty(),
    {
        let r = PreimageMap { entries: Vec::new() };
        assert(entries_view(r.entries@) =~= Seq::<(Seq<u8>, Seq<u8>)>::empty());
        r
    }

    /// Sets the owner of `key`.
    pub fn insert(&mut self, key: Vec<u8>, owner: Vec<u8>)
        ensures
            final(self)@ == old(self)@.insert(key@, owner@),
    {
        let ghost k = key@;
        let ghost o = owner@;
        self.entries.push((key, owner));
        assert(entries_view(self.entries@).drop_last() =~= entries_view(old(self).entries@));
    }

    /// Adds the pairs of `other`, which win over those already held.
    pub fn extend(&mut self, other: PreimageMap)
        ensures
            final(self)@ == old(self)@.union_prefer_right(other@),
    {
        let mut other = other;
        let ghost a = entries_view(self.entries@);
        let ghost b = entries_view(other.entries@);
        self.entries.append(&mut other.entries);
        proof {
            assert(entries_view(self.entries@) =~= a + b);
            lemma_map_of_append(a, b);
        }
    }

    /// The owner recorded for `key`.
    pub fn get(&self, key: &[u8]) -> (r: Option<&Vec<u8>>)
        ensures
            r is Some <==> self@.contains_key(key@),
            r matches Some(v) ==> v@ == self@[key@],
    {
        let ghost es = entries_view(self.entries@);
        let mut i: usize = self.entries.len();
        assert(es.subrange(0, i as int) =~= es);
        while i > 0
            invariant
                i <= self.entries@.len(),
                es == entries_view(self.entries@),
                map_of(es).contains_key(key@) == map_of(es.subrange(0, i as int)).contains_key(
                    key@,
                ),
                map_of(es).contains_key(key@) ==> map_of(es)[key@] == map_of(
                    es.subrange(0, i as int),
                )[key@],
            decreases i,
        {
            let ghost pre = es.subrange(0, i as int);
            assert(pre.drop_last() =~= es.subrange(0, i - 1));
            if bytes_eq(&self.entries[i - 1].0, key) {
                return Some(&self.entries[i - 1].1);
            }
            i = i - 1;
        }
        assert(es.subrange(0, 0) =~= Seq::<(Seq<u8>, Seq<u8>)>::empty());
        None
    }
}

/// Decodes the hex text `s`.
fn decode_text(s: &[u8]) -> (r: Result<Vec<u8>, MalformedHex>)
    ensures
        r is Ok <==> decodes_as_hex(s@),
        r matches Ok(v) ==> v@ == decoded_hex(s@),
{
    if s.len() < 2 {
        return Err(MalformedHex);
    }
    match hex_decode(s) {
        Ok(v) => Ok(v),
        Err(_) => Err(MalformedHex),
    }
}

/// Whether the preimage text has the shape of a balance slot's preimage.
pub fn is_balance_preimage_text(p: &[u8]) -> (r: bool)
    ensures
        r == is_balance_preimage(p@),
{
    if p.len() != 128 {
        return false;
    }
    let mut i: usize = 64;
    while i < 126
        invariant
            p@.len() == 128,
            64 <= i <= 126,
            forall|j: int| 64 <= j < i ==> p@[j] == 48u8,
        decreases 126 - i,
    {
        if p[i] != 48u8 {
            return false;
        }
        i = i + 1;
    }
    true
}

/// The owners of the storage slots whose preimages a call recorded. A
/// preimage of another shape gives no entry; hex that does not decode in a
/// slot hash or owner of the right shape is an error.
pub fn addresses_for_storage_keys(call: &Call) -> (r: Result<PreimageMap, MalformedHex>)
    ensures
        r is Ok <==> entries_decode(call.keccak_preimages@),
        r matches Ok(m) ==> m@ == resolved(call.keccak_preimages@),
{
    let es = &call.keccak_preimages;
    let mut out = PreimageMap::new();
    let mut i: usize = 0;
    while i < es.len()
        invariant
            es@ == call.keccak_preimages@,
            i <= es@.len(),
            entries_decode(es@.subrange(0, i as int)),
            out@ == resolved(es@.subrange(0, i as int)),
        decreases es@.len() - i,
    {
        let ghost pre = es@.subrange(0, i as int + 1);
        proof {
            assert(pre.drop_last() =~= es@.subrange(0, i as int));
        }
        let key = es[i].hash.as_str().as_bytes();
        let preimage = es[i].preimage.as_str().as_bytes();
        assert(key@ == es@[i as int]@.0);
        assert(preimage@ == es@[i as int]@.1);
        if is_balance_preimage_text(preimage) {
            let hash = match decode_text(key) {
                Ok(v) => v,
                Err(e) => {
                    assert(!entry_decodes(es@[i as int]@));
                    assert(!entries_decode(es@));
                    return Err(e);
                },
            };
            let owner = match decode_text(&preimage[24..64]) {
                Ok(v) => v,
                Err(e) => {
                    assert(preimage@.subrange(24, 64) == owner_text(preimage@));
                    assert(!entry_decodes(es@[i as int]@));
                    assert(!entries_decode(es@));
                    return Err(e);
                },
            };
            out.insert(hash, owner);
        }
        i = i + 1;
    }
    assert(es@.subrange(0, i as int) =~= es@);
    Ok(out)
}

/// The owner of the slot that a storage change wrote, if its preimage is
/// known.
pub fn get_keccak_address(keccak_address_map: &PreimageMap, storage_change: &StorageChange) -> (r:
    Option<Vec<u8>>)
    ensures
        r is Some <==> keccak_address_map@.contains_key(storage_change.key@),
        r matches Some(a) ==> a@ == keccak_address_map@[storage_change.key@],
{
    match keccak_address_map.get(storage_change.key.as_slice()) {
        Some(a) => Some(copy_bytes(a.as_slice())),
        None => None,
    }
}

/// A preimage whose text is not 128 characters long gives no entry and no
/// error: the map is what the entries before it give.
pub proof fn lemma_wrong_length_ignored(es: Seq<KeccakPreimage>, e: KeccakPreimage)
    requires
        e@.1.len() != 128,
    ensures
        resolved(es.push(e)) == resolved(es),
        entries_decode(es.push(e)) == entries_decode(es),
{
    assert(es.push(e).drop_last() =~= es);
    lemma_entries_decode_push(es, e);
}

/// A 128-character preimage whose slot word has a non-`0` digit among its
/// first 62 gives no entry and no error.
pub proof fn lemma_nonzero_padding_ignored(es: Seq<KeccakPreimage>, e: KeccakPreimage, j: int)
    requires
        64 <= j < 126,
        e@.1[j] != 48u8,
    ensures
        resolved(es.push(e)) == resolved(es),
        entries_decode(es.push(e)) == entries_decode(es),
{
    assert(!is_balance_preimage(e@.1));
    assert(es.push(e).drop_last() =~= es);
    lemma_entries_decode_push(es, e);
}

proof fn lemma_entries_decode_push(es: Seq<KeccakPreimage>, e: KeccakPreimage)
    ensures
        entries_decode(es.push(e)) == (entries_decode(es) && entry_decodes(e@)),
{
    let s = es.push(e);
    if entries_decode(s) {
        assert forall|i: int| 0 <= i < es.len() implies entry_decodes(#[trigger] es[i]@) by {
            assert(s[i] == es[i]);
        }
        assert(s[es.len() as int] == e);
    }
    if entries_decode(es) && entry_decodes(e@) {
        assert forall|i: int| 0 <= i < s.len() implies entry_decodes(#[trigger] s[i]@) by {
            if i < es.len() {
                assert(s[i] == es[i]);
            }
        }
    }
}

/// The preimage text of the balance slot of `owner` in a mapping declared at
/// slot `slot`: the address left-padded to 32 bytes, then the slot index as a
/// 32-byte word, in lower-case hex.
pub open spec fn canonical_preimage(owner: Seq<u8>, slot: u8) -> Seq<u8> {
    lower_hex(Seq::new(12, |i: int| 0u8) + owner + Seq::new(31, |i: int| 0u8) + seq![slot])
}

/// The preimage of the balance slot of an address resolves to that address,
/// for any slot index that fits in a byte.
pub proof fn lemma_canonical_preimage_resolves(
    es: Seq<KeccakPreimage>,
    e: KeccakPreimage,
    owner: Seq<u8>,
    slot: u8,
)
    requires
        owner.len() == 20,
        e@.1 == canonical_preimage(owner, slot),
        decodes_as_hex(e@.0),
    ensures
        resolved(es.push(e)) == resolved(es).insert(decoded_hex(e@.0), owner),
        entries_decode(es.push(e)) == entries_decode(es),
{
    let words = Seq::new(12, |i: int| 0u8) + owner + Seq::new(31, |i: int| 0u8) + seq![slot];
    let p = e@.1;
    assert(p == lower_hex(words));
    assert forall|i: int| 64 <= i < 126 implies #[trigger] p[i] == 48u8 by {
        assert(words[i / 2] == 0u8);
    }
    assert(is_balance_preimage(p));
    assert(owner_text(p) =~= lower_hex(owner)) by {
        assert forall|i: int| 0 <= i < 40 implies #[trigger] owner_text(p)[i] == lower_hex(owner)[i] by {
            assert((24 + i) / 2 == 12 + i / 2);
            assert((24 + i) % 2 == i % 2);
            assert(words[12 + i / 2] == owner[i / 2]);
        }
    }
    lemma_lower_hex_decodes(owner);
    assert(es.push(e).drop_last() =~= es);
    lemma_entries_decode_push(es, e);
}

} // verus!
