//! Unsigned 256-bit amounts and their big-endian byte encoding.
use vstd::prelude::*;

verus! {

/// `2^128`, the weight of the high half of a `U256`.
pub open spec fn half_base() -> nat {
    0x1_0000_0000_0000_0000_0000_0000_0000_0000nat
}

/// `256^n`.
pub open spec fn pow256(n: nat) -> nat
    decreases n,
{
    if n == 0 {
        1
    } else {
        256 * pow256((n - 1) as nat)
    }
}

/// The unsigned integer that a big-endian byte string encodes.
pub open spec fn be_nat(s: Seq<u8>) -> nat
    decreases s.len(),
{
    if s.len() == 0 {
        0
    } else {
        be_nat(s.drop_last()) * 256 + s.last() as nat
    }
}

pub proof fn lemma_pow256_pos(n: nat)
    ensures
        pow256(n) >= 1,
    decreases n,
{
    if n > 0 {
        lemma_pow256_pos((n - 1) as nat);
    }
}

pub proof fn lemma_pow256_16()
    ensures
        pow256(16) == half_base(),
{
    reveal_with_fuel(pow256, 17);
}

pub proof fn lemma_be_nat_bound(s: Seq<u8>)
    ensures
        be_nat(s) < pow256(s.len()),
    decreases s.len(),
{
    if s.len() > 0 {
        let p = s.drop_last();
        lemma_be_nat_bound(p);
        let a = be_nat(p);
        let q = pow256(p.len());
        assert(a * 256 + s.last() < q * 256) by (nonlinear_arith)
            requires
                a < q,
                s.last() < 256,
        ;
    }
}

/// Splitting a byte string splits its value.
pub proof fn lemma_be_nat_concat(a: Seq<u8>, b: Seq<u8>)
    ensures
        be_nat(a + b) == be_nat(a) * pow256(b.len()) + be_nat(b),
    decreases b.len(),
{
    if b.len() == 0 {
        assert(a + b =~= a);
        assert(pow256(0) == 1);
        assert(be_nat(b) == 0);
    } else {
        let b0 = b.drop_last();
        lemma_be_nat_concat(a, b0);
        assert((a + b).drop_last() =~= a + b0);
        let x = be_nat(a);
        let p = pow256(b0.len());
        let y = be_nat(b0);
        assert((a + b).last() == b.last());
        assert(be_nat(a + b) == be_nat(a + b0) * 256 + b.last());
        assert(pow256(b.len()) == 256 * p);
        assert(be_nat(b) == y * 256 + b.last());
        assert((x * p + y) * 256 + b.last() == x * (256 * p) + (y * 256 + b.last()))
            by (nonlinear_arith);
        assert(be_nat(a + b) == x * pow256(b.len()) + be_nat(b));
    }
}

/// An unsigned 256-bit integer held as two 128-bit halves.
#[derive(Clone, Copy, Debug, PartialEq, Eq)]
pub struct U256 {
    pub hi: u128,
    pub lo: u128,
}

impl View for U256 {
    type V = nat;

    open spec fn view(&self) -> nat {
        self.hi as nat * half_base() + self.lo as nat
    }
}

/// `|a - b|` over the integers.
pub open spec fn abs_diff(a: int, b: int) -> nat {
    if a >= b {
        (a - b) as nat
    } else {
        (b - a) as nat
    }
}

/// Reads at most 16 bytes, big-endian, into a `u128`.
fn load_be(b: &[u8], start: usize, end: usize) -> (r: u128)
    requires
        start <= end <= b@.len(),
        end - start <= 16,
    ensures
        r as nat == be_nat(b@.subrange(start as int, end as int)),
{
    let mut acc: u128 = 0;
    let mut i: usize = start;
    proof {
        lemma_pow256_16();
        assert(b@.subrange(start as int, start as int) =~= Seq::<u8>::empty());
    }
    while i < end
        invariant
            start <= i <= end <= b@.len(),
            end - start <= 16,
            pow256(16) == half_base(),
            acc as nat == be_nat(b@.subrange(start as int, i as int)),
        decreases end - i,
    {
        let ghost s = b@.subrange(start as int, i as int + 1);
        proof {
            assert(s.drop_last() =~= b@.subrange(start as int, i as int));
            lemma_be_nat_bound(s);
            lemma_pow256_mono(s.len(), 16);
        }
        acc = acc * 256 + b[i] as u128;
        i = i + 1;
    }
    acc
}

pub proof fn lemma_pow256_mono(m: nat, n: nat)
    requires
        m <= n,
    ensures
        pow256(m) <= pow256(n),
    decreases n,
{
    if m < n {
        lemma_pow256_mono(m, (n - 1) as nat);
    }
}

impl U256 {
    pub fn zero() -> (r: U256)
        ensures
            r@ == 0,
    {
        U256 { hi: 0, lo: 0 }
    }

    pub fn from_u128(v: u128) -> (r: U256)
        ensures
            r@ == v,
    {
        U256 { hi: 0, lo: v }
    }

    pub fn is_zero(&self) -> (r: bool)
        ensures
            r == (self@ == 0),
    {
        self.hi == 0 && self.lo == 0
    }

    /// Reads a big-endian byte string of at most 32 bytes; a longer one is
    /// refused.
    pub fn from_be_bytes(b: &[u8]) -> (r: Option<U256>)
        ensures
            r is Some <==> b@.len() <= 32,
            r matches Some(v) ==> v@ == be_nat(b@),
    {
        let n = b.len();
        if n > 32 {
            return None;
        }
        let mid: usize = if n > 16 { n - 16 } else { 0 };
        let hi = load_be(b, 0, mid);
        let lo = load_be(b, mid, n);
        proof {
            let hs = b@.subrange(0, mid as int);
            let ls = b@.subrange(mid as int, n as int);
            assert(b@ =~= hs + ls);
            lemma_be_nat_concat(hs, ls);
            if n > 16 {
                lemma_pow256_16();
            } else {
                assert(hs.len() == 0);
                assert(pow256(ls.len()) >= 1) by { lemma_pow256_pos(ls.len()); }
            }
        }
        Some(U256 { hi, lo })
    }

    /// `self >= o`.
    pub fn ge(&self, o: &U256) -> (r: bool)
        ensures
            r == (self@ >= o@),
    {
        self.hi > o.hi || (self.hi == o.hi && self.lo >= o.lo)
    }

    /// `self - o`, for `self >= o`.
    pub fn sub(&self, o: &U256) -> (r: U256)
        requires
            self@ >= o@,
        ensures
            r@ == self@ - o@,
    {
        if self.lo >= o.lo {
            U256 { hi: self.hi - o.hi, lo: self.lo - o.lo }
        } else {
            U256 { hi: self.hi - o.hi - 1, lo: (u128::MAX - o.lo) + self.lo + 1 }
        }
    }

    /// `|self - o|`.
    pub fn abs_diff(&self, o: &U256) -> (r: U256)
        ensures
            r@ == abs_diff(self@ as int, o@ as int),
    {
        if self.ge(o) {
            self.sub(o)
        } else {
            o.sub(self)
        }
    }

    /// `self <= 1`.
    pub fn is_at_most_one(&self) -> (r: bool)
        ensures
            r == (self@ <= 1),
    {
        self.hi == 0 && self.lo <= 1
    }
}

} // verus!
