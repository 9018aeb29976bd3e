//! Fixed-size EVM values: 20-byte addresses, 32-byte words and 256-bit integers.

use vstd::prelude::*;

verus! {

/// The last `n` bytes of `x`'s big-endian encoding: `x mod 256^n`, most
/// significant byte first.
pub open spec fn be_bytes(x: nat, n: nat) -> Seq<u8>
    decreases n,
{
    if n == 0 {
        Seq::empty()
    } else {
        be_bytes(x / 256, (n - 1) as nat).push((x % 256) as u8)
    }
}

/// 256^k.
pub open spec fn pow256(k: nat) -> nat
    decreases k,
{
    if k == 0 {
        1
    } else {
        256 * pow256((k - 1) as nat)
    }
}

/// 256^(a + b) = 256^a * 256^b.
proof fn lemma_pow256_adds(a: nat, b: nat)
    ensures
        pow256(a + b) == pow256(a) * pow256(b),
    decreases a,
{
    if a > 0 {
        lemma_pow256_adds((a - 1) as nat, b);
        assert((a + b - 1) as nat == (a - 1) as nat + b);
        let (p, q) = (pow256((a - 1) as nat) as int, pow256(b) as int);
        assert(pow256(a + b) == 256 * pow256((a + b - 1) as nat));
        assert(pow256(a) == 256 * p);
        assert(256 * (p * q) == (256 * p) * q) by (nonlinear_arith);
    } else {
        assert(pow256(a) == 1);
        assert(a + b == b);
    }
}

/// Encoding `h * 256^k + l`, with `l < 256^k`, in `n + k` bytes puts the `n`
/// bytes of `h` before the `k` bytes of `l`.
pub proof fn lemma_be_bytes_split(h: nat, l: nat, n: nat, k: nat)
    requires
        l < pow256(k),
    ensures
        be_bytes(h * pow256(k) + l, n + k) == be_bytes(h, n) + be_bytes(l, k),
    decreases k,
{
    if k == 0 {
        assert(be_bytes(h, n) + be_bytes(l, k) =~= be_bytes(h, n));
    } else {
        let p = pow256((k - 1) as nat);
        let x = h * pow256(k) + l;
        let q = h * p + l / 256;
        assert(l == (l / 256) * 256 + l % 256) by (nonlinear_arith);
        assert(x == q * 256 + l % 256) by (nonlinear_arith)
            requires
                x == h * (256 * p) + l,
                q == h * p + l / 256,
                l == (l / 256) * 256 + l % 256,
        ;
        vstd::arithmetic::div_mod::lemma_fundamental_div_mod_converse(
            x as int,
            256,
            q as int,
            (l % 256) as int,
        );
        assert(l / 256 < p) by (nonlinear_arith)
            requires
                l < 256 * p,
        ;
        lemma_be_bytes_split(h, l / 256, n, (k - 1) as nat);
        assert((n + k - 1) as nat == n + (k - 1) as nat);
        assert(be_bytes(x, n + k) == be_bytes(q, (n + k - 1) as nat).push((l % 256) as u8));
        assert(be_bytes(l, k) == be_bytes(l / 256, (k - 1) as nat).push((l % 256) as u8));
        assert(be_bytes(x, n + k) =~= be_bytes(h, n) + be_bytes(l, k));
    }
}

/// Below 256^n, the `n`-byte encoding determines the integer.
pub proof fn lemma_be_bytes_injective(x: nat, y: nat, n: nat)
    requires
        x < pow256(n),
        y < pow256(n),
        be_bytes(x, n) == be_bytes(y, n),
    ensures
        x == y,
    decreases n,
{
    if n > 0 {
        let p = pow256((n - 1) as nat);
        assert(be_bytes(x, n).last() == (x % 256) as u8);
        assert(be_bytes(y, n).last() == (y % 256) as u8);
        assert(x % 256 == y % 256);
        assert(be_bytes(x / 256, (n - 1) as nat) =~= be_bytes(x, n).drop_last());
        assert(be_bytes(y / 256, (n - 1) as nat) =~= be_bytes(y, n).drop_last());
        assert(x / 256 < p && y / 256 < p) by (nonlinear_arith)
            requires
                x < 256 * p,
                y < 256 * p,
        ;
        lemma_be_bytes_injective(x / 256, y / 256, (n - 1) as nat);
        assert(x == (x / 256) * 256 + x % 256) by (nonlinear_arith);
        assert(y == (y / 256) * 256 + y % 256) by (nonlinear_arith);
    }
}

/// 256^32 is 2^256, so every `U256` fits in 32 bytes.
pub proof fn lemma_u256_fits(a: U256)
    ensures
        a@ < pow256(32),
{
    lemma_u256_bound(a);
    reveal_with_fuel(pow256, 17);
    assert(pow256(16) == half_modulus());
    lemma_pow256_adds(16, 16);
}

/// An `n`-byte encoding has `n` bytes.
pub proof fn lemma_be_bytes_len(x: nat, n: nat)
    ensures
        be_bytes(x, n).len() == n,
    decreases n,
{
    if n > 0 {
        lemma_be_bytes_len(x / 256, (n - 1) as nat);
    }
}

/// 2^128, the weight of the high half of a `U256`.
pub open spec fn half_modulus() -> nat {
    u128::MAX as nat + 1
}

/// 2^256, one more than the largest `U256`.
pub open spec fn modulus() -> nat {
    half_modulus() * half_modulus()
}

/// The last `n` bytes of `x`'s big-endian encoding.
fn u128_be_bytes(x: u128, n: usize) -> (r: Vec<u8>)
    ensures
        r@ == be_bytes(x as nat, n as nat),
    decreases n,
{
    if n == 0 {
        Vec::new()
    } else {
        let mut r = u128_be_bytes(x / 256, n - 1);
        r.push((x % 256) as u8);
        r
    }
}

/// Appends the bytes of `src` to `out`.
pub fn append_bytes(out: &mut Vec<u8>, src: &[u8])
    ensures
        final(out)@ == old(out)@ + src@,
{
    let mut i: usize = 0;
    while i < src.len()
        invariant
            i <= src@.len(),
            out@ == old(out)@ + src@.subrange(0, i as int),
        decreases src@.len() - i,
    {
        out.push(src[i]);
        i += 1;
        assert(src@.subrange(0, i as int) =~= src@.subrange(0, i - 1 as int).push(src@[i - 1]));
    }
    assert(src@.subrange(0, i as int) =~= src@);
}

/// Whether every byte of `s` is zero.
pub open spec fn all_zero(s: Seq<u8>) -> bool {
    forall|i: int| 0 <= i < s.len() ==> #[trigger] s[i] == 0u8
}

/// A 20-byte account address.
#[derive(Clone, Copy, Debug)]
pub struct Address {
    pub bytes: [u8; 20],
}

impl View for Address {
    type V = Seq<u8>;

    open spec fn view(&self) -> Seq<u8> {
        self.bytes@
    }
}

impl Address {
    pub fn new(bytes: [u8; 20]) -> (r: Address)
        ensures
            r@ == bytes@,
    {
        Address { bytes }
    }

    /// The all-zero address.
    pub fn zero() -> (r: Address)
        ensures
            r.is_zero_spec(),
    {
        Address { bytes: [0u8, 0, 0, 0, 0, 0, 0, 0, 0, 0, 0, 0, 0, 0, 0, 0, 0, 0, 0, 0] }
    }

    pub open spec fn is_zero_spec(&self) -> bool {
        all_zero(self@)
    }

    pub fn is_zero(&self) -> (r: bool)
        ensures
            r == self.is_zero_spec(),
    {
        let mut i: usize = 0;
        while i < 20
            invariant
                i <= 20,
                forall|j: int| 0 <= j < i ==> #[trigger] self@[j] == 0u8,
            decreases 20 - i,
        {
            if self.bytes[i] != 0 {
                assert(self@[i as int] != 0u8);
                return false;
            }
            i += 1;
        }
        true
    }

    pub fn same_as(&self, other: &Address) -> (r: bool)
        ensures
            r == (self@ == other@),
    {
        let mut i: usize = 0;
        while i < 20
            invariant
                i <= 20,
                forall|j: int| 0 <= j < i ==> #[trigger] self@[j] == other@[j],
            decreases 20 - i,
        {
            if self.bytes[i] != other.bytes[i] {
                assert(self@[i as int] != other@[i as int]);
                return false;
            }
            i += 1;
        }
        assert(self@ =~= other@);
        true
    }
}

impl PartialEq for Address {
    fn eq(&self, other: &Address) -> (r: bool) {
        self.same_as(other)
    }
}

impl vstd::std_specs::cmp::PartialEqSpecImpl for Address {
    open spec fn obeys_eq_spec() -> bool {
        true
    }

    open spec fn eq_spec(&self, other: &Address) -> bool {
        self@ == other@
    }
}

impl Eq for Address {

}


/// A 32-byte word, such as a hash.
#[derive(Clone, Copy, Debug)]
pub struct B256 {
    pub bytes: [u8; 32],
}

impl View for B256 {
    type V = Seq<u8>;

    open spec fn view(&self) -> Seq<u8> {
        self.bytes@
    }
}

impl B256 {
    pub fn new(bytes: [u8; 32]) -> (r: B256)
        ensures
            r@ == bytes@,
    {
        B256 { bytes }
    }

    pub fn same_as(&self, other: &B256) -> (r: bool)
        ensures
            r == (self@ == other@),
    {
        let mut i: usize = 0;
        while i < 32
            invariant
                i <= 32,
                forall|j: int| 0 <= j < i ==> #[trigger] self@[j] == other@[j],
            decreases 32 - i,
        {
            if self.bytes[i] != other.bytes[i] {
                assert(self@[i as int] != other@[i as int]);
                return false;
            }
            i += 1;
        }
        assert(self@ =~= other@);
        true
    }
}

impl PartialEq for B256 {
    fn eq(&self, other: &B256) -> (r: bool) {
        self.same_as(other)
    }
}

impl vstd::std_specs::cmp::PartialEqSpecImpl for B256 {
    open spec fn obeys_eq_spec() -> bool {
        true
    }

    open spec fn eq_spec(&self, other: &B256) -> bool {
        self@ == other@
    }
}

impl Eq for B256 {

}

/// An unsigned 256-bit integer, held as its high and low 128-bit halves.
#[derive(Clone, Copy, Debug, PartialEq, Eq, Structural)]
pub struct U256 {
    pub hi: u128,
    pub lo: u128,
}

impl View for U256 {
    type V = nat;

    open spec fn view(&self) -> nat {
        self.hi as nat * half_modulus() + self.lo as nat
    }
}

/// Two `U256` values are equal exactly when they denote the same integer.
pub proof fn lemma_u256_view_injective(a: U256, b: U256)
    ensures
        (a@ == b@) == (a == b),
{
    let m = half_modulus() as int;
    let (ah, al, bh, bl) = (a.hi as int, a.lo as int, b.hi as int, b.lo as int);
    if a@ == b@ {
        assert(ah == bh && al == bl) by (nonlinear_arith)
            requires
                ah * m + al == bh * m + bl,
                0 <= al < m,
                0 <= bl < m,
                0 <= ah,
                0 <= bh,
        ;
    }
}

/// Every `U256` lies below 2^256.
pub proof fn lemma_u256_bound(a: U256)
    ensures
        a@ < modulus(),
{
    let m = half_modulus() as int;
    let (h, l) = (a.hi as int, a.lo as int);
    assert(h * m + l < m * m) by (nonlinear_arith)
        requires
            0 <= h < m,
            0 <= l < m,
    ;
}

impl U256 {
    pub fn new(hi: u128, lo: u128) -> (r: U256)
        ensures
            r.hi == hi,
            r.lo == lo,
    {
        U256 { hi, lo }
    }

    pub fn from_u128(x: u128) -> (r: U256)
        ensures
            r@ == x as nat,
    {
        U256 { hi: 0, lo: x }
    }

    pub fn zero() -> (r: U256)
        ensures
            r@ == 0,
            r == (U256 { hi: 0, lo: 0 }),
    {
        U256 { hi: 0, lo: 0 }
    }

    /// The two halves' bytes, high half first, are the 32-byte big-endian
    /// encoding of the integer.
    proof fn lemma_halves_encoding(&self)
        ensures
            be_bytes(self.hi as nat, 16) + be_bytes(self.lo as nat, 16) == be_bytes(self@, 32),
    {
        reveal_with_fuel(pow256, 17);
        assert(pow256(16) == half_modulus());
        lemma_be_bytes_split(self.hi as nat, self.lo as nat, 16, 16);
    }

    /// The 32-byte big-endian encoding of `self`.
    pub fn to_be_bytes(&self) -> (r: Vec<u8>)
        ensures
            r@ == be_bytes(self@, 32),
    {
        let mut out = u128_be_bytes(self.hi, 16);
        let lo = u128_be_bytes(self.lo, 16);
        append_bytes(&mut out, lo.as_slice());
        proof {
            self.lemma_halves_encoding();
        }
        out
    }

    /// Whether `self` is numerically less than `other`.
    pub fn lt(&self, other: &U256) -> (r: bool)
        ensures
            r == (self@ < other@),
    {
        proof {
            let m = half_modulus() as int;
            let (ah, al, bh, bl) = (self.hi as int, self.lo as int, other.hi as int, other.lo as int);
            assert(ah < bh ==> ah * m + al < bh * m + bl) by (nonlinear_arith)
                requires
                    0 <= al < m,
                    0 <= bl < m,
            ;
            assert(bh < ah ==> bh * m + bl < ah * m + al) by (nonlinear_arith)
                requires
                    0 <= al < m,
                    0 <= bl < m,
            ;
        }
        if self.hi != other.hi {
            self.hi < other.hi
        } else {
            self.lo < other.lo
        }
    }

    /// Whether `self` and `other` denote the same integer.
    pub fn same_as(&self, other: &U256) -> (r: bool)
        ensures
            r == (self@ == other@),
    {
        proof {
            lemma_u256_view_injective(*self, *other);
        }
        self.hi == other.hi && self.lo == other.lo
    }

    /// `self + 1`, wrapping to zero past the largest value.
    pub fn wrapping_inc(&self) -> (r: U256)
        ensures
            r@ == (self@ + 1) % modulus(),
    {
        let m: Ghost<int> = Ghost(half_modulus() as int);
        if self.lo < u128::MAX {
            let r = U256 { hi: self.hi, lo: self.lo + 1 };
            proof {
                let (h, l) = (self.hi as int, self.lo as int);
                assert(h * m@ + l + 1 < m@ * m@) by (nonlinear_arith)
                    requires
                        0 <= h < m@,
                        0 <= l + 1 < m@,
                ;
                vstd::arithmetic::div_mod::lemma_small_mod((self@ + 1) as nat, modulus());
            }
            r
        } else if self.hi < u128::MAX {
            let r = U256 { hi: self.hi + 1, lo: 0 };
            proof {
                let h = self.hi as int;
                assert(h * m@ + (m@ - 1) + 1 == (h + 1) * m@ + 0) by (nonlinear_arith);
                assert((h + 1) * m@ < m@ * m@) by (nonlinear_arith)
                    requires
                        0 <= h + 1 < m@,
                ;
                vstd::arithmetic::div_mod::lemma_small_mod((self@ + 1) as nat, modulus());
            }
            r
        } else {
            proof {
                assert(self@ + 1 == m@ * m@) by (nonlinear_arith)
                    requires
                        self@ == (m@ - 1) * m@ + (m@ - 1),
                ;
                vstd::arithmetic::div_mod::lemma_mod_self_0(modulus() as int);
            }
            U256 { hi: 0, lo: 0 }
        }
    }
}
} // verus!
