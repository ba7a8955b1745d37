//! Unsigned 256-bit integers, as bid values are.

use vstd::prelude::*;

verus! {

/// An unsigned 256-bit integer: `hi * 2^128 + lo`.
#[derive(Debug, Clone, Copy, PartialEq, Eq, Structural)]
pub struct U256 {
    pub hi: u128,
    pub lo: u128,
}

/// 2^128.
pub open spec fn two_pow_128() -> nat {
    0x1_0000_0000_0000_0000_0000_0000_0000_0000nat
}

impl U256 {
    /// The number this value stands for.
    pub open spec fn value(&self) -> nat {
        self.hi as nat * two_pow_128() + self.lo as nat
    }

    /// Zero.
    pub fn zero() -> (z: U256)
        ensures
            z.value() == 0,
    {
        U256 { hi: 0, lo: 0 }
    }

    /// A value below 2^128.
    pub fn from_u128(lo: u128) -> (v: U256)
        ensures
            v.value() == lo,
    {
        U256 { hi: 0, lo }
    }

    /// Whether `self` is greater than `other`.
    pub fn gt(&self, other: &U256) -> (greater: bool)
        ensures
            greater == (self.value() > other.value()),
    {
        proof { lemma_value_order(*self, *other); }
        self.hi > other.hi || (self.hi == other.hi && self.lo > other.lo)
    }

    /// Whether `self` is greater than or equal to `other`.
    pub fn ge(&self, other: &U256) -> (at_least: bool)
        ensures
            at_least == (self.value() >= other.value()),
    {
        proof { lemma_value_order(*self, *other); }
        self.hi > other.hi || (self.hi == other.hi && self.lo >= other.lo)
    }
}

/// `256^n`.
pub open spec fn byte_bound(n: nat) -> nat
    decreases n,
{
    if n == 0 { 1 } else { 256 * byte_bound((n - 1) as nat) }
}

/// The number that `bytes` encode, most significant byte first.
pub open spec fn be_value(bytes: Seq<u8>) -> nat
    decreases bytes.len(),
{
    if bytes.len() == 0 { 0 } else { be_value(bytes.drop_last()) * 256 + bytes.last() as nat }
}

/// `256^n` grows with `n`.
proof fn lemma_byte_bound_mono(m: nat, n: nat)
    requires
        m <= n,
    ensures
        byte_bound(m) <= byte_bound(n),
        byte_bound(m) >= 1,
    decreases n,
{
    if n > m {
        lemma_byte_bound_mono(m, (n - 1) as nat);
    } else if m > 0 {
        lemma_byte_bound_mono((m - 1) as nat, (m - 1) as nat);
    }
}

/// Appending bytes shifts the value of the prefix.
pub proof fn lemma_be_concat(a: Seq<u8>, b: Seq<u8>)
    ensures
        be_value(a + b) == be_value(a) * byte_bound(b.len()) + be_value(b),
    decreases b.len(),
{
    if b.len() == 0 {
        assert(a + b =~= a);
        assert(byte_bound(0) == 1);
        assert(be_value(b) == 0);
    } else {
        let c = b.drop_last();
        assert((a + b).drop_last() =~= a + c);
        assert((a + b).last() == b.last());
        lemma_be_concat(a, c);
        let x = be_value(a);
        let y = be_value(c);
        let k = byte_bound(c.len());
        assert(be_value(a + b) == be_value(a + c) * 256 + b.last() as nat);
        assert(be_value(b) == y * 256 + b.last() as nat);
        assert(byte_bound(b.len()) == 256 * k);
        assert(be_value(a + c) == x * k + y);
        assert((x * k + y) * 256 + b.last() == x * (256 * k) + (y * 256 + b.last())) by (nonlinear_arith);
    }
}

/// The value of `n` bytes is below `256^n`.
proof fn lemma_be_bound(bytes: Seq<u8>)
    ensures
        be_value(bytes) < byte_bound(bytes.len()),
    decreases bytes.len(),
{
    if bytes.len() > 0 {
        lemma_be_bound(bytes.drop_last());
        let v = be_value(bytes.drop_last());
        let k = byte_bound((bytes.len() - 1) as nat);
        assert(v * 256 + bytes.last() < 256 * k) by (nonlinear_arith)
            requires v < k, bytes.last() < 256;
    }
}

/// `256^16` is `2^128`.
proof fn lemma_byte_bound_16()
    ensures
        byte_bound(16) == two_pow_128(),
{
    reveal_with_fuel(byte_bound, 17);
}

/// The value of 16 bytes, most significant first.
fn be_u128(bytes: &[u8; 32], start: usize) -> (v: u128)
    requires
        start == 0 || start == 16,
    ensures
        v == be_value(bytes@.subrange(start as int, start + 16)),
{
    let mut acc: u128 = 0;
    let mut i: usize = 0;
    proof { lemma_byte_bound_16(); }
    while i < 16
        invariant
            start == 0 || start == 16,
            i <= 16,
            acc == be_value(bytes@.subrange(start as int, start + i)),
            acc < byte_bound(i as nat),
            byte_bound(16) == two_pow_128(),
        decreases 16 - i,
    {
        proof {
            let part = bytes@.subrange(start as int, start + i + 1);
            assert(part.drop_last() =~= bytes@.subrange(start as int, start + i));
            assert(part.last() == bytes@[start + i]);
            lemma_be_bound(part);
            lemma_byte_bound_mono((i + 1) as nat, 16);
        }
        acc = acc * 256 + bytes[start + i] as u128;
        i = i + 1;
    }
    acc
}

impl U256 {
    /// The value that 32 bytes encode, most significant byte first.
    pub fn from_be_bytes(bytes: &[u8; 32]) -> (v: U256)
        ensures
            v.value() == be_value(bytes@),
    {
        let hi = be_u128(bytes, 0);
        let lo = be_u128(bytes, 16);
        proof {
            let a = bytes@.subrange(0, 16);
            let b = bytes@.subrange(16, 32);
            assert(a + b =~= bytes@);
            lemma_be_concat(a, b);
            lemma_byte_bound_16();
        }
        U256 { hi, lo }
    }

    /// `self - other`, or zero when `other` is larger.
    pub fn saturating_sub(&self, other: &U256) -> (d: U256)
        ensures
            d.value() == if self.value() >= other.value() { self.value() - other.value() } else { 0 },
    {
        proof { lemma_value_order(*self, *other); }
        if !self.ge(other) {
            return U256 { hi: 0, lo: 0 };
        }
        let ghost p = two_pow_128();
        if self.lo >= other.lo {
            let d = U256 { hi: self.hi - other.hi, lo: self.lo - other.lo };
            assert(d.value() == self.value() - other.value()) by (nonlinear_arith)
                requires
                    d.hi == self.hi - other.hi,
                    d.lo == self.lo - other.lo,
                    d.value() == d.hi * p + d.lo,
                    self.value() == self.hi * p + self.lo,
                    other.value() == other.hi * p + other.lo;
            d
        } else {
            let lo = (u128::MAX - other.lo) + self.lo + 1;
            let d = U256 { hi: self.hi - other.hi - 1, lo };
            assert(p == u128::MAX + 1);
            assert(d.value() == self.value() - other.value()) by (nonlinear_arith)
                requires
                    d.hi == self.hi - other.hi - 1,
                    d.lo == p - other.lo + self.lo,
                    d.value() == d.hi * p + d.lo,
                    self.value() == self.hi * p + self.lo,
                    other.value() == other.hi * p + other.lo;
            d
        }
    }

    /// The value as a `u64`, or zero when it does not fit.
    pub fn to_u64_or_zero(&self) -> (v: u64)
        ensures
            v == if self.value() <= u64::MAX { self.value() } else { 0 },
    {
        if self.hi == 0 && self.lo <= u64::MAX as u128 {
            self.lo as u64
        } else {
            proof {
                if self.hi > 0 {
                    assert(self.hi as nat * two_pow_128() >= two_pow_128()) by (nonlinear_arith)
                        requires self.hi > 0;
                }
            }
            0
        }
    }

    /// Whether the value is zero.
    pub fn is_zero(&self) -> (zero: bool)
        ensures
            zero == (self.value() == 0),
    {
        proof {
            if self.hi > 0 {
                assert(self.hi as nat * two_pow_128() >= two_pow_128()) by (nonlinear_arith)
                    requires self.hi > 0;
            }
        }
        self.hi == 0 && self.lo == 0
    }
}

/// 2^64.
pub open spec fn two_pow_64() -> nat {
    0x1_0000_0000_0000_0000nat
}

/// One step of long division: bringing down the next limb.
proof fn lemma_division_step(q: nat, d: nat, r: nat, limb: nat, q_i: nat, r_next: nat)
    requires
        r * two_pow_64() + limb == q_i * d + r_next,
    ensures
        (q * d + r) * two_pow_64() + limb == (q * two_pow_64() + q_i) * d + r_next,
{
    assert((q * d + r) * two_pow_64() + limb == q * two_pow_64() * d + (r * two_pow_64() + limb)) by (nonlinear_arith);
    assert(q * two_pow_64() * d + q_i * d == (q * two_pow_64() + q_i) * d) by (nonlinear_arith);
}

/// Four limbs, most significant first, in two halves of two limbs each.
proof fn lemma_halves(a: nat, b: nat, c: nat, e: nat)
    ensures
        (a * two_pow_64() + b) * two_pow_128() + (c * two_pow_64() + e)
            == ((a * two_pow_64() + b) * two_pow_64() + c) * two_pow_64() + e,
{
    assert(two_pow_128() == two_pow_64() * two_pow_64());
    let x = a * two_pow_64() + b;
    assert(x * (two_pow_64() * two_pow_64()) + (c * two_pow_64() + e) == (x * two_pow_64() + c) * two_pow_64() + e)
        by (nonlinear_arith);
}

/// The decimal digit character of `d`, below ten.
fn digit_text(d: u64) -> (text: String)
    requires
        d < 10,
    ensures
        text@ == seq![crate::text::digit_char(d as nat)],
{
    let t = crate::text::u64_to_decimal(d);
    proof {
        assert(crate::text::decimal(d as nat) == seq![crate::text::digit_char(d as nat)]);
    }
    t
}

impl U256 {
    /// Splits the value into its four 64-bit limbs, most significant first.
    fn limbs(&self) -> (limbs: (u64, u64, u64, u64))
        ensures
            self.hi == limbs.0 as nat * two_pow_64() + limbs.1 as nat,
            self.lo == limbs.2 as nat * two_pow_64() + limbs.3 as nat,
    {
        let b: u128 = 0x1_0000_0000_0000_0000;
        let h1 = (self.hi / b) as u64;
        let h0 = (self.hi % b) as u64;
        let l1 = (self.lo / b) as u64;
        let l0 = (self.lo % b) as u64;
        assert(self.hi == (self.hi / b) * b + self.hi % b);
        assert(self.lo == (self.lo / b) * b + self.lo % b);
        (h1, h0, l1, l0)
    }

    /// Divides by `d`, giving the quotient and the remainder.
    pub fn div_rem_u64(&self, d: u64) -> (qr: (U256, u64))
        requires
            d > 0,
        ensures
            qr.0.value() * d + qr.1 == self.value(),
            qr.1 < d,
    {
        let (x0, x1, x2, x3) = self.limbs();
        let b: u128 = 0x1_0000_0000_0000_0000;
        let dd = d as u128;
        assert(b == two_pow_64());
        assert(dd * b <= u128::MAX) by (nonlinear_arith) requires dd < b, b == 0x1_0000_0000_0000_0000u128;
        let c0 = x0 as u128;
        let q0 = c0 / dd;
        let r0 = c0 % dd;
        assert(q0 < b) by (nonlinear_arith) requires q0 == c0 / dd, c0 < b, dd >= 1;
        assert(r0 * b + (x1 as u128) < dd * b) by (nonlinear_arith) requires r0 < dd, x1 < b;
        let c1 = r0 * b + x1 as u128;
        let q1 = c1 / dd;
        let r1 = c1 % dd;
        assert(q1 < b) by (nonlinear_arith) requires q1 == c1 / dd, c1 < dd * b, dd >= 1;
        assert(r1 * b + (x2 as u128) < dd * b) by (nonlinear_arith) requires r1 < dd, x2 < b;
        let c2 = r1 * b + x2 as u128;
        let q2 = c2 / dd;
        let r2 = c2 % dd;
        assert(q2 < b) by (nonlinear_arith) requires q2 == c2 / dd, c2 < dd * b, dd >= 1;
        assert(r2 * b + (x3 as u128) < dd * b) by (nonlinear_arith) requires r2 < dd, x3 < b;
        let c3 = r2 * b + x3 as u128;
        let q3 = c3 / dd;
        let r3 = c3 % dd;
        assert(q3 < b) by (nonlinear_arith) requires q3 == c3 / dd, c3 < dd * b, dd >= 1;
        assert(q0 * b + q1 <= u128::MAX) by (nonlinear_arith) requires q0 < b, q1 < b, b == 0x1_0000_0000_0000_0000u128;
        assert(q2 * b + q3 <= u128::MAX) by (nonlinear_arith) requires q2 < b, q3 < b, b == 0x1_0000_0000_0000_0000u128;
        let qv = U256 { hi: q0 * b + q1, lo: q2 * b + q3 };
        proof {
            let bb = two_pow_64();
            assert(c0 == q0 * dd + r0) by (nonlinear_arith) requires q0 == c0 / dd, r0 == c0 % dd, dd >= 1;
            assert(c1 == q1 * dd + r1) by (nonlinear_arith) requires q1 == c1 / dd, r1 == c1 % dd, dd >= 1;
            assert(c2 == q2 * dd + r2) by (nonlinear_arith) requires q2 == c2 / dd, r2 == c2 % dd, dd >= 1;
            assert(c3 == q3 * dd + r3) by (nonlinear_arith) requires q3 == c3 / dd, r3 == c3 % dd, dd >= 1;
            lemma_division_step(q0 as nat, d as nat, r0 as nat, x1 as nat, q1 as nat, r1 as nat);
            let qa: nat = (q0 as nat) * bb + (q1 as nat);
            lemma_division_step(qa, d as nat, r1 as nat, x2 as nat, q2 as nat, r2 as nat);
            let qb: nat = qa * bb + (q2 as nat);
            lemma_division_step(qb, d as nat, r2 as nat, x3 as nat, q3 as nat, r3 as nat);
            lemma_halves(x0 as nat, x1 as nat, x2 as nat, x3 as nat);
            lemma_halves(q0 as nat, q1 as nat, q2 as nat, q3 as nat);
        }
        (qv, r3 as u64)
    }

    /// The value in decimal, without leading zeros.
    pub fn to_decimal(&self) -> (text: String)
        ensures
            text@ == crate::text::decimal(self.value()),
        decreases self.value(),
    {
        let (q, r) = self.div_rem_u64(10);
        if q.is_zero() {
            return digit_text(r);
        }
        proof {
            assert(q.value() < self.value()) by (nonlinear_arith) requires q.value() * 10 + r == self.value(), q.value() > 0;
            assert(q.value() == self.value() / 10 && r == self.value() % 10) by (nonlinear_arith)
                requires q.value() * 10 + r == self.value(), r < 10;
        }
        let mut text = q.to_decimal();
        text.append(digit_text(r).as_str());
        text
    }
}

/// Values compare as their high halves, then their low halves.
pub proof fn lemma_value_order(a: U256, b: U256)
    ensures
        a.hi > b.hi ==> a.value() > b.value(),
        a.hi < b.hi ==> a.value() < b.value(),
        a.hi == b.hi ==> (a.value() > b.value() <==> a.lo > b.lo) && (a.value() == b.value() <==> a.lo == b.lo),
{
    let p = two_pow_128();
    if a.hi > b.hi {
        assert(a.hi as nat * p >= (b.hi as nat + 1) * p) by (nonlinear_arith)
            requires a.hi as nat >= b.hi as nat + 1;
        assert((b.hi as nat + 1) * p == b.hi as nat * p + p) by (nonlinear_arith);
    }
    if a.hi < b.hi {
        assert(b.hi as nat * p >= (a.hi as nat + 1) * p) by (nonlinear_arith)
            requires b.hi as nat >= a.hi as nat + 1;
        assert((a.hi as nat + 1) * p == a.hi as nat * p + p) by (nonlinear_arith);
    }
}

} // verus!
