//! A 192-bit unsigned integer for intermediate products in the venue-D
//! funding math. Arithmetic is checked: multiplication fails when the
//! true product needs more than 192 bits, division fails only on a zero
//! divisor.

use vstd::prelude::*;

use crate::errors::{DriftError, DriftResult};

verus! {

/// 2^64, the base used to split 128-bit operands.
pub const BASE64: u128 = 0x1_0000_0000_0000_0000;

/// A 192-bit unsigned integer, stored as a low 128-bit half and a high
/// 64-bit half; the value is `lo + hi * 2^128`.
#[derive(Clone, Copy, PartialEq, Eq, Structural, Debug)]
pub struct U192 {
    pub lo: u128,
    pub hi: u64,
}

impl U192 {
    /// The mathematical value.
    pub open spec fn as_nat(self) -> int {
        self.lo + self.hi * 0x1_0000_0000_0000_0000_0000_0000_0000_0000int
    }

    pub open spec fn spec_from_u128(x: u128) -> U192 {
        U192 { lo: x, hi: 0 }
    }

    pub fn zero() -> (r: U192)
        ensures
            r.as_nat() == 0,
    {
        U192 { lo: 0, hi: 0 }
    }

    pub fn from_u128(x: u128) -> (r: U192)
        ensures
            r.as_nat() == x,
            r == U192::spec_from_u128(x),
    {
        U192 { lo: x, hi: 0 }
    }

    pub fn from_u64(x: u64) -> (r: U192)
        ensures
            r.as_nat() == x,
    {
        U192 { lo: x as u128, hi: 0 }
    }

    pub fn to_u64(self) -> (r: DriftResult<u64>)
        ensures
            match r {
                Ok(v) => v == self.as_nat(),
                Err(e) => e == DriftError::MathError && self.as_nat() > u64::MAX,
            },
    {
        if self.hi == 0 && self.lo <= u64::MAX as u128 {
            Ok(self.lo as u64)
        } else {
            Err(DriftError::MathError)
        }
    }

    pub fn to_u128(self) -> (r: DriftResult<u128>)
        ensures
            match r {
                Ok(v) => v == self.as_nat(),
                Err(e) => e == DriftError::MathError && self.as_nat() > u128::MAX,
            },
    {
        if self.hi == 0 {
            Ok(self.lo)
        } else {
            Err(DriftError::MathError)
        }
    }

    pub fn to_i128(self) -> (r: DriftResult<i128>)
        ensures
            match r {
                Ok(v) => v == self.as_nat(),
                Err(e) => e == DriftError::MathError && self.as_nat() > i128::MAX,
            },
    {
        if self.hi == 0 && self.lo <= i128::MAX as u128 {
            Ok(self.lo as i128)
        } else {
            Err(DriftError::MathError)
        }
    }

    pub open spec fn lt_spec(self, other: U192) -> bool {
        self.as_nat() < other.as_nat()
    }

    /// Strict comparison of the values.
    pub fn lt(&self, other: &U192) -> (r: bool)
        ensures
            r == self.lt_spec(*other),
    {
        self.hi < other.hi || (self.hi == other.hi && self.lo < other.lo)
    }

    pub fn is_zero(&self) -> (r: bool)
        ensures
            r == (self.as_nat() == 0),
    {
        self.hi == 0 && self.lo == 0
    }

    /// Checked addition; exact or `MathError` past 192 bits.
    pub fn safe_add(self, rhs: U192) -> (r: DriftResult<U192>)
        ensures
            match r {
                Ok(v) => v.as_nat() == self.as_nat() + rhs.as_nat(),
                Err(e) => e == DriftError::MathError && self.as_nat() + rhs.as_nat()
                    >= 0x1_0000_0000_0000_0000_0000_0000_0000_0000_0000_0000_0000_0000int,
            },
    {
        let (lo, carry): (u128, u64) = if self.lo > u128::MAX - rhs.lo {
            ((self.lo - (u128::MAX - rhs.lo)) - 1, 1)
        } else {
            (self.lo + rhs.lo, 0)
        };
        if self.hi > u64::MAX - carry || self.hi + carry > u64::MAX - rhs.hi {
            Err(DriftError::MathError)
        } else {
            Ok(U192 { lo, hi: self.hi + carry + rhs.hi })
        }
    }

    /// Subtraction of a value that is not larger.
    pub fn sub(self, rhs: U192) -> (r: U192)
        requires
            rhs.as_nat() <= self.as_nat(),
        ensures
            r.as_nat() == self.as_nat() - rhs.as_nat(),
    {
        if self.lo >= rhs.lo {
            U192 { lo: self.lo - rhs.lo, hi: self.hi - rhs.hi }
        } else {
            U192 { lo: (u128::MAX - (rhs.lo - self.lo)) + 1, hi: self.hi - rhs.hi - 1 }
        }
    }

    /// Doubling; the caller guarantees that the result still fits.
    pub fn double(self) -> (r: U192)
        requires
            2 * self.as_nat()
                < 0x1_0000_0000_0000_0000_0000_0000_0000_0000_0000_0000_0000_0000int,
        ensures
            r.as_nat() == 2 * self.as_nat(),
    {
        let half_base: u128 = 0x8000_0000_0000_0000_0000_0000_0000_0000;
        if self.lo >= half_base {
            U192 { lo: (self.lo - half_base) * 2, hi: self.hi * 2 + 1 }
        } else {
            U192 { lo: self.lo * 2, hi: self.hi * 2 }
        }
    }

    /// Checked multiplication; exact or `MathError` past 192 bits.
    pub fn safe_mul(self, rhs: U192) -> (r: DriftResult<U192>)
        ensures
            match r {
                Ok(v) => v.as_nat() == self.as_nat() * rhs.as_nat(),
                Err(e) => e == DriftError::MathError && self.as_nat() * rhs.as_nat()
                    >= 0x1_0000_0000_0000_0000_0000_0000_0000_0000_0000_0000_0000_0000int,
            },
    {
        let ghost p128: int = 0x1_0000_0000_0000_0000_0000_0000_0000_0000int;
        let ghost p192: int = 0x1_0000_0000_0000_0000_0000_0000_0000_0000_0000_0000_0000_0000int;
        proof {
            assert(self.as_nat() * rhs.as_nat() == self.lo * rhs.lo + (self.lo * rhs.hi
                + self.hi * rhs.lo) * p128 + (self.hi * rhs.hi) * (p128 * p128))
                by (nonlinear_arith)
            requires
                self.as_nat() == self.lo + self.hi * p128,
                rhs.as_nat() == rhs.lo + rhs.hi * p128,
            ;
        }
        if self.hi > 0 && rhs.hi > 0 {
            proof {
                assert(self.hi * rhs.hi >= 1) by (nonlinear_arith)
                    requires
                        self.hi >= 1,
                        rhs.hi >= 1,
                ;
                assert(self.lo * rhs.lo >= 0 && self.lo * rhs.hi >= 0 && self.hi * rhs.lo >= 0)
                    by (nonlinear_arith);
            }
            return Err(DriftError::MathError);
        }
        let (h1, l1) = wmul_u128(self.lo, rhs.lo);
        let (h2, l2) = wmul_u128(self.lo, rhs.hi as u128);
        let (h3, l3) = wmul_u128(rhs.lo, self.hi as u128);
        proof {
            assert(self.lo * rhs.lo >= 0 && self.lo * rhs.hi >= 0 && self.hi * rhs.lo >= 0 && (
            self.hi * rhs.hi) >= 0) by (nonlinear_arith);
            assert(self.hi == 0 ==> self.hi * rhs.lo == 0 && self.hi * rhs.hi == 0)
                by (nonlinear_arith);
            assert(rhs.hi == 0 ==> self.lo * rhs.hi == 0 && self.hi * rhs.hi == 0)
                by (nonlinear_arith);
            lemma_mul_comm(rhs.lo as int, self.hi as int);
            assert(self.lo * (rhs.hi as u128) == self.lo * rhs.hi);
            assert(rhs.lo * (self.hi as u128) == self.hi * rhs.lo);
            assert(h1 * p128 + l1 == self.lo * rhs.lo);
            assert(h2 * p128 + l2 == self.lo * rhs.hi);
            assert(h3 * p128 + l3 == self.hi * rhs.lo);
        }
        // the 2^128-weight digit of the product
        if h2 > 0 || h3 > 0 {
            return Err(DriftError::MathError);
        }
        if l2 > u128::MAX - l3 || h1 > u128::MAX - (l2 + l3) {
            return Err(DriftError::MathError);
        }
        let mid: u128 = h1 + l2 + l3;
        if mid > u64::MAX as u128 {
            return Err(DriftError::MathError);
        }
        Ok(U192 { lo: l1, hi: mid as u64 })
    }


    /// Successor; the caller guarantees that the result still fits.
    pub fn succ(self) -> (r: U192)
        requires
            self.as_nat() + 1
                < 0x1_0000_0000_0000_0000_0000_0000_0000_0000_0000_0000_0000_0000int,
        ensures
            r.as_nat() == self.as_nat() + 1,
    {
        if self.lo == u128::MAX {
            U192 { lo: 0, hi: self.hi + 1 }
        } else {
            U192 { lo: self.lo + 1, hi: self.hi }
        }
    }

    /// Checked division; fails only on a zero divisor.
    pub fn safe_div(self, rhs: U192) -> (r: DriftResult<U192>)
        ensures
            match r {
                Ok(v) => rhs.as_nat() != 0 && v.as_nat() == self.as_nat() / rhs.as_nat(),
                Err(e) => e == DriftError::MathError && rhs.as_nat() == 0,
            },
    {
        if rhs.is_zero() {
            return Err(DriftError::MathError);
        }
        let (q, rem) = div_rem_u192(self, rhs);
        proof {
            vstd::arithmetic::div_mod::lemma_fundamental_div_mod_converse(
                self.as_nat(),
                rhs.as_nat(),
                q.as_nat(),
                rem.as_nat(),
            );
        }
        Ok(q)
    }

    /// Halving, rounding down.
    pub fn half(self) -> (r: U192)
        ensures
            r.as_nat() == self.as_nat() / 2,
    {
        let half_base: u128 = 0x8000_0000_0000_0000_0000_0000_0000_0000;
        let lo = self.lo / 2 + if self.hi % 2 == 1 {
            half_base
        } else {
            0
        };
        let r = U192 { lo, hi: self.hi / 2 };
        proof {
            assert(self.lo == 2 * (self.lo / 2) + self.lo % 2);
            assert(self.hi == 2 * (self.hi / 2) + self.hi % 2);
            assert(self.as_nat() == 2 * r.as_nat() + self.lo % 2);
        }
        r
    }
}


/// The value of 2^192, assembled from smaller powers of two.
proof fn lemma_pow2_192()
    ensures
        vstd::arithmetic::power2::pow2(192)
            == 0x1_0000_0000_0000_0000_0000_0000_0000_0000_0000_0000_0000_0000,
{
    vstd::arithmetic::power2::lemma2_to64();
    vstd::arithmetic::power2::lemma_pow2_adds(64, 64);
    vstd::arithmetic::power2::lemma_pow2_adds(128, 64);
}

/// Binary long division on 192-bit values: returns the quotient and
/// the remainder.
pub fn div_rem_u192(n: U192, d: U192) -> (r: (U192, U192))
    requires
        d.as_nat() >= 1,
    ensures
        r.0.as_nat() * d.as_nat() + r.1.as_nat() == n.as_nat(),
        r.1.as_nat() < d.as_nat(),
{
    let ghost p192: int = 0x1_0000_0000_0000_0000_0000_0000_0000_0000_0000_0000_0000_0000int;
    let half_n = n.half();
    let mut ds = d;
    let mut s: u64 = 0;
    proof {
        vstd::arithmetic::power2::lemma2_to64();
    }
    while !half_n.lt(&ds)
        invariant
            d.as_nat() >= 1,
            half_n.as_nat() == n.as_nat() / 2,
            ds.as_nat() == d.as_nat() * vstd::arithmetic::power2::pow2(s as nat),
            vstd::arithmetic::power2::pow2(s as nat) <= ds.as_nat(),
            s == 0 || ds.as_nat() <= n.as_nat(),
            ds.as_nat() >= 1,
        decreases n.as_nat() - ds.as_nat(),
    {
        proof {
            // ds <= n/2, so doubling stays at or below n, and within 192 bits
            assert(2 * ds.as_nat() <= n.as_nat());
            if s as nat + 1 > 192 {
                vstd::arithmetic::power2::lemma_pow2_strictly_increases(192, (s + 1) as nat);
            }
            lemma_pow2_192();
            vstd::arithmetic::power2::lemma_pow2_unfold((s + 1) as nat);
            assert(d.as_nat() * vstd::arithmetic::power2::pow2((s + 1) as nat) == 2 * (d.as_nat()
                * vstd::arithmetic::power2::pow2(s as nat))) by (nonlinear_arith)
                requires
                    vstd::arithmetic::power2::pow2((s + 1) as nat) == 2
                        * vstd::arithmetic::power2::pow2(s as nat),
            ;
        }
        ds = ds.double();
        s = s + 1;
    }
    let mut q = U192 { lo: 0, hi: 0 };
    let mut rem = n;
    proof {
        // on exit ds > n/2, hence 2 * ds > n
        assert(q.as_nat() * (2 * ds.as_nat()) == 0) by (nonlinear_arith)
            requires
                q.as_nat() == 0,
        ;
        assert(rem.as_nat() < 2 * ds.as_nat());
    }
    while s > 0
        invariant
            d.as_nat() >= 1,
            ds.as_nat() == d.as_nat() * vstd::arithmetic::power2::pow2(s as nat),
            ds.as_nat() >= 1,
            q.as_nat() * (2 * ds.as_nat()) + rem.as_nat() == n.as_nat(),
            rem.as_nat() < 2 * ds.as_nat(),
        decreases s,
    {
        div_step(ds, &mut q, &mut rem, Ghost(n.as_nat()));
        let ghost q1 = q.as_nat();
        let ghost dsv = ds.as_nat();
        proof {
            vstd::arithmetic::power2::lemma_pow2_unfold(s as nat);
            assert(d.as_nat() * vstd::arithmetic::power2::pow2(s as nat) == 2 * (d.as_nat()
                * vstd::arithmetic::power2::pow2((s - 1) as nat))) by (nonlinear_arith)
                requires
                    vstd::arithmetic::power2::pow2(s as nat) == 2
                        * vstd::arithmetic::power2::pow2((s - 1) as nat),
            ;
        }
        ds = ds.half();
        s = s - 1;
        proof {
            assert(q1 * (2 * ds.as_nat()) == q1 * dsv) by (nonlinear_arith)
                requires
                    2 * ds.as_nat() == dsv,
            ;
        }
    }
    // one final step at the original divisor
    proof {
        vstd::arithmetic::power2::lemma2_to64();
        assert(ds.as_nat() == d.as_nat());
    }
    div_step(ds, &mut q, &mut rem, Ghost(n.as_nat()));
    (q, rem)
}

/// One step of binary long division at divisor `ds`: doubles the
/// quotient, and subtracts `ds` out of the remainder if it fits.
fn div_step(ds: U192, q: &mut U192, rem: &mut U192, Ghost(n): Ghost<int>)
    requires
        old(q).as_nat() * (2 * ds.as_nat()) + old(rem).as_nat() == n,
        old(rem).as_nat() < 2 * ds.as_nat(),
        ds.as_nat() >= 1,
        n < 0x1_0000_0000_0000_0000_0000_0000_0000_0000_0000_0000_0000_0000,
    ensures
        final(q).as_nat() * ds.as_nat() + final(rem).as_nat() == n,
        final(rem).as_nat() < ds.as_nat(),
{
    let ghost p192: int = 0x1_0000_0000_0000_0000_0000_0000_0000_0000_0000_0000_0000_0000int;
    let ghost q0 = q.as_nat();
    let ghost dsv = ds.as_nat();
    proof {
        lemma_div_step_bounds(q0, dsv, rem.as_nat(), n);
    }
    if !rem.lt(&ds) {
        *q = q.double().succ();
        *rem = rem.sub(ds);
        proof {
            assert(q.as_nat() == 2 * q0 + 1);
            assert((2 * q0 + 1) * dsv == q0 * (2 * dsv) + dsv) by (nonlinear_arith);
        }
    } else {
        *q = q.double();
        proof {
            assert(q.as_nat() == 2 * q0);
            assert((2 * q0) * dsv == q0 * (2 * dsv)) by (nonlinear_arith);
        }
    }
}

/// Bounds for one step of binary long division: the doubled quotient
/// and its successor stay at or below the dividend.
proof fn lemma_div_step_bounds(q: int, ds: int, rem: int, n: int)
    requires
        q * (2 * ds) + rem == n,
        rem >= 0,
        ds >= 1,
        q >= 0,
    ensures
        2 * q <= n,
        rem >= ds ==> 2 * q + 1 <= n,
{
    assert(2 * q <= q * (2 * ds)) by (nonlinear_arith)
        requires
            ds >= 1,
            q >= 0,
    ;
}


/// Grade-school expansion of a product of two split operands.
proof fn lemma_mul_expand(a: int, b: int, a1: int, a0: int, b1: int, b0: int, bb: int)
    requires
        a == a1 * bb + a0,
        b == b1 * bb + b0,
    ensures
        a * b == (a1 * b1) * (bb * bb) + (a1 * b0) * bb + (a0 * b1) * bb + a0 * b0,
{
    let s = a1 * bb;
    let r = b1 * bb;
    assert(a * b == s * r + s * b0 + a0 * r + a0 * b0) by (nonlinear_arith)
        requires
            a == s + a0,
            b == r + b0,
    ;
    assert(s * r == (a1 * b1) * (bb * bb)) by (nonlinear_arith)
        requires
            s == a1 * bb,
            r == b1 * bb,
    ;
    assert(s * b0 == (a1 * b0) * bb) by (nonlinear_arith)
        requires
            s == a1 * bb,
    ;
    assert(a0 * r == (a0 * b1) * bb) by (nonlinear_arith)
        requires
            r == b1 * bb,
    ;
}

/// Multiplying a two-digit value by the base shifts its digits up.
proof fn lemma_digit_shift(v: int, v1: int, v0: int, bb: int)
    by (nonlinear_arith)
    requires
        v == v1 * bb + v0,
    ensures
        v * bb == v1 * (bb * bb) + v0 * bb,
{
}

/// Distribution of a three-part sum over a product.
proof fn lemma_sum3_mul(h: int, x: int, y: int, z: int, p: int)
    by (nonlinear_arith)
    requires
        h == x + y + z,
    ensures
        h * p == x * p + y * p + z * p,
{
}

/// Commutativity of multiplication, for matching abstracted products.
proof fn lemma_mul_comm(x: int, y: int)
    by (nonlinear_arith)
    ensures
        x * y == y * x,
{
}

/// Distribution of a difference over a product.
proof fn lemma_mul_eq_sub(h: int, x: int, y: int, w: int)
    by (nonlinear_arith)
    requires
        h == x - y,
    ensures
        h * w == x * w - y * w,
{
}

/// Bound on a product of two values below a common bound.
proof fn lemma_mul_bound(x: int, y: int, m: int)
    by (nonlinear_arith)
    requires
        0 <= x < m,
        0 <= y < m,
    ensures
        0 <= x * y <= (m - 1) * (m - 1),
{
}

/// Assembly of the long-multiplication digits into the final product,
/// stated over a symbolic base.
proof fn lemma_wmul_assemble(
    a: int,
    b: int,
    a1: int,
    a0: int,
    b1: int,
    b0: int,
    p00: int,
    t: int,
    u: int,
    hi: int,
    lo: int,
    bb: int,
)
    requires
        a == a1 * bb + a0,
        b == b1 * bb + b0,
        p00 == a0 * b0,
        t == a1 * b0 + p00 / bb,
        u == a0 * b1 + t % bb,
        hi == a1 * b1 + t / bb + u / bb,
        lo == (u % bb) * bb + p00 % bb,
        bb > 0,
    ensures
        hi * (bb * bb) + lo == a * b,
{
    broadcast use vstd::arithmetic::div_mod::lemma_fundamental_div_mod;

    let c1 = p00 / bb;
    let c0 = p00 % bb;
    let t1 = t / bb;
    let t0 = t % bb;
    let u1 = u / bb;
    let u0 = u % bb;
    let m11 = a1 * b1;
    let m10 = a1 * b0;
    let m01 = a0 * b1;
    assert(p00 == bb * c1 + c0);
    assert(t == bb * t1 + t0);
    assert(u == bb * u1 + u0);
    lemma_mul_comm(bb, c1);
    lemma_mul_comm(bb, t1);
    lemma_mul_comm(bb, u1);
    assert(p00 == c1 * bb + c0);
    assert(t == t1 * bb + t0);
    assert(u == u1 * bb + u0);
    lemma_mul_expand(a, b, a1, a0, b1, b0, bb);
    lemma_mul_eq_sub(m10, t, c1, bb);
    lemma_digit_shift(t, t1, t0, bb);
    lemma_mul_eq_sub(m01, u, t0, bb);
    lemma_digit_shift(u, u1, u0, bb);
    lemma_sum3_mul(hi, m11, t1, u1, bb * bb);
    assert(m10 * bb == t1 * (bb * bb) + t0 * bb - c1 * bb);
    assert(m01 == u - t0);
    assert(m01 * bb == u * bb - t0 * bb);
    assert(u * bb == u1 * (bb * bb) + u0 * bb);
    assert(m01 * bb == u1 * (bb * bb) + u0 * bb - t0 * bb);
    assert(a0 * b0 == c1 * bb + c0);
    assert(a * b == m11 * (bb * bb) + t1 * (bb * bb) + u1 * (bb * bb) + u0 * bb + c0);
    assert(hi * (bb * bb) + lo == m11 * (bb * bb) + t1 * (bb * bb) + u1 * (bb * bb) + u0 * bb
        + c0);
}

/// Full 128-by-128-bit multiplication: returns the high and low 128-bit
/// halves of the exact 256-bit product.
pub fn wmul_u128(a: u128, b: u128) -> (r: (u128, u128))
    ensures
        r.0 * 0x1_0000_0000_0000_0000_0000_0000_0000_0000int + r.1 == a * b,
{
    let a1: u128 = a / BASE64;
    let a0: u128 = a % BASE64;
    let b1: u128 = b / BASE64;
    let b0: u128 = b % BASE64;
    proof {
        let bb: int = BASE64 as int;
        assert(a == a1 * BASE64 + a0 && a1 < BASE64 && a0 < BASE64);
        assert(b == b1 * BASE64 + b0 && b1 < BASE64 && b0 < BASE64);
        lemma_mul_bound(a1 as int, b1 as int, bb);
        lemma_mul_bound(a1 as int, b0 as int, bb);
        lemma_mul_bound(a0 as int, b1 as int, bb);
        lemma_mul_bound(a0 as int, b0 as int, bb);
    }
    let p00: u128 = a0 * b0;
    let t: u128 = a1 * b0 + p00 / BASE64;
    let u: u128 = a0 * b1 + t % BASE64;
    let lo: u128 = (u % BASE64) * BASE64 + p00 % BASE64;
    let hi: u128 = a1 * b1 + t / BASE64 + u / BASE64;
    proof {
        lemma_wmul_assemble(
            a as int,
            b as int,
            a1 as int,
            a0 as int,
            b1 as int,
            b0 as int,
            p00 as int,
            t as int,
            u as int,
            hi as int,
            lo as int,
            BASE64 as int,
        );
    }
    (hi, lo)
}

} // verus!

verus! {

impl U192 {
    /// Read a value from its 24 little-endian bytes.
    pub fn from_le_bytes(bytes: &Vec<u8>) -> (r: U192)
        requires
            bytes@.len() == 24,
        ensures
            r.lo == crate::codec::le128_at(bytes@, 0),
            r.hi == crate::codec::le64_at(bytes@, 16),
    {
        U192 {
            lo: crate::codec::read_u128_at(bytes, 0),
            hi: crate::codec::read_u64_at(bytes, 16),
        }
    }

    /// The 24 little-endian bytes of the value.
    pub fn to_le_bytes(self) -> (r: Vec<u8>)
        ensures
            r@.len() == 24,
            crate::codec::le128_at(r@, 0) == self.lo,
            crate::codec::le64_at(r@, 16) == self.hi,
    {
        let mut bytes = crate::record::zeroed_vec(24);
        crate::codec::write_u128_at(&mut bytes, 0, self.lo);
        crate::codec::write_u64_at(&mut bytes, 16, self.hi);
        bytes
    }
}

} // verus!
