//! Little-endian byte codec for the on-chain account layout and the
//! instruction encoding.

use vstd::prelude::*;

verus! {

/// Value of two little-endian bytes at `off`.
pub open spec fn le16_at(b: Seq<u8>, off: int) -> int {
    b[off] + b[off + 1] * 0x100
}

/// Value of four little-endian bytes at `off`.
pub open spec fn le32_at(b: Seq<u8>, off: int) -> int {
    b[off] + b[off + 1] * 0x100 + b[off + 2] * 0x1_0000 + b[off + 3] * 0x100_0000
}

/// Value of eight little-endian bytes at `off`.
pub open spec fn le64_at(b: Seq<u8>, off: int) -> int {
    b[off] + b[off + 1] * 0x100 + b[off + 2] * 0x1_0000 + b[off + 3] * 0x100_0000 + b[off + 4]
        * 0x1_0000_0000 + b[off + 5] * 0x100_0000_0000 + b[off + 6] * 0x1_0000_0000_0000 + b[off
        + 7] * 0x100_0000_0000_0000
}

/// Value of sixteen little-endian bytes at `off`.
pub open spec fn le128_at(b: Seq<u8>, off: int) -> int {
    le64_at(b, off) + le64_at(b, off + 8) * 0x1_0000_0000_0000_0000
}

/// Two's-complement signed reading of an unsigned 64-bit value.
pub open spec fn as_signed64(raw: int) -> int {
    if raw >= 0x8000_0000_0000_0000 {
        raw - 0x1_0000_0000_0000_0000
    } else {
        raw
    }
}

/// Signed 64-bit value at `off`, two's complement.
pub open spec fn lei64_at(b: Seq<u8>, off: int) -> int {
    as_signed64(le64_at(b, off))
}

pub fn read_u16_at(b: &Vec<u8>, off: usize) -> (r: u16)
    requires
        off + 2 <= b@.len(),
    ensures
        r == le16_at(b@, off as int),
{
    let n = b.len();
    (b[off] as u16) + (b[off + 1] as u16) * 0x100
}

pub fn read_u32_at(b: &Vec<u8>, off: usize) -> (r: u32)
    requires
        off + 4 <= b@.len(),
    ensures
        r == le32_at(b@, off as int),
{
    let n = b.len();
    (b[off] as u32) + (b[off + 1] as u32) * 0x100 + (b[off + 2] as u32) * 0x1_0000 + (b[off
        + 3] as u32) * 0x100_0000
}

pub fn read_u64_at(b: &Vec<u8>, off: usize) -> (r: u64)
    requires
        off + 8 <= b@.len(),
    ensures
        r == le64_at(b@, off as int),
{
    let n = b.len();
    (b[off] as u64) + (b[off + 1] as u64) * 0x100 + (b[off + 2] as u64) * 0x1_0000 + (b[off
        + 3] as u64) * 0x100_0000 + (b[off + 4] as u64) * 0x1_0000_0000 + (b[off + 5] as u64)
        * 0x100_0000_0000 + (b[off + 6] as u64) * 0x1_0000_0000_0000 + (b[off + 7] as u64)
        * 0x100_0000_0000_0000
}

pub fn read_u128_at(b: &Vec<u8>, off: usize) -> (r: u128)
    requires
        off + 16 <= b@.len(),
    ensures
        r == le128_at(b@, off as int),
{
    let n = b.len();
    let lo = read_u64_at(b, off);
    let hi = read_u64_at(b, off + 8);
    (lo as u128) + (hi as u128) * 0x1_0000_0000_0000_0000
}

/// Reinterpret an unsigned 64-bit value as its two's-complement signed
/// reading.
pub fn signed_of_u64(raw: u64) -> (r: i64)
    ensures
        r == as_signed64(raw as int),
{
    if raw >= 0x8000_0000_0000_0000 {
        if raw == 0x8000_0000_0000_0000 {
            i64::MIN
        } else {
            -(((u64::MAX - raw) + 1) as i64)
        }
    } else {
        raw as i64
    }
}

/// The unsigned 64-bit carrier of a signed value, two's complement.
pub fn unsigned_of_i64(v: i64) -> (r: u64)
    ensures
        as_signed64(r as int) == v,
        v >= 0 ==> r == v,
        v < 0 ==> r == v + 0x1_0000_0000_0000_0000,
{
    if v >= 0 {
        v as u64
    } else if v == i64::MIN {
        0x8000_0000_0000_0000
    } else {
        u64::MAX - (((-v) as u64) - 1)
    }
}

pub fn read_i64_at(b: &Vec<u8>, off: usize) -> (r: i64)
    requires
        off + 8 <= b@.len(),
    ensures
        r == lei64_at(b@, off as int),
{
    signed_of_u64(read_u64_at(b, off))
}

pub fn write_u16_at(b: &mut Vec<u8>, off: usize, v: u16)
    requires
        off + 2 <= old(b)@.len(),
    ensures
        final(b)@.len() == old(b)@.len(),
        le16_at(final(b)@, off as int) == v,
        forall|k: int| 0 <= k < old(b)@.len() && !(off <= k < off + 2) ==> final(b)@[k] == old(
            b,
        )@[k],
{
    let n = b.len();
    let d0 = (v % 0x100) as u8;
    let q1 = v / 0x100;
    b[off] = d0;
    b[off + 1] = q1 as u8;
}

pub fn write_u32_at(b: &mut Vec<u8>, off: usize, v: u32)
    requires
        off + 4 <= old(b)@.len(),
    ensures
        final(b)@.len() == old(b)@.len(),
        le32_at(final(b)@, off as int) == v,
        forall|k: int| 0 <= k < old(b)@.len() && !(off <= k < off + 4) ==> final(b)@[k] == old(
            b,
        )@[k],
{
    let n = b.len();
    let d0 = (v % 0x100) as u8;
    let q1 = v / 0x100;
    let d1 = (q1 % 0x100) as u8;
    let q2 = q1 / 0x100;
    let d2 = (q2 % 0x100) as u8;
    let q3 = q2 / 0x100;
    b[off] = d0;
    b[off + 1] = d1;
    b[off + 2] = d2;
    b[off + 3] = q3 as u8;
}

pub fn write_u64_at(b: &mut Vec<u8>, off: usize, v: u64)
    requires
        off + 8 <= old(b)@.len(),
    ensures
        final(b)@.len() == old(b)@.len(),
        le64_at(final(b)@, off as int) == v,
        forall|k: int| 0 <= k < old(b)@.len() && !(off <= k < off + 8) ==> final(b)@[k] == old(
            b,
        )@[k],
{
    let n = b.len();
    let d0 = (v % 0x100) as u8;
    let q1 = v / 0x100;
    let d1 = (q1 % 0x100) as u8;
    let q2 = q1 / 0x100;
    let d2 = (q2 % 0x100) as u8;
    let q3 = q2 / 0x100;
    let d3 = (q3 % 0x100) as u8;
    let q4 = q3 / 0x100;
    let d4 = (q4 % 0x100) as u8;
    let q5 = q4 / 0x100;
    let d5 = (q5 % 0x100) as u8;
    let q6 = q5 / 0x100;
    let d6 = (q6 % 0x100) as u8;
    let q7 = q6 / 0x100;
    b[off] = d0;
    b[off + 1] = d1;
    b[off + 2] = d2;
    b[off + 3] = d3;
    b[off + 4] = d4;
    b[off + 5] = d5;
    b[off + 6] = d6;
    b[off + 7] = q7 as u8;
}

pub fn write_u128_at(b: &mut Vec<u8>, off: usize, v: u128)
    requires
        off + 16 <= old(b)@.len(),
    ensures
        final(b)@.len() == old(b)@.len(),
        le128_at(final(b)@, off as int) == v,
        forall|k: int| 0 <= k < old(b)@.len() && !(off <= k < off + 16) ==> final(b)@[k] == old(
            b,
        )@[k],
{
    let n = b.len();
    let lo = (v % 0x1_0000_0000_0000_0000) as u64;
    let hi = (v / 0x1_0000_0000_0000_0000) as u64;
    write_u64_at(b, off, lo);
    write_u64_at(b, off + 8, hi);
}

pub fn write_i64_at(b: &mut Vec<u8>, off: usize, v: i64)
    requires
        off + 8 <= old(b)@.len(),
    ensures
        final(b)@.len() == old(b)@.len(),
        lei64_at(final(b)@, off as int) == v,
        forall|k: int| 0 <= k < old(b)@.len() && !(off <= k < off + 8) ==> final(b)@[k] == old(
            b,
        )@[k],
{
    let raw = unsigned_of_i64(v);
    write_u64_at(b, off, raw);
}

} // verus!
