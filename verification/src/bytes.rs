//! Fixed-width integer readers over byte buffers. Archive structures are
//! little-endian; sheet structures are big-endian.

use vstd::prelude::*;

verus! {

/// The little-endian 16-bit value at `i`.
pub open spec fn le16_at(d: Seq<u8>, i: int) -> u16
    recommends
        0 <= i,
        i + 2 <= d.len(),
{
    (d[i] as int + d[i + 1] as int * 0x100) as u16
}

/// The little-endian 32-bit value at `i`.
pub open spec fn le32_at(d: Seq<u8>, i: int) -> u32
    recommends
        0 <= i,
        i + 4 <= d.len(),
{
    (d[i] as int + d[i + 1] as int * 0x100 + d[i + 2] as int * 0x10000 + d[i + 3] as int
        * 0x1000000) as u32
}

/// The little-endian 64-bit value at `i`.
pub open spec fn le64_at(d: Seq<u8>, i: int) -> u64
    recommends
        0 <= i,
        i + 8 <= d.len(),
{
    (le32_at(d, i) as int + le32_at(d, i + 4) as int * 0x100000000) as u64
}

/// The big-endian 16-bit value at `i`.
pub open spec fn be16_at(d: Seq<u8>, i: int) -> u16
    recommends
        0 <= i,
        i + 2 <= d.len(),
{
    (d[i] as int * 0x100 + d[i + 1] as int) as u16
}

/// The big-endian 32-bit value at `i`.
pub open spec fn be32_at(d: Seq<u8>, i: int) -> u32
    recommends
        0 <= i,
        i + 4 <= d.len(),
{
    (d[i] as int * 0x1000000 + d[i + 1] as int * 0x10000 + d[i + 2] as int * 0x100 + d[i
        + 3] as int) as u32
}

pub fn read_le16(d: &Vec<u8>, i: usize) -> (r: u16)
    requires
        i + 2 <= d@.len(),
    ensures
        r == le16_at(d@, i as int),
{
    let _n: usize = d.len();
    d[i] as u16 + d[i + 1] as u16 * 0x100
}

pub fn read_le32(d: &Vec<u8>, i: usize) -> (r: u32)
    requires
        i + 4 <= d@.len(),
    ensures
        r == le32_at(d@, i as int),
{
    let _n: usize = d.len();
    d[i] as u32 + d[i + 1] as u32 * 0x100 + d[i + 2] as u32 * 0x10000 + d[i + 3] as u32
        * 0x1000000
}

pub fn read_le64(d: &Vec<u8>, i: usize) -> (r: u64)
    requires
        i + 8 <= d@.len(),
    ensures
        r == le64_at(d@, i as int),
{
    let _n: usize = d.len();
    read_le32(d, i) as u64 + read_le32(d, i + 4) as u64 * 0x100000000
}

pub fn read_be16(d: &Vec<u8>, i: usize) -> (r: u16)
    requires
        i + 2 <= d@.len(),
    ensures
        r == be16_at(d@, i as int),
{
    let _n: usize = d.len();
    d[i] as u16 * 0x100 + d[i + 1] as u16
}

pub fn read_be32(d: &Vec<u8>, i: usize) -> (r: u32)
    requires
        i + 4 <= d@.len(),
    ensures
        r == be32_at(d@, i as int),
{
    let _n: usize = d.len();
    d[i] as u32 * 0x1000000 + d[i + 1] as u32 * 0x10000 + d[i + 2] as u32 * 0x100 + d[i
        + 3] as u32
}

} // verus!
