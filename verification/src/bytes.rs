//! Numbers as they lie in memory and on disk: little-endian in the disk
//! formats, big-endian in the device tree.

use vstd::prelude::*;

verus! {

/// The 16-bit number whose little-endian bytes lie at `at` in `s`.
pub open spec fn le16(s: Seq<u8>, at: int) -> int {
    s[at] + s[at + 1] * 0x100
}

/// The 32-bit number whose little-endian bytes lie at `at` in `s`.
pub open spec fn le32(s: Seq<u8>, at: int) -> int {
    s[at] + s[at + 1] * 0x100 + s[at + 2] * 0x1_0000 + s[at + 3] * 0x100_0000
}

/// The 64-bit number whose little-endian bytes lie at `at` in `s`.
pub open spec fn le64(s: Seq<u8>, at: int) -> int {
    le32(s, at) + le32(s, at + 4) * 0x1_0000_0000
}

/// The 32-bit number whose big-endian bytes lie at `at` in `s`.
pub open spec fn be32(s: Seq<u8>, at: int) -> int {
    s[at] * 0x100_0000 + s[at + 1] * 0x1_0000 + s[at + 2] * 0x100 + s[at + 3]
}

/// The 64-bit number whose big-endian bytes lie at `at` in `s`.
pub open spec fn be64(s: Seq<u8>, at: int) -> int {
    be32(s, at) * 0x1_0000_0000 + be32(s, at + 4)
}

/// Reads a little-endian 16-bit number.
pub fn read_le16(bytes: &[u8], at: usize) -> (value: u16)
    requires
        at + 2 <= bytes@.len(),
    ensures
        value == le16(bytes@, at as int),
{
    (bytes[at] as u16) + (bytes[at + 1] as u16) * 0x100
}

/// Reads a little-endian 32-bit number.
pub fn read_le32(bytes: &[u8], at: usize) -> (value: u32)
    requires
        at + 4 <= bytes@.len(),
    ensures
        value == le32(bytes@, at as int),
{
    (bytes[at] as u32) + (bytes[at + 1] as u32) * 0x100 + (bytes[at + 2] as u32) * 0x1_0000 + (
    bytes[at + 3] as u32) * 0x100_0000
}

/// Reads a little-endian 64-bit number.
pub fn read_le64(bytes: &[u8], at: usize) -> (value: u64)
    requires
        at + 8 <= bytes@.len(),
    ensures
        value == le64(bytes@, at as int),
{
    let length = bytes.len();
    assert(at + 8 <= length);
    (read_le32(bytes, at) as u64) + (read_le32(bytes, at + 4) as u64) * 0x1_0000_0000
}

/// Reads a big-endian 32-bit number.
pub fn read_be32(bytes: &[u8], at: usize) -> (value: u32)
    requires
        at + 4 <= bytes@.len(),
    ensures
        value == be32(bytes@, at as int),
{
    (bytes[at] as u32) * 0x100_0000 + (bytes[at + 1] as u32) * 0x1_0000 + (bytes[at + 2] as u32)
        * 0x100 + (bytes[at + 3] as u32)
}

/// Reads a big-endian 64-bit number.
pub fn read_be64(bytes: &[u8], at: usize) -> (value: u64)
    requires
        at + 8 <= bytes@.len(),
    ensures
        value == be64(bytes@, at as int),
{
    let length = bytes.len();
    assert(at + 8 <= length);
    (read_be32(bytes, at) as u64) * 0x1_0000_0000 + (read_be32(bytes, at + 4) as u64)
}

/// Whether two byte strings are the same.
pub fn same_bytes(a: &[u8], b: &[u8]) -> (same: bool)
    ensures
        same == (a@ == b@),
{
    if a.len() != b.len() {
        return false;
    }
    let mut i: usize = 0;
    while i < a.len()
        invariant
            i <= a.len(),
            a.len() == b.len(),
            forall|k: int| 0 <= k < i ==> a@[k] == b@[k],
        decreases a.len() - i,
    {
        if a[i] != b[i] {
            return false;
        }
        i += 1;
    }
    assert(a@ =~= b@);
    true
}

/// The bytes of `bytes` from `from` up to `to`.
pub fn copy_range(bytes: &[u8], from: usize, to: usize) -> (copy: Vec<u8>)
    requires
        from <= to <= bytes@.len(),
    ensures
        copy@ == bytes@.subrange(from as int, to as int),
{
    let mut copy: Vec<u8> = Vec::new();
    let mut i: usize = from;
    while i < to
        invariant
            from <= i <= to,
            to <= bytes@.len(),
            copy@ == bytes@.subrange(from as int, i as int),
        decreases to - i,
    {
        copy.push(bytes[i]);
        i += 1;
    }
    copy
}

} // verus!
