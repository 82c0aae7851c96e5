//! Big-endian integer encodings shared by the byte-level protocols.
use vstd::prelude::*;

verus! {

/// The value of two bytes read as a big-endian `u16`.
pub open spec fn be16(hi: u8, lo: u8) -> u16 {
    (hi * 256 + lo) as u16
}

/// The two bytes of `v` in big-endian order.
pub open spec fn be16_bytes(v: u16) -> Seq<u8> {
    seq![(v / 256) as u8, (v % 256) as u8]
}

/// The four bytes of `v` in big-endian order.
pub open spec fn be32_bytes(v: u32) -> Seq<u8> {
    seq![(v / 0x1000000) as u8, ((v / 0x10000) % 256) as u8, ((v / 256) % 256) as u8, (v % 256) as u8]
}

/// The value of four bytes read as a big-endian `u32`.
pub open spec fn be32(b0: u8, b1: u8, b2: u8, b3: u8) -> u32 {
    (b0 * 0x1000000 + b1 * 0x10000 + b2 * 0x100 + b3) as u32
}

/// Reads a big-endian `u16` from two bytes.
pub fn read_be16(hi: u8, lo: u8) -> (v: u16)
    ensures
        v == be16(hi, lo),
        v as int == hi * 256 + lo,
{
    (hi as u16) * 256 + (lo as u16)
}

/// Reads a big-endian `u32` from four bytes.
pub fn read_be32(b0: u8, b1: u8, b2: u8, b3: u8) -> (v: u32)
    ensures
        v == be32(b0, b1, b2, b3),
        v as int == b0 * 0x1000000 + b1 * 0x10000 + b2 * 0x100 + b3,
{
    (b0 as u32) * 0x1000000 + (b1 as u32) * 0x10000 + (b2 as u32) * 0x100 + (b3 as u32)
}

/// The big-endian bytes of a `u16`.
pub fn write_be16(v: u16) -> (bytes: Vec<u8>)
    ensures
        bytes@ == be16_bytes(v),
{
    let mut bytes = Vec::new();
    bytes.push((v / 256) as u8);
    bytes.push((v % 256) as u8);
    bytes
}

/// The big-endian bytes of a `u32`.
pub fn write_be32(v: u32) -> (bytes: Vec<u8>)
    ensures
        bytes@ == be32_bytes(v),
{
    let mut bytes = Vec::new();
    bytes.push((v / 0x1000000) as u8);
    bytes.push(((v / 0x10000) % 256) as u8);
    bytes.push(((v / 256) % 256) as u8);
    bytes.push((v % 256) as u8);
    bytes
}

/// Reading back the big-endian bytes of a `u16` gives the value.
pub proof fn lemma_be16_roundtrip(v: u16)
    ensures
        be16(be16_bytes(v)[0], be16_bytes(v)[1]) == v,
{
}

/// Reading back the big-endian bytes of a `u32` gives the value.
pub proof fn lemma_be32_roundtrip(v: u32)
    ensures
        ({
            let b = be32_bytes(v);
            be32(b[0], b[1], b[2], b[3]) == v
        }),
{
}

/// Appends the bytes of `data` to `dst`.
pub fn append_bytes(dst: &mut Vec<u8>, data: &Vec<u8>)
    ensures
        final(dst)@ == old(dst)@ + data@,
{
    let mut i: usize = 0;
    while i < data.len()
        invariant
            i <= data.len(),
            dst@ == old(dst)@ + data@.take(i as int),
        decreases data.len() - i,
    {
        dst.push(data[i]);
        i = i + 1;
        assert(data@.take(i as int) =~= data@.take(i - 1) .push(data@[i - 1]));
    }
    assert(data@.take(i as int) =~= data@);
}

/// Removes the first `n` bytes of `buf`.
pub fn drop_prefix(buf: &mut Vec<u8>, n: usize)
    requires
        n <= old(buf)@.len(),
    ensures
        final(buf)@ == old(buf)@.skip(n as int),
{
    let rest = buf.split_off(n);
    *buf = rest;
}



/// A copy of the bytes of `src` from `from` up to `to`.
pub fn copy_range(src: &Vec<u8>, from: usize, to: usize) -> (res: Vec<u8>)
    requires
        from <= to <= src@.len(),
    ensures
        res@ == src@.subrange(from as int, to as int),
{
    let mut res = Vec::new();
    let mut i = from;
    while i < to
        invariant
            from <= i <= to,
            to <= src@.len(),
            res@ == src@.subrange(from as int, i as int),
        decreases to - i,
    {
        res.push(src[i]);
        i = i + 1;
        assert(res@ =~= src@.subrange(from as int, i as int));
    }
    res
}

/// The value of two bytes read as a little-endian `u16`.
pub open spec fn le16(lo: u8, hi: u8) -> u16 {
    (hi * 256 + lo) as u16
}

/// The two bytes of `v` in little-endian order.
pub open spec fn le16_bytes(v: u16) -> Seq<u8> {
    seq![(v % 256) as u8, (v / 256) as u8]
}

/// Whether two byte arrays of the same length hold the same bytes.
pub fn bytes_equal<const N: usize>(a: &[u8; N], b: &[u8; N]) -> (res: bool)
    ensures
        res == (*a == *b),
{
    let mut i: usize = 0;
    while i < N
        invariant
            i <= N,
            forall|j: int| 0 <= j < i ==> a[j] == b[j],
        decreases N - i,
    {
        if a[i] != b[i] {
            return false;
        }
        i = i + 1;
    }
    assert(*a =~= *b);
    true
}

} // verus!
