//! Little-endian integers inside byte buffers.

use vstd::prelude::*;

verus! {

/// The two bytes of `v`, least significant first.
pub open spec fn le16(v: u16) -> Seq<u8> {
    seq![(v % 256) as u8, (v / 256) as u8]
}

/// The four bytes of `v`, least significant first.
pub open spec fn le32(v: u32) -> Seq<u8> {
    let v1 = v / 256;
    let v2 = v1 / 256;
    let v3 = v2 / 256;
    seq![(v % 256) as u8, (v1 % 256) as u8, (v2 % 256) as u8, v3 as u8]
}

/// The eight bytes of `v`, least significant first.
pub open spec fn le64(v: u64) -> Seq<u8> {
    let v1 = v / 256;
    let v2 = v1 / 256;
    let v3 = v2 / 256;
    let v4 = v3 / 256;
    let v5 = v4 / 256;
    let v6 = v5 / 256;
    let v7 = v6 / 256;
    seq![
        (v % 256) as u8,
        (v1 % 256) as u8,
        (v2 % 256) as u8,
        (v3 % 256) as u8,
        (v4 % 256) as u8,
        (v5 % 256) as u8,
        (v6 % 256) as u8,
        v7 as u8,
    ]
}

/// The number whose little-endian bytes stand at `s[off..off + 2]`.
pub open spec fn le16_at(s: Seq<u8>, off: int) -> u16 {
    (s[off] + 256 * s[off + 1]) as u16
}

/// The number whose little-endian bytes stand at `s[off..off + 4]`.
pub open spec fn le32_at(s: Seq<u8>, off: int) -> u32 {
    (s[off] + 256 * (s[off + 1] + 256 * (s[off + 2] + 256 * s[off + 3]))) as u32
}

/// The number whose little-endian bytes stand at `s[off..off + 8]`.
pub open spec fn le64_at(s: Seq<u8>, off: int) -> u64 {
    (s[off] + 256 * (s[off + 1] + 256 * (s[off + 2] + 256 * (s[off + 3] + 256 * (s[off + 4] + 256
        * (s[off + 5] + 256 * (s[off + 6] + 256 * s[off + 7]))))))) as u64
}

/// `s` with the bytes from `off` on replaced by `t`.
pub open spec fn splice(s: Seq<u8>, off: int, t: Seq<u8>) -> Seq<u8> {
    Seq::new(
        s.len(),
        |i: int|
            if off <= i < off + t.len() {
                t[i - off]
            } else {
                s[i]
            },
    )
}

/// The two's complement bits of a signed 64-bit number.
pub open spec fn bits_of_i64(v: i64) -> u64 {
    v as u64
}

/// The signed 64-bit number with the two's complement bits `v`.
pub open spec fn i64_of_bits(v: u64) -> i64 {
    v as i64
}

/// Reading back the bits of a signed number gives the number.
pub proof fn i64_bits_round_trip(v: i64)
    ensures
        i64_of_bits(bits_of_i64(v)) == v,
{
    assert((v as u64) as i64 == v) by (bit_vector);
}

/// Signed numbers with the same bits are equal.
pub proof fn i64_bits_injective(a: i64, b: i64)
    requires
        bits_of_i64(a) == bits_of_i64(b),
    ensures
        a == b,
{
    i64_bits_round_trip(a);
    i64_bits_round_trip(b);
}

/// A 16-bit number is read back from its bytes.
pub proof fn le16_round_trip(v: u16, s: Seq<u8>, off: int)
    requires
        0 <= off,
        off + 2 <= s.len(),
        s.subrange(off, off + 2) == le16(v),
    ensures
        le16_at(s, off) == v,
{
    let t = s.subrange(off, off + 2);
    assert(s[off] == t[0] && s[off + 1] == t[1]);
}

/// A 32-bit number is read back from its bytes.
pub proof fn le32_round_trip(v: u32, s: Seq<u8>, off: int)
    requires
        0 <= off,
        off + 4 <= s.len(),
        s.subrange(off, off + 4) == le32(v),
    ensures
        le32_at(s, off) == v,
{
    let t = s.subrange(off, off + 4);
    assert(s[off] == t[0] && s[off + 1] == t[1] && s[off + 2] == t[2] && s[off + 3] == t[3]);
}

/// A 64-bit number is read back from its bytes.
pub proof fn le64_round_trip(v: u64, s: Seq<u8>, off: int)
    requires
        0 <= off,
        off + 8 <= s.len(),
        s.subrange(off, off + 8) == le64(v),
    ensures
        le64_at(s, off) == v,
{
    let t = s.subrange(off, off + 8);
    assert(s[off] == t[0] && s[off + 1] == t[1] && s[off + 2] == t[2] && s[off + 3] == t[3]);
    assert(s[off + 4] == t[4] && s[off + 5] == t[5] && s[off + 6] == t[6] && s[off + 7] == t[7]);
}

/// Writes `v` at `b[off..off + 2]`.
pub fn put_u16(b: &mut [u8], off: usize, v: u16)
    requires
        off + 2 <= old(b)@.len(),
    ensures
        final(b)@ == splice(old(b)@, off as int, le16(v)),
{
    b[off] = (v % 256) as u8;
    b[off + 1] = (v / 256) as u8;
}

/// Writes `v` at `b[off..off + 4]`.
pub fn put_u32(b: &mut [u8], off: usize, v: u32)
    requires
        off + 4 <= old(b)@.len(),
    ensures
        final(b)@ == splice(old(b)@, off as int, le32(v)),
{
    let v1: u32 = v / 256;
    let v2: u32 = v1 / 256;
    let v3: u32 = v2 / 256;
    b[off] = (v % 256) as u8;
    b[off + 1] = (v1 % 256) as u8;
    b[off + 2] = (v2 % 256) as u8;
    b[off + 3] = v3 as u8;
}

/// Writes `v` at `b[off..off + 8]`.
pub fn put_u64(b: &mut [u8], off: usize, v: u64)
    requires
        off + 8 <= old(b)@.len(),
    ensures
        final(b)@ == splice(old(b)@, off as int, le64(v)),
{
    let v1: u64 = v / 256;
    let v2: u64 = v1 / 256;
    let v3: u64 = v2 / 256;
    let v4: u64 = v3 / 256;
    let v5: u64 = v4 / 256;
    let v6: u64 = v5 / 256;
    let v7: u64 = v6 / 256;
    b[off] = (v % 256) as u8;
    b[off + 1] = (v1 % 256) as u8;
    b[off + 2] = (v2 % 256) as u8;
    b[off + 3] = (v3 % 256) as u8;
    b[off + 4] = (v4 % 256) as u8;
    b[off + 5] = (v5 % 256) as u8;
    b[off + 6] = (v6 % 256) as u8;
    b[off + 7] = v7 as u8;
}

/// Reads the number at `b[off..off + 2]`.
pub fn get_u16(b: &[u8], off: usize) -> (r: u16)
    requires
        off + 2 <= b@.len(),
    ensures
        r == le16_at(b@, off as int),
{
    b[off] as u16 + 256 * (b[off + 1] as u16)
}

/// Reads the number at `b[off..off + 4]`.
pub fn get_u32(b: &[u8], off: usize) -> (r: u32)
    requires
        off + 4 <= b@.len(),
    ensures
        r == le32_at(b@, off as int),
{
    b[off] as u32 + 256 * (b[off + 1] as u32 + 256 * (b[off + 2] as u32 + 256 * (b[off
        + 3] as u32)))
}

/// Reads the number at `b[off..off + 8]`.
pub fn get_u64(b: &[u8], off: usize) -> (r: u64)
    requires
        off + 8 <= b@.len(),
    ensures
        r == le64_at(b@, off as int),
{
    let lo: u64 = b[off] as u64 + 256 * (b[off + 1] as u64 + 256 * (b[off + 2] as u64 + 256 * (b[off
        + 3] as u64)));
    let hi: u64 = b[off + 4] as u64 + 256 * (b[off + 5] as u64 + 256 * (b[off + 6] as u64 + 256 * (
    b[off + 7] as u64)));
    lo + 0x1_0000_0000 * hi
}

/// The eight little-endian bytes of `v`.
pub fn u64_bytes(v: u64) -> (r: Vec<u8>)
    ensures
        r@ == le64(v),
{
    let mut b: Vec<u8> = vec![0, 0, 0, 0, 0, 0, 0, 0];
    put_u64(b.as_mut_slice(), 0, v);
    b
}

/// The four little-endian bytes of `v`.
pub fn u32_bytes(v: u32) -> (r: Vec<u8>)
    ensures
        r@ == le32(v),
{
    let mut b: Vec<u8> = vec![0, 0, 0, 0];
    put_u32(b.as_mut_slice(), 0, v);
    b
}

/// Copies `src` over `b[off..]`.
pub fn copy_into(b: &mut [u8], off: usize, src: &[u8])
    requires
        off + src@.len() <= old(b)@.len(),
    ensures
        final(b)@ == splice(old(b)@, off as int, src@),
{
    let ghost before = b@;
    let room: usize = b.len();
    let mut i: usize = 0;
    while i < src.len()
        invariant
            i <= src@.len(),
            room == before.len(),
            off + src@.len() <= before.len(),
            b@ == splice(before, off as int, src@.take(i as int)),
        decreases src@.len() - i,
    {
        b[off + i] = src[i];
        i = i + 1;
        assert(b@ =~= splice(before, off as int, src@.take(i as int)));
    }
    assert(src@.take(i as int) =~= src@);
}

} // verus!
