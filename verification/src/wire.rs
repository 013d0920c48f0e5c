//! Fixed-width integers and byte runs on the wire.
//!
//! Every multi-byte integer of the protocol is little-endian, with one
//! exception: the UDP port inside the address block is big-endian.

use vstd::prelude::*;

verus! {

/// The value of the first two bytes of `s`, read as a little-endian integer.
pub open spec fn le16(s: Seq<u8>) -> int {
    s[0] as int + 256 * (s[1] as int)
}

/// The value of the first two bytes of `s`, read as a big-endian integer.
pub open spec fn be16(s: Seq<u8>) -> int {
    256 * (s[0] as int) + s[1] as int
}

/// The value of the first four bytes of `s`, read as a little-endian integer.
pub open spec fn le32(s: Seq<u8>) -> int {
    le16(s.subrange(0, 2)) + 65536 * le16(s.subrange(2, 4))
}

/// The value of the first eight bytes of `s`, read as a little-endian integer.
pub open spec fn le64(s: Seq<u8>) -> int {
    le32(s.subrange(0, 4)) + 4294967296 * le32(s.subrange(4, 8))
}

/// The two bytes that hold `x`, low byte first.
pub open spec fn le16_bytes(x: u16) -> Seq<u8> {
    seq![(x % 256) as u8, (x / 256) as u8]
}

/// The two bytes that hold `x`, high byte first.
pub open spec fn be16_bytes(x: u16) -> Seq<u8> {
    seq![(x / 256) as u8, (x % 256) as u8]
}

/// The four bytes that hold `x`, low byte first.
pub open spec fn le32_bytes(x: u32) -> Seq<u8> {
    le16_bytes((x % 65536) as u16) + le16_bytes((x / 65536) as u16)
}

/// The eight bytes that hold `x`, low byte first.
pub open spec fn le64_bytes(x: u64) -> Seq<u8> {
    le32_bytes((x % 4294967296) as u32) + le32_bytes((x / 4294967296) as u32)
}

/// The array whose bytes are `s`, for `s` of length `N`.
pub open spec fn array_of<const N: usize>(s: Seq<u8>) -> [u8; N] {
    choose|a: [u8; N]| a@ == s
}

/// An array that agrees with `s` on its first `k` bytes.
spec fn array_upto<const N: usize>(s: Seq<u8>, k: nat) -> [u8; N]
    decreases k,
{
    if k == 0 {
        vstd::array::spec_array_fill_for_copy_type::<u8, N>(0u8)
    } else {
        vstd::array::spec_array_update(array_upto::<N>(s, (k - 1) as nat), k - 1, s[k - 1])
    }
}

proof fn lemma_array_upto<const N: usize>(s: Seq<u8>, k: nat)
    requires
        k <= N,
        s.len() == N,
    ensures
        forall|i: int| 0 <= i < k ==> (#[trigger] array_upto::<N>(s, k)@[i]) == s[i],
    decreases k,
{
    if k > 0 {
        lemma_array_upto::<N>(s, (k - 1) as nat);
        let before = array_upto::<N>(s, (k - 1) as nat);
        let after = vstd::array::spec_array_update(before, k - 1, s[k - 1]);
        assert(after@ == before@.update(k - 1, s[k - 1]));
        assert(array_upto::<N>(s, k) == after);
        assert forall|i: int| 0 <= i < k implies (#[trigger] array_upto::<N>(s, k)@[i])
            == s[i] by {
            if i < k - 1 {
                assert(before@[i] == s[i]);
            }
        }
    }
}

/// Every run of `N` bytes is the content of an array: `array_of` gives the
/// array that holds exactly the bytes of `s`.
pub proof fn lemma_array_of<const N: usize>(s: Seq<u8>)
    requires
        s.len() == N,
    ensures
        array_of::<N>(s)@ == s,
{
    let a = array_upto::<N>(s, N as nat);
    lemma_array_upto::<N>(s, N as nat);
    assert(a@ =~= s);
}

/// An array is recovered from its own bytes.
pub proof fn lemma_array_of_view<const N: usize>(a: [u8; N])
    ensures
        array_of::<N>(a@) == a,
{
    let b = array_of::<N>(a@);
    assert(b@ == a@);
    assert forall|i: int| 0 <= i < N implies b[i] == a[i] by {
        assert(b@[i] == a@[i]);
    }
    assert(b =~= a);
}

/// Two bytes in little-endian order read back as the number they were
/// written from.
pub proof fn lemma_le16_roundtrip(x: u16)
    ensures
        le16_bytes(x).len() == 2,
        le16(le16_bytes(x)) == x,
{
}

/// Two bytes in big-endian order read back as the number they were
/// written from.
pub proof fn lemma_be16_roundtrip(x: u16)
    ensures
        be16_bytes(x).len() == 2,
        be16(be16_bytes(x)) == x,
{
}

/// Four bytes in little-endian order read back as the number they were
/// written from.
pub proof fn lemma_le32_roundtrip(x: u32)
    ensures
        le32_bytes(x).len() == 4,
        le32(le32_bytes(x)) == x,
{
    let lo = (x % 65536) as u16;
    let hi = (x / 65536) as u16;
    lemma_le16_roundtrip(lo);
    lemma_le16_roundtrip(hi);
    let s = le32_bytes(x);
    assert(s.subrange(0, 2) =~= le16_bytes(lo));
    assert(s.subrange(2, 4) =~= le16_bytes(hi));
}

/// Eight bytes in little-endian order read back as the number they were
/// written from.
pub proof fn lemma_le64_roundtrip(x: u64)
    ensures
        le64_bytes(x).len() == 8,
        le64(le64_bytes(x)) == x,
{
    let lo = (x % 4294967296) as u32;
    let hi = (x / 4294967296) as u32;
    lemma_le32_roundtrip(lo);
    lemma_le32_roundtrip(hi);
    let s = le64_bytes(x);
    assert(s.subrange(0, 4) =~= le32_bytes(lo));
    assert(s.subrange(4, 8) =~= le32_bytes(hi));
}

/// Two bytes are the little-endian bytes of the number they read as.
pub proof fn lemma_le16_exact(s: Seq<u8>)
    requires
        s.len() == 2,
    ensures
        0 <= le16(s) <= u16::MAX,
        le16_bytes(le16(s) as u16) == s,
{
    assert(le16_bytes(le16(s) as u16) =~= s);
}

/// Two bytes are the big-endian bytes of the number they read as.
pub proof fn lemma_be16_exact(s: Seq<u8>)
    requires
        s.len() == 2,
    ensures
        0 <= be16(s) <= u16::MAX,
        be16_bytes(be16(s) as u16) == s,
{
    assert(be16_bytes(be16(s) as u16) =~= s);
}

/// Four bytes are the little-endian bytes of the number they read as.
pub proof fn lemma_le32_exact(s: Seq<u8>)
    requires
        s.len() == 4,
    ensures
        0 <= le32(s) <= u32::MAX,
        le32_bytes(le32(s) as u32) == s,
{
    let lo = s.subrange(0, 2);
    let hi = s.subrange(2, 4);
    lemma_le16_exact(lo);
    lemma_le16_exact(hi);
    let x = le32(s) as u32;
    assert(x % 65536 == le16(lo));
    assert(x / 65536 == le16(hi));
    assert(lo + hi =~= s);
}

/// Eight bytes are the little-endian bytes of the number they read as.
pub proof fn lemma_le64_exact(s: Seq<u8>)
    requires
        s.len() == 8,
    ensures
        0 <= le64(s) <= u64::MAX,
        le64_bytes(le64(s) as u64) == s,
{
    let lo = s.subrange(0, 4);
    let hi = s.subrange(4, 8);
    lemma_le32_exact(lo);
    lemma_le32_exact(hi);
    let x = le64(s) as u64;
    assert(x % 4294967296 == le32(lo));
    assert(x / 4294967296 == le32(hi));
    assert(lo + hi =~= s);
}

/// Reads the little-endian `u16` that starts at `at`.
pub fn read_le16(buf: &[u8], at: usize) -> (x: u16)
    requires
        at + 2 <= buf.len(),
    ensures
        x as int == le16(buf@.subrange(at as int, at + 2)),
{
    let lo: u16 = buf[at] as u16;
    let hi: u16 = buf[at + 1] as u16;
    lo + hi * 256
}

/// Reads the big-endian `u16` that starts at `at`.
pub fn read_be16(buf: &[u8], at: usize) -> (x: u16)
    requires
        at + 2 <= buf.len(),
    ensures
        x as int == be16(buf@.subrange(at as int, at + 2)),
{
    let hi: u16 = buf[at] as u16;
    let lo: u16 = buf[at + 1] as u16;
    hi * 256 + lo
}

/// Reads the little-endian `u32` that starts at `at`.
pub fn read_le32(buf: &[u8], at: usize) -> (x: u32)
    requires
        at + 4 <= buf.len(),
    ensures
        x as int == le32(buf@.subrange(at as int, at + 4)),
{
    let lo: u32 = read_le16(buf, at) as u32;
    let hi: u32 = read_le16(buf, at + 2) as u32;
    proof {
        let s = buf@.subrange(at as int, at + 4);
        assert(s.subrange(0, 2) =~= buf@.subrange(at as int, at + 2));
        assert(s.subrange(2, 4) =~= buf@.subrange(at + 2, at + 4));
    }
    lo + hi * 65536
}

/// Reads the little-endian `u64` that starts at `at`.
pub fn read_le64(buf: &[u8], at: usize) -> (x: u64)
    requires
        at + 8 <= buf.len(),
    ensures
        x as int == le64(buf@.subrange(at as int, at + 8)),
{
    let lo: u64 = read_le32(buf, at) as u64;
    let hi: u64 = read_le32(buf, at + 4) as u64;
    proof {
        let s = buf@.subrange(at as int, at + 8);
        assert(s.subrange(0, 4) =~= buf@.subrange(at as int, at + 4));
        assert(s.subrange(4, 8) =~= buf@.subrange(at + 4, at + 8));
    }
    lo + hi * 4294967296
}

/// Reads the `N` bytes that start at `at`.
pub fn read_array<const N: usize>(buf: &[u8], at: usize) -> (a: [u8; N])
    requires
        at + N <= buf.len(),
    ensures
        a@ == buf@.subrange(at as int, at + N),
{
    let mut a = [0u8; N];
    let mut i: usize = 0;
    while i < N
        invariant
            i <= N,
            at + N <= buf.len(),
            forall|k: int| 0 <= k < i ==> a@[k] == buf@[at + k],
        decreases N - i,
    {
        a[i] = buf[at + i];
        i += 1;
    }
    assert(a@ =~= buf@.subrange(at as int, at + N));
    a
}

/// Appends `x` in little-endian order.
pub fn write_le16(out: &mut Vec<u8>, x: u16)
    ensures
        final(out)@ == old(out)@ + le16_bytes(x),
{
    out.push((x % 256) as u8);
    out.push((x / 256) as u8);
}

/// Appends `x` in big-endian order.
pub fn write_be16(out: &mut Vec<u8>, x: u16)
    ensures
        final(out)@ == old(out)@ + be16_bytes(x),
{
    out.push((x / 256) as u8);
    out.push((x % 256) as u8);
}

/// Appends `x` in little-endian order.
pub fn write_le32(out: &mut Vec<u8>, x: u32)
    ensures
        final(out)@ == old(out)@ + le32_bytes(x),
{
    write_le16(out, (x % 65536) as u16);
    write_le16(out, (x / 65536) as u16);
}

/// Appends `x` in little-endian order.
pub fn write_le64(out: &mut Vec<u8>, x: u64)
    ensures
        final(out)@ == old(out)@ + le64_bytes(x),
{
    write_le32(out, (x % 4294967296) as u32);
    write_le32(out, (x / 4294967296) as u32);
}

/// Appends the bytes of `src`.
pub fn write_bytes(out: &mut Vec<u8>, src: &[u8])
    ensures
        final(out)@ == old(out)@ + src@,
{
    let mut i: usize = 0;
    while i < src.len()
        invariant
            i <= src@.len(),
            out@ == old(out)@ + src@.subrange(0, i as int),
        decreases src@.len() - i,
    {
        out.push(src[i]);
        i += 1;
    }
    assert(src@.subrange(0, src@.len() as int) =~= src@);
}

/// Copies the bytes of `buf` from `start` up to `end`.
pub fn copy_range(buf: &[u8], start: usize, end: usize) -> (out: Vec<u8>)
    requires
        start <= end <= buf.len(),
    ensures
        out@ == buf@.subrange(start as int, end as int),
{
    let mut out: Vec<u8> = Vec::new();
    let mut i: usize = start;
    while i < end
        invariant
            start <= i <= end <= buf.len(),
            out@ == buf@.subrange(start as int, i as int),
        decreases end - i,
    {
        out.push(buf[i]);
        i += 1;
    }
    out
}

} // verus!
