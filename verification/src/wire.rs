//! Byte-level encodings shared by the USB descriptors (little-endian) and the
//! USB/IP framing (big-endian): integers, zero padding and fixed-width
//! strings.

use vstd::prelude::*;
use vstd::slice::slice_subrange;
use vstd::string::StringSliceAdditionalSpecFns;

verus! {

/// The two bytes of `v`, most significant first.
pub open spec fn be16(v: u16) -> Seq<u8> {
    seq![(v / 256) as u8, (v % 256) as u8]
}

/// The two bytes of `v`, least significant first.
pub open spec fn le16(v: u16) -> Seq<u8> {
    seq![(v % 256) as u8, (v / 256) as u8]
}

/// The four bytes of `v`, most significant first.
pub open spec fn be32(v: u32) -> Seq<u8> {
    seq![
        (v / 0x100_0000) as u8,
        (v / 0x1_0000 % 256) as u8,
        (v / 0x100 % 256) as u8,
        (v % 256) as u8,
    ]
}

/// The unsigned number with the same 32-bit two's complement pattern as `v`.
pub open spec fn twos_complement(v: i32) -> u32 {
    if v >= 0 {
        v as u32
    } else {
        (v + 0x1_0000_0000) as u32
    }
}

/// The big-endian number held in `s[i]`, `s[i + 1]`.
pub open spec fn be16_at(s: Seq<u8>, i: int) -> u16 {
    (s[i] * 256 + s[i + 1]) as u16
}

/// The little-endian number held in `s[i]`, `s[i + 1]`.
pub open spec fn le16_at(s: Seq<u8>, i: int) -> u16 {
    (s[i] + s[i + 1] * 256) as u16
}

/// The big-endian number held in `s[i] .. s[i + 3]`.
pub open spec fn be32_at(s: Seq<u8>, i: int) -> u32 {
    (s[i] * 0x100_0000 + s[i + 1] * 0x1_0000 + s[i + 2] * 0x100 + s[i + 3]) as u32
}

/// `n` zero bytes.
pub open spec fn zeros(n: nat) -> Seq<u8> {
    Seq::new(n, |i: int| 0u8)
}

/// `s` followed by as many zero bytes as it takes to reach `len` bytes.
/// A sequence that is already longer is left as it is.
pub open spec fn padded(s: Seq<u8>, len: nat) -> Seq<u8> {
    if s.len() <= len {
        s + zeros((len - s.len()) as nat)
    } else {
        s
    }
}

/// Four bytes combined most significant first give a 32-bit number whose
/// bytes they are.
pub proof fn lemma_be32_digits(a: int, b: int, c: int, d: int)
    requires
        0 <= a < 256,
        0 <= b < 256,
        0 <= c < 256,
        0 <= d < 256,
    ensures
        ({
            let v = a * 0x100_0000 + b * 0x1_0000 + c * 0x100 + d;
            &&& 0 <= v <= u32::MAX
            &&& v / 0x100_0000 == a
            &&& v / 0x1_0000 % 256 == b
            &&& v / 0x100 % 256 == c
            &&& v % 256 == d
        }),
{
}

/// Two bytes combined give a 16-bit number whose bytes they are.
pub proof fn lemma_16_digits(a: int, b: int)
    requires
        0 <= a < 256,
        0 <= b < 256,
    ensures
        ({
            let v = a * 256 + b;
            &&& 0 <= v <= u16::MAX
            &&& v / 256 == a
            &&& v % 256 == b
        }),
{
}

/// Decoding undoes encoding, for each of the integer encodings.
pub proof fn lemma_integer_round_trip(h: u16, w: u32)
    ensures
        be16_at(be16(h), 0) == h,
        le16_at(le16(h), 0) == h,
        be32_at(be32(w), 0) == w,
        be16(h).len() == 2,
        le16(h).len() == 2,
        be32(w).len() == 4,
{
}

/// Encoding undoes decoding: the bytes a number was read from are the bytes
/// it is written as.
pub proof fn lemma_bytes_round_trip(s: Seq<u8>, i: int)
    requires
        0 <= i,
    ensures
        i + 2 <= s.len() ==> be16(be16_at(s, i)) == s.subrange(i, i + 2),
        i + 2 <= s.len() ==> le16(le16_at(s, i)) == s.subrange(i, i + 2),
        i + 4 <= s.len() ==> be32(be32_at(s, i)) == s.subrange(i, i + 4),
{
    if i + 2 <= s.len() {
        lemma_16_digits(s[i] as int, s[i + 1] as int);
        lemma_16_digits(s[i + 1] as int, s[i] as int);
        assert(be16(be16_at(s, i)) =~= s.subrange(i, i + 2));
        assert(le16(le16_at(s, i)) =~= s.subrange(i, i + 2));
    }
    if i + 4 <= s.len() {
        lemma_be32_digits(s[i] as int, s[i + 1] as int, s[i + 2] as int, s[i + 3] as int);
        assert(be32(be32_at(s, i)) =~= s.subrange(i, i + 4));
    }
}

/// Two adjoining ranges of `s` make up the range that spans both.
pub proof fn lemma_subrange_join(s: Seq<u8>, i: int, j: int, k: int)
    requires
        0 <= i <= j <= k <= s.len(),
    ensures
        s.subrange(i, j) + s.subrange(j, k) == s.subrange(i, k),
{
    assert(s.subrange(i, j) + s.subrange(j, k) =~= s.subrange(i, k));
}

/// A number written at offset `i` of `s` is the number read there.
pub proof fn lemma_read_back(s: Seq<u8>, i: int, h: u16, w: u32)
    requires
        0 <= i,
    ensures
        i + 2 <= s.len() && s.subrange(i, i + 2) == be16(h) ==> be16_at(s, i) == h,
        i + 2 <= s.len() && s.subrange(i, i + 2) == le16(h) ==> le16_at(s, i) == h,
        i + 4 <= s.len() && s.subrange(i, i + 4) == be32(w) ==> be32_at(s, i) == w,
{
    if i + 2 <= s.len() {
        let t = s.subrange(i, i + 2);
        assert(t[0] == s[i] && t[1] == s[i + 1]);
    }
    if i + 4 <= s.len() {
        let t = s.subrange(i, i + 4);
        assert(t[0] == s[i] && t[1] == s[i + 1] && t[2] == s[i + 2] && t[3] == s[i + 3]);
    }
}

/// Appends `v` in big-endian order.
pub fn push_be16(out: &mut Vec<u8>, v: u16)
    ensures
        final(out)@ == old(out)@ + be16(v),
{
    out.push((v / 256) as u8);
    out.push((v % 256) as u8);
    assert(out@ =~= old(out)@ + be16(v));
}

/// Appends `v` in little-endian order.
pub fn push_le16(out: &mut Vec<u8>, v: u16)
    ensures
        final(out)@ == old(out)@ + le16(v),
{
    out.push((v % 256) as u8);
    out.push((v / 256) as u8);
    assert(out@ =~= old(out)@ + le16(v));
}

/// Appends `v` in big-endian order.
pub fn push_be32(out: &mut Vec<u8>, v: u32)
    ensures
        final(out)@ == old(out)@ + be32(v),
{
    out.push((v / 0x100_0000) as u8);
    out.push((v / 0x1_0000 % 256) as u8);
    out.push((v / 0x100 % 256) as u8);
    out.push((v % 256) as u8);
    assert(out@ =~= old(out)@ + be32(v));
}

/// The bit pattern of a signed number, as an unsigned one.
pub fn to_unsigned(v: i32) -> (u: u32)
    ensures
        u == twos_complement(v),
{
    if v >= 0 {
        v as u32
    } else {
        let wide: i64 = v as i64 + 0x1_0000_0000;
        wide as u32
    }
}

/// Appends every byte of `bytes`.
pub fn push_all(out: &mut Vec<u8>, bytes: &[u8])
    ensures
        final(out)@ == old(out)@ + bytes@,
{
    let mut i: usize = 0;
    while i < bytes.len()
        invariant
            i <= bytes.len(),
            out@ == old(out)@ + bytes@.subrange(0, i as int),
        decreases bytes.len() - i,
    {
        out.push(bytes[i]);
        i += 1;
        assert(out@ =~= old(out)@ + bytes@.subrange(0, i as int));
    }
    assert(bytes@.subrange(0, i as int) =~= bytes@);
}

/// Appends `n` zero bytes.
pub fn push_zeros(out: &mut Vec<u8>, n: usize)
    ensures
        final(out)@ == old(out)@ + zeros(n as nat),
{
    let mut i: usize = 0;
    while i < n
        invariant
            i <= n,
            out@ == old(out)@ + zeros(i as nat),
        decreases n - i,
    {
        out.push(0u8);
        i += 1;
        assert(out@ =~= old(out)@ + zeros(i as nat));
    }
}

/// Reads the big-endian number at `buf[at] .. buf[at + 3]`.
pub fn read_be32(buf: &[u8], at: usize) -> (v: u32)
    requires
        at + 4 <= buf.len(),
    ensures
        v == be32_at(buf@, at as int),
{
    let b0: u32 = buf[at] as u32;
    let b1: u32 = buf[at + 1] as u32;
    let b2: u32 = buf[at + 2] as u32;
    let b3: u32 = buf[at + 3] as u32;
    b0 * 0x100_0000 + b1 * 0x1_0000 + b2 * 0x100 + b3
}

/// Reads the big-endian number at `buf[at]`, `buf[at + 1]`.
pub fn read_be16(buf: &[u8], at: usize) -> (v: u16)
    requires
        at + 2 <= buf.len(),
    ensures
        v == be16_at(buf@, at as int),
{
    let b0: u16 = buf[at] as u16;
    let b1: u16 = buf[at + 1] as u16;
    b0 * 256 + b1
}

/// Reads the little-endian number at `buf[at]`, `buf[at + 1]`.
pub fn read_le16(buf: &[u8], at: usize) -> (v: u16)
    requires
        at + 2 <= buf.len(),
    ensures
        v == le16_at(buf@, at as int),
{
    let b0: u16 = buf[at] as u16;
    let b1: u16 = buf[at + 1] as u16;
    b0 + b1 * 256
}

/// A copy of `buf[from .. to]`.
pub fn copy_range(buf: &[u8], from: usize, to: usize) -> (out: Vec<u8>)
    requires
        from <= to <= buf.len(),
    ensures
        out@ == buf@.subrange(from as int, to as int),
{
    let mut out: Vec<u8> = Vec::new();
    push_all(&mut out, slice_subrange(buf, from, to));
    assert(out@ =~= buf@.subrange(from as int, to as int));
    out
}

/// The UTF-8 bytes of `s`, zero-padded to exactly `len` bytes: the form in
/// which a device record carries a path or a bus id.
pub fn fixed_string(s: &str, len: usize) -> (out: Vec<u8>)
    requires
        s.spec_bytes().len() <= len,
    ensures
        out@ == padded(s.spec_bytes(), len as nat),
        out@.len() == len,
{
    let bytes = s.as_bytes();
    let mut out: Vec<u8> = Vec::new();
    push_all(&mut out, bytes);
    push_zeros(&mut out, len - bytes.len());
    assert(out@ =~= padded(s.spec_bytes(), len as nat));
    out
}

} // verus!
