//! Little-endian integers in byte sequences, and writing into the middle of a buffer.
use vstd::prelude::*;

verus! {

/// The two bytes of `x`, least significant first.
pub open spec fn le16(x: u16) -> Seq<u8> {
    seq![(x % 256) as u8, (x / 256) as u8]
}

/// The four bytes of `x`, least significant first.
pub open spec fn le32(x: u32) -> Seq<u8> {
    seq![
        (x % 256) as u8,
        (x / 0x100 % 256) as u8,
        (x / 0x1_0000 % 256) as u8,
        (x / 0x100_0000) as u8,
    ]
}

/// The eight bytes of `x`, least significant first.
pub open spec fn le64(x: u64) -> Seq<u8> {
    le32((x % 0x1_0000_0000) as u32) + le32((x / 0x1_0000_0000) as u32)
}

/// The 16-bit number at `off`.
pub open spec fn word_at(s: Seq<u8>, off: int) -> u16 {
    (s[off] + 256 * s[off + 1]) as u16
}

/// The 32-bit number at `off`.
pub open spec fn dword_at(s: Seq<u8>, off: int) -> u32 {
    (s[off] + 0x100 * s[off + 1] + 0x1_0000 * s[off + 2] + 0x100_0000 * s[off + 3]) as u32
}

/// The 64-bit number at `off`.
pub open spec fn qword_at(s: Seq<u8>, off: int) -> u64 {
    (dword_at(s, off) + 0x1_0000_0000 * dword_at(s, off + 4)) as u64
}

/// `s` with the bytes from `off` on replaced by `b`.
pub open spec fn patched(s: Seq<u8>, off: int, b: Seq<u8>) -> Seq<u8> {
    s.subrange(0, off) + b + s.subrange(off + b.len(), s.len() as int)
}

/// The two's-complement bit pattern of `x`.
pub open spec fn bits32(x: i32) -> u32 {
    if x < 0 {
        (x + 0x1_0000_0000) as u32
    } else {
        x as u32
    }
}

/// The number whose two's-complement bit pattern is `x`.
pub open spec fn signed32(x: u32) -> i32 {
    if x >= 0x8000_0000 {
        (x - 0x1_0000_0000) as i32
    } else {
        x as i32
    }
}

/// The number whose two's-complement bit pattern is `x`.
pub open spec fn signed16(x: u16) -> i16 {
    if x >= 0x8000 {
        (x - 0x1_0000) as i16
    } else {
        x as i16
    }
}

/// Writing 16 bits and reading them back gives the number written.
pub proof fn lemma_le16_read_back(x: u16)
    ensures
        le16(x).len() == 2,
        word_at(le16(x), 0) == x,
{
}

/// Writing 32 bits and reading them back gives the number written.
pub proof fn lemma_le32_read_back(x: u32)
    ensures
        le32(x).len() == 4,
        dword_at(le32(x), 0) == x,
{
    let a = x % 256;
    let b = x / 0x100 % 256;
    let c = x / 0x1_0000 % 256;
    let d = x / 0x100_0000;
    assert(a + 0x100 * b + 0x1_0000 * c + 0x100_0000 * d == x) by (bit_vector)
        requires
            a == x % 256,
            b == x / 0x100 % 256,
            c == x / 0x1_0000 % 256,
            d == x / 0x100_0000,
    ;
}

/// Writing 64 bits and reading them back gives the number written.
pub proof fn lemma_le64_read_back(x: u64)
    ensures
        le64(x).len() == 8,
        qword_at(le64(x), 0) == x,
{
    let low = (x % 0x1_0000_0000) as u32;
    let high = (x / 0x1_0000_0000) as u32;
    lemma_le32_read_back(low);
    lemma_le32_read_back(high);
    lemma_dword_of_part(le32(low) + le32(high), 0, le32(low));
    lemma_dword_of_part(le32(low) + le32(high), 4, le32(high));
}

/// Four bytes read inside a longer sequence are those of the part that stands there.
pub proof fn lemma_dword_of_part(s: Seq<u8>, off: int, part: Seq<u8>)
    requires
        0 <= off,
        part.len() == 4,
        off + 4 <= s.len(),
        s.subrange(off, off + 4) =~= part,
    ensures
        dword_at(s, off) == dword_at(part, 0),
{
    assert(part[0] == s[off] && part[1] == s[off + 1] && part[2] == s[off + 2] && part[3] == s[off
        + 3]);
}

/// Two bytes read inside a longer sequence are those of the part that stands there.
pub proof fn lemma_word_of_part(s: Seq<u8>, off: int, part: Seq<u8>)
    requires
        0 <= off,
        part.len() == 2,
        off + 2 <= s.len(),
        s.subrange(off, off + 2) =~= part,
    ensures
        word_at(s, off) == word_at(part, 0),
{
    assert(part[0] == s[off] && part[1] == s[off + 1]);
}

/// What was written at `off` is what is read there, and nothing else changed.
pub proof fn lemma_patched(s: Seq<u8>, off: int, b: Seq<u8>)
    requires
        0 <= off,
        off + b.len() <= s.len(),
    ensures
        patched(s, off, b).len() == s.len(),
        patched(s, off, b).subrange(off, off + b.len()) == b,
        forall|i: int|
            0 <= i < s.len() && !(off <= i < off + b.len()) ==> patched(s, off, b)[i] == s[i],
{
    assert(patched(s, off, b).subrange(off, off + b.len()) =~= b);
}

/// Reading a signed number back from its bit pattern.
pub proof fn lemma_signed32_of_bits32(x: i32)
    ensures
        signed32(bits32(x)) == x,
{
}

/// The 16-bit number at `off` of `b`.
pub fn read_u16(b: &[u8], off: usize) -> (x: u16)
    requires
        off + 2 <= b@.len(),
    ensures
        x == word_at(b@, off as int),
{
    b[off] as u16 + 256 * (b[off + 1] as u16)
}

/// The 32-bit number at `off` of `b`.
pub fn read_u32(b: &[u8], off: usize) -> (x: u32)
    requires
        off + 4 <= b@.len(),
    ensures
        x == dword_at(b@, off as int),
{
    b[off] as u32 + 0x100 * (b[off + 1] as u32) + 0x1_0000 * (b[off + 2] as u32) + 0x100_0000 * (
    b[off + 3] as u32)
}

/// The 64-bit number at `off` of `b`.
pub fn read_u64(b: &[u8], off: usize) -> (x: u64)
    requires
        off + 8 <= b@.len(),
    ensures
        x == qword_at(b@, off as int),
{
    assert(off + 8 <= b.len());
    let low: u32 = read_u32(b, off);
    let high: u32 = read_u32(b, off + 4);
    low as u64 + 0x1_0000_0000 * (high as u64)
}

/// Appends the two bytes of `x`.
pub fn push_u16(out: &mut Vec<u8>, x: u16)
    ensures
        final(out)@ == old(out)@ + le16(x),
{
    out.push((x % 256) as u8);
    out.push((x / 256) as u8);
    assert(out@ =~= old(out)@ + le16(x));
}

/// Appends the four bytes of `x`.
pub fn push_u32(out: &mut Vec<u8>, x: u32)
    ensures
        final(out)@ == old(out)@ + le32(x),
{
    out.push((x % 256) as u8);
    out.push((x / 0x100 % 256) as u8);
    out.push((x / 0x1_0000 % 256) as u8);
    out.push((x / 0x100_0000) as u8);
    assert(out@ =~= old(out)@ + le32(x));
}

/// Appends the eight bytes of `x`.
pub fn push_u64(out: &mut Vec<u8>, x: u64)
    ensures
        final(out)@ == old(out)@ + le64(x),
{
    push_u32(out, (x % 0x1_0000_0000) as u32);
    push_u32(out, (x / 0x1_0000_0000) as u32);
    assert(out@ =~= old(out)@ + le64(x));
}

/// Appends `b`.
pub fn push_bytes(out: &mut Vec<u8>, b: &[u8])
    ensures
        final(out)@ == old(out)@ + b@,
{
    let n: usize = b.len();
    let mut i: usize = 0;
    while i < n
        invariant
            i <= n,
            n == b@.len(),
            out@ == old(out)@ + b@.subrange(0, i as int),
        decreases n - i,
    {
        out.push(b[i]);
        i = i + 1;
        assert(out@ =~= old(out)@ + b@.subrange(0, i as int));
    }
    assert(b@.subrange(0, n as int) =~= b@);
}

/// Replaces the bytes of `buf` from `off` on by `b`.
pub fn write_at(buf: &mut Vec<u8>, off: usize, b: &[u8])
    requires
        off + b@.len() <= old(buf)@.len(),
    ensures
        final(buf)@ == patched(old(buf)@, off as int, b@),
        final(buf)@.len() == old(buf)@.len(),
{
    let n: usize = b.len();
    let mut i: usize = 0;
    assert(off + n <= buf.len());
    while i < n
        invariant
            i <= n,
            n == b@.len(),
            off + n <= usize::MAX,
            off + n <= buf@.len(),
            buf@.len() == old(buf)@.len(),
            forall|k: int| 0 <= k < i ==> buf@[off + k] == #[trigger] b@[k],
            forall|k: int|
                0 <= k < buf@.len() && !(off <= k < off + i) ==> buf@[k] == old(buf)@[k],
        decreases n - i,
    {
        let byte: u8 = b[i];
        buf.set(off + i, byte);
        i = i + 1;
    }
    assert forall|k: int| 0 <= k < buf@.len() implies buf@[k] == patched(
        old(buf)@,
        off as int,
        b@,
    )[k] by {
        if off <= k < off + n {
            let j = k - off;
            assert(buf@[off + j] == b@[j]);
        }
    }
    assert(buf@ =~= patched(old(buf)@, off as int, b@));
}

/// Replaces the four bytes of `buf` from `off` on by those of `x`.
pub fn write_u32_at(buf: &mut Vec<u8>, off: usize, x: u32)
    requires
        off + 4 <= old(buf)@.len(),
    ensures
        final(buf)@ == patched(old(buf)@, off as int, le32(x)),
        final(buf)@.len() == old(buf)@.len(),
{
    let mut b: Vec<u8> = Vec::new();
    push_u32(&mut b, x);
    assert(b@ =~= le32(x));
    write_at(buf, off, b.as_slice());
}

/// The bytes of `b` from `from` up to `to`, as a buffer of their own.
pub fn copy_range(b: &[u8], from: usize, to: usize) -> (out: Vec<u8>)
    requires
        from <= to <= b@.len(),
    ensures
        out@ == b@.subrange(from as int, to as int),
{
    let part: &[u8] = vstd::slice::slice_subrange(b, from, to);
    vstd::slice::slice_to_vec(part)
}

/// Whether the bytes of `b` from `off` on are those of `word`.
pub fn matches_at(b: &[u8], off: usize, word: &[u8]) -> (same: bool)
    requires
        off + word@.len() <= b@.len(),
    ensures
        same == (b@.subrange(off as int, off + word@.len()) == word@),
{
    let n: usize = word.len();
    let mut i: usize = 0;
    assert(off + n <= b.len());
    while i < n
        invariant
            i <= n,
            n == word@.len(),
            off + n <= usize::MAX,
            off + n <= b@.len(),
            forall|k: int| 0 <= k < i ==> b@[off + k] == #[trigger] word@[k],
        decreases n - i,
    {
        if b[off + i] != word[i] {
            proof {
                let part = b@.subrange(off as int, off + word@.len());
                assert(part[i as int] == b@[off + i]);
            }
            return false;
        }
        i = i + 1;
    }
    assert(b@.subrange(off as int, off + word@.len()) =~= word@);
    true
}

/// The two's-complement bit pattern of `x`.
pub fn status_bits(x: i32) -> (bits: u32)
    ensures
        bits == bits32(x),
{
    if x < 0 {
        (x as i64 + 0x1_0000_0000) as u32
    } else {
        x as u32
    }
}

/// The number whose two's-complement bit pattern is `x`.
pub fn signed_of(x: u32) -> (n: i32)
    ensures
        n == signed32(x),
{
    if x >= 0x8000_0000 {
        (x as i64 - 0x1_0000_0000) as i32
    } else {
        x as i32
    }
}

/// The number whose two's-complement bit pattern is `x`.
pub fn signed_word_of(x: u16) -> (n: i16)
    ensures
        n == signed16(x),
{
    if x >= 0x8000 {
        (x as i32 - 0x1_0000) as i16
    } else {
        x as i16
    }
}

} // verus!
