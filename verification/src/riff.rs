//! WAVE files: the chunks of a RIFF file, the format of the samples in it, and the samples.
use crate::bytes;
use vstd::prelude::*;

verus! {

/// The tag of samples that are integers.
pub const TAG_PCM: u16 = 1;

/// The tag of samples that are floating-point numbers.
pub const TAG_FLOAT: u16 = 3;

/// The tag of a format that gives its samples' kind further on.
pub const TAG_EXTENSIBLE: u16 = 0xFFFE;

/// The length of the header that is written in front of the samples.
pub const HEADER_BYTES: usize = 44;

/// One sample: the part of full scale that an integer stands for, or the bits of a floating-point
/// number.
#[derive(Clone, Copy, Debug, PartialEq, Eq, Structural)]
pub enum Sample {
    /// `value` divided by `of`.
    Part { value: i32, of: u32 },
    /// The bits of a 32-bit floating-point number.
    Float32(u32),
    /// The bits of a 64-bit floating-point number.
    Float64(u64),
}

/// How samples are stored.
#[derive(Clone, Copy, Debug, PartialEq, Eq, Structural)]
pub enum Encoding {
    Pcm8,
    Pcm16,
    Pcm24,
    Pcm32,
    Float32,
    Float64,
}

/// What a format chunk says.
#[derive(Clone, Copy, Debug, PartialEq, Eq, Structural)]
pub struct Format {
    pub tag: u16,
    pub channels: u16,
    pub rate: u32,
    pub bits: u16,
}

/// What a chunk is.
#[derive(Clone, Copy, Debug, PartialEq, Eq, Structural)]
pub enum ChunkKind {
    Format,
    Data,
    Other,
}

/// What the chunks of a file have given: the last format, and where the last samples stand.
#[derive(Clone, Copy, Debug)]
pub struct Parts {
    pub format: Option<Format>,
    pub data: Option<(usize, usize)>,
}

/// `RIFF`
pub open spec fn word_riff() -> Seq<u8> {
    seq![0x52u8, 0x49, 0x46, 0x46]
}

/// `WAVE`
pub open spec fn word_wave() -> Seq<u8> {
    seq![0x57u8, 0x41, 0x56, 0x45]
}

/// `fmt ` with its blank
pub open spec fn word_fmt() -> Seq<u8> {
    seq![0x66u8, 0x6D, 0x74, 0x20]
}

/// `data`
pub open spec fn word_data() -> Seq<u8> {
    seq![0x64u8, 0x61, 0x74, 0x61]
}

/// The file says of itself that it is a WAVE file.
pub open spec fn is_wave(b: Seq<u8>) -> bool {
    &&& b.len() >= 12
    &&& b.subrange(0, 4) == word_riff()
    &&& b.subrange(8, 12) == word_wave()
}

/// What the chunk at `pos` is.
pub open spec fn kind_at(b: Seq<u8>, pos: int) -> ChunkKind {
    if b.subrange(pos, pos + 4) == word_fmt() {
        ChunkKind::Format
    } else if b.subrange(pos, pos + 4) == word_data() {
        ChunkKind::Data
    } else {
        ChunkKind::Other
    }
}

/// How many bytes a sample takes.
pub open spec fn width(e: Encoding) -> int {
    match e {
        Encoding::Pcm8 => 1,
        Encoding::Pcm16 => 2,
        Encoding::Pcm24 => 3,
        Encoding::Pcm32 => 4,
        Encoding::Float32 => 4,
        Encoding::Float64 => 8,
    }
}

/// The number whose 24-bit two's-complement pattern stands at `off`.
pub open spec fn signed24_at(b: Seq<u8>, off: int) -> i32 {
    if b[off + 2] >= 0x80 {
        (b[off] + 0x100 * b[off + 1] + 0x1_0000 * b[off + 2] - 0x100_0000) as i32
    } else {
        (b[off] + 0x100 * b[off + 1] + 0x1_0000 * b[off + 2]) as i32
    }
}

/// The sample at `off`.
pub open spec fn sample_at(b: Seq<u8>, off: int, e: Encoding) -> Sample {
    match e {
        Encoding::Pcm8 => Sample::Part { value: (b[off] - 128) as i32, of: 128 },
        Encoding::Pcm16 => Sample::Part {
            value: bytes::signed16(bytes::word_at(b, off)) as i32,
            of: 32768,
        },
        Encoding::Pcm24 => Sample::Part { value: signed24_at(b, off), of: 0x80_0000 },
        Encoding::Pcm32 => Sample::Part {
            value: bytes::signed32(bytes::dword_at(b, off)),
            of: 0x8000_0000,
        },
        Encoding::Float32 => Sample::Float32(bytes::dword_at(b, off)),
        Encoding::Float64 => Sample::Float64(bytes::qword_at(b, off)),
    }
}

/// The samples in `b`; bytes at its end that are no whole sample are left out.
pub open spec fn decoded(b: Seq<u8>, e: Encoding) -> Seq<Sample> {
    Seq::new((b.len() as int / width(e)) as nat, |i: int| sample_at(b, i * width(e), e))
}

/// The header of a file with one format chunk and one chunk of samples.
#[verifier::opaque]
pub open spec fn header(
    tag: u16,
    channels: u16,
    rate: u32,
    byte_rate: u32,
    align: u16,
    bits: u16,
    data_len: u32,
) -> Seq<u8> {
    word_riff() + bytes::le32((36 + data_len) as u32) + word_wave() + word_fmt() + bytes::le32(16)
        + bytes::le16(tag) + bytes::le16(channels) + bytes::le32(rate) + bytes::le32(byte_rate)
        + bytes::le16(align) + bytes::le16(bits) + word_data() + bytes::le32(data_len)
}

/// Whether a file says of itself that it is a WAVE file.
pub fn check_wave(b: &[u8]) -> (yes: bool)
    ensures
        yes == is_wave(b@),
{
    if b.len() < 12 {
        return false;
    }
    let riff: [u8; 4] = [0x52, 0x49, 0x46, 0x46];
    let wave: [u8; 4] = [0x57, 0x41, 0x56, 0x45];
    assert(riff@ =~= word_riff());
    assert(wave@ =~= word_wave());
    bytes::matches_at(b, 0, &riff) && bytes::matches_at(b, 8, &wave)
}

/// What the chunk at `pos` is.
pub fn chunk_kind(b: &[u8], pos: usize) -> (kind: ChunkKind)
    requires
        pos + 4 <= b@.len(),
    ensures
        kind == kind_at(b@, pos as int),
{
    let fmt: [u8; 4] = [0x66, 0x6D, 0x74, 0x20];
    let data: [u8; 4] = [0x64, 0x61, 0x74, 0x61];
    assert(fmt@ =~= word_fmt());
    assert(data@ =~= word_data());
    if bytes::matches_at(b, pos, &fmt) {
        return ChunkKind::Format;
    }
    if bytes::matches_at(b, pos, &data) {
        return ChunkKind::Data;
    }
    ChunkKind::Other
}

/// How many bytes a sample takes.
fn width_of(e: Encoding) -> (w: usize)
    ensures
        w == width(e),
        1 <= w <= 8,
{
    match e {
        Encoding::Pcm8 => 1,
        Encoding::Pcm16 => 2,
        Encoding::Pcm24 => 3,
        Encoding::Pcm32 => 4,
        Encoding::Float32 => 4,
        Encoding::Float64 => 8,
    }
}

/// The sample at `off`.
fn read_sample(b: &[u8], off: usize, e: Encoding) -> (s: Sample)
    requires
        off + width(e) <= b@.len(),
    ensures
        s == sample_at(b@, off as int, e),
{
    assert(off + width(e) <= b.len());
    match e {
        Encoding::Pcm8 => Sample::Part { value: b[off] as i32 - 128, of: 128 },
        Encoding::Pcm16 => {
            let v: i16 = bytes::signed_word_of(bytes::read_u16(b, off));
            Sample::Part { value: v as i32, of: 32768 }
        },
        Encoding::Pcm24 => {
            let v: i32 = b[off] as i32 + 0x100 * (b[off + 1] as i32) + 0x1_0000 * (b[off
                + 2] as i32);
            let value: i32 = if b[off + 2] >= 0x80 {
                v - 0x100_0000
            } else {
                v
            };
            Sample::Part { value, of: 0x80_0000 }
        },
        Encoding::Pcm32 => {
            let v: i32 = bytes::signed_of(bytes::read_u32(b, off));
            Sample::Part { value: v, of: 0x8000_0000 }
        },
        Encoding::Float32 => Sample::Float32(bytes::read_u32(b, off)),
        Encoding::Float64 => Sample::Float64(bytes::read_u64(b, off)),
    }
}

/// The samples in `b`.
pub fn decode(b: &[u8], e: Encoding) -> (out: Vec<Sample>)
    ensures
        out@ == decoded(b@, e),
{
    let w: usize = width_of(e);
    let n: usize = b.len() / w;
    let mut out: Vec<Sample> = Vec::new();
    let mut i: usize = 0;
    let mut off: usize = 0;
    while i < n
        invariant
            i <= n,
            1 <= w <= 8,
            w == width(e),
            n == b@.len() as int / (w as int),
            off == i * w,
            n * w <= b@.len(),
            b@.len() <= usize::MAX,
            out@ == decoded(b@, e).take(i as int),
        decreases n - i,
    {
        assert((i + 1) * w == i * w + w) by (nonlinear_arith);
        assert((i + 1) * w <= n * w) by (nonlinear_arith)
            requires
                i + 1 <= n,
        ;
        out.push(read_sample(b, off, e));
        off = off + w;
        i = i + 1;
        assert(out@ =~= decoded(b@, e).take(i as int));
    }
    assert(decoded(b@, e).take(n as int) =~= decoded(b@, e));
    out
}

/// The header of a file with one format chunk and one chunk of samples.
pub fn push_header(
    tag: u16,
    channels: u16,
    rate: u32,
    byte_rate: u32,
    align: u16,
    bits: u16,
    data_len: u32,
) -> (out: Vec<u8>)
    requires
        36 + data_len <= u32::MAX,
    ensures
        out@ == header(tag, channels, rate, byte_rate, align, bits, data_len),
{
    reveal(header);
    let mut out: Vec<u8> = Vec::new();
    let riff: [u8; 4] = [0x52, 0x49, 0x46, 0x46];
    let wave: [u8; 4] = [0x57, 0x41, 0x56, 0x45];
    let fmt: [u8; 4] = [0x66, 0x6D, 0x74, 0x20];
    let data: [u8; 4] = [0x64, 0x61, 0x74, 0x61];
    bytes::push_bytes(&mut out, &riff);
    assert(out@ =~= word_riff());
    bytes::push_u32(&mut out, 36 + data_len);
    bytes::push_bytes(&mut out, &wave);
    assert(wave@ =~= word_wave());
    bytes::push_bytes(&mut out, &fmt);
    assert(fmt@ =~= word_fmt());
    bytes::push_u32(&mut out, 16);
    bytes::push_u16(&mut out, tag);
    bytes::push_u16(&mut out, channels);
    bytes::push_u32(&mut out, rate);
    bytes::push_u32(&mut out, byte_rate);
    bytes::push_u16(&mut out, align);
    bytes::push_u16(&mut out, bits);
    bytes::push_bytes(&mut out, &data);
    assert(data@ =~= word_data());
    bytes::push_u32(&mut out, data_len);
    out
}

/// The parts of a beginning that is made of two.
proof fn lemma_split(f: Seq<u8>, p: Seq<u8>, q: Seq<u8>)
    requires
        p.len() + q.len() <= f.len(),
        f.take((p.len() + q.len()) as int) == p + q,
    ensures
        f.take(p.len() as int) == p,
        f.subrange(p.len() as int, (p.len() + q.len()) as int) == q,
{
    let n = (p.len() + q.len()) as int;
    assert forall|i: int| 0 <= i < n implies f[i] == (p + q)[i] by {
        assert(f.take(n)[i] == f[i]);
    }
    assert(f.take(p.len() as int) =~= p);
    assert(f.subrange(p.len() as int, n) =~= q);
}

/// What stands where in a file that begins with a header.
proof fn lemma_header_parts(
    f: Seq<u8>,
    tag: u16,
    channels: u16,
    rate: u32,
    byte_rate: u32,
    align: u16,
    bits: u16,
    data_len: u32,
)
    requires
        f.len() >= 44,
        f.take(44) == header(tag, channels, rate, byte_rate, align, bits, data_len),
    ensures
        f.subrange(0, 4) == word_riff(),
        f.subrange(4, 8) == bytes::le32((36 + data_len) as u32),
        f.subrange(8, 12) == word_wave(),
        f.subrange(12, 16) == word_fmt(),
        f.subrange(16, 20) == bytes::le32(16),
        f.subrange(20, 22) == bytes::le16(tag),
        f.subrange(22, 24) == bytes::le16(channels),
        f.subrange(24, 28) == bytes::le32(rate),
        f.subrange(28, 32) == bytes::le32(byte_rate),
        f.subrange(32, 34) == bytes::le16(align),
        f.subrange(34, 36) == bytes::le16(bits),
        f.subrange(36, 40) == word_data(),
        f.subrange(40, 44) == bytes::le32(data_len),
{
    reveal(header);
    let p1 = word_riff();
    let p2 = p1 + bytes::le32((36 + data_len) as u32);
    let p3 = p2 + word_wave();
    let p4 = p3 + word_fmt();
    let p5 = p4 + bytes::le32(16);
    let p6 = p5 + bytes::le16(tag);
    let p7 = p6 + bytes::le16(channels);
    let p8 = p7 + bytes::le32(rate);
    let p9 = p8 + bytes::le32(byte_rate);
    let p10 = p9 + bytes::le16(align);
    let p11 = p10 + bytes::le16(bits);
    let p12 = p11 + word_data();
    lemma_split(f, p12, bytes::le32(data_len));
    lemma_split(f, p11, word_data());
    lemma_split(f, p10, bytes::le16(bits));
    lemma_split(f, p9, bytes::le16(align));
    lemma_split(f, p8, bytes::le32(byte_rate));
    lemma_split(f, p7, bytes::le32(rate));
    lemma_split(f, p6, bytes::le16(channels));
    lemma_split(f, p5, bytes::le16(tag));
    lemma_split(f, p4, bytes::le32(16));
    lemma_split(f, p3, word_fmt());
    lemma_split(f, p2, word_wave());
    lemma_split(f, p1, bytes::le32((36 + data_len) as u32));
    assert(f.subrange(0, 4) =~= f.take(4));
}

/// What stands where in a written file.
pub proof fn lemma_header(
    tag: u16,
    channels: u16,
    rate: u32,
    byte_rate: u32,
    align: u16,
    bits: u16,
    data: Seq<u8>,
)
    requires
        36 + data.len() <= u32::MAX,
    ensures
        ({
            let h = header(tag, channels, rate, byte_rate, align, bits, data.len() as u32);
            let f = h + data;
            let body = f.subrange(20, 36);
            &&& f.len() == 44 + data.len()
            &&& is_wave(f)
            &&& kind_at(f, 12) == ChunkKind::Format
            &&& bytes::dword_at(f, 16) == 16
            &&& bytes::word_at(body, 0) == tag
            &&& bytes::word_at(body, 2) == channels
            &&& bytes::dword_at(body, 4) == rate
            &&& bytes::word_at(body, 14) == bits
            &&& kind_at(f, 36) == ChunkKind::Data
            &&& bytes::dword_at(f, 40) == data.len()
            &&& f.subrange(44, f.len() as int) == data
        }),
{
    let n = data.len() as u32;
    let h = header(tag, channels, rate, byte_rate, align, bits, n);
    let f = h + data;
    lemma_header_len(tag, channels, rate, byte_rate, align, bits, n);
    assert(f.take(44) =~= h);
    lemma_header_parts(f, tag, channels, rate, byte_rate, align, bits, n);
    lemma_fields(f, tag, channels, rate, bits, n);
    assert(f.subrange(44, f.len() as int) =~= data);
}

/// How long a header is.
proof fn lemma_header_len(
    tag: u16,
    channels: u16,
    rate: u32,
    byte_rate: u32,
    align: u16,
    bits: u16,
    data_len: u32,
)
    ensures
        header(tag, channels, rate, byte_rate, align, bits, data_len).len() == 44,
{
    reveal(header);
}

/// The numbers in a file whose parts are known.
proof fn lemma_fields(f: Seq<u8>, tag: u16, channels: u16, rate: u32, bits: u16, n: u32)
    requires
        f.len() >= 44,
        f.subrange(12, 16) == word_fmt(),
        f.subrange(16, 20) == bytes::le32(16),
        f.subrange(20, 22) == bytes::le16(tag),
        f.subrange(22, 24) == bytes::le16(channels),
        f.subrange(24, 28) == bytes::le32(rate),
        f.subrange(34, 36) == bytes::le16(bits),
        f.subrange(36, 40) == word_data(),
        f.subrange(40, 44) == bytes::le32(n),
    ensures
        ({
            let body = f.subrange(20, 36);
            &&& kind_at(f, 12) == ChunkKind::Format
            &&& bytes::dword_at(f, 16) == 16
            &&& bytes::word_at(body, 0) == tag
            &&& bytes::word_at(body, 2) == channels
            &&& bytes::dword_at(body, 4) == rate
            &&& bytes::word_at(body, 14) == bits
            &&& kind_at(f, 36) == ChunkKind::Data
            &&& bytes::dword_at(f, 40) == n
        }),
{
    let body = f.subrange(20, 36);
    assert(word_data()[0] != word_fmt()[0]);
    assert(body.subrange(0, 2) =~= f.subrange(20, 22));
    assert(body.subrange(2, 4) =~= f.subrange(22, 24));
    assert(body.subrange(4, 8) =~= f.subrange(24, 28));
    assert(body.subrange(14, 16) =~= f.subrange(34, 36));
    bytes::lemma_le32_read_back(16);
    bytes::lemma_le16_read_back(tag);
    bytes::lemma_le16_read_back(channels);
    bytes::lemma_le32_read_back(rate);
    bytes::lemma_le16_read_back(bits);
    bytes::lemma_le32_read_back(n);
    bytes::lemma_dword_of_part(f, 16, bytes::le32(16));
    bytes::lemma_word_of_part(body, 0, bytes::le16(tag));
    bytes::lemma_word_of_part(body, 2, bytes::le16(channels));
    bytes::lemma_dword_of_part(body, 4, bytes::le32(rate));
    bytes::lemma_word_of_part(body, 14, bytes::le16(bits));
    bytes::lemma_dword_of_part(f, 40, bytes::le32(n));
}

/// The numbers of a header stand where readers look for them: how many bytes follow the first
/// eight, the format with its rates and sizes, and how many bytes of samples there are.
pub proof fn law_header_says_what_follows(
    tag: u16,
    channels: u16,
    rate: u32,
    byte_rate: u32,
    align: u16,
    bits: u16,
    data: Seq<u8>,
)
    requires
        36 + data.len() <= u32::MAX,
    ensures
        ({
            let h = header(tag, channels, rate, byte_rate, align, bits, data.len() as u32);
            let f = h + data;
            &&& h.len() == 44
            &&& bytes::dword_at(f, 4) == f.len() - 8
            &&& bytes::word_at(f, 20) == tag
            &&& bytes::word_at(f, 22) == channels
            &&& bytes::dword_at(f, 24) == rate
            &&& bytes::dword_at(f, 28) == byte_rate
            &&& bytes::word_at(f, 32) == align
            &&& bytes::word_at(f, 34) == bits
            &&& bytes::dword_at(f, 40) == f.len() - 44
        }),
{
    let n = data.len() as u32;
    let h = header(tag, channels, rate, byte_rate, align, bits, n);
    let f = h + data;
    lemma_header_len(tag, channels, rate, byte_rate, align, bits, n);
    assert(f.take(44) =~= h);
    lemma_header_parts(f, tag, channels, rate, byte_rate, align, bits, n);
    bytes::lemma_le32_read_back((36 + n) as u32);
    bytes::lemma_le16_read_back(tag);
    bytes::lemma_le16_read_back(channels);
    bytes::lemma_le32_read_back(rate);
    bytes::lemma_le32_read_back(byte_rate);
    bytes::lemma_le16_read_back(align);
    bytes::lemma_le16_read_back(bits);
    bytes::lemma_le32_read_back(n);
    bytes::lemma_dword_of_part(f, 4, bytes::le32((36 + n) as u32));
    bytes::lemma_word_of_part(f, 20, bytes::le16(tag));
    bytes::lemma_word_of_part(f, 22, bytes::le16(channels));
    bytes::lemma_dword_of_part(f, 24, bytes::le32(rate));
    bytes::lemma_dword_of_part(f, 28, bytes::le32(byte_rate));
    bytes::lemma_word_of_part(f, 32, bytes::le16(align));
    bytes::lemma_word_of_part(f, 34, bytes::le16(bits));
    bytes::lemma_dword_of_part(f, 40, bytes::le32(n));
}

/// Every whole sample is decoded, and no more: the bytes that are left over are fewer than one
/// sample has.
pub proof fn law_every_whole_sample_is_decoded(b: Seq<u8>, e: Encoding)
    ensures
        ({
            let n = decoded(b, e).len();
            &&& n * width(e) <= b.len() < (n + 1) * width(e)
        }),
{
    let w = width(e);
    vstd::arithmetic::div_mod::lemma_fundamental_div_mod(b.len() as int, w);
    vstd::arithmetic::div_mod::lemma_mod_bound(b.len() as int, w);
    let n = b.len() as int / w;
    assert(n * w <= b.len() < (n + 1) * w) by (nonlinear_arith)
        requires
            b.len() == w * n + b.len() as int % w,
            0 <= b.len() as int % w < w,
    ;
}

/// An integer sample is the part of full scale that its bytes give, lowest byte first: eight bits
/// with the middle at 128, the others in two's complement, so that silence is zero and the lowest
/// value is the whole of full scale. A 24-bit sample is the 32-bit one whose lowest byte is zero,
/// and a 16-bit one that whose lower two are.
pub proof fn law_samples_are_parts_of_full_scale(b: Seq<u8>, e: Encoding)
    requires
        b.len() == width(e),
        e != Encoding::Float32,
        e != Encoding::Float64,
    ensures
        sample_at(b, 0, e) matches Sample::Part { value, of } && {
            &&& of > 0
            &&& -(of as int) <= value < of
            &&& e == Encoding::Pcm8 ==> of == 128 && value == b[0] - 128
            &&& e == Encoding::Pcm32 ==> of == 0x8000_0000
            &&& e == Encoding::Pcm24 ==> of == 0x80_0000 && sample_at(
                seq![0u8] + b,
                0,
                Encoding::Pcm32,
            ) == Sample::Part { value: (value * 0x100) as i32, of: 0x8000_0000 }
            &&& e == Encoding::Pcm16 ==> of == 0x8000 && sample_at(
                seq![0u8, 0u8] + b,
                0,
                Encoding::Pcm32,
            ) == Sample::Part { value: (value * 0x1_0000) as i32, of: 0x8000_0000 }
        },
{
}

} // verus!
