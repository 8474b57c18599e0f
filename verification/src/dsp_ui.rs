//! The sound-processing panel: reading and writing the files that it works on, and cutting them
//! into blocks.
use crate::bytes;
use crate::riff;
use crate::riff::{ChunkKind, Encoding, Format, Parts, Sample};
use crate::text;
use vstd::prelude::*;
use vstd::string::*;

verus! {

/// The bands of the equaliser.
pub const EQ_BANDS: usize = 10;

/// The points of the response curve.
pub const CURVE_POINTS: usize = 128;

/// The most channels that are processed.
pub const RENDER_CHANNELS: usize = 2;

/// The sound in a file.
pub struct WavData {
    /// Frames per second.
    pub sample_rate: u32,
    /// One or two.
    pub channels: u16,
    /// The samples of all channels, frame by frame.
    pub samples: Vec<Sample>,
}

/// Why a file cannot be read, written or processed.
#[derive(Clone, Copy, Debug, PartialEq, Eq, Structural)]
pub enum DspError {
    /// It is shorter than the start of a WAVE file.
    TooShort,
    /// It is no WAVE file.
    NotWave,
    /// Its format chunk is too short.
    ShortFormat,
    /// It has no format chunk.
    NoFormat,
    /// It has no chunk of samples.
    NoData,
    /// It has another number of channels.
    Channels(u16),
    /// Its sample rate is zero.
    NoRate,
    /// Its samples are of another kind.
    Unsupported { tag: u16, bits: u16 },
    /// So many channels cannot be written.
    WriteChannels(u16),
    /// It would be too long.
    TooLong,
    /// The sample rate of what is to be processed is zero.
    InputRate,
    /// There is no frame to process.
    NoSamples,
}

/// What a file holds.
pub struct Contents {
    pub sample_rate: u32,
    pub channels: u16,
    pub samples: Seq<Sample>,
}

impl View for WavData {
    type V = Contents;

    open spec fn view(&self) -> Contents {
        Contents {
            sample_rate: self.sample_rate,
            channels: self.channels,
            samples: self.samples@,
        }
    }
}

/// The words of an error.
pub open spec fn error_words(e: DspError) -> Seq<char> {
    match e {
        DspError::TooShort => "文件太短，不是 RIFF/WAVE"@,
        DspError::NotWave => "不是 RIFF/WAVE 文件"@,
        DspError::ShortFormat => "fmt chunk 太短"@,
        DspError::NoFormat => "缺少 fmt chunk"@,
        DspError::NoData => "缺少 data chunk"@,
        DspError::Channels(n) => "不支持 "@ + text::decimal(n as nat)
            + " 声道（只支持 1/2）"@,
        DspError::NoRate => "采样率为 0"@,
        DspError::Unsupported { tag, bits } => "不支持的采样格式：format tag="@
            + text::decimal(tag as nat) + ", "@ + text::decimal(bits as nat) + " bit"@,
        DspError::WriteChannels(n) => "只支持 1/2 声道，收到 "@ + text::decimal(
            n as nat,
        ),
        DspError::TooLong => "音频太长"@,
        DspError::InputRate => "输入采样率为 0"@,
        DspError::NoSamples => "输入 wav 没有采样"@,
    }
}

impl DspError {
    /// The error in words.
    pub fn message(self) -> (s: String)
        ensures
            s@ == error_words(self),
    {
        match self {
            DspError::TooShort => String::from_str("文件太短，不是 RIFF/WAVE"),
            DspError::NotWave => String::from_str("不是 RIFF/WAVE 文件"),
            DspError::ShortFormat => String::from_str("fmt chunk 太短"),
            DspError::NoFormat => String::from_str("缺少 fmt chunk"),
            DspError::NoData => String::from_str("缺少 data chunk"),
            DspError::Channels(n) => {
                let mut s: String = String::from_str("不支持 ");
                text::push_decimal(&mut s, n as u64);
                s.append(" 声道（只支持 1/2）");
                s
            },
            DspError::NoRate => String::from_str("采样率为 0"),
            DspError::Unsupported { tag, bits } => {
                let mut s: String = String::from_str("不支持的采样格式：format tag=");
                text::push_decimal(&mut s, tag as u64);
                s.append(", ");
                text::push_decimal(&mut s, bits as u64);
                s.append(" bit");
                s
            },
            DspError::WriteChannels(n) => {
                let mut s: String = String::from_str("只支持 1/2 声道，收到 ");
                text::push_decimal(&mut s, n as u64);
                s
            },
            DspError::TooLong => String::from_str("音频太长"),
            DspError::InputRate => String::from_str("输入采样率为 0"),
            DspError::NoSamples => String::from_str("输入 wav 没有采样"),
        }
    }
}

/// How many whole frames there are.
pub open spec fn frames_of(channels: u16, samples: int) -> int {
    if channels == 0 {
        0
    } else {
        samples / (channels as int)
    }
}

impl WavData {
    /// How many whole frames there are.
    pub fn frames(&self) -> (n: usize)
        ensures
            n == frames_of(self.channels, self.samples@.len() as int),
    {
        if self.channels == 0 {
            return 0;
        }
        self.samples.len() / self.channels as usize
    }

    /// How many frames there are to process, or why there are none.
    pub fn renderable(&self) -> (r: Result<usize, DspError>)
        ensures
            r == if self.sample_rate == 0 {
                Err::<usize, DspError>(DspError::InputRate)
            } else if frames_of(self.channels, self.samples@.len() as int) == 0 {
                Err(DspError::NoSamples)
            } else {
                Ok(frames_of(self.channels, self.samples@.len() as int) as usize)
            },
    {
        if self.sample_rate == 0 {
            return Err(DspError::InputRate);
        }
        let n: usize = self.frames();
        if n == 0 {
            return Err(DspError::NoSamples);
        }
        Ok(n)
    }
}

/// The 16-bit number at `off`.
pub fn u16_at(b: &[u8], off: usize) -> (x: u16)
    requires
        off + 2 <= b@.len(),
    ensures
        x == bytes::word_at(b@, off as int),
{
    bytes::read_u16(b, off)
}

/// The 32-bit number at `off`.
pub fn u32_at(b: &[u8], off: usize) -> (x: u32)
    requires
        off + 4 <= b@.len(),
    ensures
        x == bytes::dword_at(b@, off as int),
{
    bytes::read_u32(b, off)
}

/// What a format chunk says; where the tag of the samples is given further on, that one counts.
pub open spec fn format_in(body: Seq<u8>) -> Result<Format, DspError> {
    if body.len() < 16 {
        Err(DspError::ShortFormat)
    } else {
        let tag = bytes::word_at(body, 0);
        Ok(
            Format {
                tag: if tag == riff::TAG_EXTENSIBLE && body.len() >= 26 {
                    bytes::word_at(body, 24)
                } else {
                    tag
                },
                channels: bytes::word_at(body, 2),
                rate: bytes::dword_at(body, 4),
                bits: bytes::word_at(body, 14),
            },
        )
    }
}

/// A bound on the chunks from `pos` on.
pub open spec fn bytes_left(b: Seq<u8>, pos: int) -> int {
    if pos <= b.len() {
        b.len() - pos + 1
    } else {
        0
    }
}

/// What the chunks from `pos` on add to `parts`: a later format or later samples replace earlier
/// ones, a chunk of odd length is followed by one byte of padding, and a chunk that goes past the
/// end of the file ends the list and does not count.
pub open spec fn scan(b: Seq<u8>, pos: int, parts: Parts) -> Result<Parts, DspError>
    decreases bytes_left(b, pos),
{
    if pos + 8 > b.len() {
        Ok(parts)
    } else {
        let size = bytes::dword_at(b, pos + 4) as int;
        let start = pos + 8;
        let end = start + size;
        if end > b.len() {
            Ok(parts)
        } else {
            match riff::kind_at(b, pos) {
                ChunkKind::Format => match format_in(b.subrange(start, end)) {
                    Ok(f) => scan(b, end + size % 2, Parts { format: Some(f), data: parts.data }),
                    Err(e) => Err(e),
                },
                ChunkKind::Data => scan(
                    b,
                    end + size % 2,
                    Parts { format: parts.format, data: Some((start as usize, end as usize)) },
                ),
                ChunkKind::Other => scan(b, end + size % 2, parts),
            }
        }
    }
}

/// How samples of a tag and a width are stored, if they are supported.
pub open spec fn encoding_of(tag: u16, bits: u16) -> Option<Encoding> {
    if tag == riff::TAG_PCM && bits == 8 {
        Some(Encoding::Pcm8)
    } else if tag == riff::TAG_PCM && bits == 16 {
        Some(Encoding::Pcm16)
    } else if tag == riff::TAG_PCM && bits == 24 {
        Some(Encoding::Pcm24)
    } else if tag == riff::TAG_PCM && bits == 32 {
        Some(Encoding::Pcm32)
    } else if tag == riff::TAG_FLOAT && bits == 32 {
        Some(Encoding::Float32)
    } else if tag == riff::TAG_FLOAT && bits == 64 {
        Some(Encoding::Float64)
    } else {
        None
    }
}

/// The samples in `data`, or why they cannot be read.
pub open spec fn samples_in(tag: u16, bits: u16, data: Seq<u8>) -> Result<Seq<Sample>, DspError> {
    match encoding_of(tag, bits) {
        Some(e) => Ok(riff::decoded(data, e)),
        None => Err(DspError::Unsupported { tag, bits }),
    }
}

/// What the parts of a file come to.
pub open spec fn assembled(b: Seq<u8>, parts: Parts) -> Result<Contents, DspError> {
    match (parts.format, parts.data) {
        (None, _) => Err(DspError::NoFormat),
        (Some(_), None) => Err(DspError::NoData),
        (Some(f), Some(d)) => if f.channels == 0 || f.channels > RENDER_CHANNELS {
            Err(DspError::Channels(f.channels))
        } else if f.rate == 0 {
            Err(DspError::NoRate)
        } else {
            match samples_in(f.tag, f.bits, b.subrange(d.0 as int, d.1 as int)) {
                Ok(samples) => Ok(
                    Contents { sample_rate: f.rate, channels: f.channels, samples },
                ),
                Err(e) => Err(e),
            }
        },
    }
}

/// What a file holds.
pub open spec fn parsed(b: Seq<u8>) -> Result<Contents, DspError> {
    if b.len() < 12 {
        Err(DspError::TooShort)
    } else if !riff::is_wave(b) {
        Err(DspError::NotWave)
    } else {
        match scan(b, 12, Parts { format: None, data: None }) {
            Ok(parts) => assembled(b, parts),
            Err(e) => Err(e),
        }
    }
}

/// What a format chunk says.
fn read_format(body: &[u8]) -> (r: Result<Format, DspError>)
    ensures
        r == format_in(body@),
{
    if body.len() < 16 {
        return Err(DspError::ShortFormat);
    }
    let mut tag: u16 = u16_at(body, 0);
    if tag == riff::TAG_EXTENSIBLE && body.len() >= 26 {
        tag = u16_at(body, 24);
    }
    Ok(Format { tag, channels: u16_at(body, 2), rate: u32_at(body, 4), bits: u16_at(body, 14) })
}

/// The chunks of a WAVE file.
fn read_parts(b: &[u8]) -> (r: Result<Parts, DspError>)
    requires
        b@.len() >= 12,
    ensures
        r == scan(b@, 12, Parts { format: None, data: None }),
        r matches Ok(p) ==> (p.data matches Some(d) ==> d.0 <= d.1 <= b@.len()),
{
    let len: usize = b.len();
    let mut parts: Parts = Parts { format: None, data: None };
    let mut pos: usize = 12;
    while pos <= len && len - pos >= 8
        invariant
            len == b@.len(),
            scan(b@, 12, Parts { format: None, data: None }) == scan(b@, pos as int, parts),
            parts.data matches Some(d) ==> d.0 <= d.1 <= b@.len(),
        decreases len + 1 - pos,
    {
        let size: u32 = u32_at(b, pos + 4);
        let start: usize = pos + 8;
        if size as u64 > (len - start) as u64 {
            return Ok(parts);
        }
        let end: usize = start + size as usize;
        match riff::chunk_kind(b, pos) {
            ChunkKind::Format => {
                let body: &[u8] = vstd::slice::slice_subrange(b, start, end);
                match read_format(body) {
                    Ok(f) => {
                        parts = Parts { format: Some(f), data: parts.data };
                    },
                    Err(e) => {
                        return Err(e);
                    },
                }
            },
            ChunkKind::Data => {
                parts = Parts { format: parts.format, data: Some((start, end)) };
            },
            ChunkKind::Other => {},
        }
        if size % 2 == 0 {
            pos = end;
        } else if end < len {
            pos = end + 1;
        } else {
            proof {
                assert(scan(b@, end + size as int % 2, parts) == Ok::<Parts, DspError>(parts));
            }
            return Ok(parts);
        }
    }
    Ok(parts)
}

/// The samples in `data`, or why they cannot be read.
pub fn decode_samples(tag: u16, bits: u16, data: &[u8]) -> (r: Result<Vec<Sample>, DspError>)
    ensures
        match r {
            Ok(v) => samples_in(tag, bits, data@) == Ok::<Seq<Sample>, DspError>(v@),
            Err(e) => samples_in(tag, bits, data@) == Err::<Seq<Sample>, DspError>(e),
        },
{
    let encoding: Encoding = if tag == riff::TAG_PCM && bits == 8 {
        Encoding::Pcm8
    } else if tag == riff::TAG_PCM && bits == 16 {
        Encoding::Pcm16
    } else if tag == riff::TAG_PCM && bits == 24 {
        Encoding::Pcm24
    } else if tag == riff::TAG_PCM && bits == 32 {
        Encoding::Pcm32
    } else if tag == riff::TAG_FLOAT && bits == 32 {
        Encoding::Float32
    } else if tag == riff::TAG_FLOAT && bits == 64 {
        Encoding::Float64
    } else {
        return Err(DspError::Unsupported { tag, bits });
    };
    Ok(riff::decode(data, encoding))
}

/// Reads a file of integers of 8, 16, 24 or 32 bits or floating-point numbers of 32 or 64 bits, in
/// one or two channels.
pub fn parse_wav(b: &[u8]) -> (r: Result<WavData, DspError>)
    ensures
        match r {
            Ok(w) => parsed(b@) == Ok::<Contents, DspError>(w@),
            Err(e) => parsed(b@) == Err::<Contents, DspError>(e),
        },
{
    if b.len() < 12 {
        return Err(DspError::TooShort);
    }
    if !riff::check_wave(b) {
        return Err(DspError::NotWave);
    }
    let parts: Parts = match read_parts(b) {
        Ok(p) => p,
        Err(e) => return Err(e),
    };
    let f: Format = match parts.format {
        Some(f) => f,
        None => return Err(DspError::NoFormat),
    };
    let (start, end): (usize, usize) = match parts.data {
        Some(d) => d,
        None => return Err(DspError::NoData),
    };
    if f.channels == 0 || f.channels as usize > RENDER_CHANNELS {
        return Err(DspError::Channels(f.channels));
    }
    if f.rate == 0 {
        return Err(DspError::NoRate);
    }
    match decode_samples(f.tag, f.bits, vstd::slice::slice_subrange(b, start, end)) {
        Ok(samples) => Ok(WavData { sample_rate: f.rate, channels: f.channels, samples }),
        Err(e) => Err(e),
    }
}

// ---- writing ----

/// The bytes of a row of 32-bit samples.
pub open spec fn sample_bytes(samples: Seq<u32>) -> Seq<u8>
    decreases samples.len(),
{
    if samples.len() == 0 {
        Seq::empty()
    } else {
        sample_bytes(samples.drop_last()) + bytes::le32(samples.last())
    }
}

/// A file of 32-bit floating-point samples, given by their bits, or why there is none.
pub open spec fn written(sample_rate: u32, channels: u16, samples: Seq<u32>) -> Result<
    Seq<u8>,
    DspError,
> {
    if channels == 0 || channels > RENDER_CHANNELS {
        Err(DspError::WriteChannels(channels))
    } else if 4 * samples.len() > u32::MAX {
        Err(DspError::TooLong)
    } else {
        Ok(
            riff::header(
                riff::TAG_FLOAT,
                channels,
                sample_rate,
                (sample_rate * channels * 4) as u32,
                (channels * 4) as u16,
                32,
                (4 * samples.len()) as u32,
            ) + sample_bytes(samples),
        )
    }
}

/// Writes a file of 32-bit floating-point samples, given by their bits.
pub fn wav_write_f32(sample_rate: u32, channels: u16, samples: &[u32]) -> (r: Result<
    Vec<u8>,
    DspError,
>)
    requires
        1 <= channels <= 2 ==> sample_rate * channels * 4 <= u32::MAX,
        4 * samples@.len() <= u32::MAX ==> 36 + 4 * samples@.len() <= u32::MAX,
    ensures
        match r {
            Ok(v) => written(sample_rate, channels, samples@) == Ok::<Seq<u8>, DspError>(v@),
            Err(e) => written(sample_rate, channels, samples@) == Err::<Seq<u8>, DspError>(e),
        },
{
    if channels == 0 || channels as usize > RENDER_CHANNELS {
        return Err(DspError::WriteChannels(channels));
    }
    let n: usize = samples.len();
    if n as u64 > u32::MAX as u64 / 4 {
        return Err(DspError::TooLong);
    }
    let data_len: u32 = 4 * n as u32;
    let byte_rate: u32 = (sample_rate as u64 * channels as u64 * 4) as u32;
    let mut out: Vec<u8> = riff::push_header(
        riff::TAG_FLOAT,
        channels,
        sample_rate,
        byte_rate,
        channels * 4,
        32,
        data_len,
    );
    let ghost head = out@;
    let mut i: usize = 0;
    assert(out@ =~= head + sample_bytes(samples@.take(0)));
    while i < n
        invariant
            i <= n,
            n == samples@.len(),
            out@ == head + sample_bytes(samples@.take(i as int)),
        decreases n - i,
    {
        bytes::push_u32(&mut out, samples[i]);
        assert(samples@.take(i + 1).drop_last() =~= samples@.take(i as int));
        i = i + 1;
        assert(out@ =~= head + sample_bytes(samples@.take(i as int)));
    }
    assert(samples@.take(n as int) =~= samples@);
    Ok(out)
}

/// Where the samples of a row stand in its bytes.
proof fn lemma_sample_bytes(samples: Seq<u32>)
    ensures
        sample_bytes(samples).len() == 4 * samples.len(),
        riff::decoded(sample_bytes(samples), Encoding::Float32) == Seq::new(
            samples.len(),
            |i: int| Sample::Float32(samples[i]),
        ),
    decreases samples.len(),
{
    let b = sample_bytes(samples);
    let want = Seq::new(samples.len(), |i: int| Sample::Float32(samples[i]));
    if samples.len() > 0 {
        let rest = samples.drop_last();
        let head = sample_bytes(rest);
        lemma_sample_bytes(rest);
        bytes::lemma_le32_read_back(samples.last());
        assert forall|i: int| 0 <= i < samples.len() implies #[trigger] riff::decoded(
            b,
            Encoding::Float32,
        )[i] == want[i] by {
            if i < rest.len() {
                assert(riff::width(Encoding::Float32) == 4);
                assert(head.len() as int / 4 == rest.len());
                assert(riff::decoded(head, Encoding::Float32)[i] == riff::sample_at(
                    head,
                    i * 4,
                    Encoding::Float32,
                ));
                assert(head[i * 4] == b[i * 4] && head[i * 4 + 1] == b[i * 4 + 1]);
                assert(head[i * 4 + 2] == b[i * 4 + 2] && head[i * 4 + 3] == b[i * 4 + 3]);
                assert(rest[i] == samples[i]);
            } else {
                assert(b.subrange(4 * i, 4 * i + 4) =~= bytes::le32(samples.last()));
                bytes::lemma_dword_of_part(b, 4 * i, bytes::le32(samples.last()));
            }
        }
    }
    assert(riff::decoded(b, Encoding::Float32) =~= want);
}

/// A file of one format chunk and one chunk of samples.
proof fn lemma_two_chunks(f: Seq<u8>, fmt: Format)
    requires
        44 <= f.len() <= usize::MAX,
        riff::kind_at(f, 12) == ChunkKind::Format,
        bytes::dword_at(f, 16) == 16,
        format_in(f.subrange(20, 36)) == Ok::<Format, DspError>(fmt),
        riff::kind_at(f, 36) == ChunkKind::Data,
        bytes::dword_at(f, 40) == f.len() - 44,
    ensures
        scan(f, 12, Parts { format: None, data: None }) == Ok::<Parts, DspError>(
            Parts { format: Some(fmt), data: Some((44usize, f.len() as usize)) },
        ),
{
    let size = f.len() - 44;
    let none = Parts { format: None, data: None };
    let first = Parts { format: Some(fmt), data: None };
    let both = Parts { format: Some(fmt), data: Some((44usize, f.len() as usize)) };
    assert(scan(f, 12, none) == scan(f, 36, first));
    assert(scan(f, 44 + size + size % 2, both) == Ok::<Parts, DspError>(both));
    assert(scan(f, 36, first) == scan(f, 44 + size + size % 2, both));
}

/// A file that is written is read back bit for bit: the same rate, the same channels, the same
/// samples.
pub proof fn law_written_file_is_read_back(sample_rate: u32, channels: u16, samples: Seq<u32>)
    requires
        1 <= channels <= 2,
        sample_rate > 0,
        36 + 4 * samples.len() <= u32::MAX,
        riff::HEADER_BYTES + 4 * samples.len() <= usize::MAX,
    ensures
        written(sample_rate, channels, samples) is Ok,
        parsed(written(sample_rate, channels, samples)->Ok_0) == Ok::<Contents, DspError>(
            Contents {
                sample_rate,
                channels,
                samples: Seq::new(samples.len(), |i: int| Sample::Float32(samples[i])),
            },
        ),
{
    let data = sample_bytes(samples);
    lemma_sample_bytes(samples);
    let f = written(sample_rate, channels, samples)->Ok_0;
    riff::lemma_header(
        riff::TAG_FLOAT,
        channels,
        sample_rate,
        (sample_rate * channels * 4) as u32,
        (channels * 4) as u16,
        32,
        data,
    );
    let body = f.subrange(20, 36);
    let fmt = Format { tag: riff::TAG_FLOAT, channels, rate: sample_rate, bits: 32 };
    assert(format_in(body) == Ok::<Format, DspError>(fmt));
    lemma_two_chunks(f, fmt);
    assert(f.subrange(44, f.len() as int) =~= data);
}

// ---- blocks ----

/// The frames of a block of ten milliseconds, to the nearest whole number and at least one.
pub open spec fn frames_per_block(sample_rate: u32) -> int {
    if (sample_rate + 50) / 100 == 0 {
        1
    } else {
        (sample_rate + 50) / 100
    }
}

/// The frames of a block of ten milliseconds.
pub fn block_frames(sample_rate: u32) -> (n: usize)
    ensures
        n == frames_per_block(sample_rate),
{
    let n: u64 = (sample_rate as u64 + 50) / 100;
    if n == 0 {
        1
    } else {
        n as usize
    }
}

/// The samples of a block: at least one frame, of one or two channels.
pub open spec fn block_step(block_frames: usize, channels: usize) -> int {
    let ch = if channels < 1 {
        1int
    } else if channels > RENDER_CHANNELS {
        RENDER_CHANNELS as int
    } else {
        channels as int
    };
    (if block_frames == 0 {
        1int
    } else {
        block_frames as int
    }) * ch
}

/// The blocks that `len` samples are cut into: one after the other, all of them full but for the
/// last.
pub open spec fn is_cut(blocks: Seq<(usize, usize)>, len: int, step: int) -> bool {
    &&& forall|i: int|
        0 <= i < blocks.len() ==> {
            &&& (#[trigger] blocks[i]).0 == i * step
            &&& blocks[i].0 < blocks[i].1
            &&& blocks[i].1 == if (i + 1) * step <= len {
                (i + 1) * step
            } else {
                len
            }
        }
    &&& blocks.len() == 0 <==> len == 0
    &&& blocks.len() > 0 ==> blocks.last().1 == len
}

/// Cuts `len` samples into blocks.
pub fn cut_into_blocks(len: usize, block_frames: usize, channels: usize) -> (out: Vec<
    (usize, usize),
>)
    requires
        block_step(block_frames, channels) <= usize::MAX,
    ensures
        is_cut(out@, len as int, block_step(block_frames, channels)),
{
    let ch: usize = if channels < 1 {
        1
    } else if channels > RENDER_CHANNELS {
        RENDER_CHANNELS
    } else {
        channels
    };
    let frames: usize = if block_frames == 0 {
        1
    } else {
        block_frames
    };
    assert(frames * ch >= 1) by (nonlinear_arith)
        requires
            frames >= 1,
            ch >= 1,
    ;
    let step: usize = frames * ch;
    let ghost mut k: int = 0;
    let mut out: Vec<(usize, usize)> = Vec::new();
    let mut start: usize = 0;
    while start < len
        invariant
            1 <= step == block_step(block_frames, channels),
            start <= len,
            k == out@.len(),
            start < len ==> start == k * step,
            forall|i: int|
                0 <= i < out@.len() ==> {
                    &&& (#[trigger] out@[i]).0 == i * step
                    &&& out@[i].0 < out@[i].1
                    &&& out@[i].1 == if (i + 1) * step <= len {
                        (i + 1) * step
                    } else {
                        len as int
                    }
                },
            out@.len() == 0 <==> start == 0,
            out@.len() > 0 ==> out@.last().1 == start,
        decreases len - start,
    {
        let end: usize = if len - start > step {
            start + step
        } else {
            len
        };
        assert((k + 1) * step == k * step + step) by (nonlinear_arith);
        out.push((start, end));
        proof {
            k = k + 1;
        }
        start = end;
    }
    out
}

/// Every sample stands in exactly one block.
pub proof fn law_blocks_hold_every_sample_once(
    blocks: Seq<(usize, usize)>,
    len: int,
    step: int,
    at: int,
)
    requires
        step > 0,
        is_cut(blocks, len, step),
        0 <= at < len,
    ensures
        exists|i: int|
            0 <= i < blocks.len() && (#[trigger] blocks[i]).0 <= at < blocks[i].1 && forall|j: int|
                0 <= j < blocks.len() && (#[trigger] blocks[j]).0 <= at < blocks[j].1 ==> j == i,
{
    let i = at / step;
    vstd::arithmetic::div_mod::lemma_fundamental_div_mod(at, step);
    vstd::arithmetic::div_mod::lemma_div_pos_is_pos(at, step);
    assert(step * i == i * step) by (nonlinear_arith);
    assert((i + 1) * step == i * step + step) by (nonlinear_arith);
    let n = blocks.len() as int;
    assert(i < n) by {
        let last = blocks[n - 1];
        assert(last.1 == len);
        assert((n - 1 + 1) * step == n * step);
        if i >= n {
            assert(i * step >= n * step) by (nonlinear_arith)
                requires
                    i >= n,
                    step > 0,
            ;
        }
    }
    assert(blocks[i].0 <= at < blocks[i].1);
    assert forall|j: int|
        0 <= j < blocks.len() && (#[trigger] blocks[j]).0 <= at < blocks[j].1 implies j == i by {
        assert((j + 1) * step == j * step + step) by (nonlinear_arith);
        if j < i {
            assert((j + 1) * step <= i * step) by (nonlinear_arith)
                requires
                    j + 1 <= i,
                    step > 0,
            ;
        }
        if j > i {
            assert(j * step >= (i + 1) * step) by (nonlinear_arith)
                requires
                    j >= i + 1,
                    step > 0,
            ;
        }
    }
}

/// The next state of the noise generator.
pub open spec fn shifted(x: u32) -> u32 {
    let a = x ^ (x << 13);
    let b = a ^ (a >> 17);
    b ^ (b << 5)
}

/// Steps the noise generator and gives the 24 bits that the noise is made of.
pub fn xorshift(state: &mut u32) -> (bits: u32)
    ensures
        *final(state) == shifted(*old(state)),
        bits == shifted(*old(state)) >> 8,
{
    let mut x: u32 = *state;
    x = x ^ (x << 13);
    x = x ^ (x >> 17);
    x = x ^ (x << 5);
    *state = x;
    x >> 8
}

/// Six kinds of samples are read: integers of 8, 16, 24 and 32 bits, and floating-point numbers of
/// 32 and 64; each is read as what it is, and every other is refused by its tag and width.
pub proof fn law_six_kinds_of_samples_are_read(tag: u16, bits: u16, data: Seq<u8>)
    ensures
        samples_in(tag, bits, data) is Ok <==> (tag == 1 && (bits == 8 || bits == 16 || bits == 24
            || bits == 32)) || (tag == 3 && (bits == 32 || bits == 64)),
        samples_in(tag, bits, data) is Err ==> samples_in(tag, bits, data) == Err::<
            Seq<Sample>,
            DspError,
        >(DspError::Unsupported { tag, bits }),
        encoding_of(tag, bits) matches Some(e) ==> 8 * riff::width(e) == bits && (tag == 3 <==> e
            == Encoding::Float32 || e == Encoding::Float64),
        samples_in(tag, bits, data) matches Ok(s) ==> s == riff::decoded(
            data,
            encoding_of(tag, bits)->0,
        ),
{
}

/// A format chunk has sixteen bytes at least; the tag 65534 stands for the one at byte 24, where
/// there is one.
pub proof fn law_format_chunk_is_understood(body: Seq<u8>)
    ensures
        format_in(body) is Ok <==> body.len() >= 16,
        format_in(body) is Err ==> format_in(body) == Err::<Format, DspError>(
            DspError::ShortFormat,
        ),
        format_in(body) matches Ok(f) ==> {
            let tag = body[0] + 256 * body[1];
            &&& f.channels == body[2] + 256 * body[3]
            &&& f.rate == bytes::dword_at(body, 4)
            &&& f.bits == body[14] + 256 * body[15]
            &&& f.tag == if tag == 65534 && body.len() >= 26 {
                body[24] + 256 * body[25]
            } else {
                tag
            }
        },
{
}

/// A file has to give a format, samples, one or two channels and a rate; what it lacks first in
/// that order is the error.
pub proof fn law_missing_part_is_told(b: Seq<u8>, parts: Parts)
    ensures
        parts.format is None ==> assembled(b, parts) == Err::<Contents, DspError>(
            DspError::NoFormat,
        ),
        parts.format is Some && parts.data is None ==> assembled(b, parts) == Err::<
            Contents,
            DspError,
        >(DspError::NoData),
        parts.format is Some && parts.data is Some ==> {
            let f = parts.format->0;
            &&& f.channels != 1 && f.channels != 2 ==> assembled(b, parts) == Err::<
                Contents,
                DspError,
            >(DspError::Channels(f.channels))
            &&& (f.channels == 1 || f.channels == 2) && f.rate == 0 ==> assembled(b, parts)
                == Err::<Contents, DspError>(DspError::NoRate)
            &&& (f.channels == 1 || f.channels == 2) && f.rate > 0 ==> (assembled(b, parts) is Ok
                <==> encoding_of(f.tag, f.bits) is Some)
        },
{
}

/// Samples that are cut off by the end of the file do not count: such a file has none.
pub proof fn law_cut_off_samples_do_not_count(
    channels: u16,
    rate: u32,
    byte_rate: u32,
    align: u16,
    data: Seq<u8>,
    there: int,
)
    requires
        36 + data.len() <= u32::MAX,
        44 + data.len() <= usize::MAX,
        0 <= there < data.len(),
    ensures
        parsed(
            (riff::header(3, channels, rate, byte_rate, align, 32, data.len() as u32) + data).take(
                44 + there,
            ),
        ) == Err::<Contents, DspError>(DspError::NoData),
{
    let whole = riff::header(3, channels, rate, byte_rate, align, 32, data.len() as u32) + data;
    riff::lemma_header(3, channels, rate, byte_rate, align, 32, data);
    let f = whole.take(44 + there);
    assert(f.len() == 44 + there);
    assert(f.subrange(0, 4) =~= whole.subrange(0, 4));
    assert(f.subrange(8, 12) =~= whole.subrange(8, 12));
    assert(f.subrange(12, 16) =~= whole.subrange(12, 16));
    assert(f.subrange(36, 40) =~= whole.subrange(36, 40));
    assert(f.subrange(20, 36) =~= whole.subrange(20, 36));
    let fmt = Format { tag: 3, channels, rate, bits: 32 };
    assert(format_in(f.subrange(20, 36)) == Ok::<Format, DspError>(fmt));
    let none = Parts { format: None, data: None };
    let first = Parts { format: Some(fmt), data: None };
    assert(scan(f, 12, none) == scan(f, 36, first));
    assert(bytes::dword_at(f, 40) == data.len());
    assert(scan(f, 36, first) == Ok::<Parts, DspError>(first));
}

/// A file is written exactly for one or two channels and for as many bytes of samples as a file
/// can state.
pub proof fn law_what_cannot_be_written(sample_rate: u32, channels: u16, samples: Seq<u32>)
    ensures
        ({
            let w = written(sample_rate, channels, samples);
            let sound = channels == 1 || channels == 2;
            &&& w is Ok <==> sound && 4 * samples.len() <= 0xFFFF_FFFF
            &&& !sound ==> w == Err::<Seq<u8>, DspError>(DspError::WriteChannels(channels))
            &&& sound && w is Err ==> w == Err::<Seq<u8>, DspError>(DspError::TooLong)
        }),
{
}

/// A block lasts ten milliseconds as nearly as whole frames can, and has a frame at least.
pub proof fn law_blocks_last_ten_milliseconds(sample_rate: u32)
    ensures
        frames_per_block(sample_rate) >= 1,
        sample_rate >= 50 ==> -50 <= 100 * frames_per_block(sample_rate) - sample_rate <= 50,
        sample_rate < 50 ==> frames_per_block(sample_rate) == 1,
{
}

/// A block has as many samples as its frames have channels, of which there are one or two whatever
/// was asked for, and a frame at least.
pub proof fn law_blocks_have_whole_frames(block_frames: usize, channels: usize)
    ensures
        block_step(block_frames, channels) >= 1,
        block_frames >= 1 && channels <= 1 ==> block_step(block_frames, channels) == block_frames,
        block_frames >= 1 && channels >= 2 ==> block_step(block_frames, channels) == 2
            * block_frames,
        block_frames == 0 ==> block_step(block_frames, channels) == block_step(1, channels),
{
    let n = if block_frames == 0 {
        1int
    } else {
        block_frames as int
    };
    let ch = if channels < 2 {
        1int
    } else {
        2int
    };
    assert(block_step(block_frames, channels) == n * ch);
    assert(n * ch >= 1 && n * 1 == n && n * 2 == 2 * n) by (nonlinear_arith)
        requires
            n >= 1,
            ch >= 1,
    ;
}

/// The noise never dies down, and never repeats a state but in its own course: zero comes only
/// from zero, and two states have two different next ones.
pub proof fn law_noise_never_dies_down(x: u32, y: u32)
    ensures
        shifted(x) == 0 <==> x == 0,
        shifted(x) == shifted(y) ==> x == y,
{
    let a = x ^ (x << 13);
    let b = a ^ (a >> 17);
    let c = b ^ (b << 5);
    let d = y ^ (y << 13);
    let e = d ^ (d >> 17);
    let f = e ^ (e << 5);
    assert(x ^ (x << 13) == y ^ (y << 13) ==> x == y) by (bit_vector);
    assert(a ^ (a >> 17) == d ^ (d >> 17) ==> a == d) by (bit_vector);
    assert(b ^ (b << 5) == e ^ (e << 5) ==> b == e) by (bit_vector);
    assert(x ^ (x << 13) == 0 <==> x == 0) by (bit_vector);
    assert(a ^ (a >> 17) == 0 <==> a == 0) by (bit_vector);
    assert(b ^ (b << 5) == 0 <==> b == 0) by (bit_vector);
}

} // verus!
