//! WAVE files as the command line reads and writes them: 16-bit integers and 32-bit floating-point
//! numbers in, 16-bit integers out.
use crate::bytes;
use crate::riff;
use crate::riff::{ChunkKind, Encoding, Format, Parts, Sample};
use crate::text;
use vstd::prelude::*;
use vstd::string::*;

verus! {

/// The sound in a file.
pub struct Wav {
    pub sample_rate: u32,
    pub channels: u16,
    /// The samples of all channels, frame by frame.
    pub samples: Vec<Sample>,
}

/// Why a file cannot be read.
#[derive(Clone, Copy, Debug, PartialEq, Eq, Structural)]
pub enum WavError {
    /// It is no WAVE file.
    NotWave,
    /// The format chunk ends in front of a 16-bit field.
    CutShort16,
    /// The format chunk ends in front of a 32-bit field.
    CutShort32,
    /// There is no format chunk.
    NoFormat,
    /// There is no chunk of samples.
    NoData,
    /// The format has no channels.
    NoChannels,
    /// The samples are of another kind.
    Unsupported { tag: u16, bits: u16 },
}

/// What a file holds.
pub struct Contents {
    pub sample_rate: u32,
    pub channels: u16,
    pub samples: Seq<Sample>,
}

impl View for Wav {
    type V = Contents;

    open spec fn view(&self) -> Contents {
        Contents {
            sample_rate: self.sample_rate,
            channels: self.channels,
            samples: self.samples@,
        }
    }
}

/// The words of an error.
pub open spec fn error_words(e: WavError) -> Seq<char> {
    match e {
        WavError::NotWave => "不是 RIFF/WAVE 文件"@,
        WavError::CutShort16 => "WAV 截断（u16）"@,
        WavError::CutShort32 => "WAV 截断（u32）"@,
        WavError::NoFormat => "WAV 缺少 fmt 块"@,
        WavError::NoData => "WAV 缺少 data 块"@,
        WavError::NoChannels => "WAV 声道数为 0"@,
        WavError::Unsupported { tag, bits } => "不支持的 WAV 格式：tag="@ + text::decimal(
            tag as nat,
        ) + " bits="@ + text::decimal(bits as nat) + "（支持 16bit PCM / 32bit float）"@,
    }
}

impl WavError {
    /// The error in words.
    pub fn message(self) -> (s: String)
        ensures
            s@ == error_words(self),
    {
        match self {
            WavError::NotWave => String::from_str("不是 RIFF/WAVE 文件"),
            WavError::CutShort16 => String::from_str("WAV 截断（u16）"),
            WavError::CutShort32 => String::from_str("WAV 截断（u32）"),
            WavError::NoFormat => String::from_str("WAV 缺少 fmt 块"),
            WavError::NoData => String::from_str("WAV 缺少 data 块"),
            WavError::NoChannels => String::from_str("WAV 声道数为 0"),
            WavError::Unsupported { tag, bits } => {
                let mut s: String = String::from_str("不支持的 WAV 格式：tag=");
                text::push_decimal(&mut s, tag as u64);
                s.append(" bits=");
                text::push_decimal(&mut s, bits as u64);
                s.append("（支持 16bit PCM / 32bit float）");
                s
            },
        }
    }
}

impl Wav {
    /// How many whole frames there are.
    pub fn frames(&self) -> (n: usize)
        ensures
            n == if self.channels == 0 {
                0
            } else {
                self.samples@.len() as int / (self.channels as int)
            },
    {
        if self.channels == 0 {
            return 0;
        }
        self.samples.len() / self.channels as usize
    }

    /// The sample of channel `ch` of a frame: the channels repeat where there are fewer, and past
    /// the end there is silence.
    pub fn sample(&self, frame: usize, ch: usize) -> (s: Sample)
        ensures
            s == sample_of(self@, frame as int, ch as int),
    {
        let n: usize = self.channels as usize;
        if n == 0 {
            return Sample::Float32(0);
        }
        let src: usize = ch % n;
        proof {
            assert(frame * n <= u64::MAX * u16::MAX) by (nonlinear_arith)
                requires
                    frame <= u64::MAX,
                    n <= u16::MAX,
            ;
        }
        let at: u128 = frame as u128 * n as u128 + src as u128;
        if at < self.samples.len() as u128 {
            self.samples[at as usize]
        } else {
            Sample::Float32(0)
        }
    }
}

/// The sample of channel `ch` of a frame.
pub open spec fn sample_of(w: Contents, frame: int, ch: int) -> Sample {
    let at = frame * (w.channels as int) + ch % (w.channels as int);
    if w.channels != 0 && at < w.samples.len() {
        w.samples[at]
    } else {
        Sample::Float32(0)
    }
}

/// The 16-bit number at `off`, where there is one.
pub fn u16_at(b: &[u8], off: usize) -> (r: Result<u16, WavError>)
    ensures
        r == if off + 2 <= b@.len() {
            Ok::<u16, WavError>(bytes::word_at(b@, off as int))
        } else {
            Err(WavError::CutShort16)
        },
{
    if b.len() < 2 || off > b.len() - 2 {
        return Err(WavError::CutShort16);
    }
    Ok(bytes::read_u16(b, off))
}

/// The 32-bit number at `off`, where there is one.
pub fn u32_at(b: &[u8], off: usize) -> (r: Result<u32, WavError>)
    ensures
        r == if off + 4 <= b@.len() {
            Ok::<u32, WavError>(bytes::dword_at(b@, off as int))
        } else {
            Err(WavError::CutShort32)
        },
{
    if b.len() < 4 || off > b.len() - 4 {
        return Err(WavError::CutShort32);
    }
    Ok(bytes::read_u32(b, off))
}

/// The tag of the samples: that of the format, or, where it is given further on, floating point
/// if the four bytes there say so and integers if not.
pub open spec fn real_tag(body: Seq<u8>) -> u16 {
    let tag = bytes::word_at(body, 0);
    if tag == riff::TAG_EXTENSIBLE && body.len() >= 26 {
        if body.len() >= 28 && body[24] == 3 && body[25] == 0 && body[26] == 0 && body[27] == 0 {
            riff::TAG_FLOAT
        } else {
            riff::TAG_PCM
        }
    } else {
        tag
    }
}

/// What a format chunk says.
pub open spec fn format_in(body: Seq<u8>) -> Result<Format, WavError> {
    if body.len() < 4 {
        Err(WavError::CutShort16)
    } else if body.len() < 8 {
        Err(WavError::CutShort32)
    } else if body.len() < 16 {
        Err(WavError::CutShort16)
    } else {
        Ok(
            Format {
                tag: real_tag(body),
                channels: bytes::word_at(body, 2),
                rate: bytes::dword_at(body, 4),
                bits: bytes::word_at(body, 14),
            },
        )
    }
}

/// Where a chunk whose body begins at `start` and says it has `size` bytes ends: at the end of the
/// file at the latest.
pub open spec fn body_end(b: Seq<u8>, start: int, size: int) -> int {
    if start + size <= b.len() {
        start + size
    } else {
        b.len() as int
    }
}

/// A bound on the chunks from `pos` on.
pub open spec fn bytes_left(b: Seq<u8>, pos: int) -> int {
    if pos <= b.len() {
        b.len() - pos + 1
    } else {
        0
    }
}

/// What the chunks from `pos` on add to `parts`. A later format or later samples replace earlier
/// ones; a chunk of odd length is followed by one byte of padding.
pub open spec fn scan(b: Seq<u8>, pos: int, parts: Parts) -> Result<Parts, WavError>
    decreases bytes_left(b, pos),
{
    if pos + 8 > b.len() {
        Ok(parts)
    } else {
        let size = bytes::dword_at(b, pos + 4) as int;
        let start = pos + 8;
        let end = body_end(b, start, size);
        let next = start + size + size % 2;
        match riff::kind_at(b, pos) {
            ChunkKind::Format => match format_in(b.subrange(start, end)) {
                Ok(f) => scan(b, next, Parts { format: Some(f), data: parts.data }),
                Err(e) => Err(e),
            },
            ChunkKind::Data => scan(
                b,
                next,
                Parts { format: parts.format, data: Some((start as usize, end as usize)) },
            ),
            ChunkKind::Other => scan(b, next, parts),
        }
    }
}

/// How samples of a tag and a width are stored, if they are supported.
pub open spec fn encoding_of(tag: u16, bits: u16) -> Option<Encoding> {
    if tag == riff::TAG_PCM && bits == 16 {
        Some(Encoding::Pcm16)
    } else if tag == riff::TAG_FLOAT && bits == 32 {
        Some(Encoding::Float32)
    } else {
        None
    }
}

/// What the parts of a file come to.
pub open spec fn assembled(b: Seq<u8>, parts: Parts) -> Result<Contents, WavError> {
    match (parts.format, parts.data) {
        (None, _) => Err(WavError::NoFormat),
        (Some(_), None) => Err(WavError::NoData),
        (Some(f), Some(d)) => if f.channels == 0 {
            Err(WavError::NoChannels)
        } else {
            match encoding_of(f.tag, f.bits) {
                Some(e) => Ok(
                    Contents {
                        sample_rate: f.rate,
                        channels: f.channels,
                        samples: riff::decoded(b.subrange(d.0 as int, d.1 as int), e),
                    },
                ),
                None => Err(WavError::Unsupported { tag: f.tag, bits: f.bits }),
            }
        },
    }
}

/// What a file holds.
pub open spec fn parsed(b: Seq<u8>) -> Result<Contents, WavError> {
    if !riff::is_wave(b) {
        Err(WavError::NotWave)
    } else {
        match scan(b, 12, Parts { format: None, data: None }) {
            Ok(parts) => assembled(b, parts),
            Err(e) => Err(e),
        }
    }
}

/// What a format chunk says.
fn read_format(body: &[u8]) -> (r: Result<Format, WavError>)
    ensures
        r == format_in(body@),
{
    let tag: u16 = match u16_at(body, 0) {
        Ok(x) => x,
        Err(e) => return Err(e),
    };
    let channels: u16 = match u16_at(body, 2) {
        Ok(x) => x,
        Err(e) => return Err(e),
    };
    let rate: u32 = match u32_at(body, 4) {
        Ok(x) => x,
        Err(e) => return Err(e),
    };
    let bits: u16 = match u16_at(body, 14) {
        Ok(x) => x,
        Err(e) => return Err(e),
    };
    let stored: u16 = if tag == riff::TAG_EXTENSIBLE && body.len() >= 26 {
        if body.len() >= 28 && body[24] == 3 && body[25] == 0 && body[26] == 0 && body[27] == 0 {
            riff::TAG_FLOAT
        } else {
            riff::TAG_PCM
        }
    } else {
        tag
    };
    Ok(Format { tag: stored, channels, rate, bits })
}

/// The chunks of a WAVE file.
fn read_parts(b: &[u8]) -> (r: Result<Parts, WavError>)
    requires
        b@.len() >= 12,
    ensures
        r == scan(b@, 12, Parts { format: None, data: None }),
        r matches Ok(p) ==> (p.data matches Some(d) ==> d.0 <= d.1 <= b@.len()),
{
    let len: usize = b.len();
    let mut parts: Parts = Parts { format: None, data: None };
    let mut pos: usize = 12;
    while pos <= len && len - pos >= 8
        invariant
            len == b@.len(),
            scan(b@, 12, Parts { format: None, data: None }) == scan(b@, pos as int, parts),
            parts.data matches Some(d) ==> d.0 <= d.1 <= b@.len(),
        decreases len + 1 - pos,
    {
        let size: u32 = bytes::read_u32(b, pos + 4);
        let start: usize = pos + 8;
        let room: usize = len - start;
        let fits: bool = size as u64 <= room as u64;
        let end: usize = if fits {
            start + size as usize
        } else {
            len
        };
        match riff::chunk_kind(b, pos) {
            ChunkKind::Format => {
                let body: &[u8] = vstd::slice::slice_subrange(b, start, end);
                match read_format(body) {
                    Ok(f) => {
                        parts = Parts { format: Some(f), data: parts.data };
                    },
                    Err(e) => {
                        return Err(e);
                    },
                }
            },
            ChunkKind::Data => {
                parts = Parts { format: parts.format, data: Some((start, end)) };
            },
            ChunkKind::Other => {},
        }
        let pad: usize = if size % 2 == 1 {
            1
        } else {
            0
        };
        if fits && len - end >= pad {
            pos = end + pad;
        } else {
            proof {
                let next = start + size + size as int % 2;
                assert(next + 8 > b@.len());
                assert(scan(b@, next, parts) == Ok::<Parts, WavError>(parts));
            }
            return Ok(parts);
        }
    }
    Ok(parts)
}

/// Reads a file of 16-bit integers or of 32-bit floating-point numbers; no others are supported.
pub fn parse_wav(b: &[u8]) -> (r: Result<Wav, WavError>)
    ensures
        match r {
            Ok(w) => parsed(b@) == Ok::<Contents, WavError>(w@),
            Err(e) => parsed(b@) == Err::<Contents, WavError>(e),
        },
{
    if !riff::check_wave(b) {
        return Err(WavError::NotWave);
    }
    let parts: Parts = match read_parts(b) {
        Ok(p) => p,
        Err(e) => return Err(e),
    };
    let f: Format = match parts.format {
        Some(f) => f,
        None => return Err(WavError::NoFormat),
    };
    let (start, end): (usize, usize) = match parts.data {
        Some(d) => d,
        None => return Err(WavError::NoData),
    };
    if f.channels == 0 {
        return Err(WavError::NoChannels);
    }
    let encoding: Encoding = if f.tag == riff::TAG_PCM && f.bits == 16 {
        Encoding::Pcm16
    } else if f.tag == riff::TAG_FLOAT && f.bits == 32 {
        Encoding::Float32
    } else {
        return Err(WavError::Unsupported { tag: f.tag, bits: f.bits });
    };
    let samples: Vec<Sample> = riff::decode(vstd::slice::slice_subrange(b, start, end), encoding);
    Ok(Wav { sample_rate: f.rate, channels: f.channels, samples })
}

// ---- writing ----

/// The channels that are written: at least one.
pub open spec fn written_channels(channels: u16) -> u16 {
    if channels == 0 {
        1
    } else {
        channels
    }
}

/// How many samples are written: those of whole frames.
pub open spec fn written_count(channels: u16, n: int) -> int {
    n / (written_channels(channels) as int) * written_channels(channels)
}

/// The length that is written for the samples.
pub open spec fn written_len(channels: u16, n: int) -> int {
    (written_count(channels, n) * 2) % 0x1_0000_0000
}

/// The bytes of a frame, as they are written.
pub open spec fn written_align(channels: u16) -> int {
    (written_channels(channels) * 2) % 0x1_0000
}

/// The bytes of a row of 16-bit samples.
pub open spec fn sample_bytes(samples: Seq<i16>) -> Seq<u8>
    decreases samples.len(),
{
    if samples.len() == 0 {
        Seq::empty()
    } else {
        sample_bytes(samples.drop_last()) + bytes::le16(bits16(samples.last()))
    }
}

/// The two's-complement bit pattern of `x`.
pub open spec fn bits16(x: i16) -> u16 {
    if x < 0 {
        (x + 0x1_0000) as u16
    } else {
        x as u16
    }
}

/// A file of 16-bit samples.
pub open spec fn written(sample_rate: u32, channels: u16, samples: Seq<i16>) -> Seq<u8> {
    riff::header(
        riff::TAG_PCM,
        written_channels(channels),
        sample_rate,
        (sample_rate * written_align(channels)) as u32,
        written_align(channels) as u16,
        16,
        written_len(channels, samples.len() as int) as u32,
    ) + sample_bytes(samples.take(written_count(channels, samples.len() as int)))
}

/// Writes a file of 16-bit samples, whole frames only.
pub fn write_wav16(sample_rate: u32, channels: u16, samples: &[i16]) -> (out: Vec<u8>)
    requires
        36 + written_len(channels, samples@.len() as int) <= u32::MAX,
        sample_rate * written_align(channels) <= u32::MAX,
    ensures
        out@ == written(sample_rate, channels, samples@),
{
    let stored: u16 = if channels == 0 {
        1
    } else {
        channels
    };
    let ch: usize = stored as usize;
    let frames: usize = samples.len() / ch;
    proof {
        assert(frames * ch <= samples@.len()) by (nonlinear_arith)
            requires
                frames == samples@.len() as int / (ch as int),
                ch > 0,
        ;
    }
    assert(samples.len() <= usize::MAX);
    let count: usize = frames * ch;
    let data_len: u32 = (count as u128 * 2 % 0x1_0000_0000) as u32;
    let align: u16 = (stored as u32 * 2 % 0x1_0000) as u16;
    assert(align == written_align(channels));
    let mut out: Vec<u8> = riff::push_header(
        riff::TAG_PCM,
        stored,
        sample_rate,
        sample_rate * align as u32,
        align,
        16,
        data_len,
    );
    let ghost head = out@;
    let mut i: usize = 0;
    assert(out@ =~= head + sample_bytes(samples@.take(0)));
    while i < count
        invariant
            i <= count,
            count <= samples@.len(),
            out@ == head + sample_bytes(samples@.take(i as int)),
        decreases count - i,
    {
        let v: i16 = samples[i];
        let bits: u16 = if v < 0 {
            (v as i32 + 0x1_0000) as u16
        } else {
            v as u16
        };
        bytes::push_u16(&mut out, bits);
        assert(samples@.take(i + 1).drop_last() =~= samples@.take(i as int));
        i = i + 1;
        assert(out@ =~= head + sample_bytes(samples@.take(i as int)));
    }
    out
}

/// Where the samples of a row stand in its bytes.
proof fn lemma_sample_bytes(samples: Seq<i16>)
    ensures
        sample_bytes(samples).len() == 2 * samples.len(),
        riff::decoded(sample_bytes(samples), Encoding::Pcm16) == Seq::new(
            samples.len(),
            |i: int| Sample::Part { value: samples[i] as i32, of: 32768 },
        ),
    decreases samples.len(),
{
    let b = sample_bytes(samples);
    let want = Seq::new(
        samples.len(),
        |i: int| Sample::Part { value: samples[i] as i32, of: 32768 },
    );
    if samples.len() > 0 {
        let rest = samples.drop_last();
        let head = sample_bytes(rest);
        lemma_sample_bytes(rest);
        bytes::lemma_le16_read_back(bits16(samples.last()));
        assert forall|i: int| 0 <= i < samples.len() implies #[trigger] riff::decoded(
            b,
            Encoding::Pcm16,
        )[i] == want[i] by {
            if i < rest.len() {
                assert(riff::width(Encoding::Pcm16) == 2);
                assert(head.len() as int / 2 == rest.len());
                assert(riff::decoded(head, Encoding::Pcm16)[i] == riff::sample_at(
                    head,
                    i * 2,
                    Encoding::Pcm16,
                ));
                assert(head[i * 2] == b[i * 2] && head[i * 2 + 1] == b[i * 2 + 1]);
                assert(rest[i] == samples[i]);
            } else {
                assert(b.subrange(2 * i, 2 * i + 2) =~= bytes::le16(bits16(samples.last())));
                bytes::lemma_word_of_part(b, 2 * i, bytes::le16(bits16(samples.last())));
            }
        }
    }
    assert(riff::decoded(b, Encoding::Pcm16) =~= want);
}

/// A file of one format chunk and one chunk of samples.
proof fn lemma_two_chunks(f: Seq<u8>, fmt: Format)
    requires
        44 <= f.len() <= usize::MAX,
        riff::kind_at(f, 12) == ChunkKind::Format,
        bytes::dword_at(f, 16) == 16,
        format_in(f.subrange(20, 36)) == Ok::<Format, WavError>(fmt),
        riff::kind_at(f, 36) == ChunkKind::Data,
        bytes::dword_at(f, 40) == f.len() - 44,
    ensures
        scan(f, 12, Parts { format: None, data: None }) == Ok::<Parts, WavError>(
            Parts { format: Some(fmt), data: Some((44usize, f.len() as usize)) },
        ),
{
    let size = f.len() - 44;
    let none = Parts { format: None, data: None };
    let first = Parts { format: Some(fmt), data: None };
    let both = Parts { format: Some(fmt), data: Some((44usize, f.len() as usize)) };
    assert(scan(f, 12, none) == scan(f, 36, first));
    assert(scan(f, 44 + size + size % 2, both) == Ok::<Parts, WavError>(both));
    assert(scan(f, 36, first) == scan(f, 44 + size + size % 2, both));
}

/// A file that is written is read back: the same rate, the channels and the samples of whole
/// frames, each as the part of full scale that it stands for.
#[verifier::spinoff_prover]
#[verifier::rlimit(40)]
pub proof fn law_written_file_is_read_back(sample_rate: u32, channels: u16, samples: Seq<i16>)
    requires
        36 + 2 * written_count(channels, samples.len() as int) <= u32::MAX,
        riff::HEADER_BYTES + 2 * written_count(channels, samples.len() as int) <= usize::MAX,
    ensures
        parsed(written(sample_rate, channels, samples)) == Ok::<Contents, WavError>(
            Contents {
                sample_rate,
                channels: written_channels(channels),
                samples: Seq::new(
                    written_count(channels, samples.len() as int) as nat,
                    |i: int| Sample::Part { value: samples[i] as i32, of: 32768 },
                ),
            },
        ),
{
    let ch = written_channels(channels);
    let n = written_count(channels, samples.len() as int);
    assert(0 <= n <= samples.len()) by (nonlinear_arith)
        requires
            n == samples.len() as int / (ch as int) * ch,
            ch > 0,
    ;
    let part = samples.take(n);
    let data = sample_bytes(part);
    lemma_sample_bytes(part);
    let f = written(sample_rate, channels, samples);
    let byte_rate = (sample_rate * written_align(channels)) as u32;
    let align = written_align(channels) as u16;
    riff::lemma_header(riff::TAG_PCM, ch, sample_rate, byte_rate, align, 16, data);
    let body = f.subrange(20, 36);
    let fmt = Format { tag: riff::TAG_PCM, channels: ch, rate: sample_rate, bits: 16 };
    assert(format_in(body) == Ok::<Format, WavError>(fmt));
    lemma_two_chunks(f, fmt);
    assert(f.subrange(44, f.len() as int) =~= data);
    let want = Seq::new(n as nat, |i: int| Sample::Part { value: samples[i] as i32, of: 32768 });
    assert(riff::decoded(data, Encoding::Pcm16) =~= want);
}

/// A number that stands for the part `p / q` of full scale, as it is written: less than one step
/// of 32767 away.
pub open spec fn stands_for(v: i16, p: int, q: int) -> bool {
    &&& 0 < q
    &&& -q <= p <= q
    &&& -q < v * q - 32767 * p < q
}

/// What is written as the nearest of the 32767 steps is read back less than two of 32768 steps
/// away: of each sample, the part of full scale that was meant and the one that is read differ by
/// less than 2 / 32768.
pub proof fn law_written_sound_stays_close(
    sample_rate: u32,
    channels: u16,
    samples: Seq<i16>,
    meant: Seq<(int, int)>,
)
    requires
        36 + 2 * written_count(channels, samples.len() as int) <= u32::MAX,
        riff::HEADER_BYTES + 2 * written_count(channels, samples.len() as int) <= usize::MAX,
        meant.len() == samples.len(),
        forall|i: int|
            0 <= i < samples.len() ==> stands_for(#[trigger] samples[i], meant[i].0, meant[i].1),
    ensures
        parsed(written(sample_rate, channels, samples)) matches Ok(w) && {
            &&& w.sample_rate == sample_rate
            &&& w.channels == written_channels(channels)
            &&& w.samples.len() == written_count(channels, samples.len() as int)
            &&& forall|i: int|
                0 <= i < w.samples.len() ==> (#[trigger] w.samples[i] matches Sample::Part {
                    value,
                    of,
                } && of == 32768 && -2 * meant[i].1 < value * meant[i].1 - 32768 * meant[i].0 < 2
                    * meant[i].1)
        },
{
    law_written_file_is_read_back(sample_rate, channels, samples);
    let ch = written_channels(channels);
    let n = written_count(channels, samples.len() as int);
    assert(n <= samples.len()) by (nonlinear_arith)
        requires
            n == samples.len() as int / (ch as int) * ch,
            ch > 0,
    ;
    let read = parsed(written(sample_rate, channels, samples))->Ok_0.samples;
    assert forall|i: int| 0 <= i < read.len() implies (#[trigger] read[i] matches Sample::Part {
        value,
        of,
    } && of == 32768 && -2 * meant[i].1 < value * meant[i].1 - 32768 * meant[i].0 < 2
        * meant[i].1) by {
        assert(stands_for(samples[i], meant[i].0, meant[i].1));
    }
}

// ---- chunks of other kinds ----

/// A chunk begins at `p`, or the chunks end there, as they are walked from `pos` on.
pub open spec fn chunk_begins(b: Seq<u8>, pos: int, p: int) -> bool
    decreases bytes_left(b, pos),
{
    ||| pos == p
    ||| pos + 8 <= b.len() && chunk_begins(
        b,
        pos + 8 + bytes::dword_at(b, pos + 4) + bytes::dword_at(b, pos + 4) as int % 2,
        p,
    )
}

/// One whole chunk that is neither a format nor samples: its head, as many bytes as that says, and
/// one more where their number is odd.
pub open spec fn is_other_chunk(chunk: Seq<u8>) -> bool {
    let size = bytes::dword_at(chunk, 4) as int;
    &&& chunk.len() == 8 + size + size % 2
    &&& riff::kind_at(chunk, 0) == ChunkKind::Other
}

/// A file with a chunk put in at `p`.
pub open spec fn inserted(b: Seq<u8>, p: int, chunk: Seq<u8>) -> Seq<u8> {
    b.take(p) + chunk + b.skip(p)
}

/// Two files have given the same: the same format and the same samples.
spec fn same_parts(b: Seq<u8>, parts: Parts, b2: Seq<u8>, parts2: Parts) -> bool {
    &&& parts.format == parts2.format
    &&& match (parts.data, parts2.data) {
        (None, None) => true,
        (Some(d), Some(e)) => b.subrange(d.0 as int, d.1 as int) == b2.subrange(
            e.0 as int,
            e.1 as int,
        ),
        _ => false,
    }
}

/// Walking two files has given the same.
spec fn same_scan(
    b: Seq<u8>,
    r: Result<Parts, WavError>,
    b2: Seq<u8>,
    r2: Result<Parts, WavError>,
) -> bool {
    match (r, r2) {
        (Ok(parts), Ok(parts2)) => same_parts(b, parts, b2, parts2),
        (Err(e), Err(e2)) => e == e2,
        _ => false,
    }
}

/// The chunks of two files that are the same from some place on, `k` bytes further in the second.
proof fn lemma_scan_shifted(
    b: Seq<u8>,
    parts: Parts,
    b2: Seq<u8>,
    parts2: Parts,
    k: int,
    pos: int,
)
    requires
        0 <= pos,
        0 <= k,
        b2.len() == b.len() + k,
        b2.len() <= usize::MAX,
        forall|i: int| pos <= i < b.len() ==> #[trigger] b2[i + k] == b[i],
        same_parts(b, parts, b2, parts2),
    ensures
        same_scan(b, scan(b, pos, parts), b2, scan(b2, pos + k, parts2)),
    decreases bytes_left(b, pos),
{
    if pos + 8 <= b.len() {
        let at = pos + k;
        assert(b2[pos + k] == b[pos] && b2[pos + 1 + k] == b[pos + 1] && b2[pos + 2 + k] == b[pos
            + 2] && b2[pos + 3 + k] == b[pos + 3]);
        assert(b2[pos + 4 + k] == b[pos + 4] && b2[pos + 5 + k] == b[pos + 5] && b2[pos + 6 + k]
            == b[pos + 6] && b2[pos + 7 + k] == b[pos + 7]);
        assert(bytes::dword_at(b2, at + 4) == bytes::dword_at(b, pos + 4));
        assert(b2.subrange(at, at + 4) =~= b.subrange(pos, pos + 4));
        let size = bytes::dword_at(b, pos + 4) as int;
        let start = pos + 8;
        let end = body_end(b, start, size);
        let next = start + size + size % 2;
        assert(body_end(b2, start + k, size) == end + k);
        assert(b2.subrange(start + k, end + k) =~= b.subrange(start, end)) by {
            assert forall|i: int| 0 <= i < end - start implies b2.subrange(start + k, end + k)[i]
                == b.subrange(start, end)[i] by {
                assert(b2[start + i + k] == b[start + i]);
            }
        }
        match riff::kind_at(b, pos) {
            ChunkKind::Format => match format_in(b.subrange(start, end)) {
                Ok(f) => lemma_scan_shifted(
                    b,
                    Parts { format: Some(f), data: parts.data },
                    b2,
                    Parts { format: Some(f), data: parts2.data },
                    k,
                    next,
                ),
                Err(_) => {},
            },
            ChunkKind::Data => lemma_scan_shifted(
                b,
                Parts { format: parts.format, data: Some((start as usize, end as usize)) },
                b2,
                Parts {
                    format: parts2.format,
                    data: Some(((start + k) as usize, (end + k) as usize)),
                },
                k,
                next,
            ),
            ChunkKind::Other => lemma_scan_shifted(b, parts, b2, parts2, k, next),
        }
    }
}

/// A chunk that begins at `p` lies behind the one from which it is reached.
proof fn lemma_chunk_begins_behind(b: Seq<u8>, pos: int, p: int)
    requires
        chunk_begins(b, pos, p),
    ensures
        pos <= p,
    decreases bytes_left(b, pos),
{
    if pos != p {
        let size = bytes::dword_at(b, pos + 4);
        lemma_chunk_begins_behind(b, pos + 8 + size + size as int % 2, p);
    }
}

/// The chunks of a file, and of the same file with another chunk put in further on.
proof fn lemma_scan_inserted(
    b: Seq<u8>,
    parts: Parts,
    parts2: Parts,
    pos: int,
    p: int,
    chunk: Seq<u8>,
)
    requires
        0 <= pos,
        p <= b.len(),
        chunk_begins(b, pos, p),
        is_other_chunk(chunk),
        b.len() + chunk.len() <= usize::MAX,
        same_parts(b, parts, inserted(b, p, chunk), parts2),
    ensures
        same_scan(
            b,
            scan(b, pos, parts),
            inserted(b, p, chunk),
            scan(inserted(b, p, chunk), pos, parts2),
        ),
    decreases bytes_left(b, pos),
{
    let b2 = inserted(b, p, chunk);
    lemma_chunk_begins_behind(b, pos, p);
    if pos == p {
        let k = chunk.len() as int;
        assert(bytes::dword_at(b2, p + 4) == bytes::dword_at(chunk, 4));
        assert(b2.subrange(p, p + 4) =~= chunk.subrange(0, 4));
        assert(scan(b2, p, parts2) == scan(b2, p + k, parts2));
        assert forall|i: int| p <= i < b.len() implies #[trigger] b2[i + k] == b[i] by {
            assert(b2[i + k] == b.skip(p)[i - p]);
        }
        lemma_scan_shifted(b, parts, b2, parts2, k, p);
    } else {
        let size = bytes::dword_at(b, pos + 4) as int;
        let start = pos + 8;
        let next = start + size + size % 2;
        lemma_chunk_begins_behind(b, next, p);
        assert(forall|i: int| 0 <= i < p ==> #[trigger] b2[i] == b[i]);
        assert(bytes::dword_at(b2, pos + 4) == bytes::dword_at(b, pos + 4));
        assert(b2.subrange(pos, pos + 4) =~= b.subrange(pos, pos + 4));
        let end = body_end(b, start, size);
        assert(end == start + size && body_end(b2, start, size) == end);
        assert(b2.subrange(start, end) =~= b.subrange(start, end));
        match riff::kind_at(b, pos) {
            ChunkKind::Format => match format_in(b.subrange(start, end)) {
                Ok(f) => lemma_scan_inserted(
                    b,
                    Parts { format: Some(f), data: parts.data },
                    Parts { format: Some(f), data: parts2.data },
                    next,
                    p,
                    chunk,
                ),
                Err(_) => {},
            },
            ChunkKind::Data => lemma_scan_inserted(
                b,
                Parts { format: parts.format, data: Some((start as usize, end as usize)) },
                Parts { format: parts2.format, data: Some((start as usize, end as usize)) },
                next,
                p,
                chunk,
            ),
            ChunkKind::Other => lemma_scan_inserted(b, parts, parts2, next, p, chunk),
        }
    }
}

/// Chunks of other kinds are passed over: one that is put in where a chunk begins, or at the end,
/// changes nothing in what the file gives, be it the sound or the error.
pub proof fn law_other_chunks_change_nothing(b: Seq<u8>, p: int, chunk: Seq<u8>)
    requires
        chunk_begins(b, 12, p),
        p <= b.len(),
        is_other_chunk(chunk),
        b.len() + chunk.len() <= usize::MAX,
    ensures
        parsed(inserted(b, p, chunk)) == parsed(b),
{
    let b2 = inserted(b, p, chunk);
    let none = Parts { format: None, data: None };
    lemma_chunk_begins_behind(b, 12, p);
    assert(b2.subrange(0, 4) =~= b.subrange(0, 4));
    assert(b2.subrange(8, 12) =~= b.subrange(8, 12));
    lemma_scan_inserted(b, none, none, 12, p, chunk);
}

/// A format chunk of sixteen bytes or more says how its samples are stored, and a shorter one is
/// cut short, the four bytes of the rate told from the two of the rest. The tag 65534 stands for
/// another one: with 26 bytes, for floating point exactly if the number at byte 24 is there and
/// is 3, and for integers else.
pub proof fn law_format_chunk_is_understood(body: Seq<u8>)
    ensures
        format_in(body) is Ok <==> body.len() >= 16,
        format_in(body) == Err::<Format, WavError>(WavError::CutShort32) <==> 4 <= body.len() < 8,
        format_in(body) == Err::<Format, WavError>(WavError::CutShort16) <==> body.len() < 4 || 8
            <= body.len() < 16,
        format_in(body) matches Ok(f) ==> {
            let tag = body[0] + 256 * body[1];
            &&& f.channels == body[2] + 256 * body[3]
            &&& f.rate == bytes::dword_at(body, 4)
            &&& f.bits == body[14] + 256 * body[15]
            &&& tag != 65534 || body.len() < 26 ==> f.tag == tag
            &&& tag == 65534 && body.len() >= 26 ==> f.tag == if body.len() >= 28
                && bytes::dword_at(body, 24) == 3 {
                3u16
            } else {
                1u16
            }
        },
{
}

/// Exactly two kinds of samples are read, 16-bit integers and 32-bit floating-point numbers. A
/// file has to give a format, samples and a channel; what it lacks first in that order is the
/// error, and then what its samples are.
pub proof fn law_only_two_kinds_of_samples_are_read(b: Seq<u8>, parts: Parts)
    ensures
        encoding_of(1, 16) == Some(Encoding::Pcm16),
        encoding_of(3, 32) == Some(Encoding::Float32),
        forall|tag: u16, bits: u16|
            (#[trigger] encoding_of(tag, bits)) is Some <==> (tag == 1 && bits == 16) || (tag == 3
                && bits == 32),
        parts.format is None ==> assembled(b, parts) == Err::<Contents, WavError>(
            WavError::NoFormat,
        ),
        parts.format is Some && parts.data is None ==> assembled(b, parts) == Err::<
            Contents,
            WavError,
        >(WavError::NoData),
        parts.format is Some && parts.data is Some ==> {
            let f = parts.format->0;
            let known = (f.tag == 1 && f.bits == 16) || (f.tag == 3 && f.bits == 32);
            &&& f.channels == 0 ==> assembled(b, parts) == Err::<Contents, WavError>(
                WavError::NoChannels,
            )
            &&& f.channels != 0 && !known ==> assembled(b, parts) == Err::<Contents, WavError>(
                WavError::Unsupported { tag: f.tag, bits: f.bits },
            )
            &&& f.channels != 0 && known ==> (assembled(b, parts) matches Ok(c) && c.sample_rate
                == f.rate && c.channels == f.channels)
        },
{
}

/// A file of one format chunk and one chunk of samples that goes to the end of the file or past it.
proof fn lemma_cut_chunks(f: Seq<u8>, fmt: Format)
    requires
        44 <= f.len() <= usize::MAX,
        riff::kind_at(f, 12) == ChunkKind::Format,
        bytes::dword_at(f, 16) == 16,
        format_in(f.subrange(20, 36)) == Ok::<Format, WavError>(fmt),
        riff::kind_at(f, 36) == ChunkKind::Data,
        bytes::dword_at(f, 40) >= f.len() - 44,
    ensures
        scan(f, 12, Parts { format: None, data: None }) == Ok::<Parts, WavError>(
            Parts { format: Some(fmt), data: Some((44usize, f.len() as usize)) },
        ),
{
    let size = bytes::dword_at(f, 40) as int;
    let none = Parts { format: None, data: None };
    let first = Parts { format: Some(fmt), data: None };
    let both = Parts { format: Some(fmt), data: Some((44usize, f.len() as usize)) };
    assert(scan(f, 12, none) == scan(f, 36, first));
    assert(scan(f, 44 + size + size % 2, both) == Ok::<Parts, WavError>(both));
    assert(scan(f, 36, first) == scan(f, 44 + size + size % 2, both));
}

/// A file of 16-bit integers or 32-bit floating-point numbers is read whole, whatever its samples
/// are; and one that ends early gives the whole samples that are there.
pub proof fn law_file_is_read_as_far_as_it_goes(
    float: bool,
    channels: u16,
    rate: u32,
    byte_rate: u32,
    align: u16,
    data: Seq<u8>,
    there: int,
)
    requires
        channels != 0,
        36 + data.len() <= u32::MAX,
        44 + data.len() <= usize::MAX,
        0 <= there <= data.len(),
    ensures
        ({
            let whole = if float {
                riff::header(3, channels, rate, byte_rate, align, 32, data.len() as u32) + data
            } else {
                riff::header(1, channels, rate, byte_rate, align, 16, data.len() as u32) + data
            };
            parsed(whole.take(44 + there)) == Ok::<Contents, WavError>(
                Contents {
                    sample_rate: rate,
                    channels,
                    samples: if float {
                        Seq::new(
                            (there / 4) as nat,
                            |i: int| Sample::Float32(bytes::dword_at(data, 4 * i)),
                        )
                    } else {
                        Seq::new(
                            (there / 2) as nat,
                            |i: int|
                                Sample::Part {
                                    value: bytes::signed16(bytes::word_at(data, 2 * i)) as i32,
                                    of: 32768,
                                },
                        )
                    },
                },
            )
        }),
{
    let tag = if float {
        3u16
    } else {
        1u16
    };
    let bits = if float {
        32u16
    } else {
        16u16
    };
    let whole = riff::header(tag, channels, rate, byte_rate, align, bits, data.len() as u32) + data;
    riff::lemma_header(tag, channels, rate, byte_rate, align, bits, data);
    let f = whole.take(44 + there);
    assert(f.len() == 44 + there);
    assert(f.subrange(0, 4) =~= whole.subrange(0, 4));
    assert(f.subrange(8, 12) =~= whole.subrange(8, 12));
    assert(f.subrange(12, 16) =~= whole.subrange(12, 16));
    assert(f.subrange(36, 40) =~= whole.subrange(36, 40));
    assert(f.subrange(20, 36) =~= whole.subrange(20, 36));
    let fmt = Format { tag, channels, rate, bits };
    assert(format_in(f.subrange(20, 36)) == Ok::<Format, WavError>(fmt));
    lemma_cut_chunks(f, fmt);
    let part = f.subrange(44, f.len() as int);
    assert forall|k: int| 0 <= k < there implies part[k] == data[k] by {
        assert(whole.subrange(44, whole.len() as int)[k] == data[k]);
    }
    if float {
        assert(riff::decoded(part, Encoding::Float32) =~= Seq::new(
            (there / 4) as nat,
            |i: int| Sample::Float32(bytes::dword_at(data, 4 * i)),
        ));
    } else {
        assert(riff::decoded(part, Encoding::Pcm16) =~= Seq::new(
            (there / 2) as nat,
            |i: int|
                Sample::Part {
                    value: bytes::signed16(bytes::word_at(data, 2 * i)) as i32,
                    of: 32768,
                },
        ));
    }
}

/// The channels of a sound repeat, each frame has its own samples, and past the end, or without a
/// channel, there is silence.
pub proof fn law_channels_repeat(w: Contents, frame: int, ch: int, times: int)
    requires
        0 <= frame,
        0 <= ch,
        0 <= times,
    ensures
        w.channels != 0 ==> sample_of(w, frame, ch + times * w.channels) == sample_of(w, frame, ch),
        w.channels != 0 && ch < w.channels && frame * w.channels + ch < w.samples.len()
            ==> sample_of(w, frame, ch) == w.samples[frame * w.channels + ch],
        w.channels == 0 || frame * w.channels >= w.samples.len() ==> sample_of(w, frame, ch)
            == Sample::Float32(0),
{
    if w.channels != 0 {
        let n = w.channels as int;
        vstd::arithmetic::div_mod::lemma_mod_multiples_vanish(times, ch, n);
        assert(n * times + ch == ch + times * n) by (nonlinear_arith);
        vstd::arithmetic::div_mod::lemma_mod_bound(ch, n);
        if ch < n {
            vstd::arithmetic::div_mod::lemma_small_mod(ch as nat, n as nat);
        }
    }
}

/// Samples are written in whole frames, as many as there are: the rest, less than one frame, is
/// left out. A sound without a channel is written with one.
pub proof fn law_whole_frames_are_written(channels: u16, n: int)
    requires
        0 <= n,
    ensures
        ({
            let ch = if channels == 0 {
                1int
            } else {
                channels as int
            };
            &&& written_channels(channels) == ch
            &&& written_count(channels, n) % ch == 0
            &&& written_count(channels, n) <= n < written_count(channels, n) + ch
        }),
{
    let ch = written_channels(channels) as int;
    let q = n / ch;
    vstd::arithmetic::div_mod::lemma_fundamental_div_mod(n, ch);
    vstd::arithmetic::div_mod::lemma_mod_bound(n, ch);
    vstd::arithmetic::div_mod::lemma_mod_multiples_basic(q, ch);
    assert(q * ch == ch * q) by (nonlinear_arith);
}

} // verus!
