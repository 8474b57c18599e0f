//! Playing into an endpoint and recording from one: which endpoint it is, how its samples are
//! stored, and how much goes in and out at a time.
use crate::bytes;
use crate::riff;
use crate::riff::Sample;
use crate::text;
use vstd::prelude::*;
use vstd::string::*;

verus! {

/// How an endpoint stores its samples.
#[derive(Clone, Copy, Debug, PartialEq, Eq, Structural)]
pub enum SampleFmt {
    /// 32-bit floating-point numbers.
    F32,
    /// 16-bit integers.
    I16,
}

/// Why the samples of an endpoint cannot be handled.
#[derive(Clone, Copy, Debug, PartialEq, Eq, Structural)]
pub enum FormatError {
    /// The extended format has too few bytes after the plain one.
    ShortExtension(u16),
    /// The extended format has samples of another width.
    Bits(u16),
    /// The format has another tag, or plain samples of another width.
    Tag(u16),
}

/// The flag of a packet that counts as silence.
pub const BUFFERFLAGS_SILENT: u32 = 2;

/// The pause where the endpoint has no room, in milliseconds.
pub const FULL_PAUSE_MS: u32 = 2;

/// The pause where the endpoint has no packet, in milliseconds.
pub const EMPTY_PAUSE_MS: u32 = 5;

/// The bytes that the extended format has at least after the plain one.
pub const EXTENSION_BYTES: u16 = 22;

/// What was played.
pub struct InjectReport {
    pub endpoint: String,
    pub endpoint_id: String,
    pub sample_rate: u32,
    pub channels: u16,
    pub frames: u64,
}

/// What was recorded.
pub struct CaptureReport {
    pub endpoint: String,
    pub endpoint_id: String,
    pub sample_rate: u32,
    pub channels: u16,
    pub frames: u64,
    pub wav: Option<String>,
}

// ---- the format of an endpoint ----

/// How the samples of a format are stored.
pub open spec fn format_of(b: Seq<u8>) -> Result<SampleFmt, FormatError> {
    let tag = bytes::word_at(b, 0);
    let bits = bytes::word_at(b, 14);
    let extra = bytes::word_at(b, 16);
    if tag == riff::TAG_FLOAT && bits == 32 {
        Ok(SampleFmt::F32)
    } else if tag == riff::TAG_PCM && bits == 16 {
        Ok(SampleFmt::I16)
    } else if tag == riff::TAG_EXTENSIBLE {
        if extra < EXTENSION_BYTES {
            Err(FormatError::ShortExtension(extra))
        } else if b[24] == 3 && b[25] == 0 && b[26] == 0 && b[27] == 0 {
            if bits == 32 {
                Ok(SampleFmt::F32)
            } else {
                Err(FormatError::Bits(bits))
            }
        } else if bits == 16 {
            Ok(SampleFmt::I16)
        } else {
            Err(FormatError::Bits(bits))
        }
    } else {
        Err(FormatError::Tag(tag))
    }
}

/// A format that is as long as it says: a plain one, or an extended one with its extension.
pub open spec fn is_whole(b: Seq<u8>) -> bool {
    &&& b.len() >= 18
    &&& bytes::word_at(b, 0) == riff::TAG_EXTENSIBLE && bytes::word_at(b, 16) >= EXTENSION_BYTES
        ==> b.len() >= 40
}

/// How the samples of a format are stored.
pub fn detect_format(b: &[u8]) -> (r: Result<SampleFmt, FormatError>)
    requires
        is_whole(b@),
    ensures
        r == format_of(b@),
{
    let tag: u16 = bytes::read_u16(b, 0);
    let bits: u16 = bytes::read_u16(b, 14);
    let extra: u16 = bytes::read_u16(b, 16);
    if tag == riff::TAG_FLOAT && bits == 32 {
        return Ok(SampleFmt::F32);
    }
    if tag == riff::TAG_PCM && bits == 16 {
        return Ok(SampleFmt::I16);
    }
    if tag == riff::TAG_EXTENSIBLE {
        if extra < EXTENSION_BYTES {
            return Err(FormatError::ShortExtension(extra));
        }
        if b[24] == 3 && b[25] == 0 && b[26] == 0 && b[27] == 0 {
            if bits == 32 {
                return Ok(SampleFmt::F32);
            }
            return Err(FormatError::Bits(bits));
        }
        if bits == 16 {
            return Ok(SampleFmt::I16);
        }
        return Err(FormatError::Bits(bits));
    }
    Err(FormatError::Tag(tag))
}

/// Exactly two ways of storing samples are taken: 16-bit integers, and 32-bit floating-point
/// numbers. A plain format says which by its tag, 1 or 3, an extended one, with the tag 65534 and
/// at least 22 bytes more, by whether the number at byte 24 is 3; the width has to agree. Of what
/// is refused, the error tells the reason: the tag of a plain format, the missing extension, or
/// the width.
pub proof fn law_formats_are_told_apart(b: Seq<u8>)
    ensures
        ({
            let tag = b[0] + 256 * b[1];
            let bits = b[14] + 256 * b[15];
            let extra = b[16] + 256 * b[17];
            let sub = b[24] + 0x100 * b[25] + 0x1_0000 * b[26] + 0x100_0000 * b[27];
            let extended = tag == 65534;
            let float = if extended {
                sub == 3
            } else {
                tag == 3
            };
            &&& format_of(b) == Ok::<SampleFmt, FormatError>(SampleFmt::F32) <==> float && bits
                == 32 && (extended ==> extra >= 22)
            &&& format_of(b) == Ok::<SampleFmt, FormatError>(SampleFmt::I16) <==> !float && bits
                == 16 && (extended || tag == 1) && (extended ==> extra >= 22)
            &&& extended && extra < 22 ==> format_of(b) == Err::<SampleFmt, FormatError>(
                FormatError::ShortExtension(extra as u16),
            )
            &&& extended && extra >= 22 && format_of(b) is Err ==> format_of(b) == Err::<
                SampleFmt,
                FormatError,
            >(FormatError::Bits(bits as u16))
            &&& !extended && format_of(b) is Err ==> format_of(b) == Err::<SampleFmt, FormatError>(
                FormatError::Tag(tag as u16),
            )
        }),
{
}

/// The words of an error.
pub open spec fn error_words(e: FormatError) -> Seq<char> {
    match e {
        FormatError::ShortExtension(n) => "WAVEFORMATEXTENSIBLE.cbSize="@ + text::decimal(n as nat)
            + " 太小"@,
        FormatError::Bits(n) => "不支持的 WAVEFORMATEXTENSIBLE 位深 "@ + text::decimal(
            n as nat,
        ) + "（支持 16bit PCM / 32bit float）"@,
        FormatError::Tag(n) => "不支持的 wFormatTag="@ + text::decimal(n as nat)
            + "（支持 PCM 16bit / IEEE float 32bit）"@,
    }
}

impl FormatError {
    /// The error in words.
    pub fn message(self) -> (s: String)
        ensures
            s@ == error_words(self),
    {
        match self {
            FormatError::ShortExtension(n) => {
                let mut s: String = String::from_str("WAVEFORMATEXTENSIBLE.cbSize=");
                text::push_decimal(&mut s, n as u64);
                s.append(" 太小");
                s
            },
            FormatError::Bits(n) => {
                let mut s: String = String::from_str("不支持的 WAVEFORMATEXTENSIBLE 位深 ");
                text::push_decimal(&mut s, n as u64);
                s.append("（支持 16bit PCM / 32bit float）");
                s
            },
            FormatError::Tag(n) => {
                let mut s: String = String::from_str("不支持的 wFormatTag=");
                text::push_decimal(&mut s, n as u64);
                s.append("（支持 PCM 16bit / IEEE float 32bit）");
                s
            },
        }
    }
}

// ---- choosing an endpoint ----

/// The first of the texts that has `part` in it.
pub open spec fn is_first_with(names: Seq<Seq<char>>, part: Seq<char>, i: int) -> bool {
    &&& 0 <= i < names.len()
    &&& text::is_part(names[i], part)
    &&& forall|k: int| 0 <= k < i ==> !text::is_part(#[trigger] names[k], part)
}

/// None of the texts has `part` in it.
pub open spec fn none_has(names: Seq<Seq<char>>, part: Seq<char>) -> bool {
    forall|k: int| 0 <= k < names.len() ==> !text::is_part(#[trigger] names[k], part)
}

/// The texts in lower case.
pub open spec fn lowered(names: Seq<Seq<char>>) -> Seq<Seq<char>> {
    names.map_values(|s: Seq<char>| text::lowercase(s))
}

/// The first of the texts that has `part` in it.
pub fn first_with(names: &Vec<String>, part: &str) -> (r: Option<usize>)
    ensures
        match r {
            Some(i) => is_first_with(text::texts(names@), part@, i as int),
            None => none_has(text::texts(names@), part@),
        },
{
    let mut i: usize = 0;
    while i < names.len()
        invariant
            i <= names@.len(),
            forall|k: int|
                0 <= k < i ==> !text::is_part(#[trigger] text::texts(names@)[k], part@),
        decreases names@.len() - i,
    {
        assert(text::texts(names@)[i as int] == names@[i as int]@);
        if text::contains(names[i].as_str(), part) {
            return Some(i);
        }
        i = i + 1;
    }
    None
}

/// The texts in lower case.
pub fn all_lowered(names: &Vec<String>) -> (out: Vec<String>)
    ensures
        text::texts(out@) == lowered(text::texts(names@)),
{
    let mut out: Vec<String> = Vec::new();
    let mut i: usize = 0;
    while i < names.len()
        invariant
            i <= names@.len(),
            out@.len() == i,
            forall|k: int|
                0 <= k < i ==> (#[trigger] out@[k])@ == text::lowercase(names@[k]@),
        decreases names@.len() - i,
    {
        out.push(text::to_lowercase(names[i].as_str()));
        i = i + 1;
    }
    assert(text::texts(out@) =~= lowered(text::texts(names@)));
    out
}

/// The endpoint whose name has `filter` in it, whatever the case: the first of them, or, where
/// there is none, a text that lists the names.
pub fn find_endpoint(names: &Vec<String>, filter: &str) -> (r: Result<usize, String>)
    ensures
        match r {
            Ok(i) => is_first_with(
                lowered(text::texts(names@)),
                text::lowercase(filter@),
                i as int,
            ),
            Err(s) => {
                &&& none_has(lowered(text::texts(names@)), text::lowercase(filter@))
                &&& s@ == no_endpoint_words(text::texts(names@), filter@)
            },
        },
{
    let low: Vec<String> = all_lowered(names);
    let part: String = text::to_lowercase(filter);
    match first_with(&low, part.as_str()) {
        Some(i) => Ok(i),
        None => {
            let mut s: String = String::from_str("未找到名字含「");
            s.append(filter);
            s.append("」的活动端点。当前可用：");
            let list: String = text::join(names, " / ");
            s.append(list.as_str());
            Err(s)
        },
    }
}

/// The text that says that no endpoint was found.
pub open spec fn no_endpoint_words(names: Seq<Seq<char>>, filter: Seq<char>) -> Seq<char> {
    "未找到名字含「"@ + filter + "」的活动端点。当前可用："@ + text::joined(names, " / "@)
}

// ---- samples in a buffer ----

/// The bytes of a sample.
pub open spec fn sample_width(kind: SampleFmt) -> int {
    match kind {
        SampleFmt::F32 => 4,
        SampleFmt::I16 => 2,
    }
}

/// The sample number `idx` of a buffer.
pub open spec fn loaded(b: Seq<u8>, idx: int, kind: SampleFmt) -> Sample {
    match kind {
        SampleFmt::F32 => Sample::Float32(bytes::dword_at(b, 4 * idx)),
        SampleFmt::I16 => Sample::Part {
            value: bytes::signed16(bytes::word_at(b, 2 * idx)) as i32,
            of: 32768,
        },
    }
}

/// The bytes of a sample whose bits are given.
pub open spec fn stored_bytes(kind: SampleFmt, bits: u32) -> Seq<u8> {
    match kind {
        SampleFmt::F32 => bytes::le32(bits),
        SampleFmt::I16 => bytes::le16(bits as u16),
    }
}

/// Writes the sample number `idx`, given by its bits.
pub fn store_sample(buf: &mut Vec<u8>, idx: usize, kind: SampleFmt, bits: u32)
    requires
        sample_width(kind) * (idx + 1) <= old(buf)@.len(),
        kind == SampleFmt::I16 ==> bits <= 0xFFFF,
    ensures
        final(buf)@ == bytes::patched(
            old(buf)@,
            sample_width(kind) * idx,
            stored_bytes(kind, bits),
        ),
{
    assert(sample_width(kind) * (idx + 1) <= buf.len());
    let mut b: Vec<u8> = Vec::new();
    match kind {
        SampleFmt::F32 => {
            bytes::push_u32(&mut b, bits);
            assert(b@ =~= bytes::le32(bits));
            bytes::write_at(buf, 4 * idx, b.as_slice());
        },
        SampleFmt::I16 => {
            bytes::push_u16(&mut b, bits as u16);
            assert(b@ =~= bytes::le16(bits as u16));
            bytes::write_at(buf, 2 * idx, b.as_slice());
        },
    }
}

/// Reads the sample number `idx`.
pub fn load_sample(b: &[u8], idx: usize, kind: SampleFmt) -> (s: Sample)
    requires
        sample_width(kind) * (idx + 1) <= b@.len(),
    ensures
        s == loaded(b@, idx as int, kind),
{
    assert(sample_width(kind) * (idx + 1) <= b.len());
    match kind {
        SampleFmt::F32 => Sample::Float32(bytes::read_u32(b, 4 * idx)),
        SampleFmt::I16 => {
            let v: i16 = bytes::signed_word_of(bytes::read_u16(b, 2 * idx));
            Sample::Part { value: v as i32, of: 32768 }
        },
    }
}

/// The sample that a row of bits stands for.
pub open spec fn sample_of_bits(kind: SampleFmt, bits: u32) -> Sample {
    match kind {
        SampleFmt::F32 => Sample::Float32(bits),
        SampleFmt::I16 => Sample::Part { value: bytes::signed16(bits as u16) as i32, of: 32768 },
    }
}

/// What is stored is loaded, and every other sample stays.
pub proof fn law_stored_sample_is_loaded(
    buf: Seq<u8>,
    idx: int,
    kind: SampleFmt,
    bits: u32,
    other: int,
)
    requires
        0 <= idx,
        0 <= other,
        sample_width(kind) * (idx + 1) <= buf.len(),
        sample_width(kind) * (other + 1) <= buf.len(),
        kind == SampleFmt::I16 ==> bits <= 0xFFFF,
    ensures
        ({
            let after = bytes::patched(buf, sample_width(kind) * idx, stored_bytes(kind, bits));
            &&& loaded(after, idx, kind) == sample_of_bits(kind, bits)
            &&& other != idx ==> loaded(after, other, kind) == loaded(buf, other, kind)
        }),
{
    let part = stored_bytes(kind, bits);
    let off = sample_width(kind) * idx;
    let after = bytes::patched(buf, off, part);
    bytes::lemma_patched(buf, off, part);
    match kind {
        SampleFmt::F32 => {
            bytes::lemma_le32_read_back(bits);
            bytes::lemma_dword_of_part(after, 4 * idx, part);
        },
        SampleFmt::I16 => {
            bytes::lemma_le16_read_back(bits as u16);
            bytes::lemma_word_of_part(after, 2 * idx, part);
        },
    }
}

// ---- playing ----

/// What to do next while playing.
#[derive(Clone, Copy, Debug, PartialEq, Eq, Structural)]
pub enum InjectStep {
    /// Everything is played.
    Done,
    /// Wait so many milliseconds for room.
    Wait(u32),
    /// Write so many frames.
    Write(u32),
}

/// What to do next, with `written` of `want` frames written, of a buffer of `size` frames of which
/// `padding` are still to be played.
pub open spec fn inject_next(written: u64, want: u64, size: u32, padding: u32) -> InjectStep {
    let room = if padding < size {
        size - padding
    } else {
        0
    };
    if written >= want {
        InjectStep::Done
    } else if room == 0 {
        InjectStep::Wait(FULL_PAUSE_MS)
    } else if room < want - written {
        InjectStep::Write(room as u32)
    } else {
        InjectStep::Write((want - written) as u32)
    }
}

/// What to do next while playing.
pub fn inject_step(written: u64, want: u64, size: u32, padding: u32) -> (step: InjectStep)
    ensures
        step == inject_next(written, want, size, padding),
{
    if written >= want {
        return InjectStep::Done;
    }
    let room: u32 = if padding < size {
        size - padding
    } else {
        0
    };
    if room == 0 {
        return InjectStep::Wait(FULL_PAUSE_MS);
    }
    if (room as u64) < want - written {
        InjectStep::Write(room)
    } else {
        InjectStep::Write((want - written) as u32)
    }
}

/// What is written brings the end closer, never goes past it, and always fits the buffer: playing
/// ends with exactly the frames that were wanted.
pub proof fn law_playing_ends_at_the_wanted_frame(
    written: u64,
    want: u64,
    size: u32,
    padding: u32,
)
    ensures
        inject_next(written, want, size, padding) matches InjectStep::Write(n) ==> {
            &&& 0 < n
            &&& written + n <= want
            &&& padding + n <= size
        },
        written <= want && inject_next(written, want, size, padding) == InjectStep::Done
            ==> written == want,
{
}

/// While frames are still wanted, waiting happens exactly where the buffer has no room, for two
/// milliseconds; where it has room, as many frames are written as fit and are wanted: no more
/// than either, and no fewer than the smaller. It is done exactly when all are written.
pub proof fn law_room_is_used_at_once(written: u64, want: u64, size: u32, padding: u32)
    ensures
        ({
            let step = inject_next(written, want, size, padding);
            &&& step == InjectStep::Done <==> written >= want
            &&& step is Wait <==> written < want && padding >= size
            &&& step is Wait ==> step == InjectStep::Wait(2)
            &&& written < want && padding < size ==> step is Write && step->Write_0 <= size
                - padding && step->Write_0 <= want - written && (step->Write_0 == size - padding
                || step->Write_0 == want - written)
        }),
{
}

/// How many frames are written after a row of steps, by how much of the buffer was filled at each.
pub open spec fn written_after(want: u64, size: u32, paddings: Seq<u32>) -> u64
    decreases paddings.len(),
{
    if paddings.len() == 0 {
        0
    } else {
        let written = written_after(want, size, paddings.drop_last());
        match inject_next(written, want, size, paddings.last()) {
            InjectStep::Write(n) => (written + n) as u64,
            _ => written,
        }
    }
}

/// Playing makes progress whenever the buffer has room, and ends with the wanted frames: after a
/// row of steps of which each found room, all wanted frames are written, or at least one for each
/// step; and never more than wanted, whatever the steps found.
pub proof fn law_playing_gets_there(want: u64, size: u32, paddings: Seq<u32>)
    ensures
        written_after(want, size, paddings) <= want,
        (forall|i: int| 0 <= i < paddings.len() ==> #[trigger] paddings[i] < size)
            ==> written_after(want, size, paddings) == want || written_after(want, size, paddings)
            >= paddings.len(),
    decreases paddings.len(),
{
    if paddings.len() > 0 {
        let rest = paddings.drop_last();
        law_playing_gets_there(want, size, rest);
        if forall|i: int| 0 <= i < paddings.len() ==> #[trigger] paddings[i] < size {
            assert forall|i: int| 0 <= i < rest.len() implies #[trigger] rest[i] < size by {
                assert(paddings[i] < size);
            }
            assert(paddings[paddings.len() - 1] < size);
        }
    }
}

/// The frame of a sound that is played over and over as the frame number `frame`.
pub fn source_frame(frame: u64, frames: usize) -> (i: usize)
    ensures
        i == if frames == 0 {
            0
        } else {
            frame as int % (frames as int)
        },
{
    if frames == 0 {
        return 0;
    }
    (frame % (frames as u64)) as usize
}

// ---- recording ----

/// What to do next while recording.
#[derive(Clone, Copy, Debug, PartialEq, Eq, Structural)]
pub enum CaptureStep {
    /// The time is over.
    Done,
    /// Wait so many milliseconds for a packet.
    Wait(u32),
    /// Read the next packet.
    Read,
}

/// What to do next, by whether the time is over and how long the next packet is.
pub fn capture_step(over: bool, packet: u32) -> (step: CaptureStep)
    ensures
        step == if over {
            CaptureStep::Done
        } else if packet == 0 {
            CaptureStep::Wait(EMPTY_PAUSE_MS)
        } else {
            CaptureStep::Read
        },
{
    if over {
        return CaptureStep::Done;
    }
    if packet == 0 {
        return CaptureStep::Wait(EMPTY_PAUSE_MS);
    }
    CaptureStep::Read
}

/// Whether a packet counts: it comes after what is skipped, is not marked as silence, and has
/// something in it.
pub open spec fn is_kept(skipped: bool, flags: u32, has_buffer: bool) -> bool {
    skipped && flags & BUFFERFLAGS_SILENT == 0 && has_buffer
}

/// The first `n` samples of a packet.
pub open spec fn packet_samples(b: Seq<u8>, n: int, kind: SampleFmt) -> Seq<Sample> {
    Seq::new(n as nat, |i: int| loaded(b, i, kind))
}

/// Only three things drop a packet: that it comes before the skip is over, that it has no buffer,
/// and that the second bit of its flags, the one for silence, is set. Every other flag, and none
/// at all, leaves it in.
pub proof fn law_only_silence_and_the_skip_drop_a_packet(
    skipped: bool,
    flags: u32,
    has_buffer: bool,
)
    ensures
        is_kept(skipped, flags, has_buffer) <==> skipped && has_buffer && (flags as int / 2) % 2
            == 0,
{
    assert((flags & 2 == 0) == ((flags / 2) % 2 == 0)) by (bit_vector);
}

/// A packet as it comes.
pub struct Packet {
    pub buffer: Option<Seq<u8>>,
    pub got: u32,
    pub flags: u32,
    pub skipped: bool,
}

/// The samples and the frames that are kept of a row of packets.
pub open spec fn recording(packets: Seq<Packet>, channels: u16, kind: SampleFmt) -> (
    Seq<Sample>,
    int,
)
    decreases packets.len(),
{
    if packets.len() == 0 {
        (Seq::empty(), 0)
    } else {
        let (samples, frames) = recording(packets.drop_last(), channels, kind);
        let p = packets.last();
        if is_kept(p.skipped, p.flags, p.buffer is Some) {
            (samples + packet_samples(p.buffer->0, p.got * channels, kind), frames + p.got)
        } else {
            (samples, frames)
        }
    }
}

/// What is recorded has one sample for each channel of each frame, and a row of packets after the
/// skip, none of them silent or without a buffer, is recorded whole: every frame counts.
pub proof fn law_loud_packets_are_recorded_whole(
    packets: Seq<Packet>,
    channels: u16,
    kind: SampleFmt,
)
    ensures
        recording(packets, channels, kind).0.len() == recording(packets, channels, kind).1
            * channels,
        0 <= recording(packets, channels, kind).1,
        (forall|i: int|
            0 <= i < packets.len() ==> (#[trigger] packets[i]).skipped && packets[i].buffer is Some
                && (packets[i].flags as int / 2) % 2 == 0) ==> recording(
            packets,
            channels,
            kind,
        ).1 == frames_of(packets),
    decreases packets.len(),
{
    if packets.len() > 0 {
        let rest = packets.drop_last();
        let p = packets.last();
        law_loud_packets_are_recorded_whole(rest, channels, kind);
        law_only_silence_and_the_skip_drop_a_packet(p.skipped, p.flags, p.buffer is Some);
        let f = recording(rest, channels, kind).1;
        assert((f + p.got) * channels == f * channels + p.got * channels && p.got * channels >= 0)
            by (nonlinear_arith);
        assert(packets[packets.len() - 1] == p);
        assert(forall|i: int| 0 <= i < rest.len() ==> #[trigger] rest[i] == packets[i]);
    }
}

/// How many frames the packets have together.
pub open spec fn frames_of(packets: Seq<Packet>) -> int
    decreases packets.len(),
{
    if packets.len() == 0 {
        0
    } else {
        frames_of(packets.drop_last()) + packets.last().got
    }
}

/// The samples of a packet stand one behind the other: a 16-bit one is the number that its two
/// bytes give, lower byte first and in two's complement, as a part of 32768, and a 32-bit one has
/// the bits that its four bytes give, lowest byte first.
pub proof fn law_packet_samples_are_read_in_order(b: Seq<u8>, n: int, i: int)
    requires
        0 <= i < n,
    ensures
        packet_samples(b, n, SampleFmt::I16).len() == n,
        packet_samples(b, n, SampleFmt::F32).len() == n,
        ({
            let low = b[2 * i] as int;
            let high = b[2 * i + 1] as int;
            packet_samples(b, n, SampleFmt::I16)[i] == Sample::Part {
                value: (if high >= 128 {
                    low + 256 * high - 65536
                } else {
                    low + 256 * high
                }) as i32,
                of: 32768,
            }
        }),
        packet_samples(b, n, SampleFmt::F32)[i] == Sample::Float32(
            (b[4 * i] + 0x100 * b[4 * i + 1] + 0x1_0000 * b[4 * i + 2] + 0x100_0000 * b[4 * i
                + 3]) as u32,
        ),
{
}

/// Takes a packet of `got` frames: adds its samples where it counts, and says how many frames
/// that are. `skipped` is whether what is to be skipped has passed.
pub fn take_packet(
    kept: &mut Vec<Sample>,
    buffer: Option<&[u8]>,
    got: u32,
    flags: u32,
    skipped: bool,
    channels: u16,
    kind: SampleFmt,
) -> (frames: u64)
    requires
        buffer matches Some(b) ==> sample_width(kind) * (got * channels) <= b@.len(),
    ensures
        frames == if is_kept(skipped, flags, buffer is Some) {
            got as u64
        } else {
            0
        },
        final(kept)@ == if is_kept(skipped, flags, buffer is Some) {
            old(kept)@ + packet_samples(buffer->0@, got * channels, kind)
        } else {
            old(kept)@
        },
        frames > 0 <==> got > 0 && skipped && buffer is Some && (flags as int / 2) % 2 == 0,
        final(kept)@.len() == old(kept)@.len() + frames * channels,
{
    proof {
        law_only_silence_and_the_skip_drop_a_packet(skipped, flags, buffer is Some);
        assert(got * channels >= 0) by (nonlinear_arith);
    }
    let b: &[u8] = match buffer {
        Some(b) => b,
        None => return 0,
    };
    if !skipped || flags & BUFFERFLAGS_SILENT != 0 {
        return 0;
    }
    assert(got * channels <= 0xFFFF_FFFF * 0xFFFF) by (nonlinear_arith)
        requires
            got <= 0xFFFF_FFFF,
            channels <= 0xFFFF,
    ;
    assert(0 <= got * channels) by (nonlinear_arith);
    let n: u64 = got as u64 * channels as u64;
    let mut i: u64 = 0;
    assert(kept@ =~= old(kept)@ + packet_samples(b@, 0, kind));
    assert(b.len() == b@.len());
    while i < n
        invariant
            i <= n,
            sample_width(kind) * n <= b@.len(),
            b@.len() <= usize::MAX,
            kept@ == old(kept)@ + packet_samples(b@, i as int, kind),
        decreases n - i,
    {
        kept.push(load_sample(b, i as usize, kind));
        i = i + 1;
        assert(kept@ =~= old(kept)@ + packet_samples(b@, i as int, kind));
    }
    got as u64
}

} // verus!
