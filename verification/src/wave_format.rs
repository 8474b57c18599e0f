//! Wave formats as bytes: the device format, the mix format, and what the driver takes.
use crate::bytes;
use crate::guid;
use crate::guid::GUID;
use crate::ks;
use crate::ks::{KSDATAFORMAT, WAVEFORMATEX};
use vstd::prelude::*;

verus! {

pub const WAVE_FORMAT_PCM: u16 = 0x0001;

pub const WAVE_FORMAT_EXTENSIBLE: u16 = 0xFFFE;

/// A wave format with a sub-format behind it.
#[derive(Clone, Copy, Debug)]
pub struct WaveFormatExtensible {
    pub format_tag: u16,
    pub channels: u16,
    pub samples_per_sec: u32,
    pub avg_bytes_per_sec: u32,
    pub block_align: u16,
    pub bits_per_sample: u16,
    pub cb_size: u16,
    pub valid_bits_per_sample: u16,
    pub channel_mask: u32,
    pub sub_format: GUID,
}

/// A data format with an extensible wave format behind it.
#[derive(Clone, Copy, Debug)]
pub struct KsDataFormatWaveFormatExtensible {
    pub data_format: KSDATAFORMAT,
    pub wave: WaveFormatExtensible,
}

/// The 64 bytes of a data format.
pub open spec fn data_format_bytes(f: KSDATAFORMAT) -> Seq<u8> {
    bytes::le32(f.FormatSize) + bytes::le32(f.Flags) + bytes::le32(f.SampleSize) + bytes::le32(
        f.Reserved,
    ) + guid::guid_bytes(f.MajorFormat) + guid::guid_bytes(f.SubFormat) + guid::guid_bytes(
        f.Specifier,
    )
}

/// The 18 bytes of a wave format's fields.
pub open spec fn wave_bytes(w: WAVEFORMATEX) -> Seq<u8> {
    bytes::le16(w.wFormatTag) + bytes::le16(w.nChannels) + bytes::le32(w.nSamplesPerSec)
        + bytes::le32(w.nAvgBytesPerSec) + bytes::le16(w.nBlockAlign) + bytes::le16(
        w.wBitsPerSample,
    ) + bytes::le16(w.cbSize)
}

/// The 40 bytes of an extensible wave format.
pub open spec fn wave_extensible_bytes(w: WaveFormatExtensible) -> Seq<u8> {
    bytes::le16(w.format_tag) + bytes::le16(w.channels) + bytes::le32(w.samples_per_sec)
        + bytes::le32(w.avg_bytes_per_sec) + bytes::le16(w.block_align) + bytes::le16(
        w.bits_per_sample,
    ) + bytes::le16(w.cb_size) + bytes::le16(w.valid_bits_per_sample) + bytes::le32(w.channel_mask)
        + guid::guid_bytes(w.sub_format)
}

/// The 104 bytes of a data format with an extensible wave format.
pub open spec fn format_bytes(f: KsDataFormatWaveFormatExtensible) -> Seq<u8> {
    data_format_bytes(f.data_format) + wave_extensible_bytes(f.wave)
}

/// The one format of the device: 48 kHz, 16 bits, 2 channels, integer PCM.
pub open spec fn device_format_value() -> KsDataFormatWaveFormatExtensible {
    KsDataFormatWaveFormatExtensible {
        data_format: KSDATAFORMAT {
            FormatSize: 104,
            Flags: 0,
            SampleSize: 0,
            Reserved: 0,
            MajorFormat: guid::KSDATAFORMAT_TYPE_AUDIO(),
            SubFormat: guid::KSDATAFORMAT_SUBTYPE_PCM(),
            Specifier: guid::KSDATAFORMAT_SPECIFIER_WAVEFORMATEX(),
        },
        wave: WaveFormatExtensible {
            format_tag: 0xFFFE,
            channels: 2,
            samples_per_sec: 48_000,
            avg_bytes_per_sec: 192_000,
            block_align: 4,
            bits_per_sample: 16,
            cb_size: 22,
            valid_bits_per_sample: 16,
            channel_mask: 3,
            sub_format: guid::KSDATAFORMAT_SUBTYPE_PCM(),
        },
    }
}

/// The format the audio engine mixes in: 48 kHz, 32-bit floating point, 2 channels.
pub open spec fn mix_format_value() -> KsDataFormatWaveFormatExtensible {
    KsDataFormatWaveFormatExtensible {
        data_format: KSDATAFORMAT {
            FormatSize: 104,
            Flags: 0,
            SampleSize: 0,
            Reserved: 0,
            MajorFormat: guid::KSDATAFORMAT_TYPE_AUDIO(),
            SubFormat: guid::KSDATAFORMAT_SUBTYPE_IEEE_FLOAT(),
            Specifier: guid::KSDATAFORMAT_SPECIFIER_WAVEFORMATEX(),
        },
        wave: WaveFormatExtensible {
            format_tag: 0xFFFE,
            channels: 2,
            samples_per_sec: 48_000,
            avg_bytes_per_sec: 384_000,
            block_align: 8,
            bits_per_sample: 32,
            cb_size: 22,
            valid_bits_per_sample: 32,
            channel_mask: 3,
            sub_format: guid::KSDATAFORMAT_SUBTYPE_IEEE_FLOAT(),
        },
    }
}

/// Appends the bytes of a data format.
pub fn push_data_format(out: &mut Vec<u8>, f: &KSDATAFORMAT)
    ensures
        final(out)@ == old(out)@ + data_format_bytes(*f),
{
    bytes::push_u32(out, f.FormatSize);
    bytes::push_u32(out, f.Flags);
    bytes::push_u32(out, f.SampleSize);
    bytes::push_u32(out, f.Reserved);
    guid::push_guid(out, &f.MajorFormat);
    guid::push_guid(out, &f.SubFormat);
    guid::push_guid(out, &f.Specifier);
    assert(out@ =~= old(out)@ + data_format_bytes(*f));
}

/// Appends the bytes of a wave format's fields.
pub fn push_wave(out: &mut Vec<u8>, w: &WAVEFORMATEX)
    ensures
        final(out)@ == old(out)@ + wave_bytes(*w),
{
    bytes::push_u16(out, w.wFormatTag);
    bytes::push_u16(out, w.nChannels);
    bytes::push_u32(out, w.nSamplesPerSec);
    bytes::push_u32(out, w.nAvgBytesPerSec);
    bytes::push_u16(out, w.nBlockAlign);
    bytes::push_u16(out, w.wBitsPerSample);
    bytes::push_u16(out, w.cbSize);
    assert(out@ =~= old(out)@ + wave_bytes(*w));
}

/// The bytes of a data format with an extensible wave format.
pub fn encode_format(f: &KsDataFormatWaveFormatExtensible) -> (out: Vec<u8>)
    ensures
        out@ == format_bytes(*f),
        out@.len() == ks::KSDATAFORMAT_WAVEFORMATEXTENSIBLE_SIZE,
{
    let mut out: Vec<u8> = Vec::new();
    push_data_format(&mut out, &f.data_format);
    let w: &WaveFormatExtensible = &f.wave;
    bytes::push_u16(&mut out, w.format_tag);
    bytes::push_u16(&mut out, w.channels);
    bytes::push_u32(&mut out, w.samples_per_sec);
    bytes::push_u32(&mut out, w.avg_bytes_per_sec);
    bytes::push_u16(&mut out, w.block_align);
    bytes::push_u16(&mut out, w.bits_per_sample);
    bytes::push_u16(&mut out, w.cb_size);
    bytes::push_u16(&mut out, w.valid_bits_per_sample);
    bytes::push_u32(&mut out, w.channel_mask);
    guid::push_guid(&mut out, &w.sub_format);
    assert(out@ =~= format_bytes(*f));
    out
}

/// The one format of the device.
pub fn device_format() -> (f: KsDataFormatWaveFormatExtensible)
    ensures
        f == device_format_value(),
{
    KsDataFormatWaveFormatExtensible {
        data_format: KSDATAFORMAT {
            FormatSize: 104,
            Flags: 0,
            SampleSize: 0,
            Reserved: 0,
            MajorFormat: guid::KSDATAFORMAT_TYPE_AUDIO(),
            SubFormat: guid::KSDATAFORMAT_SUBTYPE_PCM(),
            Specifier: guid::KSDATAFORMAT_SPECIFIER_WAVEFORMATEX(),
        },
        wave: WaveFormatExtensible {
            format_tag: WAVE_FORMAT_EXTENSIBLE,
            channels: 2,
            samples_per_sec: 48_000,
            avg_bytes_per_sec: 192_000,
            block_align: 4,
            bits_per_sample: 16,
            cb_size: 22,
            valid_bits_per_sample: 16,
            channel_mask: 3,
            sub_format: guid::KSDATAFORMAT_SUBTYPE_PCM(),
        },
    }
}

/// The format the audio engine mixes in.
pub fn mix_format() -> (f: KsDataFormatWaveFormatExtensible)
    ensures
        f == mix_format_value(),
{
    KsDataFormatWaveFormatExtensible {
        data_format: KSDATAFORMAT {
            FormatSize: 104,
            Flags: 0,
            SampleSize: 0,
            Reserved: 0,
            MajorFormat: guid::KSDATAFORMAT_TYPE_AUDIO(),
            SubFormat: guid::KSDATAFORMAT_SUBTYPE_IEEE_FLOAT(),
            Specifier: guid::KSDATAFORMAT_SPECIFIER_WAVEFORMATEX(),
        },
        wave: WaveFormatExtensible {
            format_tag: WAVE_FORMAT_EXTENSIBLE,
            channels: 2,
            samples_per_sec: 48_000,
            avg_bytes_per_sec: 384_000,
            block_align: 8,
            bits_per_sample: 32,
            cb_size: 22,
            valid_bits_per_sample: 32,
            channel_mask: 3,
            sub_format: guid::KSDATAFORMAT_SUBTYPE_IEEE_FLOAT(),
        },
    }
}

/// Whether the identifier `g` stands at `off` of `b`.
pub fn has_guid(b: &[u8], off: usize, g: &GUID) -> (same: bool)
    requires
        off + 16 <= b@.len(),
    ensures
        same == guid::guid_at(b@, off as int, *g),
{
    let found: GUID = guid::read_guid(b, off);
    guid::is_equal_guid(&found, g)
}

/// The wave format whose fields stand at `off`.
pub open spec fn wave_at(s: Seq<u8>, off: int) -> WAVEFORMATEX {
    WAVEFORMATEX {
        wFormatTag: bytes::word_at(s, off),
        nChannels: bytes::word_at(s, off + 2),
        nSamplesPerSec: bytes::dword_at(s, off + 4),
        nAvgBytesPerSec: bytes::dword_at(s, off + 8),
        nBlockAlign: bytes::word_at(s, off + 12),
        wBitsPerSample: bytes::word_at(s, off + 14),
        cbSize: bytes::word_at(s, off + 16),
    }
}

/// The wave format whose fields stand at `off` of `b`.
pub fn read_wave(b: &[u8], off: usize) -> (w: WAVEFORMATEX)
    requires
        off + 18 <= b@.len(),
    ensures
        w == wave_at(b@, off as int),
{
    assert(off + 18 <= b.len());
    WAVEFORMATEX {
        wFormatTag: bytes::read_u16(b, off),
        nChannels: bytes::read_u16(b, off + 2),
        nSamplesPerSec: bytes::read_u32(b, off + 4),
        nAvgBytesPerSec: bytes::read_u32(b, off + 8),
        nBlockAlign: bytes::read_u16(b, off + 12),
        wBitsPerSample: bytes::read_u16(b, off + 14),
        cbSize: bytes::read_u16(b, off + 16),
    }
}

/// A stream format as the driver takes it: integer PCM under the wave specifier, 48 kHz, 16
/// bits, 2 channels, 4 bytes a frame; in the extensible form, with the sub-format PCM as well.
pub open spec fn is_stream_format(s: Seq<u8>) -> bool {
    let size = bytes::dword_at(s, 0);
    let w = wave_at(s, 64);
    &&& guid::guid_at(s, 32, guid::KSDATAFORMAT_SUBTYPE_PCM())
    &&& guid::guid_at(s, 48, guid::KSDATAFORMAT_SPECIFIER_WAVEFORMATEX())
    &&& size >= ks::KSDATAFORMAT_WAVEFORMATEX_SIZE
    &&& w.wFormatTag == WAVE_FORMAT_PCM || w.wFormatTag == WAVE_FORMAT_EXTENSIBLE
    &&& w.nSamplesPerSec == 48_000
    &&& w.wBitsPerSample == 16
    &&& w.nChannels == 2
    &&& w.nBlockAlign == 4
    &&& w.wFormatTag == WAVE_FORMAT_EXTENSIBLE ==> size
        >= ks::KSDATAFORMAT_WAVEFORMATEXTENSIBLE_SIZE && guid::guid_at(
        s,
        88,
        guid::KSDATAFORMAT_SUBTYPE_PCM(),
    )
}

/// Whether the driver takes the stream format in `b`.
pub fn check_stream_format(b: &[u8]) -> (ok: bool)
    requires
        b@.len() >= ks::KSDATAFORMAT_WAVEFORMATEX_SIZE,
        b@.len() >= bytes::dword_at(b@, 0),
    ensures
        ok == is_stream_format(b@),
{
    let size: u32 = bytes::read_u32(b, 0);
    if !has_guid(b, 32, &guid::KSDATAFORMAT_SUBTYPE_PCM()) || !has_guid(
        b,
        48,
        &guid::KSDATAFORMAT_SPECIFIER_WAVEFORMATEX(),
    ) || size < ks::KSDATAFORMAT_WAVEFORMATEX_SIZE as u32 {
        return false;
    }
    let w: WAVEFORMATEX = read_wave(b, 64);
    if (w.wFormatTag != WAVE_FORMAT_PCM && w.wFormatTag != WAVE_FORMAT_EXTENSIBLE)
        || w.nSamplesPerSec != 48_000 || w.wBitsPerSample != 16 || w.nChannels != 2
        || w.nBlockAlign != 4 {
        return false;
    }
    if w.wFormatTag == WAVE_FORMAT_EXTENSIBLE {
        if size < ks::KSDATAFORMAT_WAVEFORMATEXTENSIBLE_SIZE as u32 {
            return false;
        }
        return has_guid(b, 88, &guid::KSDATAFORMAT_SUBTYPE_PCM());
    }
    true
}

/// A proposal that is the device's own format: 2 channels, 48 kHz, 16 bits, integer PCM, either
/// behind a data format (plain or extensible) or, in a buffer too short for one, on its own.
pub open spec fn is_device_proposal(s: Seq<u8>, size: int) -> bool {
    if size >= ks::KSDATAFORMAT_WAVEFORMATEX_SIZE {
        let w = wave_at(s, 64);
        &&& guid::guid_at(s, 16, guid::KSDATAFORMAT_TYPE_AUDIO())
        &&& guid::guid_at(s, 32, guid::KSDATAFORMAT_SUBTYPE_PCM())
        &&& w.nChannels == 2
        &&& w.nSamplesPerSec == 48_000
        &&& w.wBitsPerSample == 16
        &&& w.wFormatTag == WAVE_FORMAT_PCM || (w.wFormatTag == WAVE_FORMAT_EXTENSIBLE && size
            >= ks::KSDATAFORMAT_WAVEFORMATEXTENSIBLE_SIZE && guid::guid_at(
            s,
            88,
            guid::KSDATAFORMAT_SUBTYPE_PCM(),
        ))
    } else {
        let w = wave_at(s, 0);
        &&& size >= ks::WAVEFORMATEX_SIZE
        &&& w.wFormatTag == WAVE_FORMAT_PCM
        &&& w.nChannels == 2
        &&& w.nSamplesPerSec == 48_000
        &&& w.wBitsPerSample == 16
    }
}

/// Whether the first `size` bytes of `value` propose the device's own format.
pub fn proposed_format_matches_device(value: &[u8], size: u32) -> (same: bool)
    requires
        size <= value@.len(),
    ensures
        same == is_device_proposal(value@, size as int),
{
    if size as usize >= ks::KSDATAFORMAT_WAVEFORMATEX_SIZE {
        if !has_guid(value, 16, &guid::KSDATAFORMAT_TYPE_AUDIO()) || !has_guid(
            value,
            32,
            &guid::KSDATAFORMAT_SUBTYPE_PCM(),
        ) {
            return false;
        }
        let w: WAVEFORMATEX = read_wave(value, 64);
        if w.nChannels != 2 || w.nSamplesPerSec != 48_000 || w.wBitsPerSample != 16 {
            return false;
        }
        if w.wFormatTag == WAVE_FORMAT_PCM {
            return true;
        }
        if w.wFormatTag != WAVE_FORMAT_EXTENSIBLE {
            return false;
        }
        if (size as usize) < ks::KSDATAFORMAT_WAVEFORMATEXTENSIBLE_SIZE {
            return false;
        }
        return has_guid(value, 88, &guid::KSDATAFORMAT_SUBTYPE_PCM());
    }
    if (size as usize) < ks::WAVEFORMATEX_SIZE {
        return false;
    }
    let w: WAVEFORMATEX = read_wave(value, 0);
    w.wFormatTag == WAVE_FORMAT_PCM && w.nChannels == 2 && w.nSamplesPerSec == 48_000
        && w.wBitsPerSample == 16
}

/// The number at `off` of a sequence is that of the part which stands there.
proof fn lemma_word_in(s: Seq<u8>, off: int, x: u16)
    requires
        0 <= off,
        off + 2 <= s.len(),
        s.subrange(off, off + 2) == bytes::le16(x),
    ensures
        bytes::word_at(s, off) == x,
{
    bytes::lemma_le16_read_back(x);
    bytes::lemma_word_of_part(s, off, bytes::le16(x));
}

proof fn lemma_dword_in(s: Seq<u8>, off: int, x: u32)
    requires
        0 <= off,
        off + 4 <= s.len(),
        s.subrange(off, off + 4) == bytes::le32(x),
    ensures
        bytes::dword_at(s, off) == x,
{
    bytes::lemma_le32_read_back(x);
    bytes::lemma_dword_of_part(s, off, bytes::le32(x));
}

/// The fields of an encoded format stand where a reader looks for them.
pub proof fn law_format_fields_read_back(f: KsDataFormatWaveFormatExtensible)
    ensures
        ({
            let s = format_bytes(f);
            let w = wave_at(s, 64);
            &&& s.len() == ks::KSDATAFORMAT_WAVEFORMATEXTENSIBLE_SIZE
            &&& bytes::dword_at(s, 0) == f.data_format.FormatSize
            &&& guid::guid_at(s, 16, f.data_format.MajorFormat)
            &&& guid::guid_at(s, 32, f.data_format.SubFormat)
            &&& guid::guid_at(s, 48, f.data_format.Specifier)
            &&& w.wFormatTag == f.wave.format_tag
            &&& w.nChannels == f.wave.channels
            &&& w.nSamplesPerSec == f.wave.samples_per_sec
            &&& w.nAvgBytesPerSec == f.wave.avg_bytes_per_sec
            &&& w.nBlockAlign == f.wave.block_align
            &&& w.wBitsPerSample == f.wave.bits_per_sample
            &&& w.cbSize == f.wave.cb_size
            &&& bytes::word_at(s, 82) == f.wave.valid_bits_per_sample
            &&& bytes::dword_at(s, 84) == f.wave.channel_mask
            &&& guid::guid_at(s, 88, f.wave.sub_format)
        }),
{
    let s = format_bytes(f);
    let d = f.data_format;
    let w = f.wave;
    assert(s.subrange(0, 4) =~= bytes::le32(d.FormatSize));
    lemma_dword_in(s, 0, d.FormatSize);
    assert(s.subrange(16, 32) =~= guid::guid_bytes(d.MajorFormat));
    guid::law_guid_bytes_read_back(s, 16, d.MajorFormat);
    assert(s.subrange(32, 48) =~= guid::guid_bytes(d.SubFormat));
    guid::law_guid_bytes_read_back(s, 32, d.SubFormat);
    assert(s.subrange(48, 64) =~= guid::guid_bytes(d.Specifier));
    guid::law_guid_bytes_read_back(s, 48, d.Specifier);
    assert(s.subrange(64, 66) =~= bytes::le16(w.format_tag));
    lemma_word_in(s, 64, w.format_tag);
    assert(s.subrange(66, 68) =~= bytes::le16(w.channels));
    lemma_word_in(s, 66, w.channels);
    assert(s.subrange(68, 72) =~= bytes::le32(w.samples_per_sec));
    lemma_dword_in(s, 68, w.samples_per_sec);
    assert(s.subrange(72, 76) =~= bytes::le32(w.avg_bytes_per_sec));
    lemma_dword_in(s, 72, w.avg_bytes_per_sec);
    assert(s.subrange(76, 78) =~= bytes::le16(w.block_align));
    lemma_word_in(s, 76, w.block_align);
    assert(s.subrange(78, 80) =~= bytes::le16(w.bits_per_sample));
    lemma_word_in(s, 78, w.bits_per_sample);
    assert(s.subrange(80, 82) =~= bytes::le16(w.cb_size));
    lemma_word_in(s, 80, w.cb_size);
    assert(s.subrange(82, 84) =~= bytes::le16(w.valid_bits_per_sample));
    lemma_word_in(s, 82, w.valid_bits_per_sample);
    assert(s.subrange(84, 88) =~= bytes::le32(w.channel_mask));
    lemma_dword_in(s, 84, w.channel_mask);
    assert(s.subrange(88, 104) =~= guid::guid_bytes(w.sub_format));
    guid::law_guid_bytes_read_back(s, 88, w.sub_format);
}

/// The fields of a plain format at the start of a buffer stand where a reader looks for them.
pub proof fn lemma_plain_format_reads_back(s: Seq<u8>, d: KSDATAFORMAT, w: WAVEFORMATEX)
    requires
        s.len() >= 82,
        s.subrange(0, 82) == data_format_bytes(d) + wave_bytes(w),
    ensures
        bytes::dword_at(s, 0) == d.FormatSize,
        guid::guid_at(s, 16, d.MajorFormat),
        guid::guid_at(s, 32, d.SubFormat),
        guid::guid_at(s, 48, d.Specifier),
        wave_at(s, 64) == w,
{
    let b = data_format_bytes(d) + wave_bytes(w);
    assert forall|i: int| 0 <= i < 82 implies s[i] == b[i] by {
        assert(s.subrange(0, 82)[i] == s[i]);
    }
    assert(s.subrange(0, 4) =~= bytes::le32(d.FormatSize));
    lemma_dword_in(s, 0, d.FormatSize);
    assert(s.subrange(16, 32) =~= guid::guid_bytes(d.MajorFormat));
    guid::law_guid_bytes_read_back(s, 16, d.MajorFormat);
    assert(s.subrange(32, 48) =~= guid::guid_bytes(d.SubFormat));
    guid::law_guid_bytes_read_back(s, 32, d.SubFormat);
    assert(s.subrange(48, 64) =~= guid::guid_bytes(d.Specifier));
    guid::law_guid_bytes_read_back(s, 48, d.Specifier);
    assert(s.subrange(64, 66) =~= bytes::le16(w.wFormatTag));
    lemma_word_in(s, 64, w.wFormatTag);
    assert(s.subrange(66, 68) =~= bytes::le16(w.nChannels));
    lemma_word_in(s, 66, w.nChannels);
    assert(s.subrange(68, 72) =~= bytes::le32(w.nSamplesPerSec));
    lemma_dword_in(s, 68, w.nSamplesPerSec);
    assert(s.subrange(72, 76) =~= bytes::le32(w.nAvgBytesPerSec));
    lemma_dword_in(s, 72, w.nAvgBytesPerSec);
    assert(s.subrange(76, 78) =~= bytes::le16(w.nBlockAlign));
    lemma_word_in(s, 76, w.nBlockAlign);
    assert(s.subrange(78, 80) =~= bytes::le16(w.wBitsPerSample));
    lemma_word_in(s, 78, w.wBitsPerSample);
    assert(s.subrange(80, 82) =~= bytes::le16(w.cbSize));
    lemma_word_in(s, 80, w.cbSize);
}

/// A plain format has 82 bytes.
proof fn lemma_plain_format_len(d: KSDATAFORMAT, w: WAVEFORMATEX)
    ensures
        (data_format_bytes(d) + wave_bytes(w)).len() == 82,
{
}

/// The fields of a plain format that was written at the start of a buffer.
pub proof fn lemma_plain_format_written(out: Seq<u8>, d: KSDATAFORMAT, w: WAVEFORMATEX)
    requires
        out.len() >= 82,
    ensures
        ({
            let s = bytes::patched(out, 0, data_format_bytes(d) + wave_bytes(w));
            &&& bytes::dword_at(s, 0) == d.FormatSize
            &&& guid::guid_at(s, 32, d.SubFormat)
            &&& guid::guid_at(s, 48, d.Specifier)
            &&& wave_at(s, 64) == w
        }),
{
    let b = data_format_bytes(d) + wave_bytes(w);
    lemma_plain_format_len(d, w);
    bytes::lemma_patched(out, 0, b);
    lemma_plain_format_reads_back(bytes::patched(out, 0, b), d, w);
}

/// The device format is one that streams take and that proposals match; the mix format, which
/// the engine converts, is neither.
pub proof fn law_device_format_is_taken()
    ensures
        is_stream_format(format_bytes(device_format_value())),
        is_device_proposal(format_bytes(device_format_value()), 104),
        !is_stream_format(format_bytes(mix_format_value())),
        !is_device_proposal(format_bytes(mix_format_value()), 104),
{
    law_format_fields_read_back(device_format_value());
    law_format_fields_read_back(mix_format_value());
}

/// Of all extensible formats, the driver streams exactly those of 48000 frames a second, each of
/// two 16-bit integers in four bytes, that are marked as such in both places and state their whole
/// size; the rate of bytes, the mask and what else they state does not matter. A proposal of one
/// is taken exactly where its fields are the device's, whatever bytes a frame has.
pub proof fn law_only_the_device_format_is_streamed(f: KsDataFormatWaveFormatExtensible)
    requires
        f.wave.format_tag == 0xFFFE,
    ensures
        is_stream_format(format_bytes(f)) <==> {
            &&& f.data_format.SubFormat == guid::KSDATAFORMAT_SUBTYPE_PCM()
            &&& f.data_format.Specifier == guid::KSDATAFORMAT_SPECIFIER_WAVEFORMATEX()
            &&& f.data_format.FormatSize >= 104
            &&& f.wave.samples_per_sec == 48_000
            &&& f.wave.bits_per_sample == 16
            &&& f.wave.channels == 2
            &&& f.wave.block_align == 4
            &&& f.wave.sub_format == guid::KSDATAFORMAT_SUBTYPE_PCM()
        },
        is_device_proposal(format_bytes(f), 104) <==> {
            &&& f.data_format.MajorFormat == guid::KSDATAFORMAT_TYPE_AUDIO()
            &&& f.data_format.SubFormat == guid::KSDATAFORMAT_SUBTYPE_PCM()
            &&& f.wave.samples_per_sec == 48_000
            &&& f.wave.bits_per_sample == 16
            &&& f.wave.channels == 2
            &&& f.wave.sub_format == guid::KSDATAFORMAT_SUBTYPE_PCM()
        },
{
    law_format_fields_read_back(f);
}

/// Of all plain formats behind a data format, the driver streams exactly those with the tag 1 of
/// 48000 frames a second, each of two 16-bit integers in four bytes, and takes a proposal exactly
/// where these but the frame size are the device's. The tag of an extensible format asks for the
/// rest of one.
pub proof fn law_only_the_plain_device_format_is_streamed(
    s: Seq<u8>,
    d: KSDATAFORMAT,
    w: WAVEFORMATEX,
)
    requires
        s.len() >= 84,
        s.subrange(0, 82) == data_format_bytes(d) + wave_bytes(w),
    ensures
        w.wFormatTag != 0xFFFE ==> (is_stream_format(s) <==> {
            &&& d.SubFormat == guid::KSDATAFORMAT_SUBTYPE_PCM()
            &&& d.Specifier == guid::KSDATAFORMAT_SPECIFIER_WAVEFORMATEX()
            &&& d.FormatSize >= 84
            &&& w.wFormatTag == 1
            &&& w.nSamplesPerSec == 48_000
            &&& w.wBitsPerSample == 16
            &&& w.nChannels == 2
            &&& w.nBlockAlign == 4
        }),
        w.wFormatTag != 0xFFFE ==> (is_device_proposal(s, s.len() as int) <==> {
            &&& d.MajorFormat == guid::KSDATAFORMAT_TYPE_AUDIO()
            &&& d.SubFormat == guid::KSDATAFORMAT_SUBTYPE_PCM()
            &&& w.wFormatTag == 1
            &&& w.nSamplesPerSec == 48_000
            &&& w.wBitsPerSample == 16
            &&& w.nChannels == 2
        }),
        w.wFormatTag == 0xFFFE && d.FormatSize < 104 ==> !is_stream_format(s),
        w.wFormatTag == 0xFFFE && s.len() < 104 ==> !is_device_proposal(s, s.len() as int),
{
    lemma_plain_format_reads_back(s, d, w);
}

/// A wave format on its own is taken as a proposal exactly if it has twenty bytes or more, but too
/// few for a data format, and is the device's in tag, channels, rate and width.
pub proof fn law_bare_proposal(s: Seq<u8>, w: WAVEFORMATEX)
    requires
        18 <= s.len() < 84,
        s.subrange(0, 18) == wave_bytes(w),
    ensures
        is_device_proposal(s, s.len() as int) <==> s.len() >= 20 && w.wFormatTag == 1 && w.nChannels
            == 2 && w.nSamplesPerSec == 48_000 && w.wBitsPerSample == 16,
{
    let b = wave_bytes(w);
    assert forall|i: int| 0 <= i < 18 implies s[i] == b[i] by {
        assert(s.subrange(0, 18)[i] == s[i]);
    }
    assert(s.subrange(0, 2) =~= bytes::le16(w.wFormatTag));
    lemma_word_in(s, 0, w.wFormatTag);
    assert(s.subrange(2, 4) =~= bytes::le16(w.nChannels));
    lemma_word_in(s, 2, w.nChannels);
    assert(s.subrange(4, 8) =~= bytes::le32(w.nSamplesPerSec));
    lemma_dword_in(s, 4, w.nSamplesPerSec);
    assert(s.subrange(14, 16) =~= bytes::le16(w.wBitsPerSample));
    lemma_word_in(s, 14, w.wBitsPerSample);
}

/// The formats of the device and of the engine fit together: the same channels and the same rate,
/// frames of one sample for each channel, and as many bytes a second as frames and their bytes
/// make.
pub proof fn law_formats_add_up()
    ensures
        ({
            let d = device_format_value().wave;
            let m = mix_format_value().wave;
            &&& d.channels == m.channels && d.samples_per_sec == m.samples_per_sec
            &&& d.block_align == d.channels * (d.bits_per_sample / 8)
            &&& m.block_align == m.channels * (m.bits_per_sample / 8)
            &&& d.avg_bytes_per_sec == d.samples_per_sec * d.block_align
            &&& m.avg_bytes_per_sec == m.samples_per_sec * m.block_align
            &&& d.bits_per_sample == 16 && d.valid_bits_per_sample == 16
            &&& m.bits_per_sample == 32 && m.valid_bits_per_sample == 32
            &&& d.samples_per_sec == 48_000 && d.channels == 2
            &&& device_format_value().data_format.FormatSize == format_bytes(
                device_format_value(),
            ).len()
            &&& mix_format_value().data_format.FormatSize == format_bytes(mix_format_value()).len()
        }),
{
    law_format_fields_read_back(device_format_value());
    law_format_fields_read_back(mix_format_value());
}

} // verus!
