//! Globally unique identifiers and the ones the audio driver speaks of.
use crate::bytes;
use vstd::prelude::*;

verus! {

/// A globally unique identifier.
#[derive(Clone, Copy, Debug)]
pub struct GUID {
    pub data1: u32,
    pub data2: u16,
    pub data3: u16,
    pub data4: [u8; 8],
}

/// The 16 bytes of an identifier: its numbers least significant byte first, then its last part.
pub open spec fn guid_bytes(g: GUID) -> Seq<u8> {
    bytes::le32(g.data1) + bytes::le16(g.data2) + bytes::le16(g.data3) + g.data4@
}

/// The identifier whose bytes stand at `off`.
pub open spec fn guid_of(s: Seq<u8>, off: int) -> GUID {
    GUID {
        data1: bytes::dword_at(s, off),
        data2: bytes::word_at(s, off + 4),
        data3: bytes::word_at(s, off + 6),
        data4: [
            s[off + 8],
            s[off + 9],
            s[off + 10],
            s[off + 11],
            s[off + 12],
            s[off + 13],
            s[off + 14],
            s[off + 15],
        ],
    }
}

/// Whether the identifier at `off` is `g`.
pub open spec fn guid_at(s: Seq<u8>, off: int, g: GUID) -> bool {
    guid_of(s, off) == g
}

/// Whether two identifiers are the same.
pub fn is_equal_guid(a: &GUID, b: &GUID) -> (same: bool)
    ensures
        same == (*a == *b),
{
    let mut same: bool = a.data1 == b.data1 && a.data2 == b.data2 && a.data3 == b.data3;
    let mut i: usize = 0;
    while i < 8
        invariant
            i <= 8,
            same == (a.data1 == b.data1 && a.data2 == b.data2 && a.data3 == b.data3 && forall|k: int|
                0 <= k < i ==> a.data4@[k] == b.data4@[k]),
        decreases 8 - i,
    {
        if a.data4[i] != b.data4[i] {
            same = false;
        }
        i = i + 1;
    }
    proof {
        if same {
            assert(a.data4 =~= b.data4);
        }
    }
    same
}

impl PartialEq for GUID {
    fn eq(&self, other: &Self) -> (same: bool) {
        is_equal_guid(self, other)
    }
}

impl vstd::std_specs::cmp::PartialEqSpecImpl for GUID {
    open spec fn obeys_eq_spec() -> bool {
        true
    }

    open spec fn eq_spec(&self, other: &Self) -> bool {
        *self == *other
    }
}

impl Eq for GUID {

}

/// Appends the 16 bytes of `g`.
pub fn push_guid(out: &mut Vec<u8>, g: &GUID)
    ensures
        final(out)@ == old(out)@ + guid_bytes(*g),
{
    bytes::push_u32(out, g.data1);
    bytes::push_u16(out, g.data2);
    bytes::push_u16(out, g.data3);
    bytes::push_bytes(out, g.data4.as_slice());
    assert(out@ =~= old(out)@ + guid_bytes(*g));
}

/// The identifier whose bytes stand at `off` of `b`.
pub fn read_guid(b: &[u8], off: usize) -> (g: GUID)
    requires
        off + 16 <= b@.len(),
    ensures
        g == guid_of(b@, off as int),
{
    assert(off + 16 <= b.len());
    let data4: [u8; 8] = [
        b[off + 8],
        b[off + 9],
        b[off + 10],
        b[off + 11],
        b[off + 12],
        b[off + 13],
        b[off + 14],
        b[off + 15],
    ];
    GUID { data1: bytes::read_u32(b, off), data2: bytes::read_u16(b, off + 4), data3: bytes::read_u16(b, off + 6), data4 }
}

/// The bytes of an identifier read back as that identifier.
pub proof fn law_guid_bytes_read_back(s: Seq<u8>, off: int, g: GUID)
    requires
        0 <= off,
        off + 16 <= s.len(),
        s.subrange(off, off + 16) == guid_bytes(g),
    ensures
        guid_at(s, off, g),
{
    let b = guid_bytes(g);
    bytes::lemma_le32_read_back(g.data1);
    bytes::lemma_le16_read_back(g.data2);
    bytes::lemma_le16_read_back(g.data3);
    assert forall|i: int| 0 <= i < 16 implies s[off + i] == b[i] by {
        assert(s.subrange(off, off + 16)[i] == s[off + i]);
    }
    assert(s[off + 4] == b[4] && s[off + 5] == b[5] && s[off + 6] == b[6] && s[off + 7] == b[7]);
    assert(b[4] == bytes::le16(g.data2)[0] && b[5] == bytes::le16(g.data2)[1]);
    assert(b[6] == bytes::le16(g.data3)[0] && b[7] == bytes::le16(g.data3)[1]);
    bytes::lemma_dword_of_part(s, off, bytes::le32(g.data1));
    bytes::lemma_word_of_part(s, off + 4, bytes::le16(g.data2));
    bytes::lemma_word_of_part(s, off + 6, bytes::le16(g.data3));
    let found = guid_of(s, off);
    assert forall|i: int| 0 <= i < 8 implies found.data4@[i] == g.data4@[i] by {
        assert(s[off + (8 + i)] == b[8 + i]);
    }
    assert(found.data4 =~= g.data4);
}

/// Class of the WaveRT port.
#[verifier::allow_in_spec]
pub fn CLSID_PortWaveRT() -> GUID
    returns
        (GUID {
                data1: 0xcc9b_e57a,
                data2: 0xeb9e,
                data3: 0x42b4,
                data4: [0x94, 0xfc, 0x0c, 0xad, 0x3d, 0xbc, 0xe7, 0xfa],
            }),
{
    GUID {
        data1: 0xcc9b_e57a,
        data2: 0xeb9e,
        data3: 0x42b4,
        data4: [0x94, 0xfc, 0x0c, 0xad, 0x3d, 0xbc, 0xe7, 0xfa],
    }
}

/// Class of the topology port.
#[verifier::allow_in_spec]
pub fn CLSID_PortTopology() -> GUID
    returns
        (GUID {
                data1: 0xb4c9_0a32,
                data2: 0x5791,
                data3: 0x11d0,
                data4: [0x86, 0xf9, 0x00, 0xa0, 0xc9, 0x11, 0xb5, 0x44],
            }),
{
    GUID {
        data1: 0xb4c9_0a32,
        data2: 0x5791,
        data3: 0x11d0,
        data4: [0x86, 0xf9, 0x00, 0xa0, 0xc9, 0x11, 0xb5, 0x44],
    }
}

/// The `IPort` interface.
#[verifier::allow_in_spec]
pub fn IID_IPort() -> GUID
    returns
        (GUID {
                data1: 0xb4c9_0a25,
                data2: 0x5791,
                data3: 0x11d0,
                data4: [0x86, 0xf9, 0x00, 0xa0, 0xc9, 0x11, 0xb5, 0x44],
            }),
{
    GUID {
        data1: 0xb4c9_0a25,
        data2: 0x5791,
        data3: 0x11d0,
        data4: [0x86, 0xf9, 0x00, 0xa0, 0xc9, 0x11, 0xb5, 0x44],
    }
}

/// The `IMiniport` interface.
#[verifier::allow_in_spec]
pub fn IID_IMiniport() -> GUID
    returns
        (GUID {
                data1: 0xb4c9_0a24,
                data2: 0x5791,
                data3: 0x11d0,
                data4: [0x86, 0xf9, 0x00, 0xa0, 0xc9, 0x11, 0xb5, 0x44],
            }),
{
    GUID {
        data1: 0xb4c9_0a24,
        data2: 0x5791,
        data3: 0x11d0,
        data4: [0x86, 0xf9, 0x00, 0xa0, 0xc9, 0x11, 0xb5, 0x44],
    }
}

/// The `IMiniportWaveRT` interface.
#[verifier::allow_in_spec]
pub fn IID_IMiniportWaveRT() -> GUID
    returns
        (GUID {
                data1: 0x0f9f_c4d6,
                data2: 0x6061,
                data3: 0x4f3c,
                data4: [0xb1, 0xfc, 0x07, 0x5e, 0x35, 0xf7, 0x96, 0x0a],
            }),
{
    GUID {
        data1: 0x0f9f_c4d6,
        data2: 0x6061,
        data3: 0x4f3c,
        data4: [0xb1, 0xfc, 0x07, 0x5e, 0x35, 0xf7, 0x96, 0x0a],
    }
}

/// The `IMiniportWaveRTStream` interface.
#[verifier::allow_in_spec]
pub fn IID_IMiniportWaveRTStream() -> GUID
    returns
        (GUID {
                data1: 0x000a_c9ab,
                data2: 0xfaab,
                data3: 0x4f3d,
                data4: [0x94, 0x55, 0x6f, 0xf8, 0x30, 0x6a, 0x74, 0xa0],
            }),
{
    GUID {
        data1: 0x000a_c9ab,
        data2: 0xfaab,
        data3: 0x4f3d,
        data4: [0x94, 0x55, 0x6f, 0xf8, 0x30, 0x6a, 0x74, 0xa0],
    }
}

/// The `IAdapterCommon` interface.
#[verifier::allow_in_spec]
pub fn IID_IAdapterCommon() -> GUID
    returns
        (GUID {
                data1: 0x7eda_2950,
                data2: 0xbf9f,
                data3: 0x11d0,
                data4: [0x87, 0x1f, 0x00, 0xa0, 0xc9, 0x11, 0xb5, 0x44],
            }),
{
    GUID {
        data1: 0x7eda_2950,
        data2: 0xbf9f,
        data3: 0x11d0,
        data4: [0x87, 0x1f, 0x00, 0xa0, 0xc9, 0x11, 0xb5, 0x44],
    }
}

/// Filter category: audio.
#[verifier::allow_in_spec]
pub fn KSCATEGORY_AUDIO() -> GUID
    returns
        (GUID {
                data1: 0x6994_ad04,
                data2: 0x93ef,
                data3: 0x11d0,
                data4: [0xa3, 0xcc, 0x00, 0xa0, 0xc9, 0x22, 0x31, 0x96],
            }),
{
    GUID {
        data1: 0x6994_ad04,
        data2: 0x93ef,
        data3: 0x11d0,
        data4: [0xa3, 0xcc, 0x00, 0xa0, 0xc9, 0x22, 0x31, 0x96],
    }
}

/// Filter category: playback. Endpoints are only listed for filters that carry it.
#[verifier::allow_in_spec]
pub fn KSCATEGORY_RENDER() -> GUID
    returns
        (GUID {
                data1: 0x65e8_773e,
                data2: 0x8f56,
                data3: 0x11d0,
                data4: [0xa3, 0xb9, 0x00, 0xa0, 0xc9, 0x22, 0x31, 0x96],
            }),
{
    GUID {
        data1: 0x65e8_773e,
        data2: 0x8f56,
        data3: 0x11d0,
        data4: [0xa3, 0xb9, 0x00, 0xa0, 0xc9, 0x22, 0x31, 0x96],
    }
}

/// Filter category: recording.
#[verifier::allow_in_spec]
pub fn KSCATEGORY_CAPTURE() -> GUID
    returns
        (GUID {
                data1: 0x65e8_773d,
                data2: 0x8f56,
                data3: 0x11d0,
                data4: [0xa3, 0xb9, 0x00, 0xa0, 0xc9, 0x22, 0x31, 0x96],
            }),
{
    GUID {
        data1: 0x65e8_773d,
        data2: 0x8f56,
        data3: 0x11d0,
        data4: [0xa3, 0xb9, 0x00, 0xa0, 0xc9, 0x22, 0x31, 0x96],
    }
}

/// Filter category: low-latency streaming.
#[verifier::allow_in_spec]
pub fn KSCATEGORY_REALTIME() -> GUID
    returns
        (GUID {
                data1: 0xeb11_5ffc,
                data2: 0x10c8,
                data3: 0x4964,
                data4: [0x83, 0x1d, 0x6d, 0xcb, 0x02, 0xe6, 0xf2, 0x3f],
            }),
{
    GUID {
        data1: 0xeb11_5ffc,
        data2: 0x10c8,
        data3: 0x4964,
        data4: [0x83, 0x1d, 0x6d, 0xcb, 0x02, 0xe6, 0xf2, 0x3f],
    }
}

/// Filter category: topology.
#[verifier::allow_in_spec]
pub fn KSCATEGORY_TOPOLOGY() -> GUID
    returns
        (GUID {
                data1: 0xdda5_4a40,
                data2: 0x1e4c,
                data3: 0x11d1,
                data4: [0xa0, 0x50, 0x40, 0x57, 0x05, 0xc1, 0x00, 0x00],
            }),
{
    GUID {
        data1: 0xdda5_4a40,
        data2: 0x1e4c,
        data3: 0x11d1,
        data4: [0xa0, 0x50, 0x40, 0x57, 0x05, 0xc1, 0x00, 0x00],
    }
}

/// The interface that unregisters a subdevice.
#[verifier::allow_in_spec]
pub fn IID_IUnregisterSubdevice() -> GUID
    returns
        (GUID {
                data1: 0x1673_8177,
                data2: 0xe199,
                data3: 0x41f9,
                data4: [0x9a, 0x87, 0xab, 0xb2, 0xa5, 0x43, 0x2f, 0x21],
            }),
{
    GUID {
        data1: 0x1673_8177,
        data2: 0xe199,
        data3: 0x41f9,
        data4: [0x9a, 0x87, 0xab, 0xb2, 0xa5, 0x43, 0x2f, 0x21],
    }
}

/// The interface that unregisters a connection between filters.
#[verifier::allow_in_spec]
pub fn IID_IUnregisterPhysicalConnection() -> GUID
    returns
        (GUID {
                data1: 0x6c38_e231,
                data2: 0x2a0d,
                data3: 0x428d,
                data4: [0x81, 0xf8, 0x07, 0xcc, 0x42, 0x8b, 0xb9, 0xa4],
            }),
{
    GUID {
        data1: 0x6c38_e231,
        data2: 0x2a0d,
        data3: 0x428d,
        data4: [0x81, 0xf8, 0x07, 0xcc, 0x42, 0x8b, 0xb9, 0xa4],
    }
}

/// The `IUnknown` interface.
#[verifier::allow_in_spec]
pub fn IID_IUnknown() -> GUID
    returns
        (GUID {
                data1: 0x0000_0000,
                data2: 0x0000,
                data3: 0x0000,
                data4: [0xc0, 0x00, 0x00, 0x00, 0x00, 0x00, 0x00, 0x46],
            }),
{
    GUID {
        data1: 0x0000_0000,
        data2: 0x0000,
        data3: 0x0000,
        data4: [0xc0, 0x00, 0x00, 0x00, 0x00, 0x00, 0x00, 0x46],
    }
}

/// The `IPinCount` interface.
#[verifier::allow_in_spec]
pub fn IID_IPINCOUNT() -> GUID
    returns
        (GUID {
                data1: 0x5dad_b7dc,
                data2: 0xa2cb,
                data3: 0x4540,
                data4: [0xa4, 0xa8, 0x42, 0x5e, 0xe4, 0xae, 0x90, 0x51],
            }),
{
    GUID {
        data1: 0x5dad_b7dc,
        data2: 0xa2cb,
        data3: 0x4540,
        data4: [0xa4, 0xa8, 0x42, 0x5e, 0xe4, 0xae, 0x90, 0x51],
    }
}

/// The `IMiniportAudioSignalProcessing` interface.
#[verifier::allow_in_spec]
pub fn IID_IMINIPORT_AUDIO_SIGNAL_PROCESSING() -> GUID
    returns
        (GUID {
                data1: 0xb532_678c,
                data2: 0xbe50,
                data3: 0x472d,
                data4: [0x99, 0x73, 0x8a, 0x6f, 0x16, 0x59, 0x49, 0x89],
            }),
{
    GUID {
        data1: 0xb532_678c,
        data2: 0xbe50,
        data3: 0x472d,
        data4: [0x99, 0x73, 0x8a, 0x6f, 0x16, 0x59, 0x49, 0x89],
    }
}

/// Signal processing mode: default.
#[verifier::allow_in_spec]
pub fn AUDIO_SIGNALPROCESSINGMODE_DEFAULT() -> GUID
    returns
        (GUID {
                data1: 0xc18e_2f7e,
                data2: 0x933d,
                data3: 0x4965,
                data4: [0xb7, 0xd1, 0x1e, 0xef, 0x22, 0x8d, 0x2a, 0xf3],
            }),
{
    GUID {
        data1: 0xc18e_2f7e,
        data2: 0x933d,
        data3: 0x4965,
        data4: [0xb7, 0xd1, 0x1e, 0xef, 0x22, 0x8d, 0x2a, 0xf3],
    }
}

/// The `IMiniportAudioEngineNode` interface.
#[verifier::allow_in_spec]
pub fn IID_IMINIPORT_AUDIO_ENGINE_NODE() -> GUID
    returns
        (GUID {
                data1: 0x2ebf_536c,
                data2: 0xef57,
                data3: 0x4c64,
                data4: [0xbe, 0xdc, 0x25, 0xc1, 0xa6, 0xd6, 0x68, 0xe6],
            }),
{
    GUID {
        data1: 0x2ebf_536c,
        data2: 0xef57,
        data3: 0x4c64,
        data4: [0xbe, 0xdc, 0x25, 0xc1, 0xa6, 0xd6, 0x68, 0xe6],
    }
}

/// Major format: audio.
#[verifier::allow_in_spec]
pub fn KSDATAFORMAT_TYPE_AUDIO() -> GUID
    returns
        (GUID {
                data1: 0x7364_7561,
                data2: 0x0000,
                data3: 0x0010,
                data4: [0x80, 0x00, 0x00, 0xaa, 0x00, 0x38, 0x9b, 0x71],
            }),
{
    GUID {
        data1: 0x7364_7561,
        data2: 0x0000,
        data3: 0x0010,
        data4: [0x80, 0x00, 0x00, 0xaa, 0x00, 0x38, 0x9b, 0x71],
    }
}

/// Sub-format: integer PCM.
#[verifier::allow_in_spec]
pub fn KSDATAFORMAT_SUBTYPE_PCM() -> GUID
    returns
        (GUID {
                data1: 0x0000_0001,
                data2: 0x0000,
                data3: 0x0010,
                data4: [0x80, 0x00, 0x00, 0xaa, 0x00, 0x38, 0x9b, 0x71],
            }),
{
    GUID {
        data1: 0x0000_0001,
        data2: 0x0000,
        data3: 0x0010,
        data4: [0x80, 0x00, 0x00, 0xaa, 0x00, 0x38, 0x9b, 0x71],
    }
}

/// Format specifier: a `WAVEFORMATEX` follows.
#[verifier::allow_in_spec]
pub fn KSDATAFORMAT_SPECIFIER_WAVEFORMATEX() -> GUID
    returns
        (GUID {
                data1: 0x0558_9f81,
                data2: 0xc356,
                data3: 0x11ce,
                data4: [0xbf, 0x01, 0x00, 0xaa, 0x00, 0x55, 0x59, 0x5a],
            }),
{
    GUID {
        data1: 0x0558_9f81,
        data2: 0xc356,
        data3: 0x11ce,
        data4: [0xbf, 0x01, 0x00, 0xaa, 0x00, 0x55, 0x59, 0x5a],
    }
}

/// Sub-format of a bridge pin: analog.
#[verifier::allow_in_spec]
pub fn KSDATAFORMAT_SUBTYPE_ANALOG() -> GUID
    returns
        (GUID {
                data1: 0x6dba_3190,
                data2: 0x67bd,
                data3: 0x11cf,
                data4: [0xa0, 0xf7, 0x00, 0x20, 0xaf, 0xd1, 0x56, 0xe4],
            }),
{
    GUID {
        data1: 0x6dba_3190,
        data2: 0x67bd,
        data3: 0x11cf,
        data4: [0xa0, 0xf7, 0x00, 0x20, 0xaf, 0xd1, 0x56, 0xe4],
    }
}

/// Format specifier: nothing follows.
#[verifier::allow_in_spec]
pub fn KSDATAFORMAT_SPECIFIER_NONE() -> GUID
    returns
        (GUID {
                data1: 0x0f64_17d6,
                data2: 0xc318,
                data3: 0x11d0,
                data4: [0xa4, 0x3f, 0x00, 0xa0, 0xc9, 0x22, 0x31, 0x96],
            }),
{
    GUID {
        data1: 0x0f64_17d6,
        data2: 0xc318,
        data3: 0x11d0,
        data4: [0xa4, 0x3f, 0x00, 0xa0, 0xc9, 0x22, 0x31, 0x96],
    }
}

/// The standard set of pin interfaces.
#[verifier::allow_in_spec]
pub fn KSINTERFACESETID_STANDARD() -> GUID
    returns
        (GUID {
                data1: 0x1a87_66a0,
                data2: 0x62ce,
                data3: 0x11cf,
                data4: [0xa5, 0xd6, 0x28, 0xdb, 0x04, 0xc1, 0x00, 0x00],
            }),
{
    GUID {
        data1: 0x1a87_66a0,
        data2: 0x62ce,
        data3: 0x11cf,
        data4: [0xa5, 0xd6, 0x28, 0xdb, 0x04, 0xc1, 0x00, 0x00],
    }
}

/// The standard set of pin mediums.
#[verifier::allow_in_spec]
pub fn KSMEDIUMSETID_STANDARD() -> GUID
    returns
        (GUID {
                data1: 0x4747_b320,
                data2: 0x62ce,
                data3: 0x11cf,
                data4: [0xa5, 0xd6, 0x28, 0xdb, 0x04, 0xc1, 0x00, 0x00],
            }),
{
    GUID {
        data1: 0x4747_b320,
        data2: 0x62ce,
        data3: 0x11cf,
        data4: [0xa5, 0xd6, 0x28, 0xdb, 0x04, 0xc1, 0x00, 0x00],
    }
}

/// Node type: speaker.
#[verifier::allow_in_spec]
pub fn KSNODETYPE_SPEAKER() -> GUID
    returns
        (GUID {
                data1: 0xdff2_1ce1,
                data2: 0xf70f,
                data3: 0x11d0,
                data4: [0xb9, 0x17, 0x00, 0xa0, 0xc9, 0x22, 0x31, 0x96],
            }),
{
    GUID {
        data1: 0xdff2_1ce1,
        data2: 0xf70f,
        data3: 0x11d0,
        data4: [0xb9, 0x17, 0x00, 0xa0, 0xc9, 0x22, 0x31, 0x96],
    }
}

/// Node type: microphone.
#[verifier::allow_in_spec]
pub fn KSNODETYPE_MICROPHONE() -> GUID
    returns
        (GUID {
                data1: 0xdff2_1be1,
                data2: 0xf70f,
                data3: 0x11d0,
                data4: [0xb9, 0x17, 0x00, 0xa0, 0xc9, 0x22, 0x31, 0x96],
            }),
{
    GUID {
        data1: 0xdff2_1be1,
        data2: 0xf70f,
        data3: 0x11d0,
        data4: [0xb9, 0x17, 0x00, 0xa0, 0xc9, 0x22, 0x31, 0x96],
    }
}

/// Attribute: a signal processing mode.
#[verifier::allow_in_spec]
pub fn KSATTRIBUTEID_AUDIOSIGNALPROCESSING_MODE() -> GUID
    returns
        (GUID {
                data1: 0xe1f8_9eb5,
                data2: 0x5f46,
                data3: 0x419b,
                data4: [0x96, 0x7b, 0xff, 0x67, 0x70, 0xb9, 0x84, 0x01],
            }),
{
    GUID {
        data1: 0xe1f8_9eb5,
        data2: 0x5f46,
        data3: 0x419b,
        data4: [0x96, 0x7b, 0xff, 0x67, 0x70, 0xb9, 0x84, 0x01],
    }
}

/// Property set of pins.
#[verifier::allow_in_spec]
pub fn KSPROPSETID_PIN() -> GUID
    returns
        (GUID {
                data1: 0x8c13_4960,
                data2: 0x51ad,
                data3: 0x11cf,
                data4: [0x87, 0x8a, 0x94, 0xf8, 0x01, 0xc1, 0x00, 0x00],
            }),
{
    GUID {
        data1: 0x8c13_4960,
        data2: 0x51ad,
        data3: 0x11cf,
        data4: [0x87, 0x8a, 0x94, 0xf8, 0x01, 0xc1, 0x00, 0x00],
    }
}

/// Sub-format: IEEE floating point.
#[verifier::allow_in_spec]
pub fn KSDATAFORMAT_SUBTYPE_IEEE_FLOAT() -> GUID
    returns
        (GUID {
                data1: 0x0000_0003,
                data2: 0x0000,
                data3: 0x0010,
                data4: [0x80, 0x00, 0x00, 0xaa, 0x00, 0x38, 0x9b, 0x71],
            }),
{
    GUID {
        data1: 0x0000_0003,
        data2: 0x0000,
        data3: 0x0010,
        data4: [0x80, 0x00, 0x00, 0xaa, 0x00, 0x38, 0x9b, 0x71],
    }
}

/// Property set of the diagnostic counters, known to this driver only.
#[verifier::allow_in_spec]
pub fn KSPROPSETID_VDEV_DEBUG() -> GUID
    returns
        (GUID {
                data1: 0x7f4e_2a11,
                data2: 0x9c3b,
                data3: 0x4b6e,
                data4: [0x8f, 0x2a, 0x1d, 0x2c, 0x3b, 0x4a, 0x5e, 0x60],
            }),
{
    GUID {
        data1: 0x7f4e_2a11,
        data2: 0x9c3b,
        data3: 0x4b6e,
        data4: [0x8f, 0x2a, 0x1d, 0x2c, 0x3b, 0x4a, 0x5e, 0x60],
    }
}

/// Node type: audio engine.
#[verifier::allow_in_spec]
pub fn KSNODETYPE_AUDIO_ENGINE() -> GUID
    returns
        (GUID {
                data1: 0x35ca_f6e4,
                data2: 0xf3b3,
                data3: 0x4168,
                data4: [0xbb, 0x4b, 0x55, 0xe7, 0x7a, 0x46, 0x1c, 0x7e],
            }),
{
    GUID {
        data1: 0x35ca_f6e4,
        data2: 0xf3b3,
        data3: 0x4168,
        data4: [0xbb, 0x4b, 0x55, 0xe7, 0x7a, 0x46, 0x1c, 0x7e],
    }
}

/// Signal processing mode: raw.
#[verifier::allow_in_spec]
pub fn AUDIO_SIGNALPROCESSINGMODE_RAW() -> GUID
    returns
        (GUID {
                data1: 0x9e90_ea20,
                data2: 0xb493,
                data3: 0x4fd1,
                data4: [0xa1, 0xa8, 0x7e, 0x13, 0x61, 0xa9, 0x56, 0xcf],
            }),
{
    GUID {
        data1: 0x9e90_ea20,
        data2: 0xb493,
        data3: 0x4fd1,
        data4: [0xa1, 0xa8, 0x7e, 0x13, 0x61, 0xa9, 0x56, 0xcf],
    }
}

/// Signal processing mode: media.
#[verifier::allow_in_spec]
pub fn AUDIO_SIGNALPROCESSINGMODE_MEDIA() -> GUID
    returns
        (GUID {
                data1: 0x4780_004e,
                data2: 0x7133,
                data3: 0x41d8,
                data4: [0x8c, 0x74, 0x66, 0x0d, 0xad, 0xd2, 0xc0, 0xee],
            }),
{
    GUID {
        data1: 0x4780_004e,
        data2: 0x7133,
        data3: 0x41d8,
        data4: [0x8c, 0x74, 0x66, 0x0d, 0xad, 0xd2, 0xc0, 0xee],
    }
}

/// Signal processing mode: movie.
#[verifier::allow_in_spec]
pub fn AUDIO_SIGNALPROCESSINGMODE_MOVIE() -> GUID
    returns
        (GUID {
                data1: 0xb26f_eb0d,
                data2: 0xec94,
                data3: 0x477c,
                data4: [0x94, 0x94, 0xd1, 0xab, 0x8e, 0x75, 0x3f, 0x6e],
            }),
{
    GUID {
        data1: 0xb26f_eb0d,
        data2: 0xec94,
        data3: 0x477c,
        data4: [0x94, 0x94, 0xd1, 0xab, 0x8e, 0x75, 0x3f, 0x6e],
    }
}

/// Signal processing mode: communications.
#[verifier::allow_in_spec]
pub fn AUDIO_SIGNALPROCESSINGMODE_COMMUNICATIONS() -> GUID
    returns
        (GUID {
                data1: 0x9895_1333,
                data2: 0xb9cd,
                data3: 0x48b1,
                data4: [0xa0, 0xa3, 0xff, 0x40, 0x68, 0x2d, 0x73, 0xf7],
            }),
{
    GUID {
        data1: 0x9895_1333,
        data2: 0xb9cd,
        data3: 0x48b1,
        data4: [0xa0, 0xa3, 0xff, 0x40, 0x68, 0x2d, 0x73, 0xf7],
    }
}

/// Signal processing mode: notification.
#[verifier::allow_in_spec]
pub fn AUDIO_SIGNALPROCESSINGMODE_NOTIFICATION() -> GUID
    returns
        (GUID {
                data1: 0x9cf2_a70b,
                data2: 0xf377,
                data3: 0x403b,
                data4: [0xbd, 0x6b, 0x36, 0x08, 0x63, 0xe0, 0x35, 0x5c],
            }),
{
    GUID {
        data1: 0x9cf2_a70b,
        data2: 0xf377,
        data3: 0x403b,
        data4: [0xbd, 0x6b, 0x36, 0x08, 0x63, 0xe0, 0x35, 0x5c],
    }
}

/// The `IMiniportTopology` interface.
#[verifier::allow_in_spec]
pub fn IID_IMiniportTopology() -> GUID
    returns
        (GUID {
                data1: 0xb4c9_0a31,
                data2: 0x5791,
                data3: 0x11d0,
                data4: [0x86, 0xf9, 0x00, 0xa0, 0xc9, 0x11, 0xb5, 0x44],
            }),
{
    GUID {
        data1: 0xb4c9_0a31,
        data2: 0x5791,
        data3: 0x11d0,
        data4: [0x86, 0xf9, 0x00, 0xa0, 0xc9, 0x11, 0xb5, 0x44],
    }
}

/// Node type: volume control.
#[verifier::allow_in_spec]
pub fn KSNODETYPE_VOLUME() -> GUID
    returns
        (GUID {
                data1: 0x3a5a_cc00,
                data2: 0xc557,
                data3: 0x11d0,
                data4: [0x8a, 0x2b, 0x00, 0xa0, 0xc9, 0x25, 0x5a, 0xc1],
            }),
{
    GUID {
        data1: 0x3a5a_cc00,
        data2: 0xc557,
        data3: 0x11d0,
        data4: [0x8a, 0x2b, 0x00, 0xa0, 0xc9, 0x25, 0x5a, 0xc1],
    }
}

/// Node type: mute control.
#[verifier::allow_in_spec]
pub fn KSNODETYPE_MUTE() -> GUID
    returns
        (GUID {
                data1: 0x02b2_23c0,
                data2: 0xc557,
                data3: 0x11d0,
                data4: [0x8a, 0x2b, 0x00, 0xa0, 0xc9, 0x25, 0x5a, 0xc1],
            }),
{
    GUID {
        data1: 0x02b2_23c0,
        data2: 0xc557,
        data3: 0x11d0,
        data4: [0x8a, 0x2b, 0x00, 0xa0, 0xc9, 0x25, 0x5a, 0xc1],
    }
}

/// Name: master volume.
#[verifier::allow_in_spec]
pub fn KSAUDFNAME_MASTER_VOLUME() -> GUID
    returns
        (GUID {
                data1: 0x185f_ede3,
                data2: 0x9905,
                data3: 0x11d1,
                data4: [0x95, 0xa9, 0x00, 0xc0, 0x4f, 0xb9, 0x25, 0xd3],
            }),
{
    GUID {
        data1: 0x185f_ede3,
        data2: 0x9905,
        data3: 0x11d1,
        data4: [0x95, 0xa9, 0x00, 0xc0, 0x4f, 0xb9, 0x25, 0xd3],
    }
}

/// Name: master mute.
#[verifier::allow_in_spec]
pub fn KSAUDFNAME_MASTER_MUTE() -> GUID
    returns
        (GUID {
                data1: 0x185f_ede4,
                data2: 0x9905,
                data3: 0x11d1,
                data4: [0x95, 0xa9, 0x00, 0xc0, 0x4f, 0xb9, 0x25, 0xd3],
            }),
{
    GUID {
        data1: 0x185f_ede4,
        data2: 0x9905,
        data3: 0x11d1,
        data4: [0x95, 0xa9, 0x00, 0xc0, 0x4f, 0xb9, 0x25, 0xd3],
    }
}

/// Name: microphone volume.
#[verifier::allow_in_spec]
pub fn KSAUDFNAME_MIC_VOLUME() -> GUID
    returns
        (GUID {
                data1: 0x185f_eded,
                data2: 0x9905,
                data3: 0x11d1,
                data4: [0x95, 0xa9, 0x00, 0xc0, 0x4f, 0xb9, 0x25, 0xd3],
            }),
{
    GUID {
        data1: 0x185f_eded,
        data2: 0x9905,
        data3: 0x11d1,
        data4: [0x95, 0xa9, 0x00, 0xc0, 0x4f, 0xb9, 0x25, 0xd3],
    }
}

/// Name: microphone mute.
#[verifier::allow_in_spec]
pub fn KSAUDFNAME_MIC_MUTE() -> GUID
    returns
        (GUID {
                data1: 0x185f_edee,
                data2: 0x9905,
                data3: 0x11d1,
                data4: [0x95, 0xa9, 0x00, 0xc0, 0x4f, 0xb9, 0x25, 0xd3],
            }),
{
    GUID {
        data1: 0x185f_edee,
        data2: 0x9905,
        data3: 0x11d1,
        data4: [0x95, 0xa9, 0x00, 0xc0, 0x4f, 0xb9, 0x25, 0xd3],
    }
}

/// Property set of audio nodes.
#[verifier::allow_in_spec]
pub fn KSPROPSETID_AUDIO() -> GUID
    returns
        (GUID {
                data1: 0x45ff_aaa0,
                data2: 0x6e1b,
                data3: 0x11d0,
                data4: [0xbc, 0xf2, 0x44, 0x45, 0x53, 0x54, 0x00, 0x00],
            }),
{
    GUID {
        data1: 0x45ff_aaa0,
        data2: 0x6e1b,
        data3: 0x11d0,
        data4: [0xbc, 0xf2, 0x44, 0x45, 0x53, 0x54, 0x00, 0x00],
    }
}

/// Set of general property types.
#[verifier::allow_in_spec]
pub fn KSPROPTYPESETID_GENERAL() -> GUID
    returns
        (GUID {
                data1: 0x97e9_9ba0,
                data2: 0xbdea,
                data3: 0x11cf,
                data4: [0xa5, 0xd6, 0x28, 0xdb, 0x04, 0xc1, 0x00, 0x00],
            }),
{
    GUID {
        data1: 0x97e9_9ba0,
        data2: 0xbdea,
        data3: 0x11cf,
        data4: [0xa5, 0xd6, 0x28, 0xdb, 0x04, 0xc1, 0x00, 0x00],
    }
}

} // verus!
