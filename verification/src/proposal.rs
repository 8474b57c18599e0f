//! The properties by which the audio engine proposes a device format and asks for one.
use crate::bytes;
use crate::guid;
use crate::guid::GUID;
use crate::ks;
use crate::ks::{PCPROPERTY_REQUEST, PVOID, WAVEFORMATEX};
use crate::stats;
use crate::stats::DebugStats;
use crate::status::{
    NTSTATUS, STATUS_BUFFER_OVERFLOW, STATUS_BUFFER_TOO_SMALL, STATUS_INVALID_PARAMETER,
    STATUS_NOT_SUPPORTED, STATUS_NO_MATCH, STATUS_SUCCESS,
};
use crate::topology;
use crate::topology::Answer;
use crate::wave_format;
use vstd::prelude::*;

verus! {

/// The part of an instance that names a pin: a property, the pin and a reserved number.
pub const KSP_PIN_SIZE: usize = 32;

/// What a pin is for.
#[derive(Clone, Copy, Debug, PartialEq, Eq, Structural)]
pub enum PinKind {
    /// Clients open it.
    Stream,
    /// It joins two filters.
    Bridge,
    /// There is none with that number, or no filter to ask.
    Invalid,
}

/// What pin number `pin` of a wave filter is for. A playback filter streams on pin 0 and is
/// joined on pin 1; a recording filter the other way round.
pub open spec fn pin_kind(has_target: bool, capture: bool, pin: u32) -> PinKind {
    if !has_target {
        PinKind::Invalid
    } else if pin == if capture {
        1u32
    } else {
        0u32
    } {
        PinKind::Stream
    } else if pin <= 1 {
        PinKind::Bridge
    } else {
        PinKind::Invalid
    }
}

/// What pin number `pin` of the wave filter `major` is for.
pub fn stream_pin_kind(major: PVOID, capture: bool, pin: u32) -> (kind: PinKind)
    ensures
        kind == pin_kind(major != 0, capture, pin),
{
    if major == 0 {
        return PinKind::Invalid;
    }
    let (stream_pin, bridge_pin): (u32, u32) = if capture {
        (1, 0)
    } else {
        (0, 1)
    };
    if pin == stream_pin {
        PinKind::Stream
    } else if pin == bridge_pin {
        PinKind::Bridge
    } else {
        PinKind::Invalid
    }
}

/// The signal processing modes of a streaming pin.
pub open spec fn supported_modes() -> Seq<GUID> {
    seq![
        guid::AUDIO_SIGNALPROCESSINGMODE_DEFAULT(),
        guid::AUDIO_SIGNALPROCESSINGMODE_RAW(),
        guid::AUDIO_SIGNALPROCESSINGMODE_MEDIA(),
        guid::AUDIO_SIGNALPROCESSINGMODE_MOVIE(),
        guid::AUDIO_SIGNALPROCESSINGMODE_COMMUNICATIONS(),
        guid::AUDIO_SIGNALPROCESSINGMODE_NOTIFICATION(),
    ]
}

/// The signal processing modes of a streaming pin.
pub fn modes() -> (m: Vec<GUID>)
    ensures
        m@ == supported_modes(),
{
    let mut m: Vec<GUID> = Vec::new();
    m.push(guid::AUDIO_SIGNALPROCESSINGMODE_DEFAULT());
    m.push(guid::AUDIO_SIGNALPROCESSINGMODE_RAW());
    m.push(guid::AUDIO_SIGNALPROCESSINGMODE_MEDIA());
    m.push(guid::AUDIO_SIGNALPROCESSINGMODE_MOVIE());
    m.push(guid::AUDIO_SIGNALPROCESSINGMODE_COMMUNICATIONS());
    m.push(guid::AUDIO_SIGNALPROCESSINGMODE_NOTIFICATION());
    assert(m@ =~= supported_modes());
    m
}

/// Whether `mode` is one of them.
pub fn is_supported_mode(mode: &GUID) -> (yes: bool)
    ensures
        yes == supported_modes().contains(*mode),
{
    let m: Vec<GUID> = modes();
    let mut i: usize = 0;
    while i < m.len()
        invariant
            i <= m@.len(),
            m@ == supported_modes(),
            forall|k: int| 0 <= k < i ==> m@[k] != *mode,
        decreases m@.len() - i,
    {
        if guid::is_equal_guid(&m[i], mode) {
            assert(supported_modes()[i as int] == *mode);
            return true;
        }
        i = i + 1;
    }
    false
}

/// The length of the attribute list behind the pin of an instance.
pub open spec fn attribute_len(instance_size: u32) -> int {
    if instance_size <= KSP_PIN_SIZE {
        0
    } else {
        instance_size - KSP_PIN_SIZE
    }
}

/// The mode that the attributes from `off` on set, `mode` where they set none; or why they are
/// refused. Each has to be a mode, complete and of the right size; the last one counts.
pub open spec fn mode_from(b: Seq<u8>, len: int, off: int, mode: GUID) -> Result<GUID, NTSTATUS>
    decreases len - off,
{
    let at = KSP_PIN_SIZE + off;
    if off + ks::KSATTRIBUTE_SIZE > len {
        Ok(mode)
    } else if !guid::guid_at(b, at + 8, guid::KSATTRIBUTEID_AUDIOSIGNALPROCESSING_MODE()) {
        Err(STATUS_NOT_SUPPORTED)
    } else if bytes::dword_at(b, at) != ks::KSATTRIBUTE_MODE_SIZE || off
        + ks::KSATTRIBUTE_MODE_SIZE > len {
        Err(STATUS_NOT_SUPPORTED)
    } else {
        mode_from(b, len, off + ks::KSATTRIBUTE_MODE_SIZE, guid::guid_of(b, at + 24))
    }
}

/// The mode that a request asks for: the default one unless its instance names another.
pub open spec fn requested_mode(req: PCPROPERTY_REQUEST) -> Result<GUID, NTSTATUS> {
    let len = attribute_len(req.InstanceSize);
    if len == 0 || req.Instance is None {
        Ok(guid::AUDIO_SIGNALPROCESSINGMODE_DEFAULT())
    } else {
        mode_from(
            req.Instance->0@,
            len,
            ks::KSMULTIPLE_ITEM_SIZE as int,
            guid::AUDIO_SIGNALPROCESSINGMODE_DEFAULT(),
        )
    }
}

/// The mode that a request asks for.
pub fn mode_from_instance(req: &PCPROPERTY_REQUEST) -> (r: Result<GUID, NTSTATUS>)
    requires
        topology::is_request(*req),
    ensures
        r == requested_mode(*req),
{
    let mut mode: GUID = guid::AUDIO_SIGNALPROCESSINGMODE_DEFAULT();
    let size: usize = req.InstanceSize as usize;
    if size <= KSP_PIN_SIZE {
        return Ok(mode);
    }
    let len: usize = size - KSP_PIN_SIZE;
    match &req.Instance {
        None => Ok(mode),
        Some(instance) => {
            let b: &[u8] = instance.as_slice();
            let mut off: usize = ks::KSMULTIPLE_ITEM_SIZE;
            while len >= ks::KSATTRIBUTE_SIZE && off <= len - ks::KSATTRIBUTE_SIZE
                invariant
                    len == size - KSP_PIN_SIZE,
                    KSP_PIN_SIZE + len <= b@.len(),
                    KSP_PIN_SIZE + len <= u32::MAX,
                    off <= len + ks::KSMULTIPLE_ITEM_SIZE,
                    requested_mode(*req) == mode_from(b@, len as int, off as int, mode),
                decreases len + ks::KSMULTIPLE_ITEM_SIZE - off,
            {
                let at: usize = KSP_PIN_SIZE + off;
                if !wave_format::has_guid(
                    b,
                    at + 8,
                    &guid::KSATTRIBUTEID_AUDIOSIGNALPROCESSING_MODE(),
                ) {
                    return Err(STATUS_NOT_SUPPORTED);
                }
                let attr_size: u32 = bytes::read_u32(b, at);
                if attr_size as usize != ks::KSATTRIBUTE_MODE_SIZE || off
                    + ks::KSATTRIBUTE_MODE_SIZE > len {
                    return Err(STATUS_NOT_SUPPORTED);
                }
                mode = guid::read_guid(b, at + 24);
                off = off + ks::KSATTRIBUTE_MODE_SIZE;
            }
            Ok(mode)
        },
    }
}

/// A number reduced to 32 bits.
pub open spec fn low32(n: int) -> u32 {
    (n % 0x1_0000_0000) as u32
}

/// The room that the device format takes with the attribute list of a request behind it.
pub open spec fn format_room(req: PCPROPERTY_REQUEST) -> int {
    ks::KSDATAFORMAT_WAVEFORMATEXTENSIBLE_SIZE + attribute_len(req.InstanceSize)
}

/// A value that starts with the device format, with the attribute list of the instance behind it
/// where there is one, and the flag that says so.
pub open spec fn format_written(req: PCPROPERTY_REQUEST) -> Seq<u8> {
    let plain = bytes::patched(
        topology::value_bytes(req),
        0,
        wave_format::format_bytes(wave_format::device_format_value()),
    );
    let len = attribute_len(req.InstanceSize);
    if len > 0 && req.Instance is Some {
        bytes::patched(
            bytes::patched(
                plain,
                ks::KSDATAFORMAT_WAVEFORMATEXTENSIBLE_SIZE as int,
                req.Instance->0@.subrange(KSP_PIN_SIZE as int, KSP_PIN_SIZE + len),
            ),
            4,
            bytes::le32(ks::KSDATAFORMAT_ATTRIBUTES),
        )
    } else {
        plain
    }
}

/// The answer to a request for the device format. A reader without any room is told how much it
/// takes by a warning, one with too little by an error.
pub open spec fn get_answer(req: PCPROPERTY_REQUEST) -> Answer {
    match requested_mode(req) {
        Err(status) => topology::refused(req, status),
        Ok(mode) => if !supported_modes().contains(mode) {
            topology::refused(req, STATUS_NOT_SUPPORTED)
        } else if req.ValueSize == 0 {
            Answer {
                status: STATUS_BUFFER_OVERFLOW,
                value: topology::value_bytes(req),
                size: low32(format_room(req)),
            }
        } else if req.ValueSize < format_room(req) {
            Answer {
                status: STATUS_BUFFER_TOO_SMALL,
                value: topology::value_bytes(req),
                size: low32(format_room(req)),
            }
        } else {
            Answer {
                status: STATUS_SUCCESS,
                value: format_written(req),
                size: low32(format_room(req)),
            }
        },
    }
}

/// The counters after a request for the device format.
pub open spec fn get_noted(s: Seq<u32>, req: PCPROPERTY_REQUEST) -> Seq<u32> {
    let asked = stats::counted(s, stats::PROPOSED_GET as int);
    if requested_mode(req) is Err || !supported_modes().contains(requested_mode(req)->Ok_0) {
        asked
    } else {
        let sized = asked.update(stats::PROPOSED_GET_SIZE as int, low32(format_room(req)));
        if req.ValueSize == 0 || req.ValueSize < format_room(req) {
            sized
        } else {
            sized.update(stats::PROPOSED_ATTR_LEN as int, low32(attribute_len(req.InstanceSize)))
        }
    }
}

/// The pin that a proposal is for.
pub open spec fn proposal_pin(capture: bool, req: PCPROPERTY_REQUEST) -> PinKind {
    pin_kind(req.MajorTarget != 0, capture, bytes::dword_at(req.Instance->0@, 24))
}

/// A proposal that is held against the device format: for a streaming pin, with a whole format.
pub open spec fn is_judged(capture: bool, req: PCPROPERTY_REQUEST) -> bool {
    &&& req.InstanceSize >= KSP_PIN_SIZE
    &&& req.Instance is Some
    &&& proposal_pin(capture, req) == PinKind::Stream
    &&& req.ValueSize >= ks::KSDATAFORMAT_WAVEFORMATEXTENSIBLE_SIZE
}

/// The answer to a proposal: taken exactly where it is the device's own format, without changing
/// it.
pub open spec fn set_answer(capture: bool, req: PCPROPERTY_REQUEST) -> Answer {
    if req.InstanceSize < KSP_PIN_SIZE || req.Instance is None {
        topology::refused(req, STATUS_INVALID_PARAMETER)
    } else if proposal_pin(capture, req) == PinKind::Bridge {
        topology::refused(req, STATUS_NOT_SUPPORTED)
    } else if proposal_pin(capture, req) == PinKind::Invalid {
        topology::refused(req, STATUS_INVALID_PARAMETER)
    } else if req.ValueSize == 0 {
        Answer {
            status: STATUS_BUFFER_OVERFLOW,
            value: topology::value_bytes(req),
            size: ks::KSDATAFORMAT_WAVEFORMATEXTENSIBLE_SIZE as u32,
        }
    } else if req.ValueSize < ks::KSDATAFORMAT_WAVEFORMATEXTENSIBLE_SIZE {
        topology::refused(req, STATUS_BUFFER_TOO_SMALL)
    } else if wave_format::is_device_proposal(topology::value_bytes(req), req.ValueSize as int) {
        topology::refused(req, STATUS_SUCCESS)
    } else {
        topology::refused(req, STATUS_NO_MATCH)
    }
}

/// The counters after a proposal.
pub open spec fn set_noted(s: Seq<u32>, capture: bool, req: PCPROPERTY_REQUEST) -> Seq<u32> {
    if !is_judged(capture, req) {
        s
    } else {
        let b = topology::value_bytes(req);
        let w = wave_format::wave_at(b, 64);
        let noted = stats::counted(s, stats::PROPOSED_SET as int).update(
            stats::PROPOSED_LAST_TAG as int,
            w.wFormatTag as u32,
        ).update(stats::PROPOSED_LAST_RATE as int, w.nSamplesPerSec).update(
            stats::PROPOSED_LAST_BITS as int,
            w.wBitsPerSample as u32,
        );
        if wave_format::is_device_proposal(b, req.ValueSize as int) {
            stats::counted(noted, stats::PROPOSED_SET_OK as int)
        } else {
            stats::counted(noted, stats::PROPOSED_SET_REJECT as int)
        }
    }
}

/// The answer to any request for the proposed format.
pub open spec fn proposal_answer(capture: bool, req: PCPROPERTY_REQUEST) -> Answer {
    if req.PropertyItem is None || req.Value is None {
        topology::refused(req, STATUS_INVALID_PARAMETER)
    } else if topology::asks_support(req) {
        if req.ValueSize < 4 {
            topology::refused(req, STATUS_BUFFER_TOO_SMALL)
        } else {
            topology::answered(req, bytes::le32(ks::KSPROPERTY_TYPE_ALL))
        }
    } else if topology::asks_get(req) {
        get_answer(req)
    } else if topology::asks_set(req) {
        set_answer(capture, req)
    } else {
        topology::refused(req, STATUS_INVALID_PARAMETER)
    }
}

/// The counters after any request for the proposed format.
pub open spec fn proposal_noted(s: Seq<u32>, capture: bool, req: PCPROPERTY_REQUEST) -> Seq<u32> {
    if req.PropertyItem is None || req.Value is None || topology::asks_support(req) {
        s
    } else if topology::asks_get(req) {
        get_noted(s, req)
    } else if topology::asks_set(req) {
        set_noted(s, capture, req)
    } else {
        s
    }
}

/// Answers a request for the device format.
pub fn proposed_format_get(req: &mut PCPROPERTY_REQUEST, stats: &mut DebugStats) -> (status:
    NTSTATUS)
    requires
        topology::is_request(*old(req)),
        old(req).Value is Some,
        old(stats).wf(),
    ensures
        status == get_answer(*old(req)).status,
        topology::value_bytes(*final(req)) == get_answer(*old(req)).value,
        final(req).ValueSize == get_answer(*old(req)).size,
        topology::same_question(*old(req), *final(req)),
        final(stats).wf(),
        final(stats)@ == get_noted(old(stats)@, *old(req)),
{
    stats.dbg_inc(stats::PROPOSED_GET);
    let mode: GUID = match mode_from_instance(req) {
        Ok(m) => m,
        Err(status) => {
            return status;
        },
    };
    if !is_supported_mode(&mode) {
        return STATUS_NOT_SUPPORTED;
    }
    let attr_len: u64 = if (req.InstanceSize as usize) <= KSP_PIN_SIZE {
        0
    } else {
        (req.InstanceSize as u64) - (KSP_PIN_SIZE as u64)
    };
    let need: u64 = (ks::KSDATAFORMAT_WAVEFORMATEXTENSIBLE_SIZE as u64) + attr_len;
    let need32: u32 = (need % 0x1_0000_0000) as u32;
    stats.put(stats::PROPOSED_GET_SIZE, need32);
    if req.ValueSize == 0 {
        req.ValueSize = need32;
        return STATUS_BUFFER_OVERFLOW;
    }
    if (req.ValueSize as u64) < need {
        req.ValueSize = need32;
        return STATUS_BUFFER_TOO_SMALL;
    }
    stats.put(stats::PROPOSED_ATTR_LEN, (attr_len % 0x1_0000_0000) as u32);
    let f: Vec<u8> = wave_format::encode_format(&wave_format::device_format());
    match req.Value.take() {
        Some(v) => {
            let mut v: Vec<u8> = v;
            bytes::write_at(&mut v, 0, f.as_slice());
            if attr_len > 0 {
                match &req.Instance {
                    Some(instance) => {
                        let list: Vec<u8> = bytes::copy_range(
                            instance.as_slice(),
                            KSP_PIN_SIZE,
                            req.InstanceSize as usize,
                        );
                        bytes::write_at(
                            &mut v,
                            ks::KSDATAFORMAT_WAVEFORMATEXTENSIBLE_SIZE,
                            list.as_slice(),
                        );
                        bytes::write_u32_at(&mut v, 4, ks::KSDATAFORMAT_ATTRIBUTES);
                    },
                    None => {},
                }
            }
            req.Value = Some(v);
        },
        None => {},
    }
    req.ValueSize = need32;
    STATUS_SUCCESS
}

/// Answers a proposal of a device format.
pub fn proposed_format_set(
    capture: bool,
    req: &mut PCPROPERTY_REQUEST,
    stats: &mut DebugStats,
) -> (status: NTSTATUS)
    requires
        topology::is_request(*old(req)),
        old(req).Value is Some,
        old(stats).wf(),
    ensures
        status == set_answer(capture, *old(req)).status,
        topology::value_bytes(*final(req)) == set_answer(capture, *old(req)).value,
        final(req).ValueSize == set_answer(capture, *old(req)).size,
        topology::same_question(*old(req), *final(req)),
        final(stats).wf(),
        final(stats)@ == set_noted(old(stats)@, capture, *old(req)),
{
    let need: u32 = ks::KSDATAFORMAT_WAVEFORMATEXTENSIBLE_SIZE as u32;
    if (req.InstanceSize as usize) < KSP_PIN_SIZE {
        return STATUS_INVALID_PARAMETER;
    }
    let pin: u32 = match &req.Instance {
        Some(instance) => bytes::read_u32(instance.as_slice(), 24),
        None => {
            return STATUS_INVALID_PARAMETER;
        },
    };
    match stream_pin_kind(req.MajorTarget, capture, pin) {
        PinKind::Stream => {},
        PinKind::Bridge => {
            return STATUS_NOT_SUPPORTED;
        },
        PinKind::Invalid => {
            return STATUS_INVALID_PARAMETER;
        },
    }
    if req.ValueSize == 0 {
        req.ValueSize = need;
        return STATUS_BUFFER_OVERFLOW;
    }
    if req.ValueSize < need {
        return STATUS_BUFFER_TOO_SMALL;
    }
    match &req.Value {
        Some(v) => {
            let w: WAVEFORMATEX = wave_format::read_wave(v.as_slice(), 64);
            stats.dbg_inc(stats::PROPOSED_SET);
            stats.put(stats::PROPOSED_LAST_TAG, w.wFormatTag as u32);
            stats.put(stats::PROPOSED_LAST_RATE, w.nSamplesPerSec);
            stats.put(stats::PROPOSED_LAST_BITS, w.wBitsPerSample as u32);
            if wave_format::proposed_format_matches_device(v.as_slice(), req.ValueSize) {
                stats.dbg_inc(stats::PROPOSED_SET_OK);
                STATUS_SUCCESS
            } else {
                stats.dbg_inc(stats::PROPOSED_SET_REJECT);
                STATUS_NO_MATCH
            }
        },
        None => STATUS_INVALID_PARAMETER,
    }
}

/// Answers a request for the proposed format.
pub fn wave_format_property_handler(
    capture: bool,
    req: &mut PCPROPERTY_REQUEST,
    stats: &mut DebugStats,
) -> (status: NTSTATUS)
    requires
        topology::is_request(*old(req)),
        old(stats).wf(),
    ensures
        status == proposal_answer(capture, *old(req)).status,
        topology::value_bytes(*final(req)) == proposal_answer(capture, *old(req)).value,
        final(req).ValueSize == proposal_answer(capture, *old(req)).size,
        topology::same_question(*old(req), *final(req)),
        final(stats).wf(),
        final(stats)@ == proposal_noted(old(stats)@, capture, *old(req)),
{
    if req.PropertyItem.is_none() || req.Value.is_none() {
        return STATUS_INVALID_PARAMETER;
    }
    if req.Verb & ks::KSPROPERTY_TYPE_BASICSUPPORT != 0 {
        if req.ValueSize < 4 {
            return STATUS_BUFFER_TOO_SMALL;
        }
        let mut b: Vec<u8> = Vec::new();
        bytes::push_u32(&mut b, ks::KSPROPERTY_TYPE_ALL);
        assert(b@ =~= bytes::le32(ks::KSPROPERTY_TYPE_ALL));
        topology::answer_with(req, b.as_slice());
        return STATUS_SUCCESS;
    }
    if req.Verb & ks::KSPROPERTY_TYPE_GET != 0 {
        return proposed_format_get(req, stats);
    }
    if req.Verb & ks::KSPROPERTY_TYPE_SET != 0 {
        return proposed_format_set(capture, req, stats);
    }
    STATUS_INVALID_PARAMETER
}

/// A reader that asks how much room the device format takes, and asks again with that room, gets
/// it.
pub proof fn law_asking_for_the_room_works(req: PCPROPERTY_REQUEST, again: PCPROPERTY_REQUEST)
    requires
        req.ValueSize == 0,
        requested_mode(req) is Ok,
        supported_modes().contains(requested_mode(req)->Ok_0),
        format_room(req) <= u32::MAX,
        again.InstanceSize == req.InstanceSize,
        again.Instance == req.Instance,
        again.ValueSize == get_answer(req).size,
    ensures
        get_answer(req).status == STATUS_BUFFER_OVERFLOW,
        get_answer(again).status == STATUS_SUCCESS,
        get_answer(again).size == get_answer(req).size,
{
}

/// Writing a list behind a format and a flag into its head leaves the rest of the format.
proof fn lemma_patches_keep_format(value: Seq<u8>, f: Seq<u8>, list: Seq<u8>, flag: Seq<u8>)
    requires
        f.len() == 104,
        flag.len() == 4,
        104 + list.len() <= value.len(),
    ensures
        ({
            let plain = bytes::patched(value, 0, f);
            let full = bytes::patched(bytes::patched(plain, 104, list), 4, flag);
            &&& plain.len() == value.len()
            &&& full.len() == value.len()
            &&& forall|i: int| 16 <= i < 104 ==> plain[i] == f[i]
            &&& forall|i: int| 16 <= i < 104 ==> full[i] == f[i]
        }),
{
    let plain = bytes::patched(value, 0, f);
    bytes::lemma_patched(value, 0, f);
    bytes::lemma_patched(plain, 104, list);
    bytes::lemma_patched(bytes::patched(plain, 104, list), 4, flag);
    assert forall|i: int| 16 <= i < 104 implies plain[i] == f[i] by {
        assert(plain.subrange(0, 104)[i] == plain[i]);
    }
}

/// Two formats with the same bytes behind their first 16 are the same proposal.
proof fn lemma_same_format_fields(b: Seq<u8>, f: Seq<u8>, size: int)
    requires
        b.len() >= 104,
        f.len() == 104,
        forall|i: int| 16 <= i < 104 ==> b[i] == f[i],
        wave_format::is_device_proposal(f, 104),
        size >= 104,
    ensures
        wave_format::is_device_proposal(b, size),
{
    assert(guid::guid_of(b, 16) == guid::guid_of(f, 16));
    assert(guid::guid_of(b, 32) == guid::guid_of(f, 32));
    assert(guid::guid_of(b, 88) == guid::guid_of(f, 88));
    assert(wave_format::wave_at(b, 64) == wave_format::wave_at(f, 64));
}

/// The format in a written value, whatever the format is.
proof fn lemma_written_format(req: PCPROPERTY_REQUEST, f: Seq<u8>)
    requires
        topology::is_request(req),
        req.Value is Some,
        f == wave_format::format_bytes(wave_format::device_format_value()),
        f.len() == 104,
        req.ValueSize >= format_room(req),
    ensures
        format_written(req).len() >= 104,
        forall|i: int| 16 <= i < 104 ==> format_written(req)[i] == f[i],
{
    let len = attribute_len(req.InstanceSize);
    let value = topology::value_bytes(req);
    let flag = bytes::le32(ks::KSDATAFORMAT_ATTRIBUTES);
    if len > 0 && req.Instance is Some {
        let list = req.Instance->0@.subrange(KSP_PIN_SIZE as int, KSP_PIN_SIZE + len);
        lemma_patches_keep_format(value, f, list, flag);
    } else {
        lemma_patches_keep_format(value, f, Seq::empty(), flag);
    }
}

/// The device format that a reader gets is one that a proposal of it is taken with.
#[verifier::spinoff_prover]
#[verifier::rlimit(50)]
pub proof fn law_offered_format_is_taken(
    capture: bool,
    get: PCPROPERTY_REQUEST,
    set: PCPROPERTY_REQUEST,
)
    requires
        topology::is_request(get),
        get.Value is Some,
        get.ValueSize >= format_room(get),
        requested_mode(get) is Ok,
        supported_modes().contains(requested_mode(get)->Ok_0),
        is_judged(capture, set),
        set.Value is Some,
        topology::is_request(set),
        topology::value_bytes(set).subrange(0, 104) == get_answer(get).value.subrange(0, 104),
    ensures
        get_answer(get).status == STATUS_SUCCESS,
        set_answer(capture, set).status == STATUS_SUCCESS,
{
    let f = wave_format::format_bytes(wave_format::device_format_value());
    wave_format::law_device_format_is_taken();
    wave_format::law_format_fields_read_back(wave_format::device_format_value());
    lemma_written_format(get, f);
    let offered = format_written(get);
    let b = topology::value_bytes(set);
    assert forall|i: int| 16 <= i < 104 implies b[i] == f[i] by {
        assert(b.subrange(0, 104)[i] == b[i]);
        assert(offered.subrange(0, 104)[i] == offered[i]);
    }
    lemma_same_format_fields(b, f, set.ValueSize as int);
}

/// A wave filter has two pins: clients stream over pin 0 of a playback filter and over pin 1 of a
/// recording one, and the other of the two is the one by which it is joined. There is no third
/// pin, and without a filter none at all.
pub proof fn law_pins_are_told_apart(capture: bool, pin: u32)
    ensures
        pin_kind(true, capture, pin) == PinKind::Stream <==> pin == if capture {
            1u32
        } else {
            0u32
        },
        pin_kind(true, capture, pin) == PinKind::Bridge <==> pin == if capture {
            0u32
        } else {
            1u32
        },
        pin_kind(true, capture, pin) == PinKind::Invalid <==> pin >= 2,
        pin_kind(false, capture, pin) == PinKind::Invalid,
{
}

/// A whole attribute that names a signal processing mode stands at `off` of a list of `len` bytes.
pub open spec fn names_mode(b: Seq<u8>, len: int, off: int) -> bool {
    &&& off + 40 <= len
    &&& bytes::dword_at(b, 32 + off) == 40
    &&& guid::guid_at(b, 32 + off + 8, guid::KSATTRIBUTEID_AUDIOSIGNALPROCESSING_MODE())
}

/// Of a list of modes the last one counts, and without any the one given before; what is too short
/// for the head of an attribute, behind the last, is passed over.
pub proof fn law_last_mode_counts(b: Seq<u8>, len: int, off: int, mode: GUID, n: nat)
    requires
        forall|k: int| 0 <= k < n ==> #[trigger] names_mode(b, len, off + 40 * k),
        off + 40 * n + 24 > len,
    ensures
        mode_from(b, len, off, mode) == Ok::<GUID, NTSTATUS>(
            if n == 0 {
                mode
            } else {
                guid::guid_of(b, 32 + off + 40 * (n - 1) + 24)
            },
        ),
    decreases n,
{
    if n > 0 {
        assert(names_mode(b, len, off + 40 * 0));
        assert forall|k: int| 0 <= k < n - 1 implies #[trigger] names_mode(
            b,
            len,
            off + 40 + 40 * k,
        ) by {
            assert(names_mode(b, len, off + 40 * (k + 1)));
        }
        law_last_mode_counts(
            b,
            len,
            off + 40,
            guid::guid_of(b, 32 + off + 24),
            (n - 1) as nat,
        );
    }
}

/// A list is refused from the first attribute on that has room for its head and names no mode, or
/// is not whole, whatever comes behind it.
pub proof fn law_other_attributes_are_refused(
    b: Seq<u8>,
    len: int,
    off: int,
    mode: GUID,
    n: nat,
)
    requires
        forall|k: int| 0 <= k < n ==> #[trigger] names_mode(b, len, off + 40 * k),
        off + 40 * n + 24 <= len,
        !names_mode(b, len, off + 40 * n),
    ensures
        mode_from(b, len, off, mode) == Err::<GUID, NTSTATUS>(STATUS_NOT_SUPPORTED),
    decreases n,
{
    if n > 0 {
        assert(names_mode(b, len, off + 40 * 0));
        assert forall|k: int| 0 <= k < n - 1 implies #[trigger] names_mode(
            b,
            len,
            off + 40 + 40 * k,
        ) by {
            assert(names_mode(b, len, off + 40 * (k + 1)));
        }
        law_other_attributes_are_refused(
            b,
            len,
            off + 40,
            guid::guid_of(b, 32 + off + 24),
            (n - 1) as nat,
        );
    }
}

/// A request that names no mode asks for the default one; one whose instance has a list behind the
/// pin asks for what the list, which begins behind its own head of eight bytes, names.
pub proof fn law_mode_comes_from_the_list(req: PCPROPERTY_REQUEST)
    ensures
        req.InstanceSize <= 32 || req.Instance is None ==> requested_mode(req) == Ok::<
            GUID,
            NTSTATUS,
        >(guid::AUDIO_SIGNALPROCESSINGMODE_DEFAULT()),
        req.InstanceSize == 80 && req.Instance is Some && names_mode(req.Instance->0@, 48, 8)
            ==> requested_mode(req) == Ok::<GUID, NTSTATUS>(
            guid::guid_of(req.Instance->0@, 64),
        ),
{
    if req.InstanceSize == 80 && req.Instance is Some && names_mode(req.Instance->0@, 48, 8) {
        assert forall|k: int| 0 <= k < 1 implies #[trigger] names_mode(
            req.Instance->0@,
            48,
            8 + 40 * k,
        ) by {}
        law_last_mode_counts(
            req.Instance->0@,
            48,
            8,
            guid::AUDIO_SIGNALPROCESSINGMODE_DEFAULT(),
            1,
        );
    }
}

/// A request for the device format is answered with it exactly if it names one of the six modes,
/// or none, and has room for the format of 104 bytes and the list that came with it. With less
/// room it is told how much that is; with a mode that there is not, it is refused, whatever its
/// room. Nothing is written but by success.
pub proof fn law_format_is_given_with_room(req: PCPROPERTY_REQUEST)
    requires
        req.InstanceSize <= 0x8000_0000,
    ensures
        ({
            let a = get_answer(req);
            let known = requested_mode(req) is Ok && supported_modes().contains(
                requested_mode(req)->Ok_0,
            );
            let room = 104 + (if req.InstanceSize > 32 {
                req.InstanceSize - 32
            } else {
                0
            });
            &&& a.status == STATUS_SUCCESS <==> known && req.ValueSize >= room
            &&& a.status == STATUS_BUFFER_OVERFLOW <==> known && req.ValueSize == 0
            &&& a.status == STATUS_BUFFER_TOO_SMALL <==> known && 0 < req.ValueSize < room
            &&& known ==> a.size == room
            &&& !known ==> a.status == STATUS_NOT_SUPPORTED && a.size == req.ValueSize
            &&& a.status != STATUS_SUCCESS ==> a.value == topology::value_bytes(req)
        }),
{
    if requested_mode(req) is Err {
        lemma_refused_mode(
            req.Instance->0@,
            attribute_len(req.InstanceSize),
            8,
            guid::AUDIO_SIGNALPROCESSINGMODE_DEFAULT(),
        );
    }
}

/// A list of attributes is refused with one status only.
proof fn lemma_refused_mode(b: Seq<u8>, len: int, off: int, mode: GUID)
    ensures
        mode_from(b, len, off, mode) is Err ==> mode_from(b, len, off, mode) == Err::<
            GUID,
            NTSTATUS,
        >(STATUS_NOT_SUPPORTED),
    decreases len - off,
{
    if off + 24 <= len && names_mode(b, len, off) {
        lemma_refused_mode(b, len, off + 40, guid::guid_of(b, 32 + off + 24));
    }
}

/// A proposal is taken exactly if it is for the pin that clients stream over and is the device's
/// own format, whole. Every other one is refused for its reason: no pin, the joined pin or no such
/// one, too little room, or another format; one without room is told how much it takes. A proposal
/// never changes what it proposes.
pub proof fn law_only_the_device_format_is_taken(capture: bool, req: PCPROPERTY_REQUEST)
    ensures
        ({
            let a = set_answer(capture, req);
            let has_pin = req.InstanceSize >= 32 && req.Instance is Some;
            let kind = pin_kind(
                req.MajorTarget != 0,
                capture,
                bytes::dword_at(req.Instance->0@, 24),
            );
            let same = wave_format::is_device_proposal(
                topology::value_bytes(req),
                req.ValueSize as int,
            );
            let streams = has_pin && kind == PinKind::Stream;
            &&& a.status == STATUS_SUCCESS <==> streams && req.ValueSize >= 104 && same
            &&& a.status == STATUS_NO_MATCH <==> streams && req.ValueSize >= 104 && !same
            &&& a.status == STATUS_BUFFER_OVERFLOW <==> streams && req.ValueSize == 0
            &&& a.status == STATUS_BUFFER_TOO_SMALL <==> streams && 0 < req.ValueSize < 104
            &&& a.status == STATUS_NOT_SUPPORTED <==> has_pin && kind == PinKind::Bridge
            &&& a.status == STATUS_INVALID_PARAMETER <==> !has_pin || kind == PinKind::Invalid
            &&& a.value == topology::value_bytes(req)
            &&& a.size == if a.status == STATUS_BUFFER_OVERFLOW {
                104u32
            } else {
                req.ValueSize
            }
        }),
{
}

/// What a request comes to follows its verb: a description, the device's format, or the judging of
/// a proposal; without a verb, a property or a value it is invalid.
pub proof fn law_requests_follow_their_verb(capture: bool, req: PCPROPERTY_REQUEST)
    ensures
        ({
            let a = proposal_answer(capture, req);
            let whole = req.PropertyItem is Some && req.Value is Some;
            &&& whole && topology::asks_get(req) ==> a == get_answer(req)
            &&& whole && topology::asks_set(req) ==> a == set_answer(capture, req)
            &&& whole && topology::asks_support(req) ==> a.status == if req.ValueSize >= 4 {
                STATUS_SUCCESS
            } else {
                STATUS_BUFFER_TOO_SMALL
            }
            &&& !whole || !(topology::asks_get(req) || topology::asks_set(req)
                || topology::asks_support(req)) ==> a.status == STATUS_INVALID_PARAMETER
        }),
{
}

/// The counters of proposals: one that is held against the device format counts, as taken or as
/// refused, and is remembered; any other leaves no trace.
pub proof fn law_proposals_are_noted(s: Seq<u32>, capture: bool, req: PCPROPERTY_REQUEST)
    requires
        s.len() == stats::STATS_COUNT,
    ensures
        ({
            let t = set_noted(s, capture, req);
            let status = set_answer(capture, req).status;
            let judged = status == STATUS_SUCCESS || status == STATUS_NO_MATCH;
            let w = wave_format::wave_at(topology::value_bytes(req), 64);
            &&& !judged ==> t == s
            &&& judged ==> t.len() == s.len() && t[12] == (s[12] + 1) % 0x1_0000_0000 && t[14]
                == w.wFormatTag && t[50] == w.nSamplesPerSec && t[51] == w.wBitsPerSample
            &&& t[32] == if status == STATUS_SUCCESS {
                (s[32] + 1) % 0x1_0000_0000
            } else {
                s[32] as int
            }
            &&& t[52] == if status == STATUS_NO_MATCH {
                (s[52] + 1) % 0x1_0000_0000
            } else {
                s[52] as int
            }
        }),
{
}

} // verus!
