use vdev::adapter::{
    install_virtual_cable, next_ask, port_class, resume, start_device, subdevice_name,
    AdapterCommon, Ask, Cleanup, Connection, Effect, Endpoint, Instances, Phase, Reply, RING_SIZE,
};
use vdev::guid::{
    AUDIO_SIGNALPROCESSINGMODE_DEFAULT, AUDIO_SIGNALPROCESSINGMODE_NOTIFICATION,
    CLSID_PortTopology, CLSID_PortWaveRT, IID_IAdapterCommon, IID_IMiniportWaveRT,
    IID_IMiniportWaveRTStream, IID_IUnknown, IID_IMINIPORT_AUDIO_ENGINE_NODE,
    IID_IMINIPORT_AUDIO_SIGNAL_PROCESSING, IID_IPINCOUNT,
    KSATTRIBUTEID_AUDIOSIGNALPROCESSING_MODE, KSDATAFORMAT_SPECIFIER_WAVEFORMATEX,
    KSDATAFORMAT_SUBTYPE_ANALOG, KSDATAFORMAT_SUBTYPE_PCM, KSDATAFORMAT_TYPE_AUDIO,
    KSNODETYPE_SPEAKER, GUID,
};
use vdev::ks::{
    KSDATAFORMAT, KSDATARANGE, KSPROPERTY_TYPE_BASICSUPPORT, KSPROPERTY_TYPE_GET,
    KSPROPERTY_TYPE_SET, KSSTATE, PCPROPERTY_REQUEST,
};
use vdev::miniport::{host_pin_id, sub_owner, Handed, MiniportWaveRT, SubInterface};
use vdev::proposal::{is_supported_mode, modes, stream_pin_kind, wave_format_property_handler, PinKind};
use vdev::ringbuffer::RingBuffer;
use vdev::stats::{
    DebugStats, AE_CALLS, AE_FMT_SIZE_OUT, AE_LAST_FAIL_IDX, AE_LAST_FAIL_STATUS,
    AE_STORED_RATE, AE_STORED_TAG, INIT_CALLS, LAST_RATE, LAST_STATUS, NEW_STREAM_CALLS,
    PROPOSED_ATTR_LEN, PROPOSED_GET, PROPOSED_SET_OK, PROPOSED_SET_REJECT, QI_COUNT, QI_OK,
    QI_RECENT, RANGE_LAST_STATUS, RANGE_OK, SET_FORMAT_CALLS, SET_FORMAT_OK, STATS_SIZE,
};
use vdev::status::{
    E_NOINTERFACE, STATUS_BUFFER_OVERFLOW, STATUS_BUFFER_TOO_SMALL, STATUS_INSUFFICIENT_RESOURCES,
    STATUS_INVALID_DEVICE_REQUEST, STATUS_INVALID_PARAMETER, STATUS_NOT_SUPPORTED,
    STATUS_NO_MATCH, STATUS_SUCCESS, STATUS_UNSUCCESSFUL,
};
use vdev::stream::{AllocateStep, WaveRTStream};
use vdev::topology::topo_volume_property_item;
use vdev::wave_format::{
    check_stream_format, device_format, encode_format, mix_format, proposed_format_matches_device,
};

fn device_bytes() -> Vec<u8> {
    encode_format(&device_format())
}

fn u32_of(b: &[u8], off: usize) -> u32 {
    u32::from_le_bytes([b[off], b[off + 1], b[off + 2], b[off + 3]])
}

fn guid_bytes(g: &GUID) -> Vec<u8> {
    let mut b = Vec::new();
    b.extend_from_slice(&g.data1.to_le_bytes());
    b.extend_from_slice(&g.data2.to_le_bytes());
    b.extend_from_slice(&g.data3.to_le_bytes());
    b.extend_from_slice(&g.data4);
    b
}

// ---- formats ----

#[test]
fn device_format_is_laid_out_as_documented() {
    let b = device_bytes();
    assert_eq!(b.len(), 104);
    assert_eq!(u32_of(&b, 0), 104);
    assert_eq!(b[16..32], guid_bytes(&KSDATAFORMAT_TYPE_AUDIO())[..]);
    assert_eq!(b[32..48], guid_bytes(&KSDATAFORMAT_SUBTYPE_PCM())[..]);
    assert_eq!(b[48..64], guid_bytes(&KSDATAFORMAT_SPECIFIER_WAVEFORMATEX())[..]);
    assert_eq!(b[64..68], [0xFE, 0xFF, 2, 0]);
    assert_eq!((u32_of(&b, 68), u32_of(&b, 72)), (48_000, 192_000));
    assert_eq!(b[76..84], [4, 0, 16, 0, 22, 0, 16, 0]);
    assert_eq!(u32_of(&b, 84), 3);
    assert_eq!(b[88..104], guid_bytes(&KSDATAFORMAT_SUBTYPE_PCM())[..]);
}

#[test]
fn mix_format_is_float() {
    let b = encode_format(&mix_format());
    assert_eq!(u32_of(&b, 72), 384_000);
    assert_eq!(b[76..80], [8, 0, 32, 0]);
    assert_eq!(u32_of(&b, 88), 3);
}

#[test]
fn only_the_device_format_is_taken() {
    assert!(check_stream_format(&device_bytes()));
    let at = |off: usize, x: u8| {
        let mut b = device_bytes();
        b[off] = x;
        b
    };
    for wrong in [at(32, 3), at(48, 0), at(0, 83), at(0, 103), at(64, 2), at(66, 1), at(68, 0x81), at(76, 8), at(78, 24), at(88, 3)] {
        assert!(!check_stream_format(&wrong));
    }
    let mut plain = device_bytes();
    plain.truncate(84);
    plain[0] = 84;
    plain[64] = 1;
    plain[65] = 0;
    assert!(check_stream_format(&plain));
}

#[test]
fn offers_are_compared_with_the_device_format() {
    let b = device_bytes();
    assert!(proposed_format_matches_device(&b, 104));
    assert!(!proposed_format_matches_device(&b, 103));
    let mut pcm = b.clone();
    pcm[64] = 1;
    pcm[65] = 0;
    assert!(proposed_format_matches_device(&pcm, 84));
    let bare = &pcm[64..84];
    assert!(proposed_format_matches_device(bare, 20));
    assert!(!proposed_format_matches_device(bare, 19));
    assert!(!proposed_format_matches_device(&b[64..], 40));
}

// ---- streams ----

fn ready_stream(capture: bool, size: u32) -> WaveRTStream {
    let mut stats = DebugStats::new();
    let mut s = WaveRTStream::new(1, 2, capture);
    assert_eq!(s.set_format(&device_bytes(), &mut stats), STATUS_SUCCESS);
    assert_eq!(s.allocate_audio_buffer(size), AllocateStep::AllocatePages(size));
    assert_eq!(s.pages_allocated(9), AllocateStep::MapPages(9));
    match s.pages_mapped(size, 9, Some(vec![0; size as usize])) {
        AllocateStep::Done(b) => assert_eq!((b.mdl, b.actual_size, b.offset, b.cache_type), (9, size, 0, 2)),
        other => panic!("{other:?}"),
    }
    for state in [KSSTATE::KSSTATE_ACQUIRE, KSSTATE::KSSTATE_PAUSE, KSSTATE::KSSTATE_RUN] {
        assert_eq!(s.set_state(state, 0), STATUS_SUCCESS);
    }
    s
}

#[test]
fn formats_are_counted() {
    let mut stats = DebugStats::new();
    let mut s = WaveRTStream::new(1, 2, false);
    assert_eq!((s.block_align, s.bytes_per_sec, s.refcount), (4, 0, 1));
    let mut wrong = device_bytes();
    wrong[68] = 0x44;
    assert_eq!(s.set_format(&wrong, &mut stats), STATUS_INVALID_PARAMETER);
    assert_eq!(stats.get(LAST_STATUS), 0xC000_000D);
    assert_eq!(s.bytes_per_sec, 0);
    assert_eq!(s.set_format(&device_bytes(), &mut stats), STATUS_SUCCESS);
    assert_eq!(s.bytes_per_sec, 192_000);
    assert_eq!(stats.get(SET_FORMAT_CALLS), 2);
    assert_eq!(stats.get(SET_FORMAT_OK), 1);
    assert_eq!(stats.get(LAST_RATE), 48_000);
}

#[test]
fn states_change_one_by_one() {
    let mut s = WaveRTStream::new(1, 2, false);
    assert_eq!(s.set_state(KSSTATE::KSSTATE_RUN, 5), STATUS_INVALID_DEVICE_REQUEST);
    assert_eq!(s.state, KSSTATE::KSSTATE_STOP);
    assert_eq!(s.set_state(KSSTATE::KSSTATE_ACQUIRE, 5), STATUS_SUCCESS);
    assert_eq!(s.set_state(KSSTATE::KSSTATE_ACQUIRE, 5), STATUS_SUCCESS);
    assert_eq!(s.set_state(KSSTATE::KSSTATE_PAUSE, 5), STATUS_SUCCESS);
    assert_eq!(s.set_state(KSSTATE::KSSTATE_STOP, 5), STATUS_INVALID_DEVICE_REQUEST);
    assert_eq!(s.set_state(KSSTATE::KSSTATE_RUN, 77), STATUS_SUCCESS);
    assert_eq!(s.qpc_anchor, 77);
}

#[test]
fn played_bytes_are_heard() {
    let mut ring = Some(RingBuffer::new(vec![0; 4096], 4096));
    let mut speaker = ready_stream(false, 1920);
    for (i, b) in speaker.dma_buffer.iter_mut().enumerate() {
        *b = i as u8;
    }
    // 5 ms at 192000 bytes a second.
    let (status, at) = speaker.get_position(&mut ring, 50_000, 10_000_000);
    assert_eq!((status, at.PlayOffset, at.WriteOffset), (STATUS_SUCCESS, 960, 960));
    let mut mic = ready_stream(true, 1920);
    let (_, at) = mic.get_position(&mut ring, 50_000, 10_000_000);
    assert_eq!(at.PlayOffset, 960);
    assert_eq!(mic.dma_buffer[..960], speaker.dma_buffer[..960]);
    // Nothing more was played: silence follows.
    mic.dma_buffer[960] = 0xAA;
    let (_, at) = mic.get_position(&mut ring, 60_000, 10_000_000);
    assert_eq!(at.PlayOffset, 1152);
    assert_eq!(mic.dma_buffer[960], 0);
}

#[test]
fn positions_stay_on_whole_frames() {
    let mut ring = Some(RingBuffer::new(vec![0; 4096], 4096));
    let mut s = ready_stream(false, 1920);
    // 7.3 ms are 1401.6 bytes.
    let (_, at) = s.get_position(&mut ring, 73_000, 10_000_000);
    assert_eq!(at.PlayOffset, 1400);
    // A long pause moves on by one buffer only.
    let (_, at) = s.get_position(&mut ring, 900_000_000, 10_000_000);
    assert_eq!(s.position, 1400 + 1920);
    assert_eq!(at.PlayOffset, 1400);
}

#[test]
fn streams_stand_still_without_a_buffer_or_out_of_run() {
    let mut ring = Some(RingBuffer::new(vec![0; 64], 64));
    let mut s = WaveRTStream::new(1, 2, false);
    let (_, at) = s.get_position(&mut ring, 50_000, 10_000_000);
    assert_eq!((at.PlayOffset, at.WriteOffset), (0, 0));
    let mut s = ready_stream(false, 1920);
    s.get_position(&mut ring, 10_000, 10_000_000);
    assert_eq!(s.position, 192);
    s.set_state(KSSTATE::KSSTATE_PAUSE, 0);
    s.get_position(&mut ring, 90_000, 10_000_000);
    assert_eq!(s.position, 192);
    s.set_state(KSSTATE::KSSTATE_RUN, 90_000);
    s.get_position(&mut ring, 100_000, 10_000_000);
    assert_eq!(s.position, 384);
    s.set_state(KSSTATE::KSSTATE_PAUSE, 0);
    s.set_state(KSSTATE::KSSTATE_ACQUIRE, 0);
    assert_eq!(s.position, 0);
    assert_eq!(s.free_audio_buffer(9), (true, true));
    assert_eq!((s.dma_size, s.dma_buffer.len(), s.buffer_mdl), (0, 0, 0));
    assert_eq!(s.free_audio_buffer(0), (false, false));
}

#[test]
fn buffers_can_be_refused() {
    let mut s = WaveRTStream::new(1, 2, false);
    assert_eq!(s.allocate_audio_buffer(0), AllocateStep::Refuse(STATUS_UNSUCCESSFUL));
    assert_eq!(s.pages_allocated(0), AllocateStep::Refuse(STATUS_UNSUCCESSFUL));
    assert_eq!(
        s.pages_mapped(64, 9, None),
        AllocateStep::FreePages(9, STATUS_UNSUCCESSFUL)
    );
    assert_eq!(s.dma_size, 0);
    let latency = s.get_hw_latency();
    assert_eq!((latency.FifoSize, latency.ChipsetDelay, latency.CodecDelay), (0, 0, 0));
    assert_eq!(s.get_position_register().0, STATUS_NOT_SUPPORTED);
    assert_eq!(s.get_clock_register().0, STATUS_NOT_SUPPORTED);
    assert_eq!(s.query_interface(&IID_IMiniportWaveRTStream()), (STATUS_SUCCESS, true));
    assert_eq!(s.query_interface(&IID_IMiniportWaveRT()), (E_NOINTERFACE, false));
    assert_eq!(s.add_ref(), 3);
    assert_eq!(s.release(), 2);
}

// ---- proposals ----

fn request(verb: u32, instance: Option<Vec<u8>>, value: Vec<u8>) -> PCPROPERTY_REQUEST {
    PCPROPERTY_REQUEST {
        MajorTarget: 1,
        MinorTarget: 0,
        Node: 0,
        PropertyItem: Some(topo_volume_property_item()),
        Verb: verb,
        InstanceSize: instance.as_ref().map_or(0, |i| i.len() as u32),
        Instance: instance,
        ValueSize: value.len() as u32,
        Value: Some(value),
        Irp: 0,
    }
}

fn pin_instance(pin: u32, mode: Option<GUID>) -> Vec<u8> {
    let mut b = vec![0; 24];
    b.extend_from_slice(&pin.to_le_bytes());
    b.extend_from_slice(&[0; 4]);
    if let Some(m) = mode {
        b.extend_from_slice(&48u32.to_le_bytes());
        b.extend_from_slice(&1u32.to_le_bytes());
        b.extend_from_slice(&40u32.to_le_bytes());
        b.extend_from_slice(&[0; 4]);
        b.extend_from_slice(&guid_bytes(&KSATTRIBUTEID_AUDIOSIGNALPROCESSING_MODE()));
        b.extend_from_slice(&guid_bytes(&m));
    }
    b
}

#[test]
fn asking_for_the_room_works() {
    let mut stats = DebugStats::new();
    let instance = pin_instance(0, Some(AUDIO_SIGNALPROCESSINGMODE_NOTIFICATION()));
    let mut r = request(KSPROPERTY_TYPE_GET, Some(instance.clone()), vec![]);
    assert_eq!(wave_format_property_handler(false, &mut r, &mut stats), STATUS_BUFFER_OVERFLOW);
    assert_eq!(r.ValueSize, 104 + 48);
    r.Value = Some(vec![0; 152]);
    assert_eq!(wave_format_property_handler(false, &mut r, &mut stats), STATUS_SUCCESS);
    let v = r.Value.clone().expect("value");
    let mut expected = device_bytes();
    expected[4] = 2;
    assert_eq!(v[..104], expected[..]);
    assert_eq!(v[104..], instance[32..]);
    assert_eq!(stats.get(PROPOSED_GET), 2);
    assert_eq!(stats.get(PROPOSED_ATTR_LEN), 48);
    r.ValueSize = 151;
    assert_eq!(wave_format_property_handler(false, &mut r, &mut stats), STATUS_BUFFER_TOO_SMALL);
    assert_eq!(r.ValueSize, 152);
}

#[test]
fn unknown_modes_are_refused() {
    let mut stats = DebugStats::new();
    let mut r = request(
        KSPROPERTY_TYPE_GET,
        Some(pin_instance(0, Some(KSNODETYPE_SPEAKER()))),
        vec![0; 200],
    );
    assert_eq!(wave_format_property_handler(false, &mut r, &mut stats), STATUS_NOT_SUPPORTED);
    let mut other = pin_instance(0, Some(AUDIO_SIGNALPROCESSINGMODE_DEFAULT()));
    other[48] ^= 1;
    let mut r = request(KSPROPERTY_TYPE_GET, Some(other), vec![0; 200]);
    assert_eq!(wave_format_property_handler(false, &mut r, &mut stats), STATUS_NOT_SUPPORTED);
    let mut size = pin_instance(0, Some(AUDIO_SIGNALPROCESSINGMODE_DEFAULT()));
    size[40] = 39;
    let mut r = request(KSPROPERTY_TYPE_GET, Some(size), vec![0; 200]);
    assert_eq!(wave_format_property_handler(false, &mut r, &mut stats), STATUS_NOT_SUPPORTED);
    assert_eq!(modes().len(), 6);
    assert!(is_supported_mode(&AUDIO_SIGNALPROCESSINGMODE_DEFAULT()));
    assert!(!is_supported_mode(&KSNODETYPE_SPEAKER()));
}

#[test]
fn offered_format_is_taken_and_others_are_not() {
    let mut stats = DebugStats::new();
    let mut r = request(KSPROPERTY_TYPE_SET, Some(pin_instance(0, None)), device_bytes());
    assert_eq!(wave_format_property_handler(false, &mut r, &mut stats), STATUS_SUCCESS);
    assert_eq!(wave_format_property_handler(true, &mut r, &mut stats), STATUS_NOT_SUPPORTED);
    r.Value.as_mut().expect("value")[78] = 24;
    assert_eq!(wave_format_property_handler(false, &mut r, &mut stats), STATUS_NO_MATCH);
    assert_eq!((stats.get(PROPOSED_SET_OK), stats.get(PROPOSED_SET_REJECT)), (1, 1));
    r.ValueSize = 0;
    assert_eq!(wave_format_property_handler(false, &mut r, &mut stats), STATUS_BUFFER_OVERFLOW);
    assert_eq!(r.ValueSize, 104);
    r.ValueSize = 103;
    assert_eq!(wave_format_property_handler(false, &mut r, &mut stats), STATUS_BUFFER_TOO_SMALL);
    let mut r = request(KSPROPERTY_TYPE_SET, Some(pin_instance(7, None)), device_bytes());
    assert_eq!(wave_format_property_handler(false, &mut r, &mut stats), STATUS_INVALID_PARAMETER);
    let mut r = request(KSPROPERTY_TYPE_SET, None, device_bytes());
    assert_eq!(wave_format_property_handler(false, &mut r, &mut stats), STATUS_INVALID_PARAMETER);
}

#[test]
fn verbs_are_told() {
    let mut stats = DebugStats::new();
    let mut r = request(KSPROPERTY_TYPE_BASICSUPPORT, None, vec![0; 8]);
    assert_eq!(wave_format_property_handler(false, &mut r, &mut stats), STATUS_SUCCESS);
    assert_eq!(r.ValueSize, 4);
    assert_eq!(u32_of(&r.Value.clone().expect("value"), 0), 0x203);
    r.ValueSize = 3;
    assert_eq!(wave_format_property_handler(false, &mut r, &mut stats), STATUS_BUFFER_TOO_SMALL);
    r.Verb = 4;
    assert_eq!(wave_format_property_handler(false, &mut r, &mut stats), STATUS_INVALID_PARAMETER);
    r.PropertyItem = None;
    assert_eq!(wave_format_property_handler(false, &mut r, &mut stats), STATUS_INVALID_PARAMETER);
    assert_eq!(stream_pin_kind(0, false, 0), PinKind::Invalid);
    assert_eq!(stream_pin_kind(1, false, 1), PinKind::Bridge);
    assert_eq!(stream_pin_kind(1, true, 1), PinKind::Stream);
    assert_eq!(stream_pin_kind(1, true, 2), PinKind::Invalid);
}

// ---- the miniport ----

fn pcm_range() -> KSDATARANGE {
    KSDATARANGE {
        FormatSize: 64,
        Flags: 0,
        SampleSize: 0,
        Reserved: 0,
        MajorFormat: KSDATAFORMAT_TYPE_AUDIO(),
        SubFormat: KSDATAFORMAT_SUBTYPE_PCM(),
        Specifier: KSDATAFORMAT_SPECIFIER_WAVEFORMATEX(),
    }
}

#[test]
fn intersection_tells_the_room_and_gives_a_stream_format() {
    let mut stats = DebugStats::new();
    let mp = MiniportWaveRT::create(5, 6, 7, false);
    let mut none = None;
    let (status, need) = mp.data_range_intersection(&pcm_range(), 0, &mut none, &mut stats);
    assert_eq!((status, need), (STATUS_BUFFER_OVERFLOW, 84));
    let mut small = Some(vec![0; 83]);
    assert_eq!(
        mp.data_range_intersection(&pcm_range(), 83, &mut small, &mut stats),
        (STATUS_BUFFER_TOO_SMALL, 84)
    );
    let mut out = Some(vec![0; need as usize]);
    assert_eq!(
        mp.data_range_intersection(&pcm_range(), need, &mut out, &mut stats),
        (STATUS_SUCCESS, 84)
    );
    let b = out.expect("out");
    assert_eq!(u32_of(&b, 0), 84);
    assert_eq!(b[64..68], [1, 0, 2, 0]);
    assert!(check_stream_format(&b));
    assert_eq!(stats.get(RANGE_OK), 1);
    let other = KSDATARANGE { SubFormat: KSDATAFORMAT_SUBTYPE_ANALOG(), ..pcm_range() };
    let mut out = Some(vec![0; 84]);
    assert_eq!(
        mp.data_range_intersection(&other, 84, &mut out, &mut stats),
        (STATUS_NO_MATCH, 0)
    );
    assert_eq!(stats.get(RANGE_LAST_STATUS), 0xC000_0272);
}

#[test]
fn interfaces_are_handed_out_and_counted() {
    let mut stats = DebugStats::new();
    let mut mp = MiniportWaveRT::create(5, 6, 7, true);
    assert_eq!(
        mp.query_interface(&IID_IUnknown(), &mut stats),
        (STATUS_SUCCESS, Some(Handed::Miniport))
    );
    match mp.query_interface(&IID_IPINCOUNT(), &mut stats) {
        (STATUS_SUCCESS, Some(Handed::Sub(s))) => {
            assert_eq!(s.vtbl, SubInterface::PinCount);
            assert_eq!(sub_owner(&s), 5);
        }
        other => panic!("{other:?}"),
    }
    assert!(mp.query_interface(&IID_IMINIPORT_AUDIO_SIGNAL_PROCESSING(), &mut stats).1.is_some());
    assert_eq!(mp.refcount, 4);
    assert_eq!(
        mp.query_interface(&IID_IMINIPORT_AUDIO_ENGINE_NODE(), &mut stats),
        (E_NOINTERFACE, None)
    );
    assert_eq!(mp.refcount, 4);
    assert_eq!((stats.get(QI_COUNT), stats.get(QI_OK)), (4, 3));
    assert_eq!(stats.get(QI_RECENT + 3), 0x2EBF_536C);
    assert_eq!(mp.release(), 3);
    assert_eq!(mp.add_ref(), 4);
    assert_eq!(mp.init(44, &mut stats), STATUS_SUCCESS);
    assert_eq!((mp.adapter, stats.get(INIT_CALLS)), (44, 1));
    mp.set_ring(8);
    mp.set_paired(9);
    assert_eq!((mp.ring, mp.paired), (8, 9));
    assert_eq!((host_pin_id(true), host_pin_id(false)), (1, 0));
}

#[test]
fn streams_are_made_of_pcm_only() {
    let mut stats = DebugStats::new();
    let mp = MiniportWaveRT::create(5, 6, 7, true);
    let format = device_format().data_format;
    let (status, s) = mp.new_stream(5, 3, true, &format, true, &mut stats);
    assert_eq!(status, STATUS_SUCCESS);
    let s = s.expect("stream");
    assert_eq!((s.port_stream, s.miniport, s.capture), (3, 5, true));
    let (status, s) = mp.new_stream(5, 3, true, &format, false, &mut stats);
    assert!(status == STATUS_INSUFFICIENT_RESOURCES && s.is_none());
    let other = KSDATAFORMAT { SubFormat: KSDATAFORMAT_SUBTYPE_ANALOG(), ..format };
    let (status, s) = mp.new_stream(5, 3, true, &other, true, &mut stats);
    assert!(status == STATUS_INVALID_DEVICE_REQUEST && s.is_none());
    assert_eq!(stats.get(NEW_STREAM_CALLS), 3);
}

#[test]
fn set_device_format_is_read_back() {
    let mut stats = DebugStats::new();
    let mut mp = MiniportWaveRT::create(5, 6, 7, false);
    let mut out = Some(vec![0; 104]);
    assert_eq!(mp.ae_get_device_format(0, &mut out, 104, &mut stats), STATUS_SUCCESS);
    assert_eq!(out, Some(device_bytes()));
    let mut other = device_bytes();
    other[68..72].copy_from_slice(&44_100u32.to_le_bytes());
    assert_eq!(
        mp.ae_set_device_format(0, &Some(other[..84].to_vec()), 84, &mut stats),
        STATUS_BUFFER_TOO_SMALL
    );
    assert_eq!(
        mp.ae_set_device_format(1, &Some(other.clone()), 104, &mut stats),
        STATUS_INVALID_DEVICE_REQUEST
    );
    assert_eq!(
        mp.ae_set_device_format(0, &Some(other.clone()), 104, &mut stats),
        STATUS_SUCCESS
    );
    assert_eq!((stats.get(AE_STORED_TAG), stats.get(AE_STORED_RATE)), (0xFFFE, 44_100));
    assert_eq!(mp.ae_get_device_format(0, &mut out, 104, &mut stats), STATUS_SUCCESS);
    assert_eq!(out, Some(other));
    assert_eq!(mp.ae_get_mix_format(0, &mut out, 104, &mut stats), STATUS_SUCCESS);
    assert_eq!(out, Some(encode_format(&mix_format())));
    assert_eq!(mp.ae_get_mix_format(1, &mut out, 104, &mut stats), STATUS_INVALID_DEVICE_REQUEST);
    assert_eq!(mp.ae_get_mix_format(0, &mut None, 104, &mut stats), STATUS_BUFFER_TOO_SMALL);
}

#[test]
fn engine_answers() {
    let mut stats = DebugStats::new();
    let mp = MiniportWaveRT::create(5, 6, 7, true);
    let d = mp.ae_get_descriptor(true, &mut stats).1.expect("descriptor");
    assert_eq!((d.host_pin_id, d.offload, d.loopback), (1, u32::MAX, u32::MAX));
    assert_eq!(mp.ae_get_descriptor(false, &mut stats), (STATUS_INVALID_PARAMETER, None));
    assert_eq!(mp.ae_get_gfx_state(true, &mut stats), (STATUS_SUCCESS, Some(0)));
    assert_eq!(mp.ae_set_gfx_state(&mut stats), STATUS_SUCCESS);
    assert_eq!(mp.ae_get_engine_format_size(0, 2, true, &mut stats), (STATUS_SUCCESS, Some(112)));
    assert_eq!(stats.get(AE_FMT_SIZE_OUT), 112);
    assert_eq!(mp.ae_get_engine_format_size(0, 0, true, &mut stats), (STATUS_SUCCESS, Some(104)));
    assert_eq!(
        mp.ae_get_device_channel_count(0, 3, true, &mut stats),
        (STATUS_INVALID_DEVICE_REQUEST, None)
    );
    assert_eq!(stats.get(AE_LAST_FAIL_IDX), 8);
    assert_eq!(stats.get(AE_LAST_FAIL_STATUS), 0xC000_0010);
    assert_eq!(mp.ae_get_device_channel_count(0, 2, true, &mut stats), (STATUS_SUCCESS, Some(2)));
    assert_eq!(stats.get(AE_CALLS + 8), 2);
    let (_, s) = mp.ae_get_device_attribute_steppings(0, true, 16, &mut stats);
    let s = s.expect("stepping");
    assert_eq!((s.stepping_delta, s.min, s.max), (1, i32::MIN, i32::MAX));
    assert_eq!(
        mp.ae_get_device_attribute_steppings(0, true, 15, &mut stats),
        (STATUS_BUFFER_TOO_SMALL, None)
    );
    assert_eq!(mp.ae_get_device_channel_volume(0, true, &mut stats), (STATUS_SUCCESS, Some(0)));
    assert_eq!(mp.ae_get_device_channel_mute(0, true, &mut stats), (STATUS_SUCCESS, Some(0)));
    assert_eq!(
        mp.ae_get_device_channel_peak_meter(0, true, &mut stats),
        (STATUS_SUCCESS, Some(-10_000))
    );
    assert_eq!(mp.ae_set_device_channel_volume(1, &mut stats), STATUS_INVALID_DEVICE_REQUEST);
    assert_eq!(mp.ae_set_device_channel_mute(0, &mut stats), STATUS_SUCCESS);
    let (_, r) = mp.ae_get_buffer_size_range(0, &Some(device_bytes()), true, &mut stats);
    let r = r.expect("range");
    assert_eq!((r.min_buffer_bytes, r.max_buffer_bytes), (1_920, 96_000));
    let mut out = Some(vec![0; 112]);
    assert_eq!(mp.ae_get_supported_device_formats(0, &mut out, 112, &mut stats), STATUS_SUCCESS);
    let b = out.expect("formats");
    assert_eq!((u32_of(&b, 0), u32_of(&b, 4)), (112, 1));
    assert_eq!(b[8..], device_bytes()[..]);
    let mut head = Some(vec![0; 20]);
    assert_eq!(
        mp.ae_get_supported_device_formats(0, &mut head, 20, &mut stats),
        STATUS_BUFFER_TOO_SMALL
    );
    assert_eq!(u32_of(&head.expect("head"), 0), 112);
    let mut tiny = Some(vec![7; 7]);
    assert_eq!(
        mp.ae_get_supported_device_formats(0, &mut tiny, 7, &mut stats),
        STATUS_BUFFER_TOO_SMALL
    );
    assert_eq!(tiny, Some(vec![7; 7]));
}

#[test]
fn modes_are_listed() {
    let mut stats = DebugStats::new();
    let mp = MiniportWaveRT::create(5, 6, 7, true);
    assert_eq!(mp.get_modes(1, false, None, &mut stats).0, STATUS_INVALID_PARAMETER);
    let (status, n, list) = mp.get_modes(1, false, Some(0), &mut stats);
    assert!(status == STATUS_BUFFER_TOO_SMALL && n == Some(6) && list.is_none());
    let (status, n, list) = mp.get_modes(1, true, Some(6), &mut stats);
    assert!(status == STATUS_SUCCESS && n == Some(6));
    assert_eq!(list.map(|l| l.len()), Some(6));
}

#[test]
fn snapshot_holds_every_counter() {
    let mut stats = DebugStats::new();
    stats.dbg_inc(INIT_CALLS);
    stats.ae_tick(15, STATUS_NOT_SUPPORTED);
    let snapshot = stats.snapshot();
    assert_eq!(snapshot.len(), STATS_SIZE as usize);
    assert_eq!(u32_of(&snapshot, 0), 1);
    assert_eq!(u32_of(&snapshot, 4 * AE_LAST_FAIL_IDX), 15);
    assert_eq!(u32_of(&snapshot, 4 * (AE_CALLS + 15)), 1);
    let mut r = request(KSPROPERTY_TYPE_GET, None, vec![0; 275]);
    assert_eq!(stats.vdev_debug_property_handler(&mut r), STATUS_BUFFER_TOO_SMALL);
    assert_eq!(r.ValueSize, 276);
    let mut r = request(KSPROPERTY_TYPE_GET, None, vec![0; 276]);
    assert_eq!(stats.vdev_debug_property_handler(&mut r), STATUS_SUCCESS);
    assert_eq!(r.Value, Some(snapshot));
    r.Verb = KSPROPERTY_TYPE_SET;
    assert_eq!(stats.vdev_debug_property_handler(&mut r), STATUS_INVALID_PARAMETER);
}

// ---- the adapter ----

fn adapter(instances: &mut Instances) -> Option<AdapterCommon> {
    AdapterCommon::create(instances, 3, true, Ok(4), Some(vec![0; RING_SIZE]))
}

#[test]
fn there_is_one_adapter_at_most() {
    let mut n = Instances { count: 0 };
    assert!(AdapterCommon::create(&mut n, 3, false, Ok(4), Some(vec![0; RING_SIZE])).is_none());
    assert!(AdapterCommon::create(&mut n, 3, true, Err(-1), Some(vec![0; RING_SIZE])).is_none());
    assert!(AdapterCommon::create(&mut n, 3, true, Ok(4), None).is_none());
    assert_eq!(n.count, 0);
    let mut a = adapter(&mut n).expect("adapter");
    assert_eq!((n.count, a.device_object, a.physical_device_object), (1, 3, 4));
    assert!(adapter(&mut n).is_none());
    assert_eq!(a.query_interface(&IID_IAdapterCommon()), (STATUS_SUCCESS, true));
    assert_eq!(a.release(&mut n), (1, vec![]));
    assert_eq!(a.release(&mut n), (0, vec![Cleanup::FreeRing, Cleanup::FreeAdapter]));
    assert!(adapter(&mut n).is_some());
}

#[test]
fn adapter_is_prepared_as_far_as_it_goes() {
    let mut n = Instances { count: 0 };
    let mut a = AdapterCommon::create(&mut n, 3, true, Ok(4), Some(vec![0; RING_SIZE]))
        .expect("adapter");
    assert_eq!(a.init(5, Err(-7), Some(vec![0; RING_SIZE])), -7);
    assert_eq!((a.device_object, a.physical_device_object), (5, 4));
    assert_eq!(a.init(6, Ok(8), None), STATUS_INSUFFICIENT_RESOURCES);
    assert_eq!((a.device_object, a.physical_device_object), (6, 8));
    a.ring.as_mut().expect("ring").write(&[1, 2]);
    assert_eq!(a.init(9, Ok(10), Some(vec![0; RING_SIZE])), STATUS_SUCCESS);
    let ring = a.ring.as_ref().expect("ring");
    assert_eq!((ring.readable(), ring.capacity()), (0, RING_SIZE));
}

/// Runs the installation; the step with the number `fails` goes wrong. Handles are counted up.
fn install(a: &mut AdapterCommon, fails: Option<usize>) -> (i32, Vec<Ask>, Vec<Effect>) {
    let mut phase = install_virtual_cable();
    let mut asks = Vec::new();
    let mut effects = Vec::new();
    let mut n = 0;
    loop {
        let ask = next_ask(a, phase);
        if let Ask::Finish(status) = ask {
            return (status, asks, effects);
        }
        asks.push(ask);
        let reply = if fails == Some(n) {
            Reply { status: STATUS_UNSUCCESSFUL, handle: 0 }
        } else {
            Reply { status: STATUS_SUCCESS, handle: 100 + n as u64 }
        };
        n += 1;
        let (next, mut out) = resume(a, phase, reply);
        effects.append(&mut out);
        phase = next;
    }
}

#[test]
fn installation_connects_all_endpoints() {
    let mut n = Instances { count: 0 };
    let mut a = adapter(&mut n).expect("adapter");
    let (status, asks, effects) = install(&mut a, None);
    assert_eq!(status, STATUS_SUCCESS);
    assert_eq!(asks.len(), 18);
    assert_eq!(asks[0], Ask::NewPort(Endpoint::WaveCapture));
    assert_eq!(
        asks[16],
        Ask::Connect(Connection { from: 104, from_pin: 1, to: 112, to_pin: 0 })
    );
    assert_eq!(
        asks[17],
        Ask::Connect(Connection { from: 108, from_pin: 1, to: 100, to_pin: 0 })
    );
    assert_eq!((a.mic, a.speaker, a.topo_mic, a.topo_speaker), (101, 105, 109, 113));
    assert!(effects.contains(&Effect::Pair(101, 105)));
    assert!(effects.contains(&Effect::SetRing(101)) && effects.contains(&Effect::SetRing(105)));
    assert_eq!(start_device(true, status), (STATUS_SUCCESS, false));
    assert_eq!(start_device(true, STATUS_UNSUCCESSFUL), (STATUS_UNSUCCESSFUL, true));
    assert_eq!(start_device(false, 0), (STATUS_INSUFFICIENT_RESOURCES, false));
}

#[test]
fn failed_installation_leaves_nothing() {
    for fails in 0..18 {
        let mut n = Instances { count: 0 };
        let mut a = adapter(&mut n).expect("adapter");
        let (status, asks, effects) = install(&mut a, Some(fails));
        assert!(status < 0);
        assert!(!a.phys_render_connected && !a.phys_capture_connected);
        let registered = asks[..fails].iter().filter(|s| matches!(s, Ask::Register(..))).count();
        let unregistered = effects.iter().filter(|e| matches!(e, Effect::Unregister(_))).count();
        assert_eq!(unregistered, registered);
        let connected = asks[..fails].iter().filter(|s| matches!(s, Ask::Connect(_))).count();
        let cut = effects.iter().filter(|e| matches!(e, Effect::Disconnect(_))).count();
        assert_eq!(cut, connected);
        let made = asks[..fails].iter().filter(|s| matches!(s, Ask::NewMiniport(_))).count();
        let at_once = effects.iter().filter(|e| matches!(e, Effect::ReleaseMiniport(_))).count();
        let (_, freed) = a.release(&mut n);
        let at_the_end = freed
            .iter()
            .filter(|c| matches!(c, Cleanup::ReleaseMiniport(_) | Cleanup::ReleaseTopology(_)))
            .count();
        assert_eq!(at_once + at_the_end, made);
        assert_eq!(n.count, 0);
    }
}

#[test]
fn endpoints_are_named() {
    let name = |e| {
        let wide = subdevice_name(e);
        String::from_utf16_lossy(&wide[..wide.len() - 1])
    };
    assert_eq!(name(Endpoint::WaveCapture), "WaveCapture-0");
    assert_eq!(name(Endpoint::TopologyRender), "TopologyRender-0");
    assert_eq!(port_class(Endpoint::WaveRender).data1, CLSID_PortWaveRT().data1);
    assert_eq!(port_class(Endpoint::TopologyCapture).data1, CLSID_PortTopology().data1);
}
