//! The WaveRT miniport of one endpoint: what its filter looks like, which formats it agrees to,
//! which interfaces it has, and the streams it opens.
use crate::bytes;
use crate::com;
use crate::endpoint_names;
use crate::guid;
use crate::guid::GUID;
use crate::ks;
use crate::ks::{
    DataRangeSlot, KsAttribute, KsAttributeList, PropertyHandler, DEVICE_DESCRIPTION, DMA_SPEED,
    DMA_WIDTH, INTERFACE_TYPE, KSDATAFORMAT, KSDATARANGE, KSDATARANGE_AUDIO, KSPIN_DESCRIPTOR,
    KSPIN_DESCRIPTOR_TAIL, KSPIN_INTERFACE, KSPIN_MEDIUM, PCAUTOMATION_TABLE,
    PCCONNECTION_DESCRIPTOR, PCFILTER_DESCRIPTOR, PCNODE_DESCRIPTOR, PCPIN_DESCRIPTOR,
    PCPROPERTY_ITEM, PVOID, WAVEFORMATEX,
};
use crate::proposal;
use crate::stats;
use crate::stats::DebugStats;
use crate::status::{
    E_NOINTERFACE, NTSTATUS, STATUS_BUFFER_OVERFLOW, STATUS_BUFFER_TOO_SMALL,
    STATUS_INSUFFICIENT_RESOURCES, STATUS_INVALID_DEVICE_REQUEST, STATUS_INVALID_PARAMETER,
    STATUS_NO_MATCH, STATUS_SUCCESS,
};
use crate::stream::WaveRTStream;
use crate::topology;
use crate::wave_format;
use vstd::prelude::*;

verus! {

/// An interface that a miniport hands out besides its own.
#[derive(Clone, Copy, Debug, PartialEq, Eq, Structural)]
pub enum SubInterface {
    PinCount,
    SignalProcessing,
    EngineNode,
}

/// An object inside the miniport that stands for one further interface and leads back to it.
#[derive(Clone, Copy, Debug, PartialEq, Eq, Structural)]
pub struct SubObject {
    pub vtbl: SubInterface,
    pub owner: PVOID,
}

/// What a request for an interface gets.
#[derive(Clone, Copy, Debug, PartialEq, Eq, Structural)]
pub enum Handed {
    Miniport,
    Sub(SubObject),
}

/// The miniport of one endpoint.
pub struct MiniportWaveRT {
    pub refcount: u32,
    pub paired: PVOID,
    pub ring: PVOID,
    pub adapter: PVOID,
    pub device_object: PVOID,
    pub capture: bool,
    pub pin_count_obj: SubObject,
    pub signal_proc_obj: SubObject,
    pub engine_node_obj: SubObject,
    /// The device format that the audio engine has set, meaningful once it has.
    pub device_format: Vec<u8>,
    pub device_format_valid: bool,
}

/// The pins that the audio engine uses.
#[derive(Clone, Copy, Debug, PartialEq, Eq, Structural)]
pub struct KsAudioEngineDescriptor {
    pub host_pin_id: u32,
    pub offload: u32,
    pub loopback: u32,
}

/// The buffer sizes that the audio engine may choose.
#[derive(Clone, Copy, Debug, PartialEq, Eq, Structural)]
pub struct KsAudioEngineBufferSizeRange {
    pub min_buffer_bytes: u32,
    pub max_buffer_bytes: u32,
}

/// The head of a list of items.
#[derive(Clone, Copy, Debug, PartialEq, Eq, Structural)]
pub struct KsMultipleItem {
    pub size: u32,
    pub count: u32,
}

/// The range of a numeric property.
#[derive(Clone, Copy, Debug, PartialEq, Eq, Structural)]
pub struct KsPropertySteppingLong {
    pub stepping_delta: u32,
    pub reserved: u32,
    pub min: i32,
    pub max: i32,
}

/// The only node the engine may address.
pub const AUDIO_ENGINE_NODE_ID: u32 = 0;

/// No such pin.
pub const PIN_ID_NONE: u32 = 0xFFFF_FFFF;

/// The shortest buffer, in milliseconds.
pub const MIN_BUFFER_DURATION_MS: u32 = 10;

/// The longest buffer, in milliseconds.
pub const MAX_BUFFER_DURATION_MS: u32 = 500;

/// The room that the intersection of two data ranges takes.
pub const RANGE_RESULT_SIZE: u32 = 84;

// ---- descriptors ----

/// The data range of a streaming pin: the device format alone, with an attribute list behind it.
pub open spec fn stream_range() -> KSDATARANGE_AUDIO {
    KSDATARANGE_AUDIO {
        DataRange: KSDATARANGE {
            FormatSize: 84,
            Flags: ks::KSDATARANGE_ATTRIBUTES,
            SampleSize: 0,
            Reserved: 0,
            MajorFormat: guid::KSDATAFORMAT_TYPE_AUDIO(),
            SubFormat: guid::KSDATAFORMAT_SUBTYPE_PCM(),
            Specifier: guid::KSDATAFORMAT_SPECIFIER_WAVEFORMATEX(),
        },
        MaximumChannels: 2,
        MinimumBitsPerSample: 16,
        MaximumBitsPerSample: 16,
        MinimumSampleFrequency: 48_000,
        MaximumSampleFrequency: 48_000,
    }
}

/// The attribute that says the range is valid for a signal processing mode.
pub open spec fn mode_attribute() -> KsAttribute {
    KsAttribute {
        Size: 24,
        Flags: 0,
        Attribute: guid::KSATTRIBUTEID_AUDIOSIGNALPROCESSING_MODE(),
    }
}

/// A streaming pin: opened by one client at a time over the looped-streaming interface, with the
/// stream range and its attribute list.
pub open spec fn is_stream_pin(pin: PCPIN_DESCRIPTOR, flow: u32, category: GUID) -> bool {
    let d = pin.KsPinDescriptor;
    &&& pin.MaxGlobalInstanceCount == 1
    &&& pin.MaxFilterInstanceCount == 1
    &&& pin.MinFilterInstanceCount == 0
    &&& pin.AutomationTable is None
    &&& d.InterfacesCount == 1
    &&& d.Interfaces@ == seq![
        KSPIN_INTERFACE {
            Set: guid::KSINTERFACESETID_STANDARD(),
            Id: ks::KSINTERFACE_STANDARD_LOOPED_STREAMING,
            Flags: 0,
        },
    ]
    &&& d.MediumsCount == 1
    &&& d.Mediums@ == seq![
        KSPIN_MEDIUM {
            Set: guid::KSMEDIUMSETID_STANDARD(),
            Id: ks::KSMEDIUM_TYPE_ANYINSTANCE,
            Flags: 0,
        },
    ]
    &&& d.DataRangesCount == 2 && d.DataRanges@.len() == 2
    &&& d.DataRanges@[0] == DataRangeSlot::Audio(stream_range())
    &&& d.DataRanges@[1] is Attributes
    &&& d.DataRanges@[1]->Attributes_0.Count == 1
    &&& d.DataRanges@[1]->Attributes_0.Attributes@ == seq![mode_attribute()]
    &&& d.DataFlow == flow
    &&& d.Communication == ks::KSPIN_COMMUNICATION_SINK
    &&& d.Category == category
    &&& d.Name is None
    &&& d.Reserved == KSPIN_DESCRIPTOR_TAIL::Reserved(0)
}

fn stream_pin(flow: u32, category: GUID) -> (pin: PCPIN_DESCRIPTOR)
    ensures
        is_stream_pin(pin, flow, category),
{
    let mut interfaces: Vec<KSPIN_INTERFACE> = Vec::new();
    interfaces.push(
        KSPIN_INTERFACE {
            Set: guid::KSINTERFACESETID_STANDARD(),
            Id: ks::KSINTERFACE_STANDARD_LOOPED_STREAMING,
            Flags: 0,
        },
    );
    let mut mediums: Vec<KSPIN_MEDIUM> = Vec::new();
    mediums.push(
        KSPIN_MEDIUM {
            Set: guid::KSMEDIUMSETID_STANDARD(),
            Id: ks::KSMEDIUM_TYPE_ANYINSTANCE,
            Flags: 0,
        },
    );
    let mut attributes: Vec<KsAttribute> = Vec::new();
    attributes.push(
        KsAttribute {
            Size: 24,
            Flags: 0,
            Attribute: guid::KSATTRIBUTEID_AUDIOSIGNALPROCESSING_MODE(),
        },
    );
    assert(attributes@ =~= seq![mode_attribute()]);
    let range = KSDATARANGE_AUDIO {
        DataRange: KSDATARANGE {
            FormatSize: 84,
            Flags: ks::KSDATARANGE_ATTRIBUTES,
            SampleSize: 0,
            Reserved: 0,
            MajorFormat: guid::KSDATAFORMAT_TYPE_AUDIO(),
            SubFormat: guid::KSDATAFORMAT_SUBTYPE_PCM(),
            Specifier: guid::KSDATAFORMAT_SPECIFIER_WAVEFORMATEX(),
        },
        MaximumChannels: 2,
        MinimumBitsPerSample: 16,
        MaximumBitsPerSample: 16,
        MinimumSampleFrequency: 48_000,
        MaximumSampleFrequency: 48_000,
    };
    let mut ranges: Vec<DataRangeSlot> = Vec::new();
    ranges.push(DataRangeSlot::Audio(range));
    ranges.push(DataRangeSlot::Attributes(KsAttributeList { Count: 1, Attributes: attributes }));
    PCPIN_DESCRIPTOR {
        MaxGlobalInstanceCount: 1,
        MaxFilterInstanceCount: 1,
        MinFilterInstanceCount: 0,
        AutomationTable: None,
        KsPinDescriptor: KSPIN_DESCRIPTOR {
            InterfacesCount: 1,
            Interfaces: interfaces,
            MediumsCount: 1,
            Mediums: mediums,
            DataRangesCount: 2,
            DataRanges: ranges,
            DataFlow: flow,
            Communication: ks::KSPIN_COMMUNICATION_SINK,
            Category: category,
            Name: None,
            Reserved: KSPIN_DESCRIPTOR_TAIL::Reserved(0),
        },
    }
}

/// The properties of a wave filter: proposing a format, asking for one, and the counters.
pub open spec fn wave_items() -> Seq<PCPROPERTY_ITEM> {
    seq![
        PCPROPERTY_ITEM {
            Set: guid::KSPROPSETID_PIN(),
            Id: ks::KSPROPERTY_PIN_PROPOSEDATAFORMAT,
            Flags: 0x202,
            Handler: PropertyHandler::ProposedFormat,
        },
        PCPROPERTY_ITEM {
            Set: guid::KSPROPSETID_PIN(),
            Id: ks::KSPROPERTY_PIN_PROPOSEDATAFORMAT2,
            Flags: 0x203,
            Handler: PropertyHandler::ProposedFormat,
        },
        PCPROPERTY_ITEM {
            Set: guid::KSPROPSETID_VDEV_DEBUG(),
            Id: ks::KSPROPERTY_VDEV_DEBUG_STATS,
            Flags: 0x1,
            Handler: PropertyHandler::DebugStats,
        },
    ]
}

fn wave_automation() -> (table: PCAUTOMATION_TABLE)
    ensures
        topology::is_property_table(table, wave_items()),
{
    let mut items: Vec<PCPROPERTY_ITEM> = Vec::new();
    items.push(
        PCPROPERTY_ITEM {
            Set: guid::KSPROPSETID_PIN(),
            Id: ks::KSPROPERTY_PIN_PROPOSEDATAFORMAT,
            Flags: 0x202,
            Handler: PropertyHandler::ProposedFormat,
        },
    );
    items.push(
        PCPROPERTY_ITEM {
            Set: guid::KSPROPSETID_PIN(),
            Id: ks::KSPROPERTY_PIN_PROPOSEDATAFORMAT2,
            Flags: 0x203,
            Handler: PropertyHandler::ProposedFormat,
        },
    );
    items.push(
        PCPROPERTY_ITEM {
            Set: guid::KSPROPSETID_VDEV_DEBUG(),
            Id: ks::KSPROPERTY_VDEV_DEBUG_STATS,
            Flags: 0x1,
            Handler: PropertyHandler::DebugStats,
        },
    );
    assert(items@ =~= wave_items());
    PCAUTOMATION_TABLE {
        PropertyItemSize: 24,
        PropertyCount: 3,
        Properties: items,
        MethodItemSize: 0,
        MethodCount: 0,
        Methods: 0,
        EventItemSize: 0,
        EventCount: 0,
        Events: 0,
        Reserved: 0,
    }
}

/// The categories of a wave filter. Without playback and recording among them no endpoint
/// appears.
pub open spec fn wave_categories() -> Seq<GUID> {
    seq![
        guid::KSCATEGORY_AUDIO(),
        guid::KSCATEGORY_RENDER(),
        guid::KSCATEGORY_CAPTURE(),
        guid::KSCATEGORY_REALTIME(),
    ]
}

/// A wave filter: its properties and categories, no nodes, and one connection from pin to pin.
pub open spec fn is_wave_filter(d: PCFILTER_DESCRIPTOR) -> bool {
    &&& d.Version == 0
    &&& d.AutomationTable is Some
    &&& topology::is_property_table(d.AutomationTable->0, wave_items())
    &&& d.Nodes@.len() == 0
    &&& d.Connections@ == seq![
        PCCONNECTION_DESCRIPTOR {
            FromNode: ks::PCFILTER_NODE,
            FromNodePin: 0,
            ToNode: ks::PCFILTER_NODE,
            ToNodePin: 1,
        },
    ]
    &&& d.Categories@ == wave_categories()
    &&& topology::is_consistent_filter(d)
}

/// The playback wave filter: streaming in on pin 0, joined to the topology on pin 1.
pub open spec fn is_render_wave(d: PCFILTER_DESCRIPTOR) -> bool {
    &&& is_wave_filter(d)
    &&& d.Pins@.len() == 2
    &&& is_stream_pin(
        d.Pins@[endpoint_names::WAVE_RENDER_HOST_PIN as int],
        ks::KSPIN_DATAFLOW_IN,
        guid::KSNODETYPE_SPEAKER(),
    )
    &&& topology::is_bridge_pin(
        d.Pins@[endpoint_names::WAVE_RENDER_BRIDGE_PIN as int],
        ks::KSPIN_DATAFLOW_OUT,
        guid::KSNODETYPE_SPEAKER(),
    )
}

/// The recording wave filter: joined to the topology on pin 0, streaming out on pin 1.
pub open spec fn is_capture_wave(d: PCFILTER_DESCRIPTOR) -> bool {
    &&& is_wave_filter(d)
    &&& d.Pins@.len() == 2
    &&& topology::is_bridge_pin(
        d.Pins@[endpoint_names::WAVE_CAPTURE_BRIDGE_PIN as int],
        ks::KSPIN_DATAFLOW_IN,
        guid::KSNODETYPE_MICROPHONE(),
    )
    &&& is_stream_pin(
        d.Pins@[endpoint_names::WAVE_CAPTURE_HOST_PIN as int],
        ks::KSPIN_DATAFLOW_OUT,
        guid::KSNODETYPE_MICROPHONE(),
    )
}

fn wave_filter(pin0: PCPIN_DESCRIPTOR, pin1: PCPIN_DESCRIPTOR) -> (d: PCFILTER_DESCRIPTOR)
    requires
        pin0.KsPinDescriptor.DataRangesCount >= 1,
        pin0.KsPinDescriptor.DataRangesCount == pin0.KsPinDescriptor.DataRanges@.len(),
        pin0.KsPinDescriptor.InterfacesCount == pin0.KsPinDescriptor.Interfaces@.len(),
        pin0.KsPinDescriptor.MediumsCount == pin0.KsPinDescriptor.Mediums@.len(),
        pin1.KsPinDescriptor.DataRangesCount >= 1,
        pin1.KsPinDescriptor.DataRangesCount == pin1.KsPinDescriptor.DataRanges@.len(),
        pin1.KsPinDescriptor.InterfacesCount == pin1.KsPinDescriptor.Interfaces@.len(),
        pin1.KsPinDescriptor.MediumsCount == pin1.KsPinDescriptor.Mediums@.len(),
    ensures
        is_wave_filter(d),
        d.Pins@ == seq![pin0, pin1],
{
    let mut pins: Vec<PCPIN_DESCRIPTOR> = Vec::new();
    pins.push(pin0);
    pins.push(pin1);
    assert(pins@ =~= seq![pin0, pin1]);
    let nodes: Vec<PCNODE_DESCRIPTOR> = Vec::new();
    let mut connections: Vec<PCCONNECTION_DESCRIPTOR> = Vec::new();
    connections.push(
        PCCONNECTION_DESCRIPTOR {
            FromNode: ks::PCFILTER_NODE,
            FromNodePin: 0,
            ToNode: ks::PCFILTER_NODE,
            ToNodePin: 1,
        },
    );
    let mut categories: Vec<GUID> = Vec::new();
    categories.push(guid::KSCATEGORY_AUDIO());
    categories.push(guid::KSCATEGORY_RENDER());
    categories.push(guid::KSCATEGORY_CAPTURE());
    categories.push(guid::KSCATEGORY_REALTIME());
    assert(categories@ =~= wave_categories());
    let d = PCFILTER_DESCRIPTOR {
        Version: 0,
        AutomationTable: Some(wave_automation()),
        PinSize: 112,
        PinCount: 2,
        Pins: pins,
        NodeSize: 32,
        NodeCount: 0,
        Nodes: nodes,
        ConnectionCount: 1,
        Connections: connections,
        CategoryCount: 4,
        Categories: categories,
    };
    assert(d.Connections@ =~= seq![
        PCCONNECTION_DESCRIPTOR {
            FromNode: ks::PCFILTER_NODE,
            FromNodePin: 0,
            ToNode: ks::PCFILTER_NODE,
            ToNodePin: 1,
        },
    ]);
    d
}

/// The playback wave filter.
pub fn filter_desc_render() -> (d: PCFILTER_DESCRIPTOR)
    ensures
        is_render_wave(d),
{
    let host: PCPIN_DESCRIPTOR = stream_pin(ks::KSPIN_DATAFLOW_IN, guid::KSNODETYPE_SPEAKER());
    let bridge: PCPIN_DESCRIPTOR = topology::bridge_pin(
        ks::KSPIN_DATAFLOW_OUT,
        guid::KSNODETYPE_SPEAKER(),
    );
    wave_filter(host, bridge)
}

/// The recording wave filter.
pub fn filter_desc_capture() -> (d: PCFILTER_DESCRIPTOR)
    ensures
        is_capture_wave(d),
{
    let bridge: PCPIN_DESCRIPTOR = topology::bridge_pin(
        ks::KSPIN_DATAFLOW_IN,
        guid::KSNODETYPE_MICROPHONE(),
    );
    let host: PCPIN_DESCRIPTOR = stream_pin(ks::KSPIN_DATAFLOW_OUT, guid::KSNODETYPE_MICROPHONE());
    wave_filter(bridge, host)
}

/// The pin that clients open.
pub open spec fn host_pin(capture: bool) -> u32 {
    if capture {
        endpoint_names::WAVE_CAPTURE_HOST_PIN
    } else {
        endpoint_names::WAVE_RENDER_HOST_PIN
    }
}

/// The pin that clients open.
pub fn host_pin_id(capture: bool) -> (pin: u32)
    ensures
        pin == host_pin(capture),
{
    if capture {
        endpoint_names::WAVE_CAPTURE_HOST_PIN
    } else {
        endpoint_names::WAVE_RENDER_HOST_PIN
    }
}

/// The object behind a further interface leads back to the miniport.
pub fn sub_owner(sub: &SubObject) -> (owner: PVOID)
    ensures
        owner == sub.owner,
{
    sub.owner
}

// ---- data ranges ----

/// A client's range that meets the device's: integer PCM audio.
pub open spec fn range_meets(client: KSDATARANGE) -> bool {
    client.MajorFormat == guid::KSDATAFORMAT_TYPE_AUDIO() && client.SubFormat
        == guid::KSDATAFORMAT_SUBTYPE_PCM()
}

/// The status of an intersection, for a client with room for `out_len` bytes in a buffer or with
/// none.
pub open spec fn range_status(client: KSDATARANGE, out_len: u32, has_out: bool) -> NTSTATUS {
    if !range_meets(client) {
        STATUS_NO_MATCH
    } else if out_len == 0 || !has_out {
        STATUS_BUFFER_OVERFLOW
    } else if out_len < RANGE_RESULT_SIZE {
        STATUS_BUFFER_TOO_SMALL
    } else {
        STATUS_SUCCESS
    }
}

/// The bytes of the format in the intersection.
pub open spec fn range_result() -> Seq<u8> {
    wave_format::data_format_bytes(
        KSDATAFORMAT {
            FormatSize: 84,
            Flags: 0,
            SampleSize: 0,
            Reserved: 0,
            MajorFormat: guid::KSDATAFORMAT_TYPE_AUDIO(),
            SubFormat: guid::KSDATAFORMAT_SUBTYPE_PCM(),
            Specifier: guid::KSDATAFORMAT_SPECIFIER_WAVEFORMATEX(),
        },
    ) + wave_format::wave_bytes(
        WAVEFORMATEX {
            wFormatTag: 1,
            nChannels: 2,
            nSamplesPerSec: 48_000,
            nAvgBytesPerSec: 192_000,
            nBlockAlign: 4,
            wBitsPerSample: 16,
            cbSize: 0,
        },
    )
}

/// The counters after an intersection was asked for.
pub open spec fn range_noted(
    s: Seq<u32>,
    client: KSDATARANGE,
    out_len: u32,
    has_out: bool,
) -> Seq<u32> {
    let noted = stats::counted(s, stats::RANGE_CALLS as int).update(
        stats::RANGE_LAST_MAJOR as int,
        client.MajorFormat.data1,
    ).update(stats::RANGE_LAST_SUB as int, client.SubFormat.data1).update(
        stats::RANGE_LAST_SPEC as int,
        client.Specifier.data1,
    ).update(stats::RANGE_LAST_FSIZE as int, client.FormatSize).update(
        stats::RANGE_LAST_OUTLEN as int,
        out_len,
    );
    let status = range_status(client, out_len, has_out);
    if status == STATUS_SUCCESS {
        stats::counted(noted, stats::RANGE_OK as int).update(stats::RANGE_OK_SEEN as int, 1)
    } else {
        noted.update(stats::RANGE_LAST_STATUS as int, bytes::bits32(status))
    }
}

// ---- output buffers ----

/// An output buffer as large as the size stated for it, or none.
pub open spec fn is_out(out: Option<Vec<u8>>, size: u32) -> bool {
    out is Some ==> size <= out->0@.len()
}

/// The buffer after `b` was written at its start.
pub open spec fn out_with(out: Option<Vec<u8>>, b: Seq<u8>) -> Seq<u8> {
    bytes::patched(out->0@, 0, b)
}

/// Writes `b` at the start of an output buffer.
fn fill(out: &mut Option<Vec<u8>>, b: &[u8])
    requires
        (*old(out)) is Some,
        b@.len() <= (*old(out))->0@.len(),
    ensures
        (*final(out)) is Some,
        (*final(out))->0@ == out_with(*old(out), b@),
        (*final(out))->0@.len() == (*old(out))->0@.len(),
{
    match out.take() {
        Some(v) => {
            let mut v: Vec<u8> = v;
            bytes::write_at(&mut v, 0, b);
            *out = Some(v);
        },
        None => {},
    }
}

/// The status of a request to the engine node that fills a buffer with one format.
pub open spec fn engine_format_status(node: u32, has_out: bool, size: u32) -> NTSTATUS {
    if node != AUDIO_ENGINE_NODE_ID {
        STATUS_INVALID_DEVICE_REQUEST
    } else if !has_out || size < ks::KSDATAFORMAT_WAVEFORMATEXTENSIBLE_SIZE {
        STATUS_BUFFER_TOO_SMALL
    } else {
        STATUS_SUCCESS
    }
}

/// The status of a request to the engine node for a plain value.
pub open spec fn engine_value_status(node: u32, wanted: bool) -> NTSTATUS {
    if node != AUDIO_ENGINE_NODE_ID || !wanted {
        STATUS_INVALID_DEVICE_REQUEST
    } else {
        STATUS_SUCCESS
    }
}

/// The bytes of the head of a list.
pub open spec fn multiple_item_bytes(item: KsMultipleItem) -> Seq<u8> {
    bytes::le32(item.size) + bytes::le32(item.count)
}

/// The list of the device's formats: a head and the one format.
pub open spec fn format_list() -> Seq<u8> {
    multiple_item_bytes(KsMultipleItem { size: 112, count: 1 }) + wave_format::format_bytes(
        wave_format::device_format_value(),
    )
}

/// The status of a request for the list of formats.
pub open spec fn list_status(node: u32, has_out: bool, size: u32) -> NTSTATUS {
    if node != AUDIO_ENGINE_NODE_ID || !has_out {
        STATUS_INVALID_DEVICE_REQUEST
    } else if size < 112 {
        STATUS_BUFFER_TOO_SMALL
    } else {
        STATUS_SUCCESS
    }
}

impl MiniportWaveRT {
    /// The stored format is a whole one.
    pub open spec fn wf(&self) -> bool {
        self.device_format@.len() == ks::KSDATAFORMAT_WAVEFORMATEXTENSIBLE_SIZE
    }

    /// The format that a reader gets: the one that was set, else the device's own.
    pub open spec fn current_format(&self) -> Seq<u8> {
        if self.device_format_valid {
            self.device_format@
        } else {
            wave_format::format_bytes(wave_format::device_format_value())
        }
    }

    /// A new miniport at handle `this`, referenced once.
    pub fn create(this: PVOID, adapter: PVOID, device_object: PVOID, capture: bool) -> (mp: Self)
        ensures
            mp.wf(),
            mp.refcount == 1,
            mp.paired == 0,
            mp.ring == 0,
            mp.adapter == adapter,
            mp.device_object == device_object,
            mp.capture == capture,
            mp.pin_count_obj == (SubObject { vtbl: SubInterface::PinCount, owner: this }),
            mp.signal_proc_obj == (SubObject { vtbl: SubInterface::SignalProcessing, owner: this }),
            mp.engine_node_obj == (SubObject { vtbl: SubInterface::EngineNode, owner: this }),
            !mp.device_format_valid,
            mp.device_format@ == Seq::new(104, |i: int| 0u8),
    {
        let mut device_format: Vec<u8> = Vec::new();
        let mut i: usize = 0;
        while i < ks::KSDATAFORMAT_WAVEFORMATEXTENSIBLE_SIZE
            invariant
                i <= ks::KSDATAFORMAT_WAVEFORMATEXTENSIBLE_SIZE,
                device_format@ == Seq::new(i as nat, |k: int| 0u8),
            decreases ks::KSDATAFORMAT_WAVEFORMATEXTENSIBLE_SIZE - i,
        {
            device_format.push(0);
            i = i + 1;
            assert(device_format@ =~= Seq::new(i as nat, |k: int| 0u8));
        }
        MiniportWaveRT {
            refcount: 1,
            paired: 0,
            ring: 0,
            adapter,
            device_object,
            capture,
            pin_count_obj: SubObject { vtbl: SubInterface::PinCount, owner: this },
            signal_proc_obj: SubObject { vtbl: SubInterface::SignalProcessing, owner: this },
            engine_node_obj: SubObject { vtbl: SubInterface::EngineNode, owner: this },
            device_format,
            device_format_valid: false,
        }
    }

    /// Pairs this miniport with the other end of the cable.
    pub fn set_paired(&mut self, paired: PVOID)
        ensures
            *final(self) == (MiniportWaveRT { paired, ..*old(self) }),
    {
        self.paired = paired;
    }

    /// Sets the ring that the two ends share.
    pub fn set_ring(&mut self, ring: PVOID)
        ensures
            *final(self) == (MiniportWaveRT { ring, ..*old(self) }),
    {
        self.ring = ring;
    }

    /// What a request for an interface gets.
    pub open spec fn handed(&self, iid: GUID) -> Option<Handed> {
        if iid == guid::IID_IUnknown() || iid == guid::IID_IMiniport() || iid
            == guid::IID_IMiniportWaveRT() {
            Some(Handed::Miniport)
        } else if iid == guid::IID_IPINCOUNT() {
            Some(Handed::Sub(self.pin_count_obj))
        } else if iid == guid::IID_IMINIPORT_AUDIO_SIGNAL_PROCESSING() {
            Some(Handed::Sub(self.signal_proc_obj))
        } else {
            None
        }
    }

    /// Hands out the miniport or one of its further interfaces, with a new reference.
    pub fn query_interface(&mut self, iid: &GUID, stats: &mut DebugStats) -> (r: (
        NTSTATUS,
        Option<Handed>,
    ))
        requires
            old(self).refcount < u32::MAX,
            old(stats).wf(),
        ensures
            r.1 == old(self).handed(*iid),
            r.0 == if r.1 is Some {
                STATUS_SUCCESS
            } else {
                E_NOINTERFACE
            },
            *final(self) == (MiniportWaveRT {
                refcount: if r.1 is Some {
                    (old(self).refcount + 1) as u32
                } else {
                    old(self).refcount
                },
                ..*old(self)
            }),
            final(stats).wf(),
            final(stats)@ == if r.1 is Some {
                stats::counted(stats::asked(old(stats)@, iid.data1), stats::QI_OK as int)
            } else {
                stats::asked(old(stats)@, iid.data1)
            },
    {
        stats.note_query(iid.data1);
        let handed: Option<Handed> = if guid::is_equal_guid(iid, &guid::IID_IUnknown())
            || guid::is_equal_guid(iid, &guid::IID_IMiniport()) || guid::is_equal_guid(
            iid,
            &guid::IID_IMiniportWaveRT(),
        ) {
            Some(Handed::Miniport)
        } else if guid::is_equal_guid(iid, &guid::IID_IPINCOUNT()) {
            Some(Handed::Sub(self.pin_count_obj))
        } else if guid::is_equal_guid(iid, &guid::IID_IMINIPORT_AUDIO_SIGNAL_PROCESSING()) {
            Some(Handed::Sub(self.signal_proc_obj))
        } else {
            None
        };
        if handed.is_none() {
            return (E_NOINTERFACE, None);
        }
        com::interlocked_increment(&mut self.refcount);
        stats.dbg_inc(stats::QI_OK);
        (STATUS_SUCCESS, handed)
    }

    /// Takes a reference.
    pub fn add_ref(&mut self) -> (count: u32)
        requires
            old(self).refcount < u32::MAX,
        ensures
            count == old(self).refcount + 1,
            *final(self) == (MiniportWaveRT { refcount: count, ..*old(self) }),
    {
        com::interlocked_increment(&mut self.refcount)
    }

    /// Gives a reference back; at 0 nobody holds the miniport any more.
    pub fn release(&mut self) -> (count: u32)
        requires
            old(self).refcount > 0,
        ensures
            count == old(self).refcount - 1,
            *final(self) == (MiniportWaveRT { refcount: count, ..*old(self) }),
    {
        com::interlocked_decrement(&mut self.refcount)
    }

    /// The filter this miniport describes.
    pub fn get_description(&self) -> (r: (NTSTATUS, PCFILTER_DESCRIPTOR))
        ensures
            r.0 == STATUS_SUCCESS,
            self.capture ==> is_capture_wave(r.1),
            !self.capture ==> is_render_wave(r.1),
    {
        if self.capture {
            (STATUS_SUCCESS, filter_desc_capture())
        } else {
            (STATUS_SUCCESS, filter_desc_render())
        }
    }

    /// Intersects a client's data range with the device's. The second result is the length of
    /// the format, where the ranges meet.
    pub fn data_range_intersection(
        &self,
        client: &KSDATARANGE,
        out_len: u32,
        out: &mut Option<Vec<u8>>,
        stats: &mut DebugStats,
    ) -> (r: (NTSTATUS, u32))
        requires
            is_out(*old(out), out_len),
            old(stats).wf(),
        ensures
            r.0 == range_status(*client, out_len, (*old(out)) is Some),
            r.1 == if range_meets(*client) {
                RANGE_RESULT_SIZE
            } else {
                0
            },
            r.0 == STATUS_SUCCESS ==> (*final(out)) is Some && (*final(out))->0@ == out_with(
                *old(out),
                range_result(),
            ),
            r.0 != STATUS_SUCCESS ==> *final(out) == *old(out),
            final(stats).wf(),
            final(stats)@ == range_noted(old(stats)@, *client, out_len, (*old(out)) is Some),
    {
        stats.dbg_inc(stats::RANGE_CALLS);
        stats.put(stats::RANGE_LAST_MAJOR, client.MajorFormat.data1);
        stats.put(stats::RANGE_LAST_SUB, client.SubFormat.data1);
        stats.put(stats::RANGE_LAST_SPEC, client.Specifier.data1);
        stats.put(stats::RANGE_LAST_FSIZE, client.FormatSize);
        stats.put(stats::RANGE_LAST_OUTLEN, out_len);
        if !guid::is_equal_guid(&client.MajorFormat, &guid::KSDATAFORMAT_TYPE_AUDIO())
            || !guid::is_equal_guid(&client.SubFormat, &guid::KSDATAFORMAT_SUBTYPE_PCM()) {
            stats.put(stats::RANGE_LAST_STATUS, bytes::status_bits(STATUS_NO_MATCH));
            return (STATUS_NO_MATCH, 0);
        }
        if out_len == 0 || out.is_none() {
            stats.put(stats::RANGE_LAST_STATUS, bytes::status_bits(STATUS_BUFFER_OVERFLOW));
            return (STATUS_BUFFER_OVERFLOW, RANGE_RESULT_SIZE);
        }
        if out_len < RANGE_RESULT_SIZE {
            stats.put(stats::RANGE_LAST_STATUS, bytes::status_bits(STATUS_BUFFER_TOO_SMALL));
            return (STATUS_BUFFER_TOO_SMALL, RANGE_RESULT_SIZE);
        }
        let mut b: Vec<u8> = Vec::new();
        wave_format::push_data_format(
            &mut b,
            &KSDATAFORMAT {
                FormatSize: 84,
                Flags: 0,
                SampleSize: 0,
                Reserved: 0,
                MajorFormat: guid::KSDATAFORMAT_TYPE_AUDIO(),
                SubFormat: guid::KSDATAFORMAT_SUBTYPE_PCM(),
                Specifier: guid::KSDATAFORMAT_SPECIFIER_WAVEFORMATEX(),
            },
        );
        wave_format::push_wave(
            &mut b,
            &WAVEFORMATEX {
                wFormatTag: 1,
                nChannels: 2,
                nSamplesPerSec: 48_000,
                nAvgBytesPerSec: 192_000,
                nBlockAlign: 4,
                wBitsPerSample: 16,
                cbSize: 0,
            },
        );
        assert(b@ =~= range_result());
        fill(out, b.as_slice());
        stats.dbg_inc(stats::RANGE_OK);
        stats.put(stats::RANGE_OK_SEEN, 1);
        (STATUS_SUCCESS, RANGE_RESULT_SIZE)
    }

    /// Remembers the adapter.
    pub fn init(&mut self, unknown_adapter: PVOID, stats: &mut DebugStats) -> (status: NTSTATUS)
        requires
            old(stats).wf(),
        ensures
            status == STATUS_SUCCESS,
            *final(self) == (MiniportWaveRT { adapter: unknown_adapter, ..*old(self) }),
            final(stats).wf(),
            final(stats)@ == stats::counted(old(stats)@, stats::INIT_CALLS as int),
    {
        stats.dbg_inc(stats::INIT_CALLS);
        self.adapter = unknown_adapter;
        STATUS_SUCCESS
    }

    /// Opens a stream for integer PCM, where there is memory for it.
    pub fn new_stream(
        &self,
        this: PVOID,
        port_stream: PVOID,
        capture: bool,
        data_format: &KSDATAFORMAT,
        has_memory: bool,
        stats: &mut DebugStats,
    ) -> (r: (NTSTATUS, Option<WaveRTStream>))
        requires
            old(stats).wf(),
        ensures
            r.0 == if data_format.SubFormat != guid::KSDATAFORMAT_SUBTYPE_PCM() {
                STATUS_INVALID_DEVICE_REQUEST
            } else if !has_memory {
                STATUS_INSUFFICIENT_RESOURCES
            } else {
                STATUS_SUCCESS
            },
            r.1 is Some == (r.0 == STATUS_SUCCESS),
            r.1 is Some ==> {
                let s = r.1->0;
                &&& s.wf()
                &&& s.refcount == 1
                &&& s.capture == capture
                &&& s.miniport == this
                &&& s.port_stream == port_stream
                &&& s.state == ks::KSSTATE::KSSTATE_STOP
                &&& s.dma_size == 0
                &&& s.buffer_mdl == 0
                &&& s.position == 0
                &&& s.last_processed == 0
                &&& s.qpc_anchor == 0
                &&& s.anchor_position == 0
                &&& s.bytes_per_sec == 0
                &&& s.block_align == 4
            },
            final(stats).wf(),
            final(stats)@ == stats::counted(old(stats)@, stats::NEW_STREAM_CALLS as int),
    {
        stats.dbg_inc(stats::NEW_STREAM_CALLS);
        if !guid::is_equal_guid(&data_format.SubFormat, &guid::KSDATAFORMAT_SUBTYPE_PCM()) {
            return (STATUS_INVALID_DEVICE_REQUEST, None);
        }
        if !has_memory {
            return (STATUS_INSUFFICIENT_RESOURCES, None);
        }
        (STATUS_SUCCESS, Some(WaveRTStream::new(this, port_stream, capture)))
    }

    /// A virtual device: no bus, no DMA controller, addresses of 64 bits.
    pub fn get_device_description(&self) -> (r: (NTSTATUS, DEVICE_DESCRIPTION))
        ensures
            r.0 == STATUS_SUCCESS,
            r.1 == (DEVICE_DESCRIPTION {
                Version: ks::DEVICE_DESCRIPTION_VERSION1,
                Master: 0,
                ScatterGather: 0,
                DemandMode: 0,
                AutoInitialize: 0,
                Dma32BitAddresses: 0,
                IgnoreCount: 0,
                Reserved1: 0,
                Dma64BitAddresses: 1,
                BusNumber: 0,
                DmaChannel: 0,
                InterfaceType: INTERFACE_TYPE::Internal,
                DmaWidth: DMA_WIDTH::Width32Bits,
                DmaSpeed: DMA_SPEED::Compatible,
                MaximumLength: 0xFFFF_FFFF,
                DmaPort: 0,
            }),
    {
        (
            STATUS_SUCCESS,
            DEVICE_DESCRIPTION {
                Version: ks::DEVICE_DESCRIPTION_VERSION1,
                Master: 0,
                ScatterGather: 0,
                DemandMode: 0,
                AutoInitialize: 0,
                Dma32BitAddresses: 0,
                IgnoreCount: 0,
                Reserved1: 0,
                Dma64BitAddresses: 1,
                BusNumber: 0,
                DmaChannel: 0,
                InterfaceType: INTERFACE_TYPE::Internal,
                DmaWidth: DMA_WIDTH::Width32Bits,
                DmaSpeed: DMA_SPEED::Compatible,
                MaximumLength: 0xFFFF_FFFF,
                DmaPort: 0,
            },
        )
    }

    /// The signal processing modes, for a caller with room for `room` of them in a list, or
    /// without a list, or without a place for the count. The second result is the count, the
    /// third the list.
    pub fn get_modes(
        &self,
        pin: u32,
        has_list: bool,
        room: Option<u32>,
        stats: &mut DebugStats,
    ) -> (r: (NTSTATUS, Option<u32>, Option<Vec<GUID>>))
        requires
            old(stats).wf(),
        ensures
            r.0 == if room is None {
                STATUS_INVALID_PARAMETER
            } else if !has_list || room->0 < 6 {
                STATUS_BUFFER_TOO_SMALL
            } else {
                STATUS_SUCCESS
            },
            r.1 == if room is None {
                None::<u32>
            } else {
                Some(6u32)
            },
            r.2 is Some == (r.0 == STATUS_SUCCESS),
            r.2 is Some ==> r.2->0@ == proposal::supported_modes(),
            final(stats).wf(),
            final(stats)@ == {
                let noted = stats::counted(old(stats)@, stats::MODES_CALLS as int).update(
                    stats::MODES_LAST_PIN as int,
                    pin,
                );
                if room is None {
                    noted
                } else {
                    noted.update(stats::MODES_LAST_COUNT as int, room->0)
                }
            },
    {
        stats.dbg_inc(stats::MODES_CALLS);
        stats.put(stats::MODES_LAST_PIN, pin);
        let cap: u32 = match room {
            None => {
                return (STATUS_INVALID_PARAMETER, None, None);
            },
            Some(n) => n,
        };
        stats.put(stats::MODES_LAST_COUNT, cap);
        if !has_list || cap < 6 {
            return (STATUS_BUFFER_TOO_SMALL, Some(6), None);
        }
        (STATUS_SUCCESS, Some(6), Some(proposal::modes()))
    }

    // ---- the engine node ----

    /// The pins that the engine uses: the streaming pin, no offload, no loop-back.
    pub fn ae_get_descriptor(&self, wanted: bool, stats: &mut DebugStats) -> (r: (
        NTSTATUS,
        Option<KsAudioEngineDescriptor>,
    ))
        requires
            old(stats).wf(),
        ensures
            r.0 == if wanted {
                STATUS_SUCCESS
            } else {
                STATUS_INVALID_PARAMETER
            },
            r.1 == if wanted {
                Some(
                    KsAudioEngineDescriptor {
                        host_pin_id: host_pin(self.capture),
                        offload: PIN_ID_NONE,
                        loopback: PIN_ID_NONE,
                    },
                )
            } else {
                None
            },
            final(stats).wf(),
            final(stats)@ == stats::ticked(old(stats)@, 0, r.0),
    {
        if !wanted {
            stats.ae_tick(0, STATUS_INVALID_PARAMETER);
            return (STATUS_INVALID_PARAMETER, None);
        }
        stats.ae_tick(0, STATUS_SUCCESS);
        (
            STATUS_SUCCESS,
            Some(
                KsAudioEngineDescriptor {
                    host_pin_id: host_pin_id(self.capture),
                    offload: PIN_ID_NONE,
                    loopback: PIN_ID_NONE,
                },
            ),
        )
    }

    /// Global effects are never on.
    pub fn ae_get_gfx_state(&self, wanted: bool, stats: &mut DebugStats) -> (r: (
        NTSTATUS,
        Option<i32>,
    ))
        requires
            old(stats).wf(),
        ensures
            r.0 == if wanted {
                STATUS_SUCCESS
            } else {
                STATUS_INVALID_PARAMETER
            },
            r.1 == if wanted {
                Some(0i32)
            } else {
                None
            },
            final(stats).wf(),
            final(stats)@ == stats::ticked(old(stats)@, 1, r.0),
    {
        if !wanted {
            stats.ae_tick(1, STATUS_INVALID_PARAMETER);
            return (STATUS_INVALID_PARAMETER, None);
        }
        stats.ae_tick(1, STATUS_SUCCESS);
        (STATUS_SUCCESS, Some(0))
    }

    /// Switching global effects has no effect.
    pub fn ae_set_gfx_state(&self, stats: &mut DebugStats) -> (status: NTSTATUS)
        requires
            old(stats).wf(),
        ensures
            status == STATUS_SUCCESS,
            final(stats).wf(),
            final(stats)@ == stats::ticked(old(stats)@, 2, status),
    {
        stats.ae_tick(2, STATUS_SUCCESS);
        STATUS_SUCCESS
    }

    /// The room that a format takes, with the head of a list for the list of formats.
    pub fn ae_get_engine_format_size(
        &self,
        node: u32,
        format_type: u32,
        wanted: bool,
        stats: &mut DebugStats,
    ) -> (r: (NTSTATUS, Option<u32>))
        requires
            old(stats).wf(),
        ensures
            r.0 == engine_value_status(node, wanted),
            r.1 == if r.0 != STATUS_SUCCESS {
                None
            } else if format_type == 2 {
                Some(112u32)
            } else {
                Some(104u32)
            },
            final(stats).wf(),
            final(stats)@ == stats::ticked(
                if r.0 != STATUS_SUCCESS {
                    old(stats)@
                } else {
                    old(stats)@.update(stats::AE_FMT_TYPE as int, format_type).update(
                        stats::AE_FMT_SIZE_OUT as int,
                        r.1->0,
                    )
                },
                3,
                r.0,
            ),
    {
        if node != AUDIO_ENGINE_NODE_ID || !wanted {
            stats.ae_tick(3, STATUS_INVALID_DEVICE_REQUEST);
            return (STATUS_INVALID_DEVICE_REQUEST, None);
        }
        let need: u32 = if format_type == 2 {
            112
        } else {
            104
        };
        stats.put(stats::AE_FMT_TYPE, format_type);
        stats.put(stats::AE_FMT_SIZE_OUT, need);
        stats.ae_tick(3, STATUS_SUCCESS);
        (STATUS_SUCCESS, Some(need))
    }

    /// The format the engine mixes in.
    pub fn ae_get_mix_format(
        &self,
        node: u32,
        out: &mut Option<Vec<u8>>,
        buf_size: u32,
        stats: &mut DebugStats,
    ) -> (status: NTSTATUS)
        requires
            is_out(*old(out), buf_size),
            old(stats).wf(),
        ensures
            status == engine_format_status(node, (*old(out)) is Some, buf_size),
            status == STATUS_SUCCESS ==> (*final(out)) is Some && (*final(out))->0@ == out_with(
                *old(out),
                wave_format::format_bytes(wave_format::mix_format_value()),
            ),
            status != STATUS_SUCCESS ==> *final(out) == *old(out),
            final(stats).wf(),
            final(stats)@ == stats::counted(old(stats)@, stats::AE_GET_MIX_FORMAT as int),
    {
        stats.dbg_inc(stats::AE_GET_MIX_FORMAT);
        if node != AUDIO_ENGINE_NODE_ID {
            return STATUS_INVALID_DEVICE_REQUEST;
        }
        if out.is_none() || (buf_size as usize) < ks::KSDATAFORMAT_WAVEFORMATEXTENSIBLE_SIZE {
            return STATUS_BUFFER_TOO_SMALL;
        }
        let b: Vec<u8> = wave_format::encode_format(&wave_format::mix_format());
        fill(out, b.as_slice());
        STATUS_SUCCESS
    }

    /// The device format: the one that was set, else the device's own.
    pub fn ae_get_device_format(
        &self,
        node: u32,
        out: &mut Option<Vec<u8>>,
        buf_size: u32,
        stats: &mut DebugStats,
    ) -> (status: NTSTATUS)
        requires
            self.wf(),
            is_out(*old(out), buf_size),
            old(stats).wf(),
        ensures
            status == engine_format_status(node, (*old(out)) is Some, buf_size),
            status == STATUS_SUCCESS ==> (*final(out)) is Some && (*final(out))->0@ == out_with(
                *old(out),
                self.current_format(),
            ),
            status != STATUS_SUCCESS ==> *final(out) == *old(out),
            final(stats).wf(),
            final(stats)@ == stats::counted(old(stats)@, stats::AE_GET_DEVICE_FORMAT as int),
    {
        stats.dbg_inc(stats::AE_GET_DEVICE_FORMAT);
        if node != AUDIO_ENGINE_NODE_ID {
            return STATUS_INVALID_DEVICE_REQUEST;
        }
        if out.is_none() || (buf_size as usize) < ks::KSDATAFORMAT_WAVEFORMATEXTENSIBLE_SIZE {
            return STATUS_BUFFER_TOO_SMALL;
        }
        if self.device_format_valid {
            fill(out, self.device_format.as_slice());
        } else {
            let b: Vec<u8> = wave_format::encode_format(&wave_format::device_format());
            fill(out, b.as_slice());
        }
        STATUS_SUCCESS
    }

    /// Stores the first 104 bytes of a format as the device format. A buffer with less changes
    /// nothing.
    pub fn ae_set_device_format(
        &mut self,
        node: u32,
        fmt: &Option<Vec<u8>>,
        buf_size: u32,
        stats: &mut DebugStats,
    ) -> (status: NTSTATUS)
        requires
            old(self).wf(),
            is_out(*fmt, buf_size),
            old(stats).wf(),
        ensures
            final(self).wf(),
            status == if node != AUDIO_ENGINE_NODE_ID || *fmt is None {
                STATUS_INVALID_DEVICE_REQUEST
            } else if buf_size < ks::KSDATAFORMAT_WAVEFORMATEXTENSIBLE_SIZE {
                STATUS_BUFFER_TOO_SMALL
            } else {
                STATUS_SUCCESS
            },
            status != STATUS_SUCCESS ==> *final(self) == *old(self),
            status == STATUS_SUCCESS ==> *final(self) == (MiniportWaveRT {
                device_format: final(self).device_format,
                device_format_valid: true,
                ..*old(self)
            }) && final(self).device_format@ == fmt->0@.subrange(0, 104),
            final(stats).wf(),
            final(stats)@ == {
                let called = stats::counted(old(stats)@, stats::AE_SET_DEVICE_FORMAT as int);
                let sized = called.update(stats::AE_SET_BUF_SIZE as int, buf_size);
                if status == STATUS_INVALID_DEVICE_REQUEST {
                    called
                } else if status == STATUS_BUFFER_TOO_SMALL {
                    sized.update(stats::AE_SET_STATUS as int, bytes::bits32(status))
                } else {
                    let w = wave_format::wave_at(fmt->0@, 64);
                    sized.update(stats::AE_STORED_TAG as int, w.wFormatTag as u32).update(
                        stats::AE_STORED_RATE as int,
                        w.nSamplesPerSec,
                    ).update(stats::AE_STORED_BITS as int, w.wBitsPerSample as u32).update(
                        stats::AE_SET_STATUS as int,
                        bytes::bits32(status),
                    )
                }
            },
    {
        stats.dbg_inc(stats::AE_SET_DEVICE_FORMAT);
        if node != AUDIO_ENGINE_NODE_ID {
            return STATUS_INVALID_DEVICE_REQUEST;
        }
        match fmt {
            None => STATUS_INVALID_DEVICE_REQUEST,
            Some(fmt) => {
                stats.put(stats::AE_SET_BUF_SIZE, buf_size);
                if (buf_size as usize) < ks::KSDATAFORMAT_WAVEFORMATEXTENSIBLE_SIZE {
                    stats.put(stats::AE_SET_STATUS, bytes::status_bits(STATUS_BUFFER_TOO_SMALL));
                    return STATUS_BUFFER_TOO_SMALL;
                }
                self.device_format = bytes::copy_range(
                    fmt.as_slice(),
                    0,
                    ks::KSDATAFORMAT_WAVEFORMATEXTENSIBLE_SIZE,
                );
                self.device_format_valid = true;
                let w: WAVEFORMATEX = wave_format::read_wave(fmt.as_slice(), 64);
                stats.put(stats::AE_STORED_TAG, w.wFormatTag as u32);
                stats.put(stats::AE_STORED_RATE, w.nSamplesPerSec);
                stats.put(stats::AE_STORED_BITS, w.wBitsPerSample as u32);
                stats.put(stats::AE_SET_STATUS, bytes::status_bits(STATUS_SUCCESS));
                STATUS_SUCCESS
            },
        }
    }

    /// The list of formats. A buffer with room for its head only gets the head.
    pub fn ae_get_supported_device_formats(
        &self,
        node: u32,
        out: &mut Option<Vec<u8>>,
        buf_size: u32,
        stats: &mut DebugStats,
    ) -> (status: NTSTATUS)
        requires
            is_out(*old(out), buf_size),
            old(stats).wf(),
        ensures
            status == list_status(node, (*old(out)) is Some, buf_size),
            status == STATUS_SUCCESS ==> (*final(out)) is Some && (*final(out))->0@ == out_with(
                *old(out),
                format_list(),
            ),
            status == STATUS_BUFFER_TOO_SMALL && buf_size >= 8 ==> (*final(out)) is Some
                && (*final(out))->0@ == out_with(
                *old(out),
                multiple_item_bytes(KsMultipleItem { size: 112, count: 1 }),
            ),
            status == STATUS_INVALID_DEVICE_REQUEST || buf_size < 8 ==> *final(out) == *old(out),
            final(stats).wf(),
            final(stats)@ == stats::ticked(old(stats)@, 7, status),
    {
        if node != AUDIO_ENGINE_NODE_ID || out.is_none() {
            stats.ae_tick(7, STATUS_INVALID_DEVICE_REQUEST);
            return STATUS_INVALID_DEVICE_REQUEST;
        }
        if (buf_size as usize) < ks::KSMULTIPLE_ITEM_SIZE {
            stats.ae_tick(7, STATUS_BUFFER_TOO_SMALL);
            return STATUS_BUFFER_TOO_SMALL;
        }
        let mut b: Vec<u8> = Vec::new();
        bytes::push_u32(&mut b, 112);
        bytes::push_u32(&mut b, 1);
        assert(b@ =~= multiple_item_bytes(KsMultipleItem { size: 112, count: 1 }));
        if buf_size < 112 {
            fill(out, b.as_slice());
            stats.ae_tick(7, STATUS_BUFFER_TOO_SMALL);
            return STATUS_BUFFER_TOO_SMALL;
        }
        let f: Vec<u8> = wave_format::encode_format(&wave_format::device_format());
        bytes::push_bytes(&mut b, f.as_slice());
        assert(b@ =~= format_list());
        fill(out, b.as_slice());
        stats.ae_tick(7, STATUS_SUCCESS);
        STATUS_SUCCESS
    }

    /// The device has two channels, on each of its three targets.
    pub fn ae_get_device_channel_count(
        &self,
        node: u32,
        target_type: u32,
        wanted: bool,
        stats: &mut DebugStats,
    ) -> (r: (NTSTATUS, Option<u32>))
        requires
            old(stats).wf(),
        ensures
            r.0 == engine_value_status(node, wanted && target_type <= 2),
            r.1 == if r.0 == STATUS_SUCCESS {
                Some(2u32)
            } else {
                None
            },
            final(stats).wf(),
            final(stats)@ == stats::ticked(old(stats)@, 8, r.0),
    {
        if node != AUDIO_ENGINE_NODE_ID || !wanted || target_type > 2 {
            stats.ae_tick(8, STATUS_INVALID_DEVICE_REQUEST);
            return (STATUS_INVALID_DEVICE_REQUEST, None);
        }
        stats.ae_tick(8, STATUS_SUCCESS);
        (STATUS_SUCCESS, Some(2))
    }

    /// Every level in steps of one.
    pub fn ae_get_device_attribute_steppings(
        &self,
        node: u32,
        wanted: bool,
        data_size: u32,
        stats: &mut DebugStats,
    ) -> (r: (NTSTATUS, Option<KsPropertySteppingLong>))
        requires
            old(stats).wf(),
        ensures
            r.0 == if node != AUDIO_ENGINE_NODE_ID || !wanted {
                STATUS_INVALID_DEVICE_REQUEST
            } else if data_size < ks::KSPROPERTY_STEPPING_LONG_SIZE {
                STATUS_BUFFER_TOO_SMALL
            } else {
                STATUS_SUCCESS
            },
            r.1 == if r.0 == STATUS_SUCCESS {
                Some(
                    KsPropertySteppingLong {
                        stepping_delta: 1,
                        reserved: 0,
                        min: i32::MIN,
                        max: i32::MAX,
                    },
                )
            } else {
                None
            },
            final(stats).wf(),
            final(stats)@ == stats::ticked(old(stats)@, 9, r.0),
    {
        if node != AUDIO_ENGINE_NODE_ID || !wanted {
            stats.ae_tick(9, STATUS_INVALID_DEVICE_REQUEST);
            return (STATUS_INVALID_DEVICE_REQUEST, None);
        }
        if (data_size as usize) < ks::KSPROPERTY_STEPPING_LONG_SIZE {
            stats.ae_tick(9, STATUS_BUFFER_TOO_SMALL);
            return (STATUS_BUFFER_TOO_SMALL, None);
        }
        stats.ae_tick(9, STATUS_SUCCESS);
        (
            STATUS_SUCCESS,
            Some(
                KsPropertySteppingLong {
                    stepping_delta: 1,
                    reserved: 0,
                    min: i32::MIN,
                    max: i32::MAX,
                },
            ),
        )
    }

    /// A plain value of the engine node, counted as a call of method number `method`.
    fn engine_value(
        &self,
        node: u32,
        wanted: bool,
        value: i32,
        method: usize,
        stats: &mut DebugStats,
    ) -> (r: (NTSTATUS, Option<i32>))
        requires
            old(stats).wf(),
            method < 16,
        ensures
            r.0 == engine_value_status(node, wanted),
            r.1 == if r.0 == STATUS_SUCCESS {
                Some(value)
            } else {
                None
            },
            final(stats).wf(),
            final(stats)@ == stats::ticked(old(stats)@, method as int, r.0),
    {
        if node != AUDIO_ENGINE_NODE_ID || !wanted {
            stats.ae_tick(method, STATUS_INVALID_DEVICE_REQUEST);
            return (STATUS_INVALID_DEVICE_REQUEST, None);
        }
        stats.ae_tick(method, STATUS_SUCCESS);
        (STATUS_SUCCESS, Some(value))
    }

    /// The volume of a channel is always 0 dB.
    pub fn ae_get_device_channel_volume(
        &self,
        node: u32,
        wanted: bool,
        stats: &mut DebugStats,
    ) -> (r: (NTSTATUS, Option<i32>))
        requires
            old(stats).wf(),
        ensures
            r.0 == engine_value_status(node, wanted),
            r.1 == if r.0 == STATUS_SUCCESS {
                Some(0i32)
            } else {
                None
            },
            final(stats).wf(),
            final(stats)@ == stats::ticked(old(stats)@, 10, r.0),
    {
        self.engine_value(node, wanted, 0, 10, stats)
    }

    /// Setting the volume of a channel is taken and has no effect.
    pub fn ae_set_device_channel_volume(&self, node: u32, stats: &mut DebugStats) -> (status:
        NTSTATUS)
        requires
            old(stats).wf(),
        ensures
            status == engine_value_status(node, true),
            final(stats).wf(),
            final(stats)@ == stats::ticked(old(stats)@, 11, status),
    {
        self.engine_value(node, true, 0, 11, stats).0
    }

    /// No channel is ever mute.
    pub fn ae_get_device_channel_mute(&self, node: u32, wanted: bool, stats: &mut DebugStats) -> (r:
        (NTSTATUS, Option<i32>))
        requires
            old(stats).wf(),
        ensures
            r.0 == engine_value_status(node, wanted),
            r.1 == if r.0 == STATUS_SUCCESS {
                Some(0i32)
            } else {
                None
            },
            final(stats).wf(),
            final(stats)@ == stats::ticked(old(stats)@, 12, r.0),
    {
        self.engine_value(node, wanted, 0, 12, stats)
    }

    /// Muting a channel is taken and has no effect.
    pub fn ae_set_device_channel_mute(&self, node: u32, stats: &mut DebugStats) -> (status:
        NTSTATUS)
        requires
            old(stats).wf(),
        ensures
            status == engine_value_status(node, true),
            final(stats).wf(),
            final(stats)@ == stats::ticked(old(stats)@, 13, status),
    {
        self.engine_value(node, true, 0, 13, stats).0
    }

    /// The peak meter of a channel always shows -100 dB, in hundredths.
    pub fn ae_get_device_channel_peak_meter(
        &self,
        node: u32,
        wanted: bool,
        stats: &mut DebugStats,
    ) -> (r: (NTSTATUS, Option<i32>))
        requires
            old(stats).wf(),
        ensures
            r.0 == engine_value_status(node, wanted),
            r.1 == if r.0 == STATUS_SUCCESS {
                Some(-10_000i32)
            } else {
                None
            },
            final(stats).wf(),
            final(stats)@ == stats::ticked(old(stats)@, 14, r.0),
    {
        self.engine_value(node, wanted, -10_000, 14, stats)
    }

    /// The buffer sizes for a format: what 10 and 500 milliseconds of it take. A format that does
    /// not state its rate counts as the device's own.
    pub fn ae_get_buffer_size_range(
        &self,
        node: u32,
        format: &Option<Vec<u8>>,
        wanted: bool,
        stats: &mut DebugStats,
    ) -> (r: (NTSTATUS, Option<KsAudioEngineBufferSizeRange>))
        requires
            *format is Some ==> format->0@.len() >= ks::KSDATAFORMAT_WAVEFORMATEX_SIZE,
            old(stats).wf(),
        ensures
            r.0 == engine_value_status(node, wanted && *format is Some),
            r.1 is Some == (r.0 == STATUS_SUCCESS),
            r.1 is Some ==> {
                let stated = bytes::dword_at(format->0@, 72);
                let avg = if stated == 0 {
                    192_000
                } else {
                    stated as int
                };
                &&& r.1->0.min_buffer_bytes == avg * MIN_BUFFER_DURATION_MS / 1000
                &&& r.1->0.max_buffer_bytes == avg * MAX_BUFFER_DURATION_MS / 1000
            },
            final(stats).wf(),
            final(stats)@ == stats::ticked(old(stats)@, 15, r.0),
    {
        if node != AUDIO_ENGINE_NODE_ID || !wanted {
            stats.ae_tick(15, STATUS_INVALID_DEVICE_REQUEST);
            return (STATUS_INVALID_DEVICE_REQUEST, None);
        }
        match format {
            None => {
                stats.ae_tick(15, STATUS_INVALID_DEVICE_REQUEST);
                (STATUS_INVALID_DEVICE_REQUEST, None)
            },
            Some(b) => {
                let stated: u32 = bytes::read_u32(b.as_slice(), 72);
                let avg: u64 = if stated == 0 {
                    192_000
                } else {
                    stated as u64
                };
                stats.ae_tick(15, STATUS_SUCCESS);
                (
                    STATUS_SUCCESS,
                    Some(
                        KsAudioEngineBufferSizeRange {
                            min_buffer_bytes: (avg * 10 / 1000) as u32,
                            max_buffer_bytes: (avg * 500 / 1000) as u32,
                        },
                    ),
                )
            },
        }
    }
}

/// The device format that the engine has set is the one it reads back.
pub proof fn law_set_device_format_is_read_back(
    after: MiniportWaveRT,
    fmt: Seq<u8>,
    out: Option<Vec<u8>>,
)
    requires
        fmt.len() >= 104,
        after.device_format_valid,
        after.device_format@ == fmt.subrange(0, 104),
        out is Some,
        out->0@.len() >= 104,
    ensures
        after.current_format() == fmt.subrange(0, 104),
        out_with(out, after.current_format()).subrange(0, 104) == fmt.subrange(0, 104),
{
    bytes::lemma_patched(out->0@, 0, after.current_format());
}

/// A client that asks how much room an intersection takes, and asks again with that room, gets
/// the format.
pub proof fn law_intersection_room_works(client: KSDATARANGE)
    requires
        range_meets(client),
    ensures
        range_status(client, 0, false) == STATUS_BUFFER_OVERFLOW,
        range_status(client, RANGE_RESULT_SIZE, true) == STATUS_SUCCESS,
        range_result().len() <= RANGE_RESULT_SIZE,
{
}

/// The range of the streaming pins meets the device's own, and the format that the intersection
/// gives is one that streams take.
pub proof fn law_intersection_gives_a_stream_format(out: Seq<u8>)
    requires
        out.len() >= RANGE_RESULT_SIZE,
    ensures
        range_meets(stream_range().DataRange),
        wave_format::is_stream_format(bytes::patched(out, 0, range_result())),
{
    let d = KSDATAFORMAT {
        FormatSize: 84,
        Flags: 0,
        SampleSize: 0,
        Reserved: 0,
        MajorFormat: guid::KSDATAFORMAT_TYPE_AUDIO(),
        SubFormat: guid::KSDATAFORMAT_SUBTYPE_PCM(),
        Specifier: guid::KSDATAFORMAT_SPECIFIER_WAVEFORMATEX(),
    };
    let w = WAVEFORMATEX {
        wFormatTag: 1,
        nChannels: 2,
        nSamplesPerSec: 48_000,
        nAvgBytesPerSec: 192_000,
        nBlockAlign: 4,
        wBitsPerSample: 16,
        cbSize: 0,
    };
    wave_format::lemma_plain_format_written(out, d, w);
}

/// A client's range meets the device's by its kind alone: integer PCM audio does, whatever else
/// the range says, and nothing else does. Where it does, the answer follows the room: none is told
/// how much it takes, too little is refused, and enough succeeds, however much it is.
pub proof fn law_ranges_meet_by_their_kind(
    client: KSDATARANGE,
    other: KSDATARANGE,
    out_len: u32,
    has_out: bool,
)
    ensures
        range_meets(client) <==> client.MajorFormat == guid::KSDATAFORMAT_TYPE_AUDIO()
            && client.SubFormat == guid::KSDATAFORMAT_SUBTYPE_PCM(),
        other.MajorFormat == client.MajorFormat && other.SubFormat == client.SubFormat
            ==> range_status(other, out_len, has_out) == range_status(client, out_len, has_out),
        ({
            let status = range_status(client, out_len, has_out);
            let room = has_out && out_len > 0;
            &&& status == STATUS_NO_MATCH <==> !range_meets(client)
            &&& status == STATUS_BUFFER_OVERFLOW <==> range_meets(client) && !room
            &&& status == STATUS_BUFFER_TOO_SMALL <==> range_meets(client) && room && out_len < 84
            &&& status == STATUS_SUCCESS <==> range_meets(client) && room && out_len >= 84
        }),
{
}

/// Clients open the pin over which the filter streams, and the requests that name a pin know it as
/// that: pin 0 of a playback filter, pin 1 of a recording one.
pub proof fn law_host_pin_streams(capture: bool, d: PCFILTER_DESCRIPTOR)
    ensures
        host_pin(capture) == if capture {
            1u32
        } else {
            0u32
        },
        proposal::pin_kind(true, capture, host_pin(capture)) == proposal::PinKind::Stream,
        proposal::pin_kind(true, capture, (1 - host_pin(capture)) as u32)
            == proposal::PinKind::Bridge,
        is_render_wave(d) ==> d.Pins@[host_pin(false) as int].MaxFilterInstanceCount == 1
            && d.Pins@[host_pin(false) as int].KsPinDescriptor.DataFlow == ks::KSPIN_DATAFLOW_IN,
        is_capture_wave(d) ==> d.Pins@[host_pin(true) as int].MaxFilterInstanceCount == 1
            && d.Pins@[host_pin(true) as int].KsPinDescriptor.DataFlow == ks::KSPIN_DATAFLOW_OUT,
{
}

/// The engine is answered for its one node only. It gets a format with room for all 104 bytes of
/// it, the list of formats with room for 112, and a plain value if it wants one; each refusal
/// tells a wrong node, or nothing to answer into, from too little room.
pub proof fn law_engine_requests_are_answered(node: u32, has_out: bool, size: u32, wanted: bool)
    ensures
        engine_format_status(node, has_out, size) == STATUS_SUCCESS <==> node == 0 && has_out
            && size >= 104,
        engine_format_status(node, has_out, size) == STATUS_BUFFER_TOO_SMALL <==> node == 0 && (
        !has_out || size < 104),
        engine_format_status(node, has_out, size) == STATUS_INVALID_DEVICE_REQUEST <==> node != 0,
        engine_value_status(node, wanted) == STATUS_SUCCESS <==> node == 0 && wanted,
        engine_value_status(node, wanted) == STATUS_INVALID_DEVICE_REQUEST <==> node != 0
            || !wanted,
        list_status(node, has_out, size) == STATUS_SUCCESS <==> node == 0 && has_out && size >= 112,
        list_status(node, has_out, size) == STATUS_BUFFER_TOO_SMALL <==> node == 0 && has_out
            && size < 112,
        list_status(node, has_out, size) == STATUS_INVALID_DEVICE_REQUEST <==> node != 0
            || !has_out,
{
}

/// The list of formats is a head, which states its size and that it has one entry, and the device
/// format.
pub proof fn law_format_list_holds_the_device_format()
    ensures
        format_list().len() == 112,
        bytes::dword_at(format_list(), 0) == format_list().len(),
        bytes::dword_at(format_list(), 4) == 1,
        format_list().skip(8) == wave_format::format_bytes(wave_format::device_format_value()),
        wave_format::is_stream_format(format_list().skip(8)),
{
    wave_format::law_format_fields_read_back(wave_format::device_format_value());
    wave_format::law_device_format_is_taken();
    lemma_list_head(
        KsMultipleItem { size: 112, count: 1 },
        wave_format::format_bytes(wave_format::device_format_value()),
    );
}

/// The head of a list and what follows it stand where readers look for them.
proof fn lemma_list_head(item: KsMultipleItem, f: Seq<u8>)
    ensures
        ({
            let list = multiple_item_bytes(item) + f;
            &&& list.len() == 8 + f.len()
            &&& bytes::dword_at(list, 0) == item.size
            &&& bytes::dword_at(list, 4) == item.count
            &&& list.skip(8) == f
        }),
{
    let list = multiple_item_bytes(item) + f;
    bytes::lemma_le32_read_back(item.size);
    bytes::lemma_le32_read_back(item.count);
    assert(list.subrange(0, 4) =~= bytes::le32(item.size));
    assert(list.subrange(4, 8) =~= bytes::le32(item.count));
    bytes::lemma_dword_of_part(list, 0, bytes::le32(item.size));
    bytes::lemma_dword_of_part(list, 4, bytes::le32(item.count));
    assert(list.skip(8) =~= f);
}

/// A miniport hands itself out as what every object, every miniport and every streaming miniport
/// is, and one of its two parts as what that part is; it is nothing else.
pub proof fn law_interfaces_are_handed_out(mp: MiniportWaveRT, iid: GUID)
    ensures
        mp.handed(guid::IID_IUnknown()) == Some(Handed::Miniport),
        mp.handed(guid::IID_IMiniport()) == Some(Handed::Miniport),
        mp.handed(guid::IID_IMiniportWaveRT()) == Some(Handed::Miniport),
        mp.handed(guid::IID_IPINCOUNT()) == Some(Handed::Sub(mp.pin_count_obj)),
        mp.handed(guid::IID_IMINIPORT_AUDIO_SIGNAL_PROCESSING()) == Some(
            Handed::Sub(mp.signal_proc_obj),
        ),
        iid != guid::IID_IUnknown() && iid != guid::IID_IMiniport() && iid
            != guid::IID_IMiniportWaveRT() && iid != guid::IID_IPINCOUNT() && iid
            != guid::IID_IMINIPORT_AUDIO_SIGNAL_PROCESSING() ==> mp.handed(iid) is None,
{
}

/// Before a device format was set, a reader gets the device's own, which streams take.
pub proof fn law_first_device_format_is_the_own(mp: MiniportWaveRT)
    requires
        !mp.device_format_valid,
    ensures
        mp.current_format() == wave_format::format_bytes(wave_format::device_format_value()),
        wave_format::is_stream_format(mp.current_format()),
{
    wave_format::law_device_format_is_taken();
}

/// The counters of intersections: every one counts, one that succeeds also as such, and what was
/// asked for last is remembered, with the status where it failed.
pub proof fn law_intersections_are_noted(
    s: Seq<u32>,
    client: KSDATARANGE,
    out_len: u32,
    has_out: bool,
)
    requires
        s.len() == stats::STATS_COUNT,
    ensures
        ({
            let t = range_noted(s, client, out_len, has_out);
            let status = range_status(client, out_len, has_out);
            &&& t.len() == s.len()
            &&& t[10] == (s[10] + 1) % 0x1_0000_0000
            &&& t[11] == if status == STATUS_SUCCESS {
                (s[11] + 1) % 0x1_0000_0000
            } else {
                s[11] as int
            }
            &&& t[15] == client.MajorFormat.data1 && t[16] == client.SubFormat.data1 && t[17]
                == client.Specifier.data1 && t[18] == client.FormatSize && t[19] == out_len
            &&& status != STATUS_SUCCESS ==> bytes::signed32(t[20]) == status
            &&& status == STATUS_SUCCESS ==> t[20] == s[20] && t[31] == 1
            &&& forall|k: int| 0 <= k < 10 ==> #[trigger] t[k] == s[k]
        }),
{
    bytes::lemma_signed32_of_bits32(range_status(client, out_len, has_out));
}

} // verus!
