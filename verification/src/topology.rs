//! The topology filters of the two endpoints: a volume and a mute control between two bridge
//! pins, and the values of those controls.
use crate::bytes;
use crate::com;
use crate::guid;
use crate::guid::GUID;
use crate::ks;
use crate::ks::{
    DataRangeSlot, PropertyHandler, KSDATARANGE, KSPIN_DESCRIPTOR, KSPIN_DESCRIPTOR_TAIL,
    KSPROPERTY_DESCRIPTION, PCAUTOMATION_TABLE, PCCONNECTION_DESCRIPTOR, PCFILTER_DESCRIPTOR,
    PCNODE_DESCRIPTOR, PCPIN_DESCRIPTOR, PCPROPERTY_ITEM, PCPROPERTY_REQUEST, PVOID,
};
use crate::status::{
    E_NOINTERFACE, NTSTATUS, STATUS_BUFFER_TOO_SMALL, STATUS_INVALID_PARAMETER,
    STATUS_NOT_IMPLEMENTED, STATUS_SUCCESS,
};
use vstd::prelude::*;

verus! {

/// Node 0 is the volume control, node 1 the mute control.
pub const TOPO_NODE_COUNT: usize = 2;

/// The topology miniport of one endpoint.
#[derive(Debug)]
pub struct MiniportTopology {
    pub refcount: u32,
    /// Recording endpoint (microphone) or playback endpoint (speaker).
    pub capture: bool,
    /// The port it was initialised with; a weak handle.
    pub port: PVOID,
    /// Volume per node, 0 for 0 dB, negative for attenuation.
    pub volume: [i32; 2],
    /// Mute per node, 0 for audible.
    pub mute: [i32; 2],
}

// ---- descriptors ----

/// The data range of a bridge pin: analog audio, nothing negotiated.
pub open spec fn bridge_range() -> KSDATARANGE {
    KSDATARANGE {
        FormatSize: 64,
        Flags: 0,
        SampleSize: 0,
        Reserved: 0,
        MajorFormat: guid::KSDATAFORMAT_TYPE_AUDIO(),
        SubFormat: guid::KSDATAFORMAT_SUBTYPE_ANALOG(),
        Specifier: guid::KSDATAFORMAT_SPECIFIER_NONE(),
    }
}

/// The data range of every pin of a topology filter.
pub fn topo_pin_data_range() -> (range: KSDATARANGE)
    ensures
        range == bridge_range(),
{
    KSDATARANGE {
        FormatSize: 64,
        Flags: 0,
        SampleSize: 0,
        Reserved: 0,
        MajorFormat: guid::KSDATAFORMAT_TYPE_AUDIO(),
        SubFormat: guid::KSDATAFORMAT_SUBTYPE_ANALOG(),
        Specifier: guid::KSDATAFORMAT_SPECIFIER_NONE(),
    }
}

/// A bridge pin: never opened by a client, one analog data range, the given direction and
/// category.
pub open spec fn is_bridge_pin(pin: PCPIN_DESCRIPTOR, flow: u32, category: GUID) -> bool {
    let d = pin.KsPinDescriptor;
    &&& pin.MaxGlobalInstanceCount == 0
    &&& pin.MaxFilterInstanceCount == 0
    &&& pin.MinFilterInstanceCount == 0
    &&& pin.AutomationTable is None
    &&& d.InterfacesCount == 0 && d.Interfaces@.len() == 0
    &&& d.MediumsCount == 0 && d.Mediums@.len() == 0
    &&& d.DataRangesCount == 1 && d.DataRanges@.len() == 1
    &&& d.DataRanges@[0] == DataRangeSlot::Range(bridge_range())
    &&& d.DataFlow == flow
    &&& d.Communication == ks::KSPIN_COMMUNICATION_NONE
    &&& d.Category == category
    &&& d.Name is None
    &&& d.Reserved == KSPIN_DESCRIPTOR_TAIL::Reserved(0)
}

/// The bridge pin of that direction and category.
pub fn bridge_pin(flow: u32, category: GUID) -> (pin: PCPIN_DESCRIPTOR)
    ensures
        is_bridge_pin(pin, flow, category),
{
    let mut ranges: Vec<DataRangeSlot> = Vec::new();
    ranges.push(DataRangeSlot::Range(topo_pin_data_range()));
    PCPIN_DESCRIPTOR {
        MaxGlobalInstanceCount: 0,
        MaxFilterInstanceCount: 0,
        MinFilterInstanceCount: 0,
        AutomationTable: None,
        KsPinDescriptor: KSPIN_DESCRIPTOR {
            InterfacesCount: 0,
            Interfaces: Vec::new(),
            MediumsCount: 0,
            Mediums: Vec::new(),
            DataRangesCount: 1,
            DataRanges: ranges,
            DataFlow: flow,
            Communication: ks::KSPIN_COMMUNICATION_NONE,
            Category: category,
            Name: None,
            Reserved: KSPIN_DESCRIPTOR_TAIL::Reserved(0),
        },
    }
}

/// The property of a level control: volume or mute, readable, settable and describable.
pub open spec fn level_item(id: u32) -> PCPROPERTY_ITEM {
    PCPROPERTY_ITEM {
        Set: guid::KSPROPSETID_AUDIO(),
        Id: id,
        Flags: ks::KSPROPERTY_TYPE_ALL,
        Handler: PropertyHandler::TopologyLevel,
    }
}

/// The property of the volume control.
pub fn topo_volume_property_item() -> (item: PCPROPERTY_ITEM)
    ensures
        item == level_item(ks::KSPROPERTY_AUDIO_VOLUMELEVEL),
{
    level_property_item(ks::KSPROPERTY_AUDIO_VOLUMELEVEL)
}

/// The property of the mute control.
pub fn topo_mute_property_item() -> (item: PCPROPERTY_ITEM)
    ensures
        item == level_item(ks::KSPROPERTY_AUDIO_MUTE),
{
    level_property_item(ks::KSPROPERTY_AUDIO_MUTE)
}

fn level_property_item(id: u32) -> (item: PCPROPERTY_ITEM)
    ensures
        item == level_item(id),
{
    PCPROPERTY_ITEM {
        Set: guid::KSPROPSETID_AUDIO(),
        Id: id,
        Flags: ks::KSPROPERTY_TYPE_ALL,
        Handler: PropertyHandler::TopologyLevel,
    }
}

/// A table of properties, without methods or events.
pub open spec fn is_property_table(table: PCAUTOMATION_TABLE, items: Seq<PCPROPERTY_ITEM>) -> bool {
    &&& table.PropertyItemSize == 24
    &&& table.PropertyCount == items.len()
    &&& table.Properties@ == items
    &&& table.MethodItemSize == 0 && table.MethodCount == 0 && table.Methods == 0
    &&& table.EventItemSize == 0 && table.EventCount == 0 && table.Events == 0
    &&& table.Reserved == 0
}

fn level_table(id: u32) -> (table: PCAUTOMATION_TABLE)
    ensures
        is_property_table(table, seq![level_item(id)]),
{
    let mut items: Vec<PCPROPERTY_ITEM> = Vec::new();
    items.push(level_property_item(id));
    assert(items@ =~= seq![level_item(id)]);
    PCAUTOMATION_TABLE {
        PropertyItemSize: 24,
        PropertyCount: 1,
        Properties: items,
        MethodItemSize: 0,
        MethodCount: 0,
        Methods: 0,
        EventItemSize: 0,
        EventCount: 0,
        Events: 0,
        Reserved: 0,
    }
}

/// A level control: its type and name, and its one property.
pub open spec fn is_level_node(node: PCNODE_DESCRIPTOR, kind: GUID, name: GUID, id: u32) -> bool {
    &&& node.Flags == 0
    &&& node.AutomationTable is Some
    &&& is_property_table(node.AutomationTable->0, seq![level_item(id)])
    &&& node.Type == kind
    &&& node.Name == name
}

fn level_node(kind: GUID, name: GUID, id: u32) -> (node: PCNODE_DESCRIPTOR)
    ensures
        is_level_node(node, kind, name, id),
{
    PCNODE_DESCRIPTOR { Flags: 0, AutomationTable: Some(level_table(id)), Type: kind, Name: name }
}

/// Pin 0 through volume and mute to pin 1. On a node, pin 1 is the input and pin 0 the output.
pub open spec fn level_connections() -> Seq<PCCONNECTION_DESCRIPTOR> {
    seq![
        PCCONNECTION_DESCRIPTOR {
            FromNode: ks::PCFILTER_NODE,
            FromNodePin: 0,
            ToNode: 0,
            ToNodePin: 1,
        },
        PCCONNECTION_DESCRIPTOR { FromNode: 0, FromNodePin: 0, ToNode: 1, ToNodePin: 1 },
        PCCONNECTION_DESCRIPTOR {
            FromNode: 1,
            FromNodePin: 0,
            ToNode: ks::PCFILTER_NODE,
            ToNodePin: 1,
        },
    ]
}

/// A filter whose counts are those of its tables, whose entry sizes are those of its structures,
/// whose pins all have data ranges, and whose connections name nodes and pins that exist.
pub open spec fn is_consistent_filter(d: PCFILTER_DESCRIPTOR) -> bool {
    &&& d.PinSize == 112
    &&& d.NodeSize == 32
    &&& d.PinCount == d.Pins@.len()
    &&& d.NodeCount == d.Nodes@.len()
    &&& d.ConnectionCount == d.Connections@.len()
    &&& d.CategoryCount == d.Categories@.len()
    &&& forall|i: int|
        0 <= i < d.Pins@.len() ==> {
            let p = (#[trigger] d.Pins@[i]).KsPinDescriptor;
            p.DataRangesCount >= 1 && p.DataRangesCount == p.DataRanges@.len() && p.InterfacesCount
                == p.Interfaces@.len() && p.MediumsCount == p.Mediums@.len()
        }
    &&& forall|i: int|
        0 <= i < d.Connections@.len() ==> {
            let c = #[trigger] d.Connections@[i];
            &&& c.FromNode == ks::PCFILTER_NODE || c.FromNode < d.Nodes@.len()
            &&& c.ToNode == ks::PCFILTER_NODE || c.ToNode < d.Nodes@.len()
            &&& c.FromNodePin < d.Pins@.len()
            &&& c.ToNodePin < d.Pins@.len()
        }
}

/// A topology filter: the two bridge pins of those categories, data flowing from pin 0 to pin 1,
/// with volume and mute in between under those names, and no property of its own.
pub open spec fn is_topology_filter(
    d: PCFILTER_DESCRIPTOR,
    in_category: GUID,
    out_category: GUID,
    volume_name: GUID,
    mute_name: GUID,
) -> bool {
    &&& d.Version == 0
    &&& d.AutomationTable is None
    &&& d.Pins@.len() == 2
    &&& is_bridge_pin(d.Pins@[0], ks::KSPIN_DATAFLOW_IN, in_category)
    &&& is_bridge_pin(d.Pins@[1], ks::KSPIN_DATAFLOW_OUT, out_category)
    &&& d.Nodes@.len() == TOPO_NODE_COUNT
    &&& is_level_node(
        d.Nodes@[0],
        guid::KSNODETYPE_VOLUME(),
        volume_name,
        ks::KSPROPERTY_AUDIO_VOLUMELEVEL,
    )
    &&& is_level_node(d.Nodes@[1], guid::KSNODETYPE_MUTE(), mute_name, ks::KSPROPERTY_AUDIO_MUTE)
    &&& d.Connections@ == level_connections()
    &&& d.Categories@.len() == 0
    &&& is_consistent_filter(d)
}

fn topology_filter(
    in_category: GUID,
    out_category: GUID,
    volume_name: GUID,
    mute_name: GUID,
) -> (d: PCFILTER_DESCRIPTOR)
    ensures
        is_topology_filter(d, in_category, out_category, volume_name, mute_name),
{
    let mut pins: Vec<PCPIN_DESCRIPTOR> = Vec::new();
    pins.push(bridge_pin(ks::KSPIN_DATAFLOW_IN, in_category));
    pins.push(bridge_pin(ks::KSPIN_DATAFLOW_OUT, out_category));
    let mut nodes: Vec<PCNODE_DESCRIPTOR> = Vec::new();
    nodes.push(
        level_node(guid::KSNODETYPE_VOLUME(), volume_name, ks::KSPROPERTY_AUDIO_VOLUMELEVEL),
    );
    nodes.push(level_node(guid::KSNODETYPE_MUTE(), mute_name, ks::KSPROPERTY_AUDIO_MUTE));
    let mut connections: Vec<PCCONNECTION_DESCRIPTOR> = Vec::new();
    connections.push(
        PCCONNECTION_DESCRIPTOR {
            FromNode: ks::PCFILTER_NODE,
            FromNodePin: 0,
            ToNode: 0,
            ToNodePin: 1,
        },
    );
    connections.push(
        PCCONNECTION_DESCRIPTOR { FromNode: 0, FromNodePin: 0, ToNode: 1, ToNodePin: 1 },
    );
    connections.push(
        PCCONNECTION_DESCRIPTOR {
            FromNode: 1,
            FromNodePin: 0,
            ToNode: ks::PCFILTER_NODE,
            ToNodePin: 1,
        },
    );
    assert(connections@ =~= level_connections());
    PCFILTER_DESCRIPTOR {
        Version: 0,
        AutomationTable: None,
        PinSize: 112,
        PinCount: 2,
        Pins: pins,
        NodeSize: 32,
        NodeCount: 2,
        Nodes: nodes,
        ConnectionCount: 3,
        Connections: connections,
        CategoryCount: 0,
        Categories: Vec::new(),
    }
}

/// The topology filter of the playback endpoint: from the wave filter to the speaker.
pub open spec fn is_render_topology(d: PCFILTER_DESCRIPTOR) -> bool {
    is_topology_filter(
        d,
        guid::KSCATEGORY_AUDIO(),
        guid::KSNODETYPE_SPEAKER(),
        guid::KSAUDFNAME_MASTER_VOLUME(),
        guid::KSAUDFNAME_MASTER_MUTE(),
    )
}

/// The topology filter of the recording endpoint: from the microphone to the wave filter.
pub open spec fn is_capture_topology(d: PCFILTER_DESCRIPTOR) -> bool {
    is_topology_filter(
        d,
        guid::KSNODETYPE_MICROPHONE(),
        guid::KSCATEGORY_AUDIO(),
        guid::KSAUDFNAME_MIC_VOLUME(),
        guid::KSAUDFNAME_MIC_MUTE(),
    )
}

/// The topology filter of the playback endpoint.
pub fn render_filter_descriptor() -> (d: PCFILTER_DESCRIPTOR)
    ensures
        is_render_topology(d),
{
    topology_filter(
        guid::KSCATEGORY_AUDIO(),
        guid::KSNODETYPE_SPEAKER(),
        guid::KSAUDFNAME_MASTER_VOLUME(),
        guid::KSAUDFNAME_MASTER_MUTE(),
    )
}

/// The topology filter of the recording endpoint.
pub fn capture_filter_descriptor() -> (d: PCFILTER_DESCRIPTOR)
    ensures
        is_capture_topology(d),
{
    topology_filter(
        guid::KSNODETYPE_MICROPHONE(),
        guid::KSCATEGORY_AUDIO(),
        guid::KSAUDFNAME_MIC_VOLUME(),
        guid::KSAUDFNAME_MIC_MUTE(),
    )
}

// ---- property requests ----

/// A request whose buffers are at least as large as the sizes it states.
pub open spec fn is_request(req: PCPROPERTY_REQUEST) -> bool {
    &&& req.Value is Some ==> req.ValueSize <= req.Value->0@.len()
    &&& req.Instance is Some ==> req.InstanceSize <= req.Instance->0@.len()
}

/// The same request but for the value and its size.
pub open spec fn same_question(a: PCPROPERTY_REQUEST, b: PCPROPERTY_REQUEST) -> bool {
    &&& a.MajorTarget == b.MajorTarget
    &&& a.MinorTarget == b.MinorTarget
    &&& a.Node == b.Node
    &&& a.PropertyItem == b.PropertyItem
    &&& a.Verb == b.Verb
    &&& a.InstanceSize == b.InstanceSize
    &&& a.Instance == b.Instance
    &&& a.Irp == b.Irp
    &&& a.Value is Some == b.Value is Some
}

/// The bytes of a request's value buffer; none where there is no buffer.
pub open spec fn value_bytes(req: PCPROPERTY_REQUEST) -> Seq<u8> {
    match req.Value {
        Some(v) => v@,
        None => Seq::empty(),
    }
}

/// The outcome of a property request: the status, and the value buffer and size it leaves.
pub struct Answer {
    pub status: NTSTATUS,
    pub value: Seq<u8>,
    pub size: u32,
}

/// The values of the controls of one filter.
pub struct Levels {
    pub volume: Seq<i32>,
    pub mute: Seq<i32>,
}

/// The bytes of a property description.
pub open spec fn description_bytes(d: KSPROPERTY_DESCRIPTION) -> Seq<u8> {
    bytes::le32(d.AccessFlags) + bytes::le32(d.DescriptionSize) + guid::guid_bytes(d.PropTypeSetSet)
        + bytes::le32(d.PropTypeSetId) + bytes::le32(d.PropTypeSetFlags) + bytes::le32(
        d.MembersListCount,
    ) + bytes::le32(d.Reserved)
}

/// The description of a level: a 32-bit integer that can be read, set and described.
pub open spec fn level_description() -> KSPROPERTY_DESCRIPTION {
    KSPROPERTY_DESCRIPTION {
        AccessFlags: ks::KSPROPERTY_TYPE_ALL,
        DescriptionSize: 40,
        PropTypeSetSet: guid::KSPROPTYPESETID_GENERAL(),
        PropTypeSetId: ks::VT_I4,
        PropTypeSetFlags: 0,
        MembersListCount: 0,
        Reserved: 0,
    }
}

/// A request for a level that exists: volume or mute of node 0 or 1.
pub open spec fn names_level(req: PCPROPERTY_REQUEST) -> bool {
    &&& req.PropertyItem is Some
    &&& req.Node < TOPO_NODE_COUNT
    &&& req.PropertyItem->0.Id == ks::KSPROPERTY_AUDIO_VOLUMELEVEL || req.PropertyItem->0.Id
        == ks::KSPROPERTY_AUDIO_MUTE
}

/// The level that a request names.
pub open spec fn level_of(levels: Levels, req: PCPROPERTY_REQUEST) -> i32 {
    if req.PropertyItem->0.Id == ks::KSPROPERTY_AUDIO_VOLUMELEVEL {
        levels.volume[req.Node as int]
    } else {
        levels.mute[req.Node as int]
    }
}

/// The levels after the one that a request names was set to `x`.
pub open spec fn with_level(levels: Levels, req: PCPROPERTY_REQUEST, x: i32) -> Levels {
    if req.PropertyItem->0.Id == ks::KSPROPERTY_AUDIO_VOLUMELEVEL {
        Levels { volume: levels.volume.update(req.Node as int, x), mute: levels.mute }
    } else {
        Levels { volume: levels.volume, mute: levels.mute.update(req.Node as int, x) }
    }
}

/// An answer that leaves value and size as they were.
pub open spec fn refused(req: PCPROPERTY_REQUEST, status: NTSTATUS) -> Answer {
    Answer { status, value: value_bytes(req), size: req.ValueSize }
}

/// A successful answer that writes `b` at the start of the value.
pub open spec fn answered(req: PCPROPERTY_REQUEST, b: Seq<u8>) -> Answer {
    Answer {
        status: STATUS_SUCCESS,
        value: bytes::patched(value_bytes(req), 0, b),
        size: b.len() as u32,
    }
}

/// Whether the verb of a request asks for a description.
pub open spec fn asks_support(req: PCPROPERTY_REQUEST) -> bool {
    req.Verb & ks::KSPROPERTY_TYPE_BASICSUPPORT != 0
}

/// Whether it asks for the value, and for no description.
pub open spec fn asks_get(req: PCPROPERTY_REQUEST) -> bool {
    !asks_support(req) && req.Verb & ks::KSPROPERTY_TYPE_GET != 0
}

/// Whether it sets the value, and asks for nothing.
pub open spec fn asks_set(req: PCPROPERTY_REQUEST) -> bool {
    !asks_support(req) && !asks_get(req) && req.Verb & ks::KSPROPERTY_TYPE_SET != 0
}

/// The answer to a request for a level.
pub open spec fn level_answer(levels: Levels, req: PCPROPERTY_REQUEST) -> Answer {
    if !names_level(req) {
        refused(req, STATUS_INVALID_PARAMETER)
    } else if asks_support(req) {
        if req.ValueSize >= ks::KSPROPERTY_DESCRIPTION_SIZE {
            answered(req, description_bytes(level_description()))
        } else if req.ValueSize >= 4 {
            answered(req, bytes::le32(ks::KSPROPERTY_TYPE_ALL))
        } else {
            refused(req, STATUS_BUFFER_TOO_SMALL)
        }
    } else if asks_get(req) {
        if req.ValueSize < 4 {
            refused(req, STATUS_BUFFER_TOO_SMALL)
        } else {
            answered(req, bytes::le32(bytes::bits32(level_of(levels, req))))
        }
    } else if asks_set(req) {
        if req.ValueSize < 4 {
            refused(req, STATUS_BUFFER_TOO_SMALL)
        } else {
            refused(req, STATUS_SUCCESS)
        }
    } else {
        refused(req, STATUS_INVALID_PARAMETER)
    }
}

/// The levels after a request: changed only by a set of a level that exists, from a buffer that
/// holds a value.
pub open spec fn levels_after(levels: Levels, req: PCPROPERTY_REQUEST) -> Levels {
    if names_level(req) && asks_set(req) && req.ValueSize >= 4 {
        with_level(levels, req, bytes::signed32(bytes::dword_at(value_bytes(req), 0)))
    } else {
        levels
    }
}

/// The bytes of a property description.
pub fn encode_description(d: &KSPROPERTY_DESCRIPTION) -> (out: Vec<u8>)
    ensures
        out@ == description_bytes(*d),
        out@.len() == ks::KSPROPERTY_DESCRIPTION_SIZE,
{
    let mut out: Vec<u8> = Vec::new();
    bytes::push_u32(&mut out, d.AccessFlags);
    bytes::push_u32(&mut out, d.DescriptionSize);
    guid::push_guid(&mut out, &d.PropTypeSetSet);
    bytes::push_u32(&mut out, d.PropTypeSetId);
    bytes::push_u32(&mut out, d.PropTypeSetFlags);
    bytes::push_u32(&mut out, d.MembersListCount);
    bytes::push_u32(&mut out, d.Reserved);
    assert(out@ =~= description_bytes(*d));
    out
}

/// Writes `b` at the start of a request's value and states its length as the value's size.
pub fn answer_with(req: &mut PCPROPERTY_REQUEST, b: &[u8])
    requires
        is_request(*old(req)),
        old(req).Value is Some,
        b@.len() <= old(req).ValueSize,
    ensures
        is_request(*final(req)),
        same_question(*old(req), *final(req)),
        value_bytes(*final(req)) == bytes::patched(value_bytes(*old(req)), 0, b@),
        final(req).ValueSize == b@.len(),
{
    match req.Value.take() {
        Some(v) => {
            let mut v: Vec<u8> = v;
            bytes::write_at(&mut v, 0, b);
            req.Value = Some(v);
            req.ValueSize = b.len() as u32;
        },
        None => {},
    }
}

impl MiniportTopology {
    /// The values of the controls.
    pub open spec fn levels(&self) -> Levels {
        Levels { volume: self.volume@, mute: self.mute@ }
    }

    /// A new topology miniport, audible at full volume, referenced once.
    pub fn create(capture: bool) -> (mp: Self)
        ensures
            mp.refcount == 1,
            mp.capture == capture,
            mp.port == 0,
            mp.volume@ == seq![0i32, 0],
            mp.mute@ == seq![0i32, 0],
    {
        let mp = MiniportTopology { refcount: 1, capture, port: 0, volume: [0, 0], mute: [0, 0] };
        assert(mp.volume@ =~= seq![0i32, 0]);
        assert(mp.mute@ =~= seq![0i32, 0]);
        mp
    }

    /// Hands the object out under an interface it has: a new reference. The second result says
    /// whether the object was handed out.
    pub fn query_interface(&mut self, iid: &GUID) -> (r: (NTSTATUS, bool))
        requires
            old(self).refcount < u32::MAX,
        ensures
            r.1 == (*iid == guid::IID_IUnknown() || *iid == guid::IID_IMiniport() || *iid
                == guid::IID_IMiniportTopology()),
            r.0 == if r.1 {
                STATUS_SUCCESS
            } else {
                E_NOINTERFACE
            },
            *final(self) == (MiniportTopology {
                refcount: if r.1 {
                    (old(self).refcount + 1) as u32
                } else {
                    old(self).refcount
                },
                ..*old(self)
            }),
    {
        if guid::is_equal_guid(iid, &guid::IID_IUnknown()) || guid::is_equal_guid(
            iid,
            &guid::IID_IMiniport(),
        ) || guid::is_equal_guid(iid, &guid::IID_IMiniportTopology()) {
            com::interlocked_increment(&mut self.refcount);
            (STATUS_SUCCESS, true)
        } else {
            (E_NOINTERFACE, false)
        }
    }

    /// Takes a reference.
    pub fn add_ref(&mut self) -> (count: u32)
        requires
            old(self).refcount < u32::MAX,
        ensures
            count == old(self).refcount + 1,
            *final(self) == (MiniportTopology { refcount: count, ..*old(self) }),
    {
        com::interlocked_increment(&mut self.refcount)
    }

    /// Gives a reference back; at 0 nobody holds the object any more. The port is a weak handle
    /// and is not given back.
    pub fn release(&mut self) -> (count: u32)
        requires
            old(self).refcount > 0,
        ensures
            count == old(self).refcount - 1,
            *final(self) == (MiniportTopology { refcount: count, ..*old(self) }),
    {
        com::interlocked_decrement(&mut self.refcount)
    }

    /// The filter this miniport describes.
    pub fn get_description(&self) -> (r: (NTSTATUS, PCFILTER_DESCRIPTOR))
        ensures
            r.0 == STATUS_SUCCESS,
            self.capture ==> is_capture_topology(r.1),
            !self.capture ==> is_render_topology(r.1),
    {
        if self.capture {
            (STATUS_SUCCESS, capture_filter_descriptor())
        } else {
            (STATUS_SUCCESS, render_filter_descriptor())
        }
    }

    /// A topology filter negotiates no data ranges.
    pub fn data_range_intersection(&self) -> (status: NTSTATUS)
        ensures
            status == STATUS_NOT_IMPLEMENTED,
    {
        STATUS_NOT_IMPLEMENTED
    }

    /// Remembers the port.
    pub fn init(&mut self, port: PVOID) -> (status: NTSTATUS)
        ensures
            status == STATUS_SUCCESS,
            *final(self) == (MiniportTopology { port, ..*old(self) }),
    {
        self.port = port;
        STATUS_SUCCESS
    }

    /// Answers a request for the volume or the mute of a node.
    pub fn property_handler(&mut self, req: &mut PCPROPERTY_REQUEST) -> (status: NTSTATUS)
        requires
            is_request(*old(req)),
            old(req).ValueSize > 0 ==> old(req).Value is Some,
        ensures
            status == level_answer(old(self).levels(), *old(req)).status,
            value_bytes(*final(req)) == level_answer(old(self).levels(), *old(req)).value,
            final(req).ValueSize == level_answer(old(self).levels(), *old(req)).size,
            same_question(*old(req), *final(req)),
            is_request(*final(req)),
            final(self).levels() == levels_after(old(self).levels(), *old(req)),
            final(self).refcount == old(self).refcount,
            final(self).capture == old(self).capture,
            final(self).port == old(self).port,
    {
        let id: u32 = match &req.PropertyItem {
            None => {
                return STATUS_INVALID_PARAMETER;
            },
            Some(item) => item.Id,
        };
        if req.Node as usize >= TOPO_NODE_COUNT {
            return STATUS_INVALID_PARAMETER;
        }
        let node: usize = req.Node as usize;
        let is_volume: bool = id == ks::KSPROPERTY_AUDIO_VOLUMELEVEL;
        if !is_volume && id != ks::KSPROPERTY_AUDIO_MUTE {
            return STATUS_INVALID_PARAMETER;
        }
        if req.Verb & ks::KSPROPERTY_TYPE_BASICSUPPORT != 0 {
            if req.ValueSize as usize >= ks::KSPROPERTY_DESCRIPTION_SIZE {
                let b: Vec<u8> = encode_description(
                    &KSPROPERTY_DESCRIPTION {
                        AccessFlags: ks::KSPROPERTY_TYPE_ALL,
                        DescriptionSize: 40,
                        PropTypeSetSet: guid::KSPROPTYPESETID_GENERAL(),
                        PropTypeSetId: ks::VT_I4,
                        PropTypeSetFlags: 0,
                        MembersListCount: 0,
                        Reserved: 0,
                    },
                );
                answer_with(req, b.as_slice());
            } else if req.ValueSize >= 4 {
                let mut b: Vec<u8> = Vec::new();
                bytes::push_u32(&mut b, ks::KSPROPERTY_TYPE_ALL);
                assert(b@ =~= bytes::le32(ks::KSPROPERTY_TYPE_ALL));
                answer_with(req, b.as_slice());
            } else {
                return STATUS_BUFFER_TOO_SMALL;
            }
            return STATUS_SUCCESS;
        }
        if req.Verb & ks::KSPROPERTY_TYPE_GET != 0 {
            if req.ValueSize < 4 {
                return STATUS_BUFFER_TOO_SMALL;
            }
            let level: i32 = if is_volume {
                self.volume[node]
            } else {
                self.mute[node]
            };
            let mut b: Vec<u8> = Vec::new();
            bytes::push_u32(&mut b, bytes::status_bits(level));
            assert(b@ =~= bytes::le32(bytes::bits32(level)));
            answer_with(req, b.as_slice());
            return STATUS_SUCCESS;
        }
        if req.Verb & ks::KSPROPERTY_TYPE_SET != 0 {
            if req.ValueSize < 4 {
                return STATUS_BUFFER_TOO_SMALL;
            }
            match &req.Value {
                Some(v) => {
                    let level: i32 = bytes::signed_of(bytes::read_u32(v.as_slice(), 0));
                    if is_volume {
                        self.volume[node] = level;
                    } else {
                        self.mute[node] = level;
                    }
                },
                None => {},
            }
            return STATUS_SUCCESS;
        }
        STATUS_INVALID_PARAMETER
    }
}

/// A level that was set is the level that is read, by any later request for the same level with
/// room for it.
pub proof fn law_set_level_is_read_back(
    levels: Levels,
    set: PCPROPERTY_REQUEST,
    get: PCPROPERTY_REQUEST,
)
    requires
        levels.volume.len() == TOPO_NODE_COUNT,
        levels.mute.len() == TOPO_NODE_COUNT,
        is_request(set),
        is_request(get),
        set.Value is Some,
        get.Value is Some,
        names_level(set),
        get.PropertyItem is Some,
        get.PropertyItem->0.Id == set.PropertyItem->0.Id,
        get.Node == set.Node,
        asks_set(set),
        asks_get(get),
        set.ValueSize >= 4,
        get.ValueSize >= 4,
    ensures
        level_answer(levels, set).status == STATUS_SUCCESS,
        ({
            let answer = level_answer(levels_after(levels, set), get);
            &&& answer.status == STATUS_SUCCESS
            &&& answer.size == 4
            &&& bytes::signed32(bytes::dword_at(answer.value, 0)) == bytes::signed32(
                bytes::dword_at(value_bytes(set), 0),
            )
        }),
{
    let x = bytes::signed32(bytes::dword_at(value_bytes(set), 0));
    let answer = level_answer(levels_after(levels, set), get);
    let b = bytes::le32(bytes::bits32(x));
    bytes::lemma_le32_read_back(bytes::bits32(x));
    bytes::lemma_signed32_of_bits32(x);
    bytes::lemma_patched(value_bytes(get), 0, b);
    bytes::lemma_dword_of_part(answer.value, 0, b);
}

/// A request changes at most the level that it names.
pub proof fn law_other_levels_stay(levels: Levels, req: PCPROPERTY_REQUEST, node: int)
    requires
        levels.volume.len() == TOPO_NODE_COUNT,
        levels.mute.len() == TOPO_NODE_COUNT,
        0 <= node < TOPO_NODE_COUNT,
    ensures
        node != req.Node || req.PropertyItem->0.Id != ks::KSPROPERTY_AUDIO_VOLUMELEVEL || !asks_set(
            req,
        ) ==> levels_after(levels, req).volume[node] == levels.volume[node],
        node != req.Node || req.PropertyItem->0.Id != ks::KSPROPERTY_AUDIO_MUTE || !asks_set(req)
            ==> levels_after(levels, req).mute[node] == levels.mute[node],
{
}

/// A request that is refused changes neither a level nor the request.
pub proof fn law_refused_request_changes_nothing(levels: Levels, req: PCPROPERTY_REQUEST)
    requires
        level_answer(levels, req).status != STATUS_SUCCESS,
    ensures
        levels_after(levels, req) == levels,
        level_answer(levels, req).value == value_bytes(req),
        level_answer(levels, req).size == req.ValueSize,
{
}

/// A verb says what is asked for by three of its bits: the tenth asks for a description, whatever
/// else is set; without it the first asks for the value; without both the second sets it.
pub proof fn law_verbs_are_told_apart(req: PCPROPERTY_REQUEST)
    ensures
        asks_support(req) <==> (req.Verb as int / 0x200) % 2 == 1,
        asks_get(req) <==> (req.Verb as int / 0x200) % 2 == 0 && req.Verb as int % 2 == 1,
        asks_set(req) <==> (req.Verb as int / 0x200) % 2 == 0 && req.Verb as int % 2 == 0 && (
        req.Verb as int / 2) % 2 == 1,
{
    let v = req.Verb;
    assert((v & 0x200 != 0) == ((v / 0x200) % 2 == 1)) by (bit_vector);
    assert((v & 0x1 != 0) == (v % 2 == 1)) by (bit_vector);
    assert((v & 0x2 != 0) == ((v / 2) % 2 == 1)) by (bit_vector);
}

/// A filter has four levels, the volume and the mute of each of two nodes. A request for one of
/// them succeeds exactly if its verb asks for something and it has room for four bytes; for want
/// of room it is told so, and every other request is invalid.
pub proof fn law_levels_are_answered(levels: Levels, req: PCPROPERTY_REQUEST)
    ensures
        ({
            let named = req.PropertyItem is Some && req.Node < 2 && (req.PropertyItem->0.Id == 4
                || req.PropertyItem->0.Id == 13);
            let asks = asks_support(req) || asks_get(req) || asks_set(req);
            let status = level_answer(levels, req).status;
            &&& status == STATUS_SUCCESS <==> named && asks && req.ValueSize >= 4
            &&& status == STATUS_BUFFER_TOO_SMALL <==> named && asks && req.ValueSize < 4
            &&& status == STATUS_INVALID_PARAMETER <==> !named || !asks
        }),
{
}

/// A description of a level is given to a reader with 40 bytes: that it can be read, set and
/// described, and is a 32-bit integer. A reader with less gets the first four bytes of it.
pub proof fn law_levels_are_described(levels: Levels, req: PCPROPERTY_REQUEST)
    requires
        names_level(req),
        asks_support(req),
        is_request(req),
        req.Value is Some,
        req.ValueSize >= 4,
    ensures
        ({
            let a = level_answer(levels, req);
            &&& a.size == if req.ValueSize >= 40 {
                40u32
            } else {
                4u32
            }
            &&& bytes::dword_at(a.value, 0) == 0x203
            &&& req.ValueSize >= 40 ==> bytes::dword_at(a.value, 4) == 40 && guid::guid_at(
                a.value,
                8,
                guid::KSPROPTYPESETID_GENERAL(),
            ) && bytes::dword_at(a.value, 24) == 3
        }),
{
    let a = level_answer(levels, req);
    let value = value_bytes(req);
    if req.ValueSize >= 40 {
        let d = level_description();
        let b = description_bytes(d);
        assert(b.len() == 40);
        bytes::lemma_patched(value, 0, b);
        assert forall|i: int| 0 <= i < 40 implies a.value[i] == b[i] by {
            assert(a.value.subrange(0, 40)[i] == a.value[i]);
        }
        assert(a.value.subrange(0, 4) =~= bytes::le32(d.AccessFlags));
        bytes::lemma_le32_read_back(d.AccessFlags);
        bytes::lemma_dword_of_part(a.value, 0, bytes::le32(d.AccessFlags));
        assert(a.value.subrange(4, 8) =~= bytes::le32(d.DescriptionSize));
        bytes::lemma_le32_read_back(d.DescriptionSize);
        bytes::lemma_dword_of_part(a.value, 4, bytes::le32(d.DescriptionSize));
        assert(a.value.subrange(8, 24) =~= guid::guid_bytes(d.PropTypeSetSet));
        guid::law_guid_bytes_read_back(a.value, 8, d.PropTypeSetSet);
        assert(a.value.subrange(24, 28) =~= bytes::le32(d.PropTypeSetId));
        bytes::lemma_le32_read_back(d.PropTypeSetId);
        bytes::lemma_dword_of_part(a.value, 24, bytes::le32(d.PropTypeSetId));
    } else {
        let b = bytes::le32(ks::KSPROPERTY_TYPE_ALL);
        bytes::lemma_patched(value, 0, b);
        bytes::lemma_le32_read_back(ks::KSPROPERTY_TYPE_ALL);
        bytes::lemma_dword_of_part(a.value, 0, b);
    }
}

/// The level that a request for it gives is the one of its node: of the volumes for the property
/// 4, of the mutes for the property 13, as a 32-bit number.
pub proof fn law_level_of_the_node_is_given(levels: Levels, req: PCPROPERTY_REQUEST)
    requires
        names_level(req),
        asks_get(req),
        is_request(req),
        req.Value is Some,
        req.ValueSize >= 4,
    ensures
        ({
            let a = level_answer(levels, req);
            &&& a.size == 4
            &&& bytes::signed32(bytes::dword_at(a.value, 0)) == if req.PropertyItem->0.Id == 4 {
                levels.volume[req.Node as int]
            } else {
                levels.mute[req.Node as int]
            }
            &&& a.value.skip(4) == value_bytes(req).skip(4)
        }),
{
    let x = level_of(levels, req);
    let b = bytes::le32(bytes::bits32(x));
    let a = level_answer(levels, req);
    bytes::lemma_le32_read_back(bytes::bits32(x));
    bytes::lemma_signed32_of_bits32(x);
    bytes::lemma_patched(value_bytes(req), 0, b);
    bytes::lemma_dword_of_part(a.value, 0, b);
    assert(a.value.skip(4) =~= value_bytes(req).skip(4));
}

} // verus!
