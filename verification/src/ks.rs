//! Kernel-streaming types: formats, pins, filters, properties. Pointers to tables are the tables
//! themselves; handles of objects that others own are numbers, 0 for none.
use crate::guid::GUID;
use crate::layout;
use crate::layout::Layout;
use vstd::prelude::*;

verus! {

pub type ULONG = u32;

pub type BOOLEAN = u8;

/// An opaque handle; 0 is none.
pub type PVOID = u64;

// ---- sizes on the 64-bit interface ----
pub const GUID_SIZE: usize = 16;

pub const KSDATAFORMAT_SIZE: usize = 64;

pub const WAVEFORMATEX_SIZE: usize = 20;

pub const KSDATAFORMAT_WAVEFORMATEX_SIZE: usize = 84;

pub const WAVEFORMATEXTENSIBLE_SIZE: usize = 40;

pub const KSDATAFORMAT_WAVEFORMATEXTENSIBLE_SIZE: usize = 104;

pub const KSPROPERTY_DESCRIPTION_SIZE: usize = 40;

pub const KSATTRIBUTE_SIZE: usize = 24;

pub const KSATTRIBUTE_MODE_SIZE: usize = 40;

pub const KSMULTIPLE_ITEM_SIZE: usize = 8;

pub const KSPROPERTY_STEPPING_LONG_SIZE: usize = 16;

/// A pointer on the 64-bit interface.
pub const POINTER_SIZE: usize = 8;

// ---- pins ----
pub type KSPIN_DATAFLOW = u32;

pub const KSPIN_DATAFLOW_IN: KSPIN_DATAFLOW = 1;

pub const KSPIN_DATAFLOW_OUT: KSPIN_DATAFLOW = 2;

pub type KSPIN_COMMUNICATION = u32;

pub const KSPIN_COMMUNICATION_NONE: KSPIN_COMMUNICATION = 0;

pub const KSPIN_COMMUNICATION_SINK: KSPIN_COMMUNICATION = 1;

pub const KSPIN_COMMUNICATION_SOURCE: KSPIN_COMMUNICATION = 2;

pub const KSPIN_COMMUNICATION_BOTH: KSPIN_COMMUNICATION = 3;

pub const KSPIN_COMMUNICATION_BRIDGE: KSPIN_COMMUNICATION = 4;

pub const KSINTERFACE_STANDARD_STREAMING: u32 = 0;

/// The interface by which a WaveRT pin is opened.
pub const KSINTERFACE_STANDARD_LOOPED_STREAMING: u32 = 1;

pub const KSMEDIUM_TYPE_ANYINSTANCE: u32 = 0;

/// The filter itself, as the end of a connection.
pub const PCFILTER_NODE: u32 = 0xFFFF_FFFF;

// ---- properties ----
pub const KSPROPERTY_TYPE_GET: u32 = 0x1;

pub const KSPROPERTY_TYPE_SET: u32 = 0x2;

pub const KSPROPERTY_TYPE_BASICSUPPORT: u32 = 0x200;

/// Get, set and basic support together.
pub const KSPROPERTY_TYPE_ALL: u32 = 0x203;

pub const KSPROPERTY_AUDIO_VOLUMELEVEL: u32 = 4;

pub const KSPROPERTY_AUDIO_MUTE: u32 = 13;

pub const KSPROPERTY_PIN_PROPOSEDATAFORMAT: u32 = 14;

pub const KSPROPERTY_PIN_PROPOSEDATAFORMAT2: u32 = 15;

pub const KSPROPERTY_VDEV_DEBUG_STATS: u32 = 0;

/// A property value that is a 32-bit integer.
pub const VT_I4: u32 = 3;

/// A data range that an attribute list follows.
pub const KSDATARANGE_ATTRIBUTES: u32 = 0x2;

/// A data format that an attribute list follows.
pub const KSDATAFORMAT_ATTRIBUTES: u32 = 0x2;

pub const DEVICE_DESCRIPTION_VERSION: u32 = 0x0000;

pub const DEVICE_DESCRIPTION_VERSION1: u32 = 0x0001;

pub const DEVICE_DESCRIPTION_VERSION2: u32 = 0x0002;

/// What data a pin accepts.
#[derive(Clone, Copy, Debug)]
pub struct KSDATARANGE {
    pub FormatSize: ULONG,
    pub Flags: ULONG,
    pub SampleSize: ULONG,
    pub Reserved: ULONG,
    pub MajorFormat: GUID,
    pub SubFormat: GUID,
    pub Specifier: GUID,
}

/// The head of a data format.
#[derive(Clone, Copy, Debug)]
pub struct KSDATAFORMAT {
    pub FormatSize: ULONG,
    pub Flags: ULONG,
    pub SampleSize: ULONG,
    pub Reserved: ULONG,
    pub MajorFormat: GUID,
    pub SubFormat: GUID,
    pub Specifier: GUID,
}

/// A data range with the audio limits behind it.
#[derive(Clone, Copy, Debug)]
pub struct KSDATARANGE_AUDIO {
    pub DataRange: KSDATARANGE,
    pub MaximumChannels: u32,
    pub MinimumBitsPerSample: u32,
    pub MaximumBitsPerSample: u32,
    pub MinimumSampleFrequency: u32,
    pub MaximumSampleFrequency: u32,
}

/// A wave format.
#[derive(Clone, Copy, Debug, PartialEq, Eq, Structural)]
pub struct WAVEFORMATEX {
    pub wFormatTag: u16,
    pub nChannels: u16,
    pub nSamplesPerSec: u32,
    pub nAvgBytesPerSec: u32,
    pub nBlockAlign: u16,
    pub wBitsPerSample: u16,
    pub cbSize: u16,
}

/// A data format with the wave format behind it, by value.
#[derive(Clone, Copy, Debug)]
pub struct KSDATAFORMAT_WAVEFORMATEX {
    pub DataFormat: KSDATAFORMAT,
    pub WaveFormatEx: WAVEFORMATEX,
}

/// An attribute: its size, flags and which one it is.
#[derive(Clone, Copy, Debug)]
pub struct KsAttribute {
    pub Size: u32,
    pub Flags: u32,
    pub Attribute: GUID,
}

/// A list of attributes.
#[derive(Debug)]
pub struct KsAttributeList {
    pub Count: u32,
    pub Attributes: Vec<KsAttribute>,
}

/// One slot of a pin's table of data ranges.
#[derive(Debug)]
pub enum DataRangeSlot {
    Range(KSDATARANGE),
    Audio(KSDATARANGE_AUDIO),
    Attributes(KsAttributeList),
}

/// The states of a stream, from released to running.
#[derive(Clone, Copy, Debug, PartialEq, Eq, Structural)]
pub enum KSSTATE {
    KSSTATE_STOP,
    KSSTATE_ACQUIRE,
    KSSTATE_PAUSE,
    KSSTATE_RUN,
}

/// The positions of a stream on its buffer.
#[derive(Clone, Copy, Debug, PartialEq, Eq, Structural)]
pub struct KSAUDIO_POSITION {
    pub PlayOffset: u64,
    pub WriteOffset: u64,
}

/// The delays of the hardware.
#[derive(Clone, Copy, Debug, PartialEq, Eq, Structural)]
pub struct KSRTAUDIO_HWLATENCY {
    pub FifoSize: u32,
    pub ChipsetDelay: u32,
    pub CodecDelay: u32,
}

/// A hardware register that counts.
#[derive(Clone, Copy, Debug, PartialEq, Eq, Structural)]
pub struct KSRTAUDIO_HWREGISTER {
    pub Register: PVOID,
    pub Width: ULONG,
    pub Numerator: u64,
    pub Denominator: u64,
    pub Accuracy: ULONG,
}

/// A pin's interface.
#[derive(Clone, Copy, Debug)]
pub struct KSPIN_INTERFACE {
    pub Set: GUID,
    pub Id: ULONG,
    pub Flags: ULONG,
}

/// A pin's medium.
#[derive(Clone, Copy, Debug)]
pub struct KSPIN_MEDIUM {
    pub Set: GUID,
    pub Id: ULONG,
    pub Flags: ULONG,
}

/// A table of constrained data ranges.
#[derive(Clone, Copy, Debug, PartialEq, Eq, Structural)]
pub struct KSPIN_CONSTRAINED_DATA_RANGES {
    pub ConstrainedDataRangesCount: ULONG,
    pub ConstrainedDataRanges: PVOID,
}

/// The end of a pin descriptor: a reserved number or constrained ranges, in the same place.
#[derive(Clone, Copy, Debug, PartialEq, Eq, Structural)]
pub enum KSPIN_DESCRIPTOR_TAIL {
    Reserved(i64),
    Constrained(KSPIN_CONSTRAINED_DATA_RANGES),
}

/// What a pin is.
#[derive(Debug)]
pub struct KSPIN_DESCRIPTOR {
    pub InterfacesCount: ULONG,
    pub Interfaces: Vec<KSPIN_INTERFACE>,
    pub MediumsCount: ULONG,
    pub Mediums: Vec<KSPIN_MEDIUM>,
    pub DataRangesCount: ULONG,
    pub DataRanges: Vec<DataRangeSlot>,
    pub DataFlow: KSPIN_DATAFLOW,
    pub Communication: KSPIN_COMMUNICATION,
    pub Category: GUID,
    pub Name: Option<GUID>,
    pub Reserved: KSPIN_DESCRIPTOR_TAIL,
}

/// What the port class knows of a pin.
#[derive(Debug)]
pub struct PCPIN_DESCRIPTOR {
    pub MaxGlobalInstanceCount: ULONG,
    pub MaxFilterInstanceCount: ULONG,
    pub MinFilterInstanceCount: ULONG,
    pub AutomationTable: Option<PCAUTOMATION_TABLE>,
    pub KsPinDescriptor: KSPIN_DESCRIPTOR,
}

/// Which function answers a property.
#[derive(Clone, Copy, Debug, PartialEq, Eq, Structural)]
pub enum PropertyHandler {
    TopologyLevel,
    ProposedFormat,
    DebugStats,
}

/// One property and who answers it.
#[derive(Clone, Copy, Debug)]
pub struct PCPROPERTY_ITEM {
    pub Set: GUID,
    pub Id: ULONG,
    pub Flags: ULONG,
    pub Handler: PropertyHandler,
}

/// A request for a property. The instance and the value are buffers of the caller, none where
/// the caller passed no buffer; the sizes are those it stated.
#[derive(Debug)]
pub struct PCPROPERTY_REQUEST {
    pub MajorTarget: PVOID,
    pub MinorTarget: PVOID,
    pub Node: ULONG,
    pub PropertyItem: Option<PCPROPERTY_ITEM>,
    pub Verb: ULONG,
    pub InstanceSize: ULONG,
    pub Instance: Option<Vec<u8>>,
    pub ValueSize: ULONG,
    pub Value: Option<Vec<u8>>,
    pub Irp: PVOID,
}

/// The properties of a filter or a node.
#[derive(Debug)]
pub struct PCAUTOMATION_TABLE {
    pub PropertyItemSize: ULONG,
    pub PropertyCount: ULONG,
    pub Properties: Vec<PCPROPERTY_ITEM>,
    pub MethodItemSize: ULONG,
    pub MethodCount: ULONG,
    pub Methods: PVOID,
    pub EventItemSize: ULONG,
    pub EventCount: ULONG,
    pub Events: PVOID,
    pub Reserved: ULONG,
}

/// What kind of value a property has.
#[derive(Clone, Copy, Debug)]
pub struct KSPROPERTY_DESCRIPTION {
    pub AccessFlags: ULONG,
    pub DescriptionSize: ULONG,
    pub PropTypeSetSet: GUID,
    pub PropTypeSetId: ULONG,
    pub PropTypeSetFlags: ULONG,
    pub MembersListCount: ULONG,
    pub Reserved: ULONG,
}

/// A node inside a filter.
#[derive(Debug)]
pub struct PCNODE_DESCRIPTOR {
    pub Flags: ULONG,
    pub AutomationTable: Option<PCAUTOMATION_TABLE>,
    pub Type: GUID,
    pub Name: GUID,
}

/// A connection inside a filter.
#[derive(Clone, Copy, Debug, PartialEq, Eq, Structural)]
pub struct PCCONNECTION_DESCRIPTOR {
    pub FromNode: ULONG,
    pub FromNodePin: ULONG,
    pub ToNode: ULONG,
    pub ToNodePin: ULONG,
}

/// What a filter is.
#[derive(Debug)]
pub struct PCFILTER_DESCRIPTOR {
    pub Version: ULONG,
    pub AutomationTable: Option<PCAUTOMATION_TABLE>,
    pub PinSize: ULONG,
    pub PinCount: ULONG,
    pub Pins: Vec<PCPIN_DESCRIPTOR>,
    pub NodeSize: ULONG,
    pub NodeCount: ULONG,
    pub Nodes: Vec<PCNODE_DESCRIPTOR>,
    pub ConnectionCount: ULONG,
    pub Connections: Vec<PCCONNECTION_DESCRIPTOR>,
    pub CategoryCount: ULONG,
    pub Categories: Vec<GUID>,
}

/// The width of a DMA transfer.
#[derive(Clone, Copy, Debug, PartialEq, Eq, Structural)]
pub enum DMA_WIDTH {
    Width8Bits,
    Width16Bits,
    Width32Bits,
    Width64Bits,
    WidthNoWrap,
    MaximumDmaWidth,
}

/// The speed of a DMA controller.
#[derive(Clone, Copy, Debug, PartialEq, Eq, Structural)]
pub enum DMA_SPEED {
    Compatible,
    TypeA,
    TypeB,
    TypeC,
    TypeF,
    MaximumDmaSpeed,
}

/// The bus a device sits on.
#[derive(Clone, Copy, Debug, PartialEq, Eq, Structural)]
pub enum INTERFACE_TYPE {
    InterfaceTypeUndefined,
    Internal,
    Isa,
    Eisa,
    MicroChannel,
    TurboChannel,
    PCIBus,
    VMEBus,
    NuBus,
    PCMCIABus,
    CBus,
    MPIBus,
    MPSABus,
    ProcessorInternal,
    InternalPowerBus,
    PNPISABus,
    PNPBus,
    Vmcs,
    ACPIBus,
    MaximumInterfaceType,
}

/// What a device tells of its DMA.
#[derive(Clone, Copy, Debug, PartialEq, Eq, Structural)]
pub struct DEVICE_DESCRIPTION {
    pub Version: ULONG,
    pub Master: BOOLEAN,
    pub ScatterGather: BOOLEAN,
    pub DemandMode: BOOLEAN,
    pub AutoInitialize: BOOLEAN,
    pub Dma32BitAddresses: BOOLEAN,
    pub IgnoreCount: BOOLEAN,
    pub Reserved1: BOOLEAN,
    pub Dma64BitAddresses: BOOLEAN,
    pub BusNumber: ULONG,
    pub DmaChannel: ULONG,
    pub InterfaceType: INTERFACE_TYPE,
    pub DmaWidth: DMA_WIDTH,
    pub DmaSpeed: DMA_SPEED,
    pub MaximumLength: ULONG,
    pub DmaPort: ULONG,
}

/// The number of a stream state on the interface.
pub open spec fn state_number(s: KSSTATE) -> u32 {
    match s {
        KSSTATE::KSSTATE_STOP => 0,
        KSSTATE::KSSTATE_ACQUIRE => 1,
        KSSTATE::KSSTATE_PAUSE => 2,
        KSSTATE::KSSTATE_RUN => 3,
    }
}

impl KSSTATE {
    /// The number of the state on the interface.
    pub fn value(self) -> (n: u32)
        ensures
            n == state_number(self),
    {
        match self {
            KSSTATE::KSSTATE_STOP => 0,
            KSSTATE::KSSTATE_ACQUIRE => 1,
            KSSTATE::KSSTATE_PAUSE => 2,
            KSSTATE::KSSTATE_RUN => 3,
        }
    }
}

/// The number of a DMA width on the interface.
pub open spec fn dma_width_number(w: DMA_WIDTH) -> u32 {
    match w {
        DMA_WIDTH::Width8Bits => 0,
        DMA_WIDTH::Width16Bits => 1,
        DMA_WIDTH::Width32Bits => 2,
        DMA_WIDTH::Width64Bits => 3,
        DMA_WIDTH::WidthNoWrap => 4,
        DMA_WIDTH::MaximumDmaWidth => 5,
    }
}

impl DMA_WIDTH {
    /// The number of the width on the interface.
    pub fn value(self) -> (n: u32)
        ensures
            n == dma_width_number(self),
    {
        match self {
            DMA_WIDTH::Width8Bits => 0,
            DMA_WIDTH::Width16Bits => 1,
            DMA_WIDTH::Width32Bits => 2,
            DMA_WIDTH::Width64Bits => 3,
            DMA_WIDTH::WidthNoWrap => 4,
            DMA_WIDTH::MaximumDmaWidth => 5,
        }
    }
}

/// The number of a DMA speed on the interface.
pub open spec fn dma_speed_number(s: DMA_SPEED) -> u32 {
    match s {
        DMA_SPEED::Compatible => 0,
        DMA_SPEED::TypeA => 1,
        DMA_SPEED::TypeB => 2,
        DMA_SPEED::TypeC => 3,
        DMA_SPEED::TypeF => 4,
        DMA_SPEED::MaximumDmaSpeed => 5,
    }
}

impl DMA_SPEED {
    /// The number of the speed on the interface.
    pub fn value(self) -> (n: u32)
        ensures
            n == dma_speed_number(self),
    {
        match self {
            DMA_SPEED::Compatible => 0,
            DMA_SPEED::TypeA => 1,
            DMA_SPEED::TypeB => 2,
            DMA_SPEED::TypeC => 3,
            DMA_SPEED::TypeF => 4,
            DMA_SPEED::MaximumDmaSpeed => 5,
        }
    }
}

/// The number of a bus on the interface: the undefined one is -1, the others count from 0.
pub open spec fn interface_type_number(t: INTERFACE_TYPE) -> int {
    match t {
        INTERFACE_TYPE::InterfaceTypeUndefined => -1int,
        INTERFACE_TYPE::Internal => 0,
        INTERFACE_TYPE::Isa => 1,
        INTERFACE_TYPE::Eisa => 2,
        INTERFACE_TYPE::MicroChannel => 3,
        INTERFACE_TYPE::TurboChannel => 4,
        INTERFACE_TYPE::PCIBus => 5,
        INTERFACE_TYPE::VMEBus => 6,
        INTERFACE_TYPE::NuBus => 7,
        INTERFACE_TYPE::PCMCIABus => 8,
        INTERFACE_TYPE::CBus => 9,
        INTERFACE_TYPE::MPIBus => 10,
        INTERFACE_TYPE::MPSABus => 11,
        INTERFACE_TYPE::ProcessorInternal => 12,
        INTERFACE_TYPE::InternalPowerBus => 13,
        INTERFACE_TYPE::PNPISABus => 14,
        INTERFACE_TYPE::PNPBus => 15,
        INTERFACE_TYPE::Vmcs => 16,
        INTERFACE_TYPE::ACPIBus => 17,
        INTERFACE_TYPE::MaximumInterfaceType => 18,
    }
}

impl INTERFACE_TYPE {
    /// The number of the bus on the interface.
    pub fn value(self) -> (n: i32)
        ensures
            n == interface_type_number(self),
    {
        match self {
            INTERFACE_TYPE::InterfaceTypeUndefined => -1,
            INTERFACE_TYPE::Internal => 0,
            INTERFACE_TYPE::Isa => 1,
            INTERFACE_TYPE::Eisa => 2,
            INTERFACE_TYPE::MicroChannel => 3,
            INTERFACE_TYPE::TurboChannel => 4,
            INTERFACE_TYPE::PCIBus => 5,
            INTERFACE_TYPE::VMEBus => 6,
            INTERFACE_TYPE::NuBus => 7,
            INTERFACE_TYPE::PCMCIABus => 8,
            INTERFACE_TYPE::CBus => 9,
            INTERFACE_TYPE::MPIBus => 10,
            INTERFACE_TYPE::MPSABus => 11,
            INTERFACE_TYPE::ProcessorInternal => 12,
            INTERFACE_TYPE::InternalPowerBus => 13,
            INTERFACE_TYPE::PNPISABus => 14,
            INTERFACE_TYPE::PNPBus => 15,
            INTERFACE_TYPE::Vmcs => 16,
            INTERFACE_TYPE::ACPIBus => 17,
            INTERFACE_TYPE::MaximumInterfaceType => 18,
        }
    }
}

impl GUID {
    /// How the fields stand in memory, in order of declaration.
    pub fn layout() -> (l: Layout)
        ensures
            layout::well_placed(l.fields@, l.align as int),
            l.size == 16,
            l.align == 4,
            layout::offsets(l.fields@) == seq![0int, 4, 6, 8],
    {
        let mut l: Layout = Layout::empty();
        l.push(4, 4);
        l.push(2, 2);
        l.push(2, 2);
        l.push(8, 1);
        let l: Layout = l.finish();
        assert(layout::offsets(l.fields@) =~= seq![0int, 4, 6, 8]);
        l
    }
}

impl KSDATARANGE {
    /// How the fields stand in memory, in order of declaration.
    pub fn layout() -> (l: Layout)
        ensures
            layout::well_placed(l.fields@, l.align as int),
            l.size == 64,
            l.align == 4,
            layout::offsets(l.fields@) == seq![0int, 4, 8, 12, 16, 32, 48],
    {
        let mut l: Layout = Layout::empty();
        l.push(4, 4);
        l.push(4, 4);
        l.push(4, 4);
        l.push(4, 4);
        l.push(16, 4);
        l.push(16, 4);
        l.push(16, 4);
        let l: Layout = l.finish();
        assert(layout::offsets(l.fields@) =~= seq![0int, 4, 8, 12, 16, 32, 48]);
        l
    }
}

impl KSDATAFORMAT {
    /// How the fields stand in memory, in order of declaration.
    pub fn layout() -> (l: Layout)
        ensures
            layout::well_placed(l.fields@, l.align as int),
            l.size == 64,
            l.align == 4,
            layout::offsets(l.fields@) == seq![0int, 4, 8, 12, 16, 32, 48],
    {
        let mut l: Layout = Layout::empty();
        l.push(4, 4);
        l.push(4, 4);
        l.push(4, 4);
        l.push(4, 4);
        l.push(16, 4);
        l.push(16, 4);
        l.push(16, 4);
        let l: Layout = l.finish();
        assert(layout::offsets(l.fields@) =~= seq![0int, 4, 8, 12, 16, 32, 48]);
        l
    }
}

impl KSDATARANGE_AUDIO {
    /// How the fields stand in memory, in order of declaration.
    pub fn layout() -> (l: Layout)
        ensures
            layout::well_placed(l.fields@, l.align as int),
            l.size == 84,
            l.align == 4,
            layout::offsets(l.fields@) == seq![0int, 64, 68, 72, 76, 80],
    {
        let mut l: Layout = Layout::empty();
        l.push(64, 4);
        l.push(4, 4);
        l.push(4, 4);
        l.push(4, 4);
        l.push(4, 4);
        l.push(4, 4);
        let l: Layout = l.finish();
        assert(layout::offsets(l.fields@) =~= seq![0int, 64, 68, 72, 76, 80]);
        l
    }
}

impl WAVEFORMATEX {
    /// How the fields stand in memory, in order of declaration.
    pub fn layout() -> (l: Layout)
        ensures
            layout::well_placed(l.fields@, l.align as int),
            l.size == 20,
            l.align == 4,
            layout::offsets(l.fields@) == seq![0int, 2, 4, 8, 12, 14, 16],
    {
        let mut l: Layout = Layout::empty();
        l.push(2, 2);
        l.push(2, 2);
        l.push(4, 4);
        l.push(4, 4);
        l.push(2, 2);
        l.push(2, 2);
        l.push(2, 2);
        let l: Layout = l.finish();
        assert(layout::offsets(l.fields@) =~= seq![0int, 2, 4, 8, 12, 14, 16]);
        l
    }
}

impl KSDATAFORMAT_WAVEFORMATEX {
    /// How the fields stand in memory, in order of declaration.
    pub fn layout() -> (l: Layout)
        ensures
            layout::well_placed(l.fields@, l.align as int),
            l.size == 84,
            l.align == 4,
            layout::offsets(l.fields@) == seq![0int, 64],
    {
        let mut l: Layout = Layout::empty();
        l.push(64, 4);
        l.push(20, 4);
        let l: Layout = l.finish();
        assert(layout::offsets(l.fields@) =~= seq![0int, 64]);
        l
    }
}

impl KsAttribute {
    /// How the fields stand in memory, in order of declaration.
    pub fn layout() -> (l: Layout)
        ensures
            layout::well_placed(l.fields@, l.align as int),
            l.size == 24,
            l.align == 4,
            layout::offsets(l.fields@) == seq![0int, 4, 8],
    {
        let mut l: Layout = Layout::empty();
        l.push(4, 4);
        l.push(4, 4);
        l.push(16, 4);
        let l: Layout = l.finish();
        assert(layout::offsets(l.fields@) =~= seq![0int, 4, 8]);
        l
    }
}

impl KSPIN_INTERFACE {
    /// How the fields stand in memory, in order of declaration.
    pub fn layout() -> (l: Layout)
        ensures
            layout::well_placed(l.fields@, l.align as int),
            l.size == 24,
            l.align == 4,
            layout::offsets(l.fields@) == seq![0int, 16, 20],
    {
        let mut l: Layout = Layout::empty();
        l.push(16, 4);
        l.push(4, 4);
        l.push(4, 4);
        let l: Layout = l.finish();
        assert(layout::offsets(l.fields@) =~= seq![0int, 16, 20]);
        l
    }
}

impl KSPIN_MEDIUM {
    /// How the fields stand in memory, in order of declaration.
    pub fn layout() -> (l: Layout)
        ensures
            layout::well_placed(l.fields@, l.align as int),
            l.size == 24,
            l.align == 4,
            layout::offsets(l.fields@) == seq![0int, 16, 20],
    {
        let mut l: Layout = Layout::empty();
        l.push(16, 4);
        l.push(4, 4);
        l.push(4, 4);
        let l: Layout = l.finish();
        assert(layout::offsets(l.fields@) =~= seq![0int, 16, 20]);
        l
    }
}

impl KSPIN_CONSTRAINED_DATA_RANGES {
    /// How the fields stand in memory, in order of declaration.
    pub fn layout() -> (l: Layout)
        ensures
            layout::well_placed(l.fields@, l.align as int),
            l.size == 16,
            l.align == 8,
            layout::offsets(l.fields@) == seq![0int, 8],
    {
        let mut l: Layout = Layout::empty();
        l.push(4, 4);
        l.push(8, 8);
        let l: Layout = l.finish();
        assert(layout::offsets(l.fields@) =~= seq![0int, 8]);
        l
    }
}

impl KSPIN_DESCRIPTOR {
    /// How the fields stand in memory, in order of declaration.
    pub fn layout() -> (l: Layout)
        ensures
            layout::well_placed(l.fields@, l.align as int),
            l.size == 88,
            l.align == 8,
            layout::offsets(l.fields@) == seq![0int, 8, 16, 24, 32, 40, 48, 52, 56, 64, 72],
    {
        let mut l: Layout = Layout::empty();
        l.push(4, 4);
        l.push(8, 8);
        l.push(4, 4);
        l.push(8, 8);
        l.push(4, 4);
        l.push(8, 8);
        l.push(4, 4);
        l.push(4, 4);
        l.push(8, 8);
        l.push(8, 8);
        l.push(16, 8);
        let l: Layout = l.finish();
        assert(layout::offsets(l.fields@) =~= seq![0int, 8, 16, 24, 32, 40, 48, 52, 56, 64, 72]);
        l
    }
}

impl PCPIN_DESCRIPTOR {
    /// How the fields stand in memory, in order of declaration.
    pub fn layout() -> (l: Layout)
        ensures
            layout::well_placed(l.fields@, l.align as int),
            l.size == 112,
            l.align == 8,
            layout::offsets(l.fields@) == seq![0int, 4, 8, 16, 24],
    {
        let mut l: Layout = Layout::empty();
        l.push(4, 4);
        l.push(4, 4);
        l.push(4, 4);
        l.push(8, 8);
        l.push(88, 8);
        let l: Layout = l.finish();
        assert(layout::offsets(l.fields@) =~= seq![0int, 4, 8, 16, 24]);
        l
    }
}

impl PCFILTER_DESCRIPTOR {
    /// How the fields stand in memory, in order of declaration.
    pub fn layout() -> (l: Layout)
        ensures
            layout::well_placed(l.fields@, l.align as int),
            l.size == 80,
            l.align == 8,
            layout::offsets(l.fields@) == seq![0int, 8, 16, 20, 24, 32, 36, 40, 48, 56, 64, 72],
    {
        let mut l: Layout = Layout::empty();
        l.push(4, 4);
        l.push(8, 8);
        l.push(4, 4);
        l.push(4, 4);
        l.push(8, 8);
        l.push(4, 4);
        l.push(4, 4);
        l.push(8, 8);
        l.push(4, 4);
        l.push(8, 8);
        l.push(4, 4);
        l.push(8, 8);
        let l: Layout = l.finish();
        assert(layout::offsets(l.fields@) =~= seq![0int, 8, 16, 20, 24, 32, 36, 40, 48, 56, 64, 72]);
        l
    }
}

impl PCNODE_DESCRIPTOR {
    /// How the fields stand in memory, in order of declaration.
    pub fn layout() -> (l: Layout)
        ensures
            layout::well_placed(l.fields@, l.align as int),
            l.size == 32,
            l.align == 8,
            layout::offsets(l.fields@) == seq![0int, 8, 16, 24],
    {
        let mut l: Layout = Layout::empty();
        l.push(4, 4);
        l.push(8, 8);
        l.push(8, 8);
        l.push(8, 8);
        let l: Layout = l.finish();
        assert(layout::offsets(l.fields@) =~= seq![0int, 8, 16, 24]);
        l
    }
}

impl PCCONNECTION_DESCRIPTOR {
    /// How the fields stand in memory, in order of declaration.
    pub fn layout() -> (l: Layout)
        ensures
            layout::well_placed(l.fields@, l.align as int),
            l.size == 16,
            l.align == 4,
            layout::offsets(l.fields@) == seq![0int, 4, 8, 12],
    {
        let mut l: Layout = Layout::empty();
        l.push(4, 4);
        l.push(4, 4);
        l.push(4, 4);
        l.push(4, 4);
        let l: Layout = l.finish();
        assert(layout::offsets(l.fields@) =~= seq![0int, 4, 8, 12]);
        l
    }
}

impl PCPROPERTY_ITEM {
    /// How the fields stand in memory, in order of declaration.
    pub fn layout() -> (l: Layout)
        ensures
            layout::well_placed(l.fields@, l.align as int),
            l.size == 24,
            l.align == 8,
            layout::offsets(l.fields@) == seq![0int, 8, 12, 16],
    {
        let mut l: Layout = Layout::empty();
        l.push(8, 8);
        l.push(4, 4);
        l.push(4, 4);
        l.push(8, 8);
        let l: Layout = l.finish();
        assert(layout::offsets(l.fields@) =~= seq![0int, 8, 12, 16]);
        l
    }
}

impl PCPROPERTY_REQUEST {
    /// How the fields stand in memory, in order of declaration.
    pub fn layout() -> (l: Layout)
        ensures
            layout::well_placed(l.fields@, l.align as int),
            l.size == 72,
            l.align == 8,
            layout::offsets(l.fields@) == seq![0int, 8, 16, 24, 32, 36, 40, 48, 56, 64],
    {
        let mut l: Layout = Layout::empty();
        l.push(8, 8);
        l.push(8, 8);
        l.push(4, 4);
        l.push(8, 8);
        l.push(4, 4);
        l.push(4, 4);
        l.push(8, 8);
        l.push(4, 4);
        l.push(8, 8);
        l.push(8, 8);
        let l: Layout = l.finish();
        assert(layout::offsets(l.fields@) =~= seq![0int, 8, 16, 24, 32, 36, 40, 48, 56, 64]);
        l
    }
}

impl PCAUTOMATION_TABLE {
    /// How the fields stand in memory, in order of declaration.
    pub fn layout() -> (l: Layout)
        ensures
            layout::well_placed(l.fields@, l.align as int),
            l.size == 56,
            l.align == 8,
            layout::offsets(l.fields@) == seq![0int, 4, 8, 16, 20, 24, 32, 36, 40, 48],
    {
        let mut l: Layout = Layout::empty();
        l.push(4, 4);
        l.push(4, 4);
        l.push(8, 8);
        l.push(4, 4);
        l.push(4, 4);
        l.push(8, 8);
        l.push(4, 4);
        l.push(4, 4);
        l.push(8, 8);
        l.push(4, 4);
        let l: Layout = l.finish();
        assert(layout::offsets(l.fields@) =~= seq![0int, 4, 8, 16, 20, 24, 32, 36, 40, 48]);
        l
    }
}

impl KSPROPERTY_DESCRIPTION {
    /// How the fields stand in memory, in order of declaration.
    pub fn layout() -> (l: Layout)
        ensures
            layout::well_placed(l.fields@, l.align as int),
            l.size == 40,
            l.align == 4,
            layout::offsets(l.fields@) == seq![0int, 4, 8, 24, 28, 32, 36],
    {
        let mut l: Layout = Layout::empty();
        l.push(4, 4);
        l.push(4, 4);
        l.push(16, 4);
        l.push(4, 4);
        l.push(4, 4);
        l.push(4, 4);
        l.push(4, 4);
        let l: Layout = l.finish();
        assert(layout::offsets(l.fields@) =~= seq![0int, 4, 8, 24, 28, 32, 36]);
        l
    }
}

impl DEVICE_DESCRIPTION {
    /// How the fields stand in memory, in order of declaration.
    pub fn layout() -> (l: Layout)
        ensures
            layout::well_placed(l.fields@, l.align as int),
            l.size == 40,
            l.align == 4,
            layout::offsets(l.fields@) == seq![0int, 4, 5, 6, 7, 8, 9, 10, 11, 12, 16, 20, 24, 28, 32, 36],
    {
        let mut l: Layout = Layout::empty();
        l.push(4, 4);
        l.push(1, 1);
        l.push(1, 1);
        l.push(1, 1);
        l.push(1, 1);
        l.push(1, 1);
        l.push(1, 1);
        l.push(1, 1);
        l.push(1, 1);
        l.push(4, 4);
        l.push(4, 4);
        l.push(4, 4);
        l.push(4, 4);
        l.push(4, 4);
        l.push(4, 4);
        l.push(4, 4);
        let l: Layout = l.finish();
        assert(layout::offsets(l.fields@) =~= seq![0int, 4, 5, 6, 7, 8, 9, 10, 11, 12, 16, 20, 24, 28, 32, 36]);
        l
    }
}

impl KSPIN_DESCRIPTOR_TAIL {
    /// The size of the place both alternatives share: that of the larger one.
    pub fn size() -> (n: usize)
        ensures
            n == 16,
    {
        let wide: usize = KSPIN_CONSTRAINED_DATA_RANGES::layout().size;
        if wide < 8 {
            8
        } else {
            wide
        }
    }
}

/// A wave format with a sub-format behind it, packed to two-byte boundaries.
pub fn wave_format_extensible_layout() -> (l: Layout)
    ensures
        layout::well_placed(l.fields@, l.align as int),
        l.size == WAVEFORMATEXTENSIBLE_SIZE,
        l.align == 2,
        layout::offsets(l.fields@) == seq![0int, 2, 4, 8, 12, 14, 16, 18, 20, 24],
{
    let mut l: Layout = Layout::empty();
    l.push(2, 2);
    l.push(2, 2);
    l.push(4, 2);
    l.push(4, 2);
    l.push(2, 2);
    l.push(2, 2);
    l.push(2, 2);
    l.push(2, 2);
    l.push(4, 2);
    l.push(16, 2);
    let l: Layout = l.finish();
    assert(layout::offsets(l.fields@) =~= seq![0int, 2, 4, 8, 12, 14, 16, 18, 20, 24]);
    l
}

} // verus!
