//! The adapter object and the installation of the virtual cable: two wave endpoints, two
//! topology endpoints, and the connections between them, with everything taken back where a step
//! fails.
use crate::com;
use crate::endpoint_names;
use crate::guid;
use crate::guid::GUID;
use crate::ks::PVOID;
use crate::ringbuffer::RingBuffer;
use crate::status::{
    E_NOINTERFACE, NTSTATUS, STATUS_INSUFFICIENT_RESOURCES, STATUS_SUCCESS,
};
use vstd::prelude::*;

verus! {

/// The bytes that may wait between playback and recording: 1.37 seconds of the device format.
pub const RING_SIZE: usize = 262144;

/// The adapter. Handles are 0 while there is nothing behind them.
pub struct AdapterCommon {
    pub refcount: u32,
    pub device_object: PVOID,
    pub physical_device_object: PVOID,
    pub ring: Option<RingBuffer>,
    pub mic: PVOID,
    pub speaker: PVOID,
    pub mic_port: PVOID,
    pub speaker_port: PVOID,
    pub topo_mic: PVOID,
    pub topo_speaker: PVOID,
    pub topo_mic_port: PVOID,
    pub topo_speaker_port: PVOID,
    pub phys_render_connected: bool,
    pub phys_capture_connected: bool,
}

/// How many adapters there are; never more than one.
#[derive(Clone, Copy, Debug, PartialEq, Eq, Structural)]
pub struct Instances {
    pub count: u32,
}

/// What a released adapter gives back.
#[derive(Clone, Copy, Debug, PartialEq, Eq, Structural)]
pub enum Cleanup {
    FreeRing,
    ReleaseMiniport(PVOID),
    ReleaseTopology(PVOID),
    FreeAdapter,
}

/// The four subdevices, in the order in which they are installed.
#[derive(Clone, Copy, Debug, PartialEq, Eq, Structural)]
pub enum Endpoint {
    WaveCapture,
    WaveRender,
    TopologyCapture,
    TopologyRender,
}

/// How far the installation has come: what was asked for last, with the port and the miniport of
/// the endpoint in work.
#[derive(Clone, Copy, Debug, PartialEq, Eq, Structural)]
pub enum Phase {
    NewPort(Endpoint),
    NewMiniport(Endpoint, PVOID),
    InitPort(Endpoint, PVOID, PVOID),
    Register(Endpoint, PVOID, PVOID),
    ConnectRender,
    ConnectCapture,
    Done(NTSTATUS),
}

/// The outcome of what was asked for: a status, and the new object where one was asked for.
#[derive(Clone, Copy, Debug, PartialEq, Eq, Structural)]
pub struct Reply {
    pub status: NTSTATUS,
    pub handle: PVOID,
}

/// A connection between two filters.
#[derive(Clone, Copy, Debug, PartialEq, Eq, Structural)]
pub struct Connection {
    pub from: PVOID,
    pub from_pin: u32,
    pub to: PVOID,
    pub to_pin: u32,
}

/// What is to be done between two questions, in order.
#[derive(Clone, Copy, Debug, PartialEq, Eq, Structural)]
pub enum Effect {
    ReleasePort(PVOID),
    ReleaseMiniport(PVOID),
    SetRing(PVOID),
    Pair(PVOID, PVOID),
    Disconnect(Connection),
    Unregister(PVOID),
}

/// What the installation asks for.
#[derive(Clone, Copy, Debug, PartialEq, Eq, Structural)]
pub enum Ask {
    /// Create a port for this endpoint.
    NewPort(Endpoint),
    /// Create its miniport.
    NewMiniport(Endpoint),
    /// Initialise the port with the miniport.
    InitPort(PVOID, PVOID),
    /// Register the port as the subdevice of this endpoint.
    Register(Endpoint, PVOID),
    /// Join two filters.
    Connect(Connection),
    /// Nothing more: the installation ended with this status.
    Finish(NTSTATUS),
}

// ---- the adapter object ----

/// The objects that an adapter holds, as what is given back for them.
pub open spec fn held(a: AdapterCommon) -> Seq<Cleanup> {
    held_one(a.mic, Cleanup::ReleaseMiniport(a.mic)) + held_one(
        a.speaker,
        Cleanup::ReleaseMiniport(a.speaker),
    ) + held_one(a.topo_mic, Cleanup::ReleaseTopology(a.topo_mic)) + held_one(
        a.topo_speaker,
        Cleanup::ReleaseTopology(a.topo_speaker),
    )
}

/// What is given back for one handle.
pub open spec fn held_one(handle: PVOID, c: Cleanup) -> Seq<Cleanup> {
    if handle == 0 {
        Seq::empty()
    } else {
        seq![c]
    }
}

/// Everything that is given back when nobody holds the adapter any more.
pub open spec fn freed(a: AdapterCommon) -> Seq<Cleanup> {
    (if a.ring is Some {
        seq![Cleanup::FreeRing]
    } else {
        Seq::empty()
    }) + held(a) + seq![Cleanup::FreeAdapter]
}

/// The adapter without the objects it held.
pub open spec fn emptied(a: AdapterCommon) -> AdapterCommon {
    AdapterCommon {
        mic: 0,
        speaker: 0,
        mic_port: 0,
        speaker_port: 0,
        topo_mic: 0,
        topo_speaker: 0,
        topo_mic_port: 0,
        topo_speaker_port: 0,
        phys_render_connected: false,
        phys_capture_connected: false,
        ..a
    }
}

/// An adapter without endpoints.
pub open spec fn is_bare(a: AdapterCommon) -> bool {
    a == emptied(a)
}

impl AdapterCommon {
    /// The ring, where there is one, is sound.
    pub open spec fn wf(&self) -> bool {
        self.ring is Some ==> self.ring->0.wf()
    }

    /// Creates the adapter for a device, where there is none yet. Three things come from outside:
    /// whether there is memory for the object, the physical device, and the memory of the ring;
    /// where one is missing there is no adapter, and another attempt may follow.
    pub fn create(
        instances: &mut Instances,
        device: PVOID,
        has_memory: bool,
        physical: Result<PVOID, NTSTATUS>,
        storage: Option<Vec<u8>>,
    ) -> (r: Option<AdapterCommon>)
        requires
            old(instances).count <= 1,
            storage is Some ==> storage->0@.len() == RING_SIZE,
        ensures
            r is Some == (old(instances).count == 0 && has_memory && physical is Ok && storage
                is Some),
            final(instances).count == if old(instances).count != 0 || r is Some {
                1u32
            } else {
                0u32
            },
            r is Some ==> {
                let a = r->0;
                &&& a.wf()
                &&& is_bare(a)
                &&& a.refcount == 1
                &&& a.device_object == device
                &&& a.physical_device_object == physical->Ok_0
                &&& a.ring is Some
                &&& a.ring->0.cap() == RING_SIZE
                &&& a.ring->0@ == Seq::<u8>::empty()
            },
    {
        if instances.count != 0 {
            return None;
        }
        if !has_memory {
            return None;
        }
        let complete: bool = physical.is_ok() && storage.is_some();
        let mut a: AdapterCommon = AdapterCommon {
            refcount: 1,
            device_object: 0,
            physical_device_object: 0,
            ring: None,
            mic: 0,
            speaker: 0,
            mic_port: 0,
            speaker_port: 0,
            topo_mic: 0,
            topo_speaker: 0,
            topo_mic_port: 0,
            topo_speaker_port: 0,
            phys_render_connected: false,
            phys_capture_connected: false,
        };
        a.init(device, physical, storage);
        if complete {
            instances.count = 1;
            Some(a)
        } else {
            None
        }
    }

    /// Prepares the adapter for a device: remembers it and its physical device, and makes the
    /// ring. The physical device and the memory of the ring come from outside; where one is
    /// missing, the adapter stays as far as it came.
    pub fn init(
        &mut self,
        device: PVOID,
        physical: Result<PVOID, NTSTATUS>,
        storage: Option<Vec<u8>>,
    ) -> (status: NTSTATUS)
        requires
            storage is Some ==> storage->0@.len() == RING_SIZE,
        ensures
            status == match (physical, storage) {
                (Err(e), _) => e,
                (Ok(_), None) => STATUS_INSUFFICIENT_RESOURCES,
                (Ok(_), Some(_)) => STATUS_SUCCESS,
            },
            *final(self) == (AdapterCommon {
                device_object: device,
                physical_device_object: match physical {
                    Ok(pdo) => pdo,
                    Err(_) => old(self).physical_device_object,
                },
                ring: final(self).ring,
                ..*old(self)
            }),
            physical is Ok && storage is Some ==> {
                &&& final(self).ring is Some
                &&& final(self).ring->0.wf()
                &&& final(self).ring->0.cap() == RING_SIZE
                &&& final(self).ring->0@ == Seq::<u8>::empty()
            },
            physical is Err || storage is None ==> final(self).ring == old(self).ring,
    {
        self.device_object = device;
        match physical {
            Ok(pdo) => {
                self.physical_device_object = pdo;
            },
            Err(status) => {
                return status;
            },
        }
        match storage {
            Some(storage) => {
                self.ring = Some(RingBuffer::new(storage, RING_SIZE));
                STATUS_SUCCESS
            },
            None => STATUS_INSUFFICIENT_RESOURCES,
        }
    }

    /// Hands the adapter out under an interface it has: a new reference. The second result says
    /// whether it was handed out.
    pub fn query_interface(&mut self, iid: &GUID) -> (r: (NTSTATUS, bool))
        requires
            old(self).refcount < u32::MAX,
        ensures
            r.1 == (*iid == guid::IID_IUnknown() || *iid == guid::IID_IAdapterCommon()),
            r.0 == if r.1 {
                STATUS_SUCCESS
            } else {
                E_NOINTERFACE
            },
            *final(self) == (AdapterCommon {
                refcount: if r.1 {
                    (old(self).refcount + 1) as u32
                } else {
                    old(self).refcount
                },
                ..*old(self)
            }),
    {
        if guid::is_equal_guid(iid, &guid::IID_IUnknown()) || guid::is_equal_guid(
            iid,
            &guid::IID_IAdapterCommon(),
        ) {
            com::interlocked_increment(&mut self.refcount);
            (STATUS_SUCCESS, true)
        } else {
            (E_NOINTERFACE, false)
        }
    }

    /// Takes a reference.
    pub fn add_ref(&mut self) -> (count: u32)
        requires
            old(self).refcount < u32::MAX,
        ensures
            count == old(self).refcount + 1,
            *final(self) == (AdapterCommon { refcount: count, ..*old(self) }),
    {
        com::interlocked_increment(&mut self.refcount)
    }

    /// What is given back for the objects the adapter holds.
    fn held_objects(&self) -> (out: Vec<Cleanup>)
        ensures
            out@ == held(*self),
    {
        let mut out: Vec<Cleanup> = Vec::new();
        if self.mic != 0 {
            out.push(Cleanup::ReleaseMiniport(self.mic));
        }
        assert(out@ =~= held_one(self.mic, Cleanup::ReleaseMiniport(self.mic)));
        if self.speaker != 0 {
            out.push(Cleanup::ReleaseMiniport(self.speaker));
        }
        if self.topo_mic != 0 {
            out.push(Cleanup::ReleaseTopology(self.topo_mic));
        }
        if self.topo_speaker != 0 {
            out.push(Cleanup::ReleaseTopology(self.topo_speaker));
        }
        assert(out@ =~= held(*self));
        out
    }

    /// Gives a reference back. With the last one everything the adapter holds is to be given
    /// back, in order, and another adapter may be created.
    pub fn release(&mut self, instances: &mut Instances) -> (r: (u32, Vec<Cleanup>))
        requires
            old(self).refcount > 0,
        ensures
            r.0 == old(self).refcount - 1,
            *final(self) == (AdapterCommon { refcount: r.0, ..*old(self) }),
            r.1@ == if r.0 == 0 {
                freed(*old(self))
            } else {
                Seq::empty()
            },
            final(instances).count == if r.0 == 0 {
                0
            } else {
                old(instances).count
            },
    {
        let count: u32 = com::interlocked_decrement(&mut self.refcount);
        let mut out: Vec<Cleanup> = Vec::new();
        if count == 0 {
            if self.ring.is_some() {
                out.push(Cleanup::FreeRing);
            }
            let mut objects: Vec<Cleanup> = self.held_objects();
            out.append(&mut objects);
            out.push(Cleanup::FreeAdapter);
            instances.count = 0;
            assert(out@ =~= freed(*old(self)));
        }
        (count, out)
    }

    /// Gives back what the adapter holds and forgets it. Ports belong to the port class and are
    /// only forgotten.
    pub fn cleanup(&mut self) -> (out: Vec<Cleanup>)
        ensures
            out@ == held(*old(self)),
            *final(self) == emptied(*old(self)),
    {
        let out: Vec<Cleanup> = self.held_objects();
        self.mic = 0;
        self.speaker = 0;
        self.mic_port = 0;
        self.speaker_port = 0;
        self.topo_mic = 0;
        self.topo_speaker = 0;
        self.topo_mic_port = 0;
        self.topo_speaker_port = 0;
        self.phys_render_connected = false;
        self.phys_capture_connected = false;
        out
    }
}

// ---- the installation ----

/// The connection from the playback wave filter to its topology.
pub open spec fn render_connection(a: AdapterCommon) -> Connection {
    Connection {
        from: a.speaker_port,
        from_pin: endpoint_names::WAVE_RENDER_BRIDGE_PIN,
        to: a.topo_speaker_port,
        to_pin: endpoint_names::TOPO_RENDER_FROM_WAVE_PIN,
    }
}

/// The connection from the recording topology to its wave filter.
pub open spec fn capture_connection(a: AdapterCommon) -> Connection {
    Connection {
        from: a.topo_mic_port,
        from_pin: endpoint_names::TOPO_CAPTURE_TO_WAVE_PIN,
        to: a.mic_port,
        to_pin: endpoint_names::WAVE_CAPTURE_BRIDGE_PIN,
    }
}

/// What is asked for in a phase.
pub open spec fn ask(a: AdapterCommon, phase: Phase) -> Ask {
    match phase {
        Phase::NewPort(e) => Ask::NewPort(e),
        Phase::NewMiniport(e, _) => Ask::NewMiniport(e),
        Phase::InitPort(_, port, miniport) => Ask::InitPort(port, miniport),
        Phase::Register(e, port, _) => Ask::Register(e, port),
        Phase::ConnectRender => Ask::Connect(render_connection(a)),
        Phase::ConnectCapture => Ask::Connect(capture_connection(a)),
        Phase::Done(status) => Ask::Finish(status),
    }
}

/// The endpoint, or the connection, that comes after an endpoint.
pub open spec fn after_endpoint(e: Endpoint) -> Phase {
    match e {
        Endpoint::WaveCapture => Phase::NewPort(Endpoint::WaveRender),
        Endpoint::WaveRender => Phase::NewPort(Endpoint::TopologyCapture),
        Endpoint::TopologyCapture => Phase::NewPort(Endpoint::TopologyRender),
        Endpoint::TopologyRender => Phase::ConnectRender,
    }
}

/// Whether a reply ends the installation of what was asked for.
pub open spec fn failed(phase: Phase, reply: Reply) -> bool {
    match phase {
        Phase::NewMiniport(_, _) => reply.handle == 0,
        Phase::Done(_) => false,
        _ => reply.status < 0,
    }
}

/// The status of a failure.
pub open spec fn failure(phase: Phase, reply: Reply) -> NTSTATUS {
    match phase {
        Phase::NewMiniport(_, _) => STATUS_INSUFFICIENT_RESOURCES,
        _ => reply.status,
    }
}

/// The phase that follows a reply.
pub open spec fn next_phase(phase: Phase, reply: Reply) -> Phase {
    if failed(phase, reply) {
        Phase::Done(failure(phase, reply))
    } else {
        match phase {
            Phase::NewPort(e) => Phase::NewMiniport(e, reply.handle),
            Phase::NewMiniport(e, port) => Phase::InitPort(e, port, reply.handle),
            Phase::InitPort(e, port, miniport) => Phase::Register(e, port, miniport),
            Phase::Register(e, _, _) => after_endpoint(e),
            Phase::ConnectRender => Phase::ConnectCapture,
            Phase::ConnectCapture => Phase::Done(STATUS_SUCCESS),
            Phase::Done(status) => Phase::Done(status),
        }
    }
}

/// One effect, where a handle is there.
pub open spec fn unregister_one(port: PVOID) -> Seq<Effect> {
    if port == 0 {
        Seq::empty()
    } else {
        seq![Effect::Unregister(port)]
    }
}

/// Taking everything back: the connections first, then the subdevices, the topologies before the
/// waves.
pub open spec fn teardown(a: AdapterCommon) -> Seq<Effect> {
    (if a.phys_render_connected {
        seq![Effect::Disconnect(render_connection(a))]
    } else {
        Seq::empty()
    }) + (if a.phys_capture_connected {
        seq![Effect::Disconnect(capture_connection(a))]
    } else {
        Seq::empty()
    }) + unregister_one(a.topo_mic_port) + unregister_one(a.topo_speaker_port) + unregister_one(
        a.mic_port,
    ) + unregister_one(a.speaker_port)
}

/// The adapter after everything was taken back: it still holds its miniports, until it is
/// released.
pub open spec fn torn_down(a: AdapterCommon) -> AdapterCommon {
    AdapterCommon {
        phys_render_connected: false,
        phys_capture_connected: false,
        topo_mic_port: 0,
        topo_speaker_port: 0,
        mic_port: 0,
        speaker_port: 0,
        ..a
    }
}

/// Whether a failure in a phase takes anything back: before the first endpoint is there, there is
/// nothing to take back.
pub open spec fn tears_down(phase: Phase) -> bool {
    match phase {
        Phase::NewPort(e) => e != Endpoint::WaveCapture,
        Phase::NewMiniport(e, _) => e != Endpoint::WaveCapture,
        Phase::InitPort(e, _, _) => e != Endpoint::WaveCapture,
        Phase::Register(e, _, _) => e != Endpoint::WaveCapture,
        Phase::ConnectRender => true,
        Phase::ConnectCapture => true,
        Phase::Done(_) => false,
    }
}

/// Whether an endpoint carries sound.
pub open spec fn is_wave(e: Endpoint) -> bool {
    e == Endpoint::WaveCapture || e == Endpoint::WaveRender
}

/// What is given back of the endpoint in work when it fails.
pub open spec fn give_back(phase: Phase) -> Seq<Effect> {
    match phase {
        Phase::NewMiniport(_, port) => seq![Effect::ReleasePort(port)],
        Phase::InitPort(_, port, miniport) => seq![
            Effect::ReleasePort(port),
            Effect::ReleaseMiniport(miniport),
        ],
        Phase::Register(_, port, miniport) => seq![
            Effect::ReleasePort(port),
            Effect::ReleaseMiniport(miniport),
        ],
        _ => Seq::empty(),
    }
}

/// What is done after a reply.
pub open spec fn effects(a: AdapterCommon, phase: Phase, reply: Reply) -> Seq<Effect> {
    if failed(phase, reply) {
        give_back(phase) + if tears_down(phase) {
            teardown(a)
        } else {
            Seq::empty()
        }
    } else {
        match phase {
            Phase::InitPort(e, _, miniport) => if is_wave(e) {
                seq![Effect::SetRing(miniport)]
            } else {
                Seq::empty()
            },
            Phase::Register(e, port, _) => if e == Endpoint::TopologyRender {
                seq![Effect::ReleasePort(port), Effect::Pair(a.mic, a.speaker)]
            } else {
                seq![Effect::ReleasePort(port)]
            },
            _ => Seq::empty(),
        }
    }
}

/// The adapter after the port and miniport of an endpoint were stored in it.
pub open spec fn with_endpoint(
    a: AdapterCommon,
    e: Endpoint,
    port: PVOID,
    miniport: PVOID,
) -> AdapterCommon {
    match e {
        Endpoint::WaveCapture => AdapterCommon { mic: miniport, mic_port: port, ..a },
        Endpoint::WaveRender => AdapterCommon { speaker: miniport, speaker_port: port, ..a },
        Endpoint::TopologyCapture => AdapterCommon { topo_mic: miniport, topo_mic_port: port, ..a },
        Endpoint::TopologyRender => AdapterCommon {
            topo_speaker: miniport,
            topo_speaker_port: port,
            ..a
        },
    }
}

/// The adapter after a reply.
pub open spec fn adapter_after(a: AdapterCommon, phase: Phase, reply: Reply) -> AdapterCommon {
    if failed(phase, reply) {
        if tears_down(phase) {
            torn_down(a)
        } else {
            a
        }
    } else {
        match phase {
            Phase::Register(e, port, miniport) => with_endpoint(a, e, port, miniport),
            Phase::ConnectRender => AdapterCommon { phys_render_connected: true, ..a },
            Phase::ConnectCapture => AdapterCommon { phys_capture_connected: true, ..a },
            _ => a,
        }
    }
}

/// The name under which an endpoint is registered.
pub fn subdevice_name(e: Endpoint) -> (name: Vec<u16>)
    ensures
        name@ == match e {
            Endpoint::WaveCapture => endpoint_names::wide("WaveCapture-0"@),
            Endpoint::WaveRender => endpoint_names::wide("WaveRender-0"@),
            Endpoint::TopologyCapture => endpoint_names::wide("TopologyCapture-0"@),
            Endpoint::TopologyRender => endpoint_names::wide("TopologyRender-0"@),
        },
{
    match e {
        Endpoint::WaveCapture => endpoint_names::wave_capture_name(),
        Endpoint::WaveRender => endpoint_names::wave_render_name(),
        Endpoint::TopologyCapture => endpoint_names::topology_capture_name(),
        Endpoint::TopologyRender => endpoint_names::topology_render_name(),
    }
}

/// The class of the port of an endpoint.
pub fn port_class(e: Endpoint) -> (class: GUID)
    ensures
        class == if is_wave(e) {
            guid::CLSID_PortWaveRT()
        } else {
            guid::CLSID_PortTopology()
        },
{
    match e {
        Endpoint::WaveCapture => guid::CLSID_PortWaveRT(),
        Endpoint::WaveRender => guid::CLSID_PortWaveRT(),
        Endpoint::TopologyCapture => guid::CLSID_PortTopology(),
        Endpoint::TopologyRender => guid::CLSID_PortTopology(),
    }
}

/// Takes everything back.
fn teardown_endpoints(adapter: &mut AdapterCommon, out: &mut Vec<Effect>)
    ensures
        final(out)@ == old(out)@ + teardown(*old(adapter)),
        *final(adapter) == torn_down(*old(adapter)),
{
    if adapter.phys_render_connected {
        out.push(
            Effect::Disconnect(
                Connection {
                    from: adapter.speaker_port,
                    from_pin: endpoint_names::WAVE_RENDER_BRIDGE_PIN,
                    to: adapter.topo_speaker_port,
                    to_pin: endpoint_names::TOPO_RENDER_FROM_WAVE_PIN,
                },
            ),
        );
        adapter.phys_render_connected = false;
    }
    if adapter.phys_capture_connected {
        out.push(
            Effect::Disconnect(
                Connection {
                    from: adapter.topo_mic_port,
                    from_pin: endpoint_names::TOPO_CAPTURE_TO_WAVE_PIN,
                    to: adapter.mic_port,
                    to_pin: endpoint_names::WAVE_CAPTURE_BRIDGE_PIN,
                },
            ),
        );
        adapter.phys_capture_connected = false;
    }
    if adapter.topo_mic_port != 0 {
        out.push(Effect::Unregister(adapter.topo_mic_port));
        adapter.topo_mic_port = 0;
    }
    if adapter.topo_speaker_port != 0 {
        out.push(Effect::Unregister(adapter.topo_speaker_port));
        adapter.topo_speaker_port = 0;
    }
    if adapter.mic_port != 0 {
        out.push(Effect::Unregister(adapter.mic_port));
        adapter.mic_port = 0;
    }
    if adapter.speaker_port != 0 {
        out.push(Effect::Unregister(adapter.speaker_port));
        adapter.speaker_port = 0;
    }
    assert(out@ =~= old(out)@ + teardown(*old(adapter)));
}

/// Begins the installation.
pub fn install_virtual_cable() -> (phase: Phase)
    ensures
        phase == Phase::NewPort(Endpoint::WaveCapture),
{
    Phase::NewPort(Endpoint::WaveCapture)
}

/// What is asked for in a phase.
pub fn next_ask(adapter: &AdapterCommon, phase: Phase) -> (what: Ask)
    ensures
        what == ask(*adapter, phase),
{
    match phase {
        Phase::NewPort(e) => Ask::NewPort(e),
        Phase::NewMiniport(e, _) => Ask::NewMiniport(e),
        Phase::InitPort(_, port, miniport) => Ask::InitPort(port, miniport),
        Phase::Register(e, port, _) => Ask::Register(e, port),
        Phase::ConnectRender => Ask::Connect(
            Connection {
                from: adapter.speaker_port,
                from_pin: endpoint_names::WAVE_RENDER_BRIDGE_PIN,
                to: adapter.topo_speaker_port,
                to_pin: endpoint_names::TOPO_RENDER_FROM_WAVE_PIN,
            },
        ),
        Phase::ConnectCapture => Ask::Connect(
            Connection {
                from: adapter.topo_mic_port,
                from_pin: endpoint_names::TOPO_CAPTURE_TO_WAVE_PIN,
                to: adapter.mic_port,
                to_pin: endpoint_names::WAVE_CAPTURE_BRIDGE_PIN,
            },
        ),
        Phase::Done(status) => Ask::Finish(status),
    }
}

/// Goes on with the outcome of what was asked for: the next phase, and what is to be done before
/// it.
pub fn resume(adapter: &mut AdapterCommon, phase: Phase, reply: Reply) -> (r: (Phase, Vec<Effect>))
    ensures
        r.0 == next_phase(phase, reply),
        r.1@ == effects(*old(adapter), phase, reply),
        *final(adapter) == adapter_after(*old(adapter), phase, reply),
{
    let mut out: Vec<Effect> = Vec::new();
    let next: Phase = match phase {
        Phase::NewPort(e) => {
            if reply.status < 0 {
                if e != Endpoint::WaveCapture {
                    teardown_endpoints(adapter, &mut out);
                }
                Phase::Done(reply.status)
            } else {
                Phase::NewMiniport(e, reply.handle)
            }
        },
        Phase::NewMiniport(e, port) => {
            if reply.handle == 0 {
                out.push(Effect::ReleasePort(port));
                if e != Endpoint::WaveCapture {
                    teardown_endpoints(adapter, &mut out);
                }
                Phase::Done(STATUS_INSUFFICIENT_RESOURCES)
            } else {
                Phase::InitPort(e, port, reply.handle)
            }
        },
        Phase::InitPort(e, port, miniport) => {
            if reply.status < 0 {
                out.push(Effect::ReleasePort(port));
                out.push(Effect::ReleaseMiniport(miniport));
                if e != Endpoint::WaveCapture {
                    teardown_endpoints(adapter, &mut out);
                }
                Phase::Done(reply.status)
            } else {
                if e == Endpoint::WaveCapture || e == Endpoint::WaveRender {
                    out.push(Effect::SetRing(miniport));
                }
                Phase::Register(e, port, miniport)
            }
        },
        Phase::Register(e, port, miniport) => {
            out.push(Effect::ReleasePort(port));
            if reply.status < 0 {
                out.push(Effect::ReleaseMiniport(miniport));
                if e != Endpoint::WaveCapture {
                    teardown_endpoints(adapter, &mut out);
                }
                Phase::Done(reply.status)
            } else {
                match e {
                    Endpoint::WaveCapture => {
                        adapter.mic = miniport;
                        adapter.mic_port = port;
                        Phase::NewPort(Endpoint::WaveRender)
                    },
                    Endpoint::WaveRender => {
                        adapter.speaker = miniport;
                        adapter.speaker_port = port;
                        Phase::NewPort(Endpoint::TopologyCapture)
                    },
                    Endpoint::TopologyCapture => {
                        adapter.topo_mic = miniport;
                        adapter.topo_mic_port = port;
                        Phase::NewPort(Endpoint::TopologyRender)
                    },
                    Endpoint::TopologyRender => {
                        adapter.topo_speaker = miniport;
                        adapter.topo_speaker_port = port;
                        out.push(Effect::Pair(adapter.mic, adapter.speaker));
                        Phase::ConnectRender
                    },
                }
            }
        },
        Phase::ConnectRender => {
            if reply.status < 0 {
                teardown_endpoints(adapter, &mut out);
                Phase::Done(reply.status)
            } else {
                adapter.phys_render_connected = true;
                Phase::ConnectCapture
            }
        },
        Phase::ConnectCapture => {
            if reply.status < 0 {
                teardown_endpoints(adapter, &mut out);
                Phase::Done(reply.status)
            } else {
                adapter.phys_capture_connected = true;
                Phase::Done(STATUS_SUCCESS)
            }
        },
        Phase::Done(status) => Phase::Done(status),
    };
    assert(out@ =~= effects(*old(adapter), phase, reply));
    (next, out)
}

/// The status of starting the device, and whether the adapter is given back: it is where the
/// installation failed.
pub fn start_device(has_adapter: bool, installed: NTSTATUS) -> (r: (NTSTATUS, bool))
    ensures
        r.0 == if !has_adapter {
            STATUS_INSUFFICIENT_RESOURCES
        } else if installed < 0 {
            installed
        } else {
            STATUS_SUCCESS
        },
        r.1 == (has_adapter && installed < 0),
{
    if !has_adapter {
        return (STATUS_INSUFFICIENT_RESOURCES, false);
    }
    if installed < 0 {
        return (installed, true);
    }
    (STATUS_SUCCESS, false)
}

// ---- what the installation leaves behind ----

/// What the port class and the driver hold during an installation: the subdevices and the
/// connections that are registered, and the ports and miniports that the driver has a reference
/// to.
#[verifier::ext_equal]
pub struct World {
    pub registered: Set<PVOID>,
    pub connections: Set<Connection>,
    pub ports: Set<PVOID>,
    pub miniports: Set<PVOID>,
}

/// The world after a reply to what was asked for.
pub open spec fn granted(w: World, what: Ask, reply: Reply) -> World {
    match what {
        Ask::NewPort(_) => if reply.status < 0 {
            w
        } else {
            World { ports: w.ports.insert(reply.handle), ..w }
        },
        Ask::NewMiniport(_) => if reply.handle == 0 {
            w
        } else {
            World { miniports: w.miniports.insert(reply.handle), ..w }
        },
        Ask::Register(_, port) => if reply.status < 0 {
            w
        } else {
            World { registered: w.registered.insert(port), ..w }
        },
        Ask::Connect(c) => if reply.status < 0 {
            w
        } else {
            World { connections: w.connections.insert(c), ..w }
        },
        _ => w,
    }
}

/// The world after the effects: without what they give and take back.
pub open spec fn carried_out(w: World, done: Seq<Effect>) -> World {
    World {
        registered: w.registered.filter(|p: PVOID| !done.contains(Effect::Unregister(p))),
        connections: w.connections.filter(|c: Connection| !done.contains(Effect::Disconnect(c))),
        ports: w.ports.filter(|p: PVOID| !done.contains(Effect::ReleasePort(p))),
        miniports: w.miniports.filter(|m: PVOID| !done.contains(Effect::ReleaseMiniport(m))),
    }
}

/// A reply as the port class gives it: a new object is a new one.
pub open spec fn is_honest(w: World, what: Ask, reply: Reply) -> bool {
    match what {
        Ask::NewPort(_) => reply.status >= 0 ==> reply.handle != 0 && !w.ports.contains(
            reply.handle,
        ) && !w.registered.contains(reply.handle),
        Ask::NewMiniport(_) => reply.handle != 0 ==> !w.miniports.contains(reply.handle),
        _ => true,
    }
}

/// How many endpoints are in place before the one in work.
pub open spec fn in_place(phase: Phase) -> int {
    let before = |e: Endpoint| -> int
        {
            match e {
                Endpoint::WaveCapture => 0,
                Endpoint::WaveRender => 1,
                Endpoint::TopologyCapture => 2,
                Endpoint::TopologyRender => 3,
            }
        };
    match phase {
        Phase::NewPort(e) => before(e),
        Phase::NewMiniport(e, _) => before(e),
        Phase::InitPort(e, _, _) => before(e),
        Phase::Register(e, _, _) => before(e),
        _ => 4,
    }
}

/// The port in work.
pub open spec fn port_in_work(phase: Phase) -> Option<PVOID> {
    match phase {
        Phase::NewMiniport(_, port) => Some(port),
        Phase::InitPort(_, port, _) => Some(port),
        Phase::Register(_, port, _) => Some(port),
        _ => None,
    }
}

/// The miniport in work.
pub open spec fn miniport_in_work(phase: Phase) -> Option<PVOID> {
    match phase {
        Phase::InitPort(_, _, miniport) => Some(miniport),
        Phase::Register(_, _, miniport) => Some(miniport),
        _ => None,
    }
}

/// Whether an adapter knows a port as that of an endpoint.
pub open spec fn has_port(a: AdapterCommon, p: PVOID) -> bool {
    p != 0 && (p == a.mic_port || p == a.speaker_port || p == a.topo_mic_port || p
        == a.topo_speaker_port)
}

/// Whether an adapter holds a miniport.
pub open spec fn has_miniport(a: AdapterCommon, m: PVOID) -> bool {
    m != 0 && (m == a.mic || m == a.speaker || m == a.topo_mic || m == a.topo_speaker)
}

/// The adapter knows exactly the ports of the endpoints in place, and which connections are
/// registered.
pub open spec fn is_on_course(a: AdapterCommon, phase: Phase) -> bool {
    match phase {
        Phase::Done(status) => if status < 0 {
            a == torn_down(a)
        } else {
            a.mic_port != 0 && a.speaker_port != 0 && a.topo_mic_port != 0 && a.topo_speaker_port
                != 0 && a.phys_render_connected && a.phys_capture_connected
        },
        _ => {
            let n = in_place(phase);
            &&& (a.mic_port != 0) == (n >= 1)
            &&& (a.speaker_port != 0) == (n >= 2)
            &&& (a.topo_mic_port != 0) == (n >= 3)
            &&& (a.topo_speaker_port != 0) == (n >= 4)
            &&& (a.mic != 0) == (n >= 1)
            &&& (a.speaker != 0) == (n >= 2)
            &&& (a.topo_mic != 0) == (n >= 3)
            &&& (a.topo_speaker != 0) == (n >= 4)
            &&& a.phys_render_connected == (phase == Phase::ConnectCapture)
            &&& !a.phys_capture_connected
        },
    }
}

/// The adapter and the phase account for everything in the world.
pub open spec fn accounts_for(a: AdapterCommon, phase: Phase, w: World) -> bool {
    &&& is_on_course(a, phase)
    &&& port_in_work(phase) is Some ==> port_in_work(phase)->0 != 0
    &&& miniport_in_work(phase) is Some ==> miniport_in_work(phase)->0 != 0 && !has_miniport(
        a,
        miniport_in_work(phase)->0,
    )
    &&& forall|p: PVOID| #[trigger] w.registered.contains(p) <==> has_port(a, p)
    &&& forall|c: Connection|
        #[trigger] w.connections.contains(c) <==> (a.phys_render_connected && c == render_connection(a)) || (
        a.phys_capture_connected && c == capture_connection(a))
    &&& forall|p: PVOID| #[trigger] w.ports.contains(p) <==> port_in_work(phase) == Some(p)
    &&& forall|m: PVOID|
        #[trigger] w.miniports.contains(m) <==> has_miniport(a, m) || miniport_in_work(phase) == Some(m)
}

/// What stands in a row of two parts stands in one of them.
proof fn lemma_in_sum(a: Seq<Effect>, b: Seq<Effect>, e: Effect)
    ensures
        (a + b).contains(e) <==> a.contains(e) || b.contains(e),
{
    if a.contains(e) {
        let i = choose|i: int| 0 <= i < a.len() && a[i] == e;
        assert((a + b)[i] == e);
    }
    if b.contains(e) {
        let i = choose|i: int| 0 <= i < b.len() && b[i] == e;
        assert((a + b)[a.len() + i] == e);
    }
}

/// What stands in the row of one unregistration.
proof fn lemma_in_one(port: PVOID, e: Effect)
    ensures
        unregister_one(port).contains(e) <==> port != 0 && e == Effect::Unregister(port),
{
    if port != 0 && e == Effect::Unregister(port) {
        assert(unregister_one(port)[0] == e);
    }
}

/// What stands in the row that takes everything back.
proof fn lemma_in_teardown(a: AdapterCommon, e: Effect)
    ensures
        teardown(a).contains(e) <==> match e {
            Effect::Unregister(p) => has_port(a, p),
            Effect::Disconnect(c) => (a.phys_render_connected && c == render_connection(a)) || (
            a.phys_capture_connected && c == capture_connection(a)),
            _ => false,
        },
{
    let r = if a.phys_render_connected {
        seq![Effect::Disconnect(render_connection(a))]
    } else {
        Seq::empty()
    };
    let c = if a.phys_capture_connected {
        seq![Effect::Disconnect(capture_connection(a))]
    } else {
        Seq::empty()
    };
    if a.phys_render_connected {
        assert(r[0] == Effect::Disconnect(render_connection(a)));
    }
    if a.phys_capture_connected {
        assert(c[0] == Effect::Disconnect(capture_connection(a)));
    }
    assert(r.contains(e) <==> a.phys_render_connected && e == Effect::Disconnect(
        render_connection(a),
    ));
    assert(c.contains(e) <==> a.phys_capture_connected && e == Effect::Disconnect(
        capture_connection(a),
    ));
    let u1 = unregister_one(a.topo_mic_port);
    let u2 = unregister_one(a.topo_speaker_port);
    let u3 = unregister_one(a.mic_port);
    let u4 = unregister_one(a.speaker_port);
    lemma_in_one(a.topo_mic_port, e);
    lemma_in_one(a.topo_speaker_port, e);
    lemma_in_one(a.mic_port, e);
    lemma_in_one(a.speaker_port, e);
    lemma_in_sum(r, c, e);
    lemma_in_sum(r + c, u1, e);
    lemma_in_sum(r + c + u1, u2, e);
    lemma_in_sum(r + c + u1 + u2, u3, e);
    lemma_in_sum(r + c + u1 + u2 + u3, u4, e);
    assert(teardown(a) == r + c + u1 + u2 + u3 + u4);
}

/// Taking everything back mentions every port and every connection that is registered.
proof fn lemma_teardown_is_complete(a: AdapterCommon, front: Seq<Effect>)
    ensures
        forall|p: PVOID| has_port(a, p) ==> (front + teardown(a)).contains(Effect::Unregister(p)),
        a.phys_render_connected ==> (front + teardown(a)).contains(
            Effect::Disconnect(render_connection(a)),
        ),
        a.phys_capture_connected ==> (front + teardown(a)).contains(
            Effect::Disconnect(capture_connection(a)),
        ),
        forall|e: Effect| front.contains(e) ==> (front + teardown(a)).contains(e),
        forall|m: PVOID|
            (front + teardown(a)).contains(Effect::ReleaseMiniport(m)) ==> front.contains(
                Effect::ReleaseMiniport(m),
            ),
{
    let t = teardown(a);
    let all = front + t;
    assert forall|e: Effect| all.contains(e) <==> front.contains(e) || t.contains(e) by {
        lemma_in_sum(front, t, e);
    }
    assert forall|p: PVOID| has_port(a, p) implies all.contains(Effect::Unregister(p)) by {
        lemma_in_teardown(a, Effect::Unregister(p));
    }
    lemma_in_teardown(a, Effect::Disconnect(render_connection(a)));
    lemma_in_teardown(a, Effect::Disconnect(capture_connection(a)));
    assert forall|m: PVOID| all.contains(Effect::ReleaseMiniport(m)) implies front.contains(
        Effect::ReleaseMiniport(m),
    ) by {
        lemma_in_teardown(a, Effect::ReleaseMiniport(m));
    }
}

/// A bare adapter in an empty world is where an installation begins.
pub proof fn law_installation_begins_accounted(a: AdapterCommon)
    requires
        is_bare(a),
    ensures
        accounts_for(
            a,
            Phase::NewPort(Endpoint::WaveCapture),
            World {
                registered: Set::empty(),
                connections: Set::empty(),
                ports: Set::empty(),
                miniports: Set::empty(),
            },
        ),
{
}

/// Every step of the installation keeps account: whatever is asked for and however it ends, after
/// the effects are carried out the adapter and the new phase account for everything.
pub proof fn law_installation_keeps_account(
    a: AdapterCommon,
    phase: Phase,
    w: World,
    reply: Reply,
)
    requires
        accounts_for(a, phase, w),
        is_honest(w, ask(a, phase), reply),
        !(phase is Done),
    ensures
        accounts_for(
            adapter_after(a, phase, reply),
            next_phase(phase, reply),
            carried_out(granted(w, ask(a, phase), reply), effects(a, phase, reply)),
        ),
{
    let done = effects(a, phase, reply);
    if failed(phase, reply) {
        let front = give_back(phase);
        if port_in_work(phase) is Some {
            assert(front[0] == Effect::ReleasePort(port_in_work(phase)->0));
            assert(front.contains(Effect::ReleasePort(port_in_work(phase)->0)));
        }
        if miniport_in_work(phase) is Some {
            assert(front[1] == Effect::ReleaseMiniport(miniport_in_work(phase)->0));
            assert(front.contains(Effect::ReleaseMiniport(miniport_in_work(phase)->0)));
        }
        assert(forall|m: PVOID|
            front.contains(Effect::ReleaseMiniport(m)) ==> miniport_in_work(phase) == Some(m));
        if tears_down(phase) {
            lemma_teardown_is_complete(a, front);
        } else {
            assert(done =~= front);
        }
    } else {
        match phase {
            Phase::Register(e, port, miniport) => {
                assert(done[0] == Effect::ReleasePort(port));
                assert(done.contains(Effect::ReleasePort(port)));
                assert(forall|i: int|
                    0 <= i < done.len() ==> !(done[i] is Unregister) && !(done[i] is Disconnect)
                        && !(done[i] is ReleaseMiniport));
            },
            _ => {
                assert(forall|i: int|
                    0 <= i < done.len() ==> !(done[i] is Unregister) && !(done[i] is Disconnect)
                        && !(done[i] is ReleaseMiniport) && !(done[i] is ReleasePort));
            },
        }
    }
}

/// A failed installation leaves nothing registered and no port behind; the miniports that are
/// left are those that the adapter gives back when it is released.
pub proof fn law_failed_installation_leaves_nothing(a: AdapterCommon, status: NTSTATUS, w: World)
    requires
        accounts_for(a, Phase::Done(status), w),
        status < 0,
    ensures
        w.registered == Set::<PVOID>::empty(),
        w.connections == Set::<Connection>::empty(),
        w.ports == Set::<PVOID>::empty(),
        forall|m: PVOID| #[trigger] w.miniports.contains(m) <==> has_miniport(a, m),
{
    assert(w.registered =~= Set::<PVOID>::empty());
    assert(w.connections =~= Set::<Connection>::empty());
    assert(w.ports =~= Set::<PVOID>::empty());
}

/// A successful installation leaves the four subdevices and both connections registered, and no
/// spare reference to a port.
pub proof fn law_successful_installation_is_complete(
    a: AdapterCommon,
    status: NTSTATUS,
    w: World,
)
    requires
        accounts_for(a, Phase::Done(status), w),
        status >= 0,
    ensures
        w.registered.contains(a.mic_port),
        w.registered.contains(a.speaker_port),
        w.registered.contains(a.topo_mic_port),
        w.registered.contains(a.topo_speaker_port),
        w.connections.contains(render_connection(a)),
        w.connections.contains(capture_connection(a)),
        w.ports == Set::<PVOID>::empty(),
{
    assert(w.ports =~= Set::<PVOID>::empty());
}

/// What a cleanup has given back is not given back again when the adapter is released.
pub proof fn law_nothing_is_given_back_twice(a: AdapterCommon)
    ensures
        held(emptied(a)) == Seq::<Cleanup>::empty(),
{
    assert(held(emptied(a)) =~= Seq::<Cleanup>::empty());
}

/// An installation after a row of replies: the adapter, the phase, what was asked for and what was
/// done, in order.
#[verifier::ext_equal]
pub struct Installation {
    pub adapter: AdapterCommon,
    pub phase: Phase,
    pub asked: Seq<Ask>,
    pub done: Seq<Effect>,
}

/// The installation after a row of replies, from its beginning.
pub open spec fn installed_by(a: AdapterCommon, replies: Seq<Reply>) -> Installation
    decreases replies.len(),
{
    if replies.len() == 0 {
        Installation {
            adapter: a,
            phase: Phase::NewPort(Endpoint::WaveCapture),
            asked: Seq::empty(),
            done: Seq::empty(),
        }
    } else {
        let i = installed_by(a, replies.drop_last());
        let reply = replies.last();
        Installation {
            adapter: adapter_after(i.adapter, i.phase, reply),
            phase: next_phase(i.phase, reply),
            asked: i.asked.push(ask(i.adapter, i.phase)),
            done: i.done + effects(i.adapter, i.phase, reply),
        }
    }
}

/// Four replies without a failure put one endpoint in place.
proof fn lemma_endpoint_is_put_in_place(
    a: AdapterCommon,
    e: Endpoint,
    replies: Seq<Reply>,
)
    requires
        replies.len() >= 4,
        installed_by(a, replies.take(replies.len() - 4)).phase == Phase::NewPort(e),
        forall|i: int|
            0 <= i < replies.len() ==> (#[trigger] replies[i]).status >= 0 && replies[i].handle
                != 0,
    ensures
        ({
            let before = installed_by(a, replies.take(replies.len() - 4));
            let after = installed_by(a, replies);
            let port = replies[replies.len() - 4].handle;
            let miniport = replies[replies.len() - 3].handle;
            &&& after.phase == after_endpoint(e)
            &&& after.adapter == with_endpoint(before.adapter, e, port, miniport)
            &&& after.asked == before.asked + seq![
                Ask::NewPort(e),
                Ask::NewMiniport(e),
                Ask::InitPort(port, miniport),
                Ask::Register(e, port),
            ]
            &&& after.done == before.done + (if is_wave(e) {
                seq![Effect::SetRing(miniport), Effect::ReleasePort(port)]
            } else {
                seq![Effect::ReleasePort(port)]
            }) + (if e == Endpoint::TopologyRender {
                seq![Effect::Pair(before.adapter.mic, before.adapter.speaker)]
            } else {
                Seq::empty()
            })
        }),
{
    let n = replies.len() as int;
    let r1 = replies.take(n - 3);
    let r2 = replies.take(n - 2);
    let r3 = replies.take(n - 1);
    assert(r1.drop_last() =~= replies.take(n - 4));
    assert(r2.drop_last() =~= r1);
    assert(r3.drop_last() =~= r2);
    assert(replies.drop_last() =~= r3);
    assert(r1.last() == replies[n - 4]);
    assert(r2.last() == replies[n - 3]);
    assert(r3.last() == replies[n - 2]);
    assert(replies.last() == replies[n - 1]);
    let before = installed_by(a, replies.take(n - 4));
    let after = installed_by(a, replies);
    let port = replies[n - 4].handle;
    let miniport = replies[n - 3].handle;
    let i1 = installed_by(a, r1);
    assert(i1.phase == Phase::NewMiniport(e, port));
    let i2 = installed_by(a, r2);
    assert(i2.phase == Phase::InitPort(e, port, miniport));
    let i3 = installed_by(a, r3);
    assert(i3.phase == Phase::Register(e, port, miniport));
    assert(i1.done =~= before.done);
    assert(i2.done =~= before.done);
    assert(after.asked =~= before.asked + seq![
        Ask::NewPort(e),
        Ask::NewMiniport(e),
        Ask::InitPort(port, miniport),
        Ask::Register(e, port),
    ]);
    assert(after.done =~= before.done + (if is_wave(e) {
        seq![Effect::SetRing(miniport), Effect::ReleasePort(port)]
    } else {
        seq![Effect::ReleasePort(port)]
    }) + (if e == Endpoint::TopologyRender {
        seq![Effect::Pair(before.adapter.mic, before.adapter.speaker)]
    } else {
        Seq::empty()
    }));
}

/// An installation in which nothing fails takes eighteen replies. It puts the recording and the
/// playback wave filter in place, then the recording and the playback topology, each with a port
/// and a miniport of its own; both wave filters get the ring, every port is given back to its
/// filter, and at last the two wave filters learn of each other. Then the playback wave filter is
/// joined to its topology, from pin 1 to pin 0, and the recording topology to its wave filter,
/// from pin 1 to pin 0.
pub proof fn law_smooth_installation(a: AdapterCommon, replies: Seq<Reply>)
    requires
        replies.len() == 18,
        forall|i: int|
            0 <= i < replies.len() ==> (#[trigger] replies[i]).status >= 0 && replies[i].handle
                != 0,
    ensures
        ({
            let r = installed_by(a, replies);
            let h = |i: int| replies[i].handle;
            &&& r.phase == Phase::Done(0)
            &&& r.adapter == (AdapterCommon {
                mic_port: h(0),
                mic: h(1),
                speaker_port: h(4),
                speaker: h(5),
                topo_mic_port: h(8),
                topo_mic: h(9),
                topo_speaker_port: h(12),
                topo_speaker: h(13),
                phys_render_connected: true,
                phys_capture_connected: true,
                ..a
            })
            &&& r.done == seq![
                Effect::SetRing(h(1)),
                Effect::ReleasePort(h(0)),
                Effect::SetRing(h(5)),
                Effect::ReleasePort(h(4)),
                Effect::ReleasePort(h(8)),
                Effect::ReleasePort(h(12)),
                Effect::Pair(h(1), h(5)),
            ]
            &&& r.asked == seq![
                Ask::NewPort(Endpoint::WaveCapture),
                Ask::NewMiniport(Endpoint::WaveCapture),
                Ask::InitPort(h(0), h(1)),
                Ask::Register(Endpoint::WaveCapture, h(0)),
                Ask::NewPort(Endpoint::WaveRender),
                Ask::NewMiniport(Endpoint::WaveRender),
                Ask::InitPort(h(4), h(5)),
                Ask::Register(Endpoint::WaveRender, h(4)),
                Ask::NewPort(Endpoint::TopologyCapture),
                Ask::NewMiniport(Endpoint::TopologyCapture),
                Ask::InitPort(h(8), h(9)),
                Ask::Register(Endpoint::TopologyCapture, h(8)),
                Ask::NewPort(Endpoint::TopologyRender),
                Ask::NewMiniport(Endpoint::TopologyRender),
                Ask::InitPort(h(12), h(13)),
                Ask::Register(Endpoint::TopologyRender, h(12)),
                Ask::Connect(Connection { from: h(4), from_pin: 1, to: h(12), to_pin: 0 }),
                Ask::Connect(Connection { from: h(8), from_pin: 1, to: h(0), to_pin: 0 }),
            ]
        }),
{
    let r4 = replies.take(4);
    let r8 = replies.take(8);
    let r12 = replies.take(12);
    let r16 = replies.take(16);
    let r17 = replies.take(17);
    assert(r4.take(0) =~= Seq::<Reply>::empty());
    assert(r8.take(4) =~= r4);
    assert(r12.take(8) =~= r8);
    assert(r16.take(12) =~= r12);
    assert(r17.drop_last() =~= r16);
    assert(replies.drop_last() =~= r17);
    assert(forall|i: int| 0 <= i < 4 ==> #[trigger] r4[i] == replies[i]);
    assert(forall|i: int| 0 <= i < 8 ==> #[trigger] r8[i] == replies[i]);
    assert(forall|i: int| 0 <= i < 12 ==> #[trigger] r12[i] == replies[i]);
    assert(forall|i: int| 0 <= i < 16 ==> #[trigger] r16[i] == replies[i]);
    lemma_endpoint_is_put_in_place(a, Endpoint::WaveCapture, r4);
    lemma_endpoint_is_put_in_place(a, Endpoint::WaveRender, r8);
    lemma_endpoint_is_put_in_place(a, Endpoint::TopologyCapture, r12);
    lemma_endpoint_is_put_in_place(a, Endpoint::TopologyRender, r16);
    assert(r17.last() == replies[16]);
    assert(replies.last() == replies[17]);
    let i16 = installed_by(a, r16);
    let i17 = installed_by(a, r17);
    assert(i16.phase == Phase::ConnectRender);
    assert(i17.phase == Phase::ConnectCapture);
    assert(i17.done =~= i16.done);
    assert(installed_by(a, replies).done =~= i16.done);
}

/// A reply ends the installation exactly when its status is an error, or, of a new miniport, when
/// there is none. The installation then ends with that status, which for a missing miniport is
/// that of missing resources, and stays ended.
pub proof fn law_failure_ends_the_installation(phase: Phase, reply: Reply, later: Reply)
    requires
        !(phase is Done),
    ensures
        ({
            let bad = if phase is NewMiniport {
                reply.handle == 0
            } else {
                reply.status < 0
            };
            let next = next_phase(phase, reply);
            &&& bad ==> next == Phase::Done(
                if phase is NewMiniport {
                    STATUS_INSUFFICIENT_RESOURCES
                } else {
                    reply.status
                },
            )
            &&& !bad ==> (next is Done <==> phase == Phase::ConnectCapture)
            &&& next is Done ==> next_phase(next, later) == next
        }),
{
}

/// Everything that is in place is taken back in this order: the connections, the topologies, the
/// wave filters, of each kind first that of the playback for the connections and that of the
/// recording for the rest. Nothing is left registered in the adapter.
pub proof fn law_teardown_goes_backwards(a: AdapterCommon)
    requires
        a.phys_render_connected,
        a.phys_capture_connected,
        a.mic_port != 0,
        a.speaker_port != 0,
        a.topo_mic_port != 0,
        a.topo_speaker_port != 0,
    ensures
        teardown(a) == seq![
            Effect::Disconnect(
                Connection {
                    from: a.speaker_port,
                    from_pin: 1,
                    to: a.topo_speaker_port,
                    to_pin: 0,
                },
            ),
            Effect::Disconnect(
                Connection { from: a.topo_mic_port, from_pin: 1, to: a.mic_port, to_pin: 0 },
            ),
            Effect::Unregister(a.topo_mic_port),
            Effect::Unregister(a.topo_speaker_port),
            Effect::Unregister(a.mic_port),
            Effect::Unregister(a.speaker_port),
        ],
        teardown(torn_down(a)) == Seq::<Effect>::empty(),
{
    assert(teardown(torn_down(a)) =~= Seq::<Effect>::empty());
}

/// A released adapter gives back the ring if it has one, each miniport that it holds, once and as
/// what it is, and at last itself.
pub proof fn law_release_gives_everything_back(a: AdapterCommon)
    ensures
        freed(a).last() == Cleanup::FreeAdapter,
        freed(a).contains(Cleanup::FreeRing) <==> a.ring is Some,
        a.mic != 0 && a.speaker != 0 && a.topo_mic != 0 && a.topo_speaker != 0 ==> held(a) == seq![
            Cleanup::ReleaseMiniport(a.mic),
            Cleanup::ReleaseMiniport(a.speaker),
            Cleanup::ReleaseTopology(a.topo_mic),
            Cleanup::ReleaseTopology(a.topo_speaker),
        ],
        a.mic == 0 && a.speaker == 0 && a.topo_mic == 0 && a.topo_speaker == 0 ==> held(a)
            == Seq::<Cleanup>::empty(),
        held(a).len() == (if a.mic != 0 {
            1int
        } else {
            0
        }) + (if a.speaker != 0 {
            1int
        } else {
            0
        }) + (if a.topo_mic != 0 {
            1int
        } else {
            0
        }) + (if a.topo_speaker != 0 {
            1int
        } else {
            0
        }),
        a.mic != 0 ==> held(a).contains(Cleanup::ReleaseMiniport(a.mic)),
        a.speaker != 0 ==> held(a).contains(Cleanup::ReleaseMiniport(a.speaker)),
        a.topo_mic != 0 ==> held(a).contains(Cleanup::ReleaseTopology(a.topo_mic)),
        a.topo_speaker != 0 ==> held(a).contains(Cleanup::ReleaseTopology(a.topo_speaker)),
{
    let m = held_one(a.mic, Cleanup::ReleaseMiniport(a.mic));
    let s = held_one(a.speaker, Cleanup::ReleaseMiniport(a.speaker));
    let tm = held_one(a.topo_mic, Cleanup::ReleaseTopology(a.topo_mic));
    let ts = held_one(a.topo_speaker, Cleanup::ReleaseTopology(a.topo_speaker));
    assert(held(a) == m + s + tm + ts);
    if a.ring is Some {
        assert(freed(a)[0] == Cleanup::FreeRing);
    }
    if a.mic != 0 {
        assert(held(a)[0] == Cleanup::ReleaseMiniport(a.mic));
    }
    if a.speaker != 0 {
        assert(held(a)[m.len() as int] == Cleanup::ReleaseMiniport(a.speaker));
    }
    if a.topo_mic != 0 {
        assert(held(a)[(m + s).len() as int] == Cleanup::ReleaseTopology(a.topo_mic));
    }
    if a.topo_speaker != 0 {
        assert(held(a)[(m + s + tm).len() as int] == Cleanup::ReleaseTopology(a.topo_speaker));
    }
}

} // verus!
