//! Names under which the four subdevices are registered, and the pins by which their filters are
//! joined.
use vstd::prelude::*;
use vstd::string::*;

verus! {

/// The pin of a wave filter that has only one.
pub const WAVE_PIN: u32 = 0;

/// The pin of the playback topology to which the wave filter is joined.
pub const TOPO_RENDER_FROM_WAVE_PIN: u32 = 0;

/// The pin of the recording topology from which the wave filter is joined.
pub const TOPO_CAPTURE_TO_WAVE_PIN: u32 = 1;

/// The pin of the playback wave filter that clients open.
pub const WAVE_RENDER_HOST_PIN: u32 = 0;

/// The pin of the playback wave filter that is joined to the topology.
pub const WAVE_RENDER_BRIDGE_PIN: u32 = 1;

/// The pin of the recording wave filter that is joined to the topology.
pub const WAVE_CAPTURE_BRIDGE_PIN: u32 = 0;

/// The pin of the recording wave filter that clients open.
pub const WAVE_CAPTURE_HOST_PIN: u32 = 1;

/// A name in 16-bit units, one for each of its ASCII characters, with a closing 0.
pub open spec fn wide(name: Seq<char>) -> Seq<u16> {
    Seq::new(name.len(), |i: int| name[i] as u16).push(0)
}

/// The 16-bit form of an ASCII name.
pub fn wide_name(name: &str) -> (units: Vec<u16>)
    requires
        name.is_ascii(),
    ensures
        units@ == wide(name@),
{
    broadcast use is_ascii_spec_bytes;

    let b: &[u8] = name.as_bytes();
    let n: usize = b.len();
    let mut units: Vec<u16> = Vec::new();
    let mut i: usize = 0;
    while i < n
        invariant
            i <= n,
            n == b@.len(),
            b@ == Seq::new(name@.len(), |i: int| name@[i] as u8),
            name.is_ascii(),
            units@ == Seq::new(i as nat, |k: int| name@[k] as u16),
        decreases n - i,
    {
        assert(b@[i as int] == name@[i as int] as u8);
        assert(name@[i as int] as u32 <= 127);
        units.push(b[i] as u16);
        i = i + 1;
        assert(units@ =~= Seq::new(i as nat, |k: int| name@[k] as u16));
    }
    units.push(0);
    assert(units@ =~= wide(name@));
    units
}

/// The name of the recording wave filter.
pub fn wave_capture_name() -> (units: Vec<u16>)
    ensures
        units@ == wide("WaveCapture-0"@),
{
    proof {
        reveal_strlit("WaveCapture-0");
    }
    wide_name("WaveCapture-0")
}

/// The name of the playback wave filter.
pub fn wave_render_name() -> (units: Vec<u16>)
    ensures
        units@ == wide("WaveRender-0"@),
{
    proof {
        reveal_strlit("WaveRender-0");
    }
    wide_name("WaveRender-0")
}

/// The name of the recording topology filter.
pub fn topology_capture_name() -> (units: Vec<u16>)
    ensures
        units@ == wide("TopologyCapture-0"@),
{
    proof {
        reveal_strlit("TopologyCapture-0");
    }
    wide_name("TopologyCapture-0")
}

/// The name of the playback topology filter.
pub fn topology_render_name() -> (units: Vec<u16>)
    ensures
        units@ == wide("TopologyRender-0"@),
{
    proof {
        reveal_strlit("TopologyRender-0");
    }
    wide_name("TopologyRender-0")
}

} // verus!
