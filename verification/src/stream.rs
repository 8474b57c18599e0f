//! A WaveRT stream: its format, its state, and how time moves its position over the DMA buffer
//! while bytes pass between that buffer and the ring of the virtual cable.
use crate::bytes;
use crate::com;
use crate::wave_format;
use crate::guid;
use crate::guid::GUID;
use crate::ks;
use crate::ks::{
    KSAUDIO_POSITION, KSRTAUDIO_HWLATENCY, KSRTAUDIO_HWREGISTER, KSSTATE, PVOID, WAVEFORMATEX,
};
use crate::position;
use crate::ringbuffer;
use crate::ringbuffer::RingBuffer;
use crate::stats;
use crate::stats::DebugStats;
use crate::status::{
    E_NOINTERFACE, NTSTATUS, STATUS_INVALID_DEVICE_REQUEST, STATUS_INVALID_PARAMETER,
    STATUS_NOT_SUPPORTED, STATUS_SUCCESS, STATUS_UNSUCCESSFUL,
};
use vstd::arithmetic::div_mod::*;
use vstd::prelude::*;

verus! {

/// A stream. The DMA buffer is empty while none is allocated.
pub struct WaveRTStream {
    pub refcount: u32,
    pub capture: bool,
    pub state: KSSTATE,
    pub port_stream: PVOID,
    pub miniport: PVOID,
    pub dma_buffer: Vec<u8>,
    pub dma_size: u32,
    pub buffer_mdl: PVOID,
    pub block_align: u16,
    /// Running position in bytes, as last reported.
    pub position: u64,
    /// Bytes moved between the buffer and the ring so far.
    pub last_processed: u64,
    /// Performance counter when the stream was set running.
    pub qpc_anchor: u64,
    /// Position when the stream was set running.
    pub anchor_position: u64,
    /// Bytes per second; 0 while no format is set.
    pub bytes_per_sec: u32,
}

/// The memory that was allocated for a stream's buffer.
#[derive(Clone, Copy, Debug, PartialEq, Eq, Structural)]
pub struct AudioBuffer {
    pub mdl: PVOID,
    pub actual_size: u32,
    pub offset: u32,
    pub cache_type: u32,
}

/// What to do next for a buffer allocation.
#[derive(Clone, Copy, Debug, PartialEq, Eq, Structural)]
pub enum AllocateStep {
    /// Give up with this status.
    Refuse(NTSTATUS),
    /// Allocate that many bytes of pages.
    AllocatePages(u32),
    /// Map these pages.
    MapPages(PVOID),
    /// Free these pages and give up with that status.
    FreePages(PVOID, NTSTATUS),
    /// The buffer is there.
    Done(AudioBuffer),
}

/// Cached memory.
pub const MM_CACHED: u32 = 2;

/// States that a stream can be set to from one another: itself, and the neighbours in the row
/// from stopped over acquired and paused to running.
pub open spec fn can_follow(prev: KSSTATE, next: KSSTATE) -> bool {
    let a = ks::state_number(prev);
    let b = ks::state_number(next);
    a == b || a == b + 1 || b == a + 1
}

/// The sum, or the largest number where it does not fit.
pub open spec fn sum_capped(a: u64, b: u64) -> u64 {
    if a + b > u64::MAX {
        u64::MAX
    } else {
        (a + b) as u64
    }
}

/// The difference, or 0 where it is negative.
pub open spec fn diff_capped(a: u64, b: u64) -> u64 {
    if a < b {
        0
    } else {
        (a - b) as u64
    }
}

/// The `n` bytes of a circular buffer from `start` on.
pub open spec fn window(dma: Seq<u8>, start: int, n: int) -> Seq<u8> {
    Seq::new(n as nat, |i: int| dma[(start + i) % (dma.len() as int)])
}

/// `n` zero bytes.
pub open spec fn silence(n: int) -> Seq<u8> {
    Seq::new(n as nat, |i: int| 0u8)
}

/// The `n` bytes that a recording stream gets from the ring: what is queued, then silence.
pub open spec fn heard(queue: Seq<u8>, n: int) -> Seq<u8> {
    let got = ringbuffer::least(queue.len() as int, n);
    queue.subrange(0, got) + silence(n - got)
}

/// The ring after a recording stream took `n` bytes.
pub open spec fn left_over(queue: Seq<u8>, n: int) -> Seq<u8> {
    queue.subrange(ringbuffer::least(queue.len() as int, n), queue.len() as int)
}

/// The ring after a playback stream moved the span of `n` bytes at `off` into it, in the two
/// pieces into which the end of the buffer cuts it.
pub open spec fn played(queue: Seq<u8>, dma: Seq<u8>, off: int, n: int, cap: int) -> Seq<u8> {
    let first = ringbuffer::least(dma.len() - off, n);
    let head = ringbuffer::dropped_oldest(queue, dma.subrange(off, off + first), cap);
    if first < n {
        ringbuffer::dropped_oldest(head, dma.subrange(0, n - first), cap)
    } else {
        head
    }
}

/// The buffer after a recording stream filled the span of `n` bytes at `off` from the ring.
pub open spec fn recorded(queue: Seq<u8>, dma: Seq<u8>, off: int, n: int) -> Seq<u8> {
    let first = ringbuffer::least(dma.len() - off, n);
    let head = bytes::patched(dma, off, heard(queue, first));
    if first < n {
        bytes::patched(head, 0, heard(left_over(queue, first), n - first))
    } else {
        head
    }
}

/// The ring after a recording stream filled such a span.
pub open spec fn recorded_rest(queue: Seq<u8>, dma_len: int, off: int, n: int) -> Seq<u8> {
    let first = ringbuffer::least(dma_len - off, n);
    if first < n {
        left_over(left_over(queue, first), n - first)
    } else {
        left_over(queue, first)
    }
}

/// The counters after a stream format was proposed.
pub open spec fn format_noted(s: Seq<u32>, b: Seq<u8>) -> Seq<u32> {
    let w = wave_format::wave_at(b, 64);
    let noted = stats::counted(s, stats::SET_FORMAT_CALLS as int).update(
        stats::LAST_FORMAT_SIZE as int,
        bytes::dword_at(b, 0),
    ).update(stats::LAST_TAG as int, w.wFormatTag as u32).update(
        stats::LAST_CHANNELS as int,
        w.nChannels as u32,
    ).update(stats::LAST_RATE as int, w.nSamplesPerSec).update(
        stats::LAST_BITS as int,
        w.wBitsPerSample as u32,
    );
    if wave_format::is_stream_format(b) {
        stats::counted(noted, stats::SET_FORMAT_OK as int).update(
            stats::LAST_STATUS as int,
            bytes::bits32(STATUS_SUCCESS),
        )
    } else {
        noted.update(stats::LAST_STATUS as int, bytes::bits32(STATUS_INVALID_PARAMETER))
    }
}

/// A stream after its state was set, where that is allowed.
pub open spec fn state_set(s: WaveRTStream, state: KSSTATE, now: u64) -> WaveRTStream {
    match state {
        KSSTATE::KSSTATE_PAUSE => WaveRTStream { state, ..s },
        KSSTATE::KSSTATE_RUN => WaveRTStream {
            state,
            qpc_anchor: now,
            anchor_position: s.last_processed,
            ..s
        },
        _ => WaveRTStream {
            state,
            position: 0,
            last_processed: 0,
            anchor_position: 0,
            qpc_anchor: 0,
            ..s
        },
    }
}

impl WaveRTStream {
    /// The buffer is as long as it claims to be.
    pub open spec fn wf(&self) -> bool {
        self.dma_buffer@.len() == self.dma_size
    }

    /// Time moves the stream: it runs, has a buffer and a format, and the cable has its ring.
    pub open spec fn moves(&self, ring: Option<RingBuffer>) -> bool {
        self.state == KSSTATE::KSSTATE_RUN && self.dma_size > 0 && ring is Some
            && self.bytes_per_sec > 0
    }

    /// How many bytes the stream has to move at counter `now`: what has become due since it was
    /// set running, at most one lap of the buffer, and only whole frames.
    pub open spec fn due(&self, now: u64, freq: u64) -> int {
        let elapsed = diff_capped(now, self.qpc_anchor);
        let earned = position::interval_bytes(
            elapsed as nat,
            freq as nat,
            self.bytes_per_sec as nat,
        ) as u64;
        let target = sum_capped(self.anchor_position, earned);
        let lap = sum_capped(self.last_processed, self.dma_size as u64);
        let capped = if target <= lap {
            target
        } else {
            lap
        };
        position::aligned_down(
            diff_capped(capped, self.last_processed) as nat,
            self.block_align as nat,
        ) as int
    }

    /// Where in the buffer the next byte is to be moved.
    pub open spec fn cursor(&self) -> int {
        self.last_processed as int % self.dma_size as int
    }

    /// A new stream: stopped, without format or buffer, referenced once.
    pub fn new(miniport: PVOID, port_stream: PVOID, capture: bool) -> (s: Self)
        ensures
            s.wf(),
            s.refcount == 1,
            s.capture == capture,
            s.state == KSSTATE::KSSTATE_STOP,
            s.port_stream == port_stream,
            s.miniport == miniport,
            s.dma_size == 0,
            s.buffer_mdl == 0,
            s.block_align == 4,
            s.position == 0,
            s.last_processed == 0,
            s.qpc_anchor == 0,
            s.anchor_position == 0,
            s.bytes_per_sec == 0,
    {
        WaveRTStream {
            refcount: 1,
            capture,
            state: KSSTATE::KSSTATE_STOP,
            port_stream,
            miniport,
            dma_buffer: Vec::new(),
            dma_size: 0,
            buffer_mdl: 0,
            block_align: 4,
            position: 0,
            last_processed: 0,
            qpc_anchor: 0,
            anchor_position: 0,
            bytes_per_sec: 0,
        }
    }

    /// Hands the stream out under an interface it has: a new reference. The second result says
    /// whether it was handed out.
    pub fn query_interface(&mut self, iid: &GUID) -> (r: (NTSTATUS, bool))
        requires
            old(self).refcount < u32::MAX,
        ensures
            r.1 == (*iid == guid::IID_IUnknown() || *iid == guid::IID_IMiniportWaveRTStream()),
            r.0 == if r.1 {
                STATUS_SUCCESS
            } else {
                E_NOINTERFACE
            },
            *final(self) == (WaveRTStream {
                refcount: if r.1 {
                    (old(self).refcount + 1) as u32
                } else {
                    old(self).refcount
                },
                ..*old(self)
            }),
    {
        if guid::is_equal_guid(iid, &guid::IID_IUnknown()) || guid::is_equal_guid(
            iid,
            &guid::IID_IMiniportWaveRTStream(),
        ) {
            com::interlocked_increment(&mut self.refcount);
            (STATUS_SUCCESS, true)
        } else {
            (E_NOINTERFACE, false)
        }
    }

    /// Takes a reference.
    pub fn add_ref(&mut self) -> (count: u32)
        requires
            old(self).refcount < u32::MAX,
        ensures
            count == old(self).refcount + 1,
            *final(self) == (WaveRTStream { refcount: count, ..*old(self) }),
    {
        com::interlocked_increment(&mut self.refcount)
    }

    /// Gives a reference back; at 0 nobody holds the stream any more.
    pub fn release(&mut self) -> (count: u32)
        requires
            old(self).refcount > 0,
        ensures
            count == old(self).refcount - 1,
            *final(self) == (WaveRTStream { refcount: count, ..*old(self) }),
    {
        com::interlocked_decrement(&mut self.refcount)
    }

    /// Sets the format where it is one the driver takes; any other is refused and changes
    /// nothing. The format's bytes are at least as many as it states and as it must have.
    pub fn set_format(&mut self, data_format: &[u8], stats: &mut DebugStats) -> (status: NTSTATUS)
        requires
            old(stats).wf(),
            data_format@.len() >= ks::KSDATAFORMAT_WAVEFORMATEX_SIZE,
            data_format@.len() >= bytes::dword_at(data_format@, 0),
        ensures
            status == if wave_format::is_stream_format(data_format@) {
                STATUS_SUCCESS
            } else {
                STATUS_INVALID_PARAMETER
            },
            status == STATUS_SUCCESS ==> *final(self) == (WaveRTStream {
                block_align: 4,
                bytes_per_sec: 192_000,
                ..*old(self)
            }),
            status != STATUS_SUCCESS ==> *final(self) == *old(self),
            final(stats).wf(),
            final(stats)@ == format_noted(old(stats)@, data_format@),
    {
        stats.dbg_inc(stats::SET_FORMAT_CALLS);
        let size: u32 = bytes::read_u32(data_format, 0);
        let w: WAVEFORMATEX = wave_format::read_wave(data_format, 64);
        stats.put(stats::LAST_FORMAT_SIZE, size);
        stats.put(stats::LAST_TAG, w.wFormatTag as u32);
        stats.put(stats::LAST_CHANNELS, w.nChannels as u32);
        stats.put(stats::LAST_RATE, w.nSamplesPerSec);
        stats.put(stats::LAST_BITS, w.wBitsPerSample as u32);
        if !wave_format::check_stream_format(data_format) {
            stats.put(stats::LAST_STATUS, bytes::status_bits(STATUS_INVALID_PARAMETER));
            return STATUS_INVALID_PARAMETER;
        }
        self.block_align = w.nBlockAlign;
        self.bytes_per_sec = w.nSamplesPerSec * (w.nBlockAlign as u32);
        stats.dbg_inc(stats::SET_FORMAT_OK);
        stats.put(stats::LAST_STATUS, bytes::status_bits(STATUS_SUCCESS));
        STATUS_SUCCESS
    }

    /// Sets the state, at counter `now`. A state that is no neighbour is refused and changes
    /// nothing. Stopping and acquiring go back to the start; running starts the clock where the
    /// stream stands; pausing keeps everything.
    pub fn set_state(&mut self, state: KSSTATE, now: u64) -> (status: NTSTATUS)
        ensures
            status == if can_follow(old(self).state, state) {
                STATUS_SUCCESS
            } else {
                STATUS_INVALID_DEVICE_REQUEST
            },
            !can_follow(old(self).state, state) ==> *final(self) == *old(self),
            can_follow(old(self).state, state) ==> *final(self) == match state {
                KSSTATE::KSSTATE_STOP => WaveRTStream {
                    state,
                    position: 0,
                    last_processed: 0,
                    anchor_position: 0,
                    qpc_anchor: 0,
                    ..*old(self)
                },
                KSSTATE::KSSTATE_ACQUIRE => WaveRTStream {
                    state,
                    position: 0,
                    last_processed: 0,
                    anchor_position: 0,
                    qpc_anchor: 0,
                    ..*old(self)
                },
                KSSTATE::KSSTATE_PAUSE => WaveRTStream { state, ..*old(self) },
                KSSTATE::KSSTATE_RUN => WaveRTStream {
                    state,
                    qpc_anchor: now,
                    anchor_position: old(self).last_processed,
                    ..*old(self)
                },
            },
            can_follow(old(self).state, state) ==> *final(self) == state_set(*old(self), state, now),
    {
        let a: u32 = self.state.value();
        let b: u32 = state.value();
        if a != b && a != b + 1 && b != a + 1 {
            return STATUS_INVALID_DEVICE_REQUEST;
        }
        self.state = state;
        match state {
            KSSTATE::KSSTATE_STOP | KSSTATE::KSSTATE_ACQUIRE => {
                self.position = 0;
                self.last_processed = 0;
                self.anchor_position = 0;
                self.qpc_anchor = 0;
            },
            KSSTATE::KSSTATE_RUN => {
                self.qpc_anchor = now;
                self.anchor_position = self.last_processed;
            },
            KSSTATE::KSSTATE_PAUSE => {},
        }
        STATUS_SUCCESS
    }

    /// Moves `n` bytes at offset `off` of the buffer: into the ring for a playback stream, out of
    /// it for a recording stream.
    fn process_dma_slice(&mut self, ring: &mut RingBuffer, off: usize, n: usize)
        requires
            old(self).wf(),
            old(ring).wf(),
            off + n <= old(self).dma_size,
        ensures
            final(ring).wf(),
            final(ring).cap() == old(ring).cap(),
            final(self).wf(),
            old(self).capture ==> final(ring)@ == left_over(old(ring)@, n as int),
            old(self).capture ==> final(self).dma_buffer@ == bytes::patched(
                old(self).dma_buffer@,
                off as int,
                heard(old(ring)@, n as int),
            ),
            !old(self).capture ==> final(ring)@ == ringbuffer::dropped_oldest(
                old(ring)@,
                old(self).dma_buffer@.subrange(off as int, off + n),
                old(ring).cap() as int,
            ),
            !old(self).capture ==> *final(self) == *old(self),
            *final(self) == (WaveRTStream { dma_buffer: final(self).dma_buffer, ..*old(self) }),
    {
        if self.capture {
            let mut slice: Vec<u8> = bytes::copy_range(self.dma_buffer.as_slice(), off, off + n);
            ring.read_zero_fill(slice.as_mut_slice());
            assert(slice@ =~= heard(old(ring)@, n as int));
            bytes::write_at(&mut self.dma_buffer, off, slice.as_slice());
        } else {
            let slice: Vec<u8> = bytes::copy_range(self.dma_buffer.as_slice(), off, off + n);
            ring.write_drop_oldest(slice.as_slice());
        }
    }

    /// Moves the span of `n` bytes from the cursor on.
    fn process_span(&mut self, ring: &mut RingBuffer, n: usize)
        requires
            old(self).wf(),
            old(ring).wf(),
            0 < n <= old(self).dma_size,
        ensures
            final(ring).wf(),
            final(ring).cap() == old(ring).cap(),
            final(self).wf(),
            *final(self) == (WaveRTStream { dma_buffer: final(self).dma_buffer, ..*old(self) }),
            old(self).capture ==> final(self).dma_buffer@ == recorded(
                old(ring)@,
                old(self).dma_buffer@,
                old(self).cursor(),
                n as int,
            ),
            old(self).capture ==> final(ring)@ == recorded_rest(
                old(ring)@,
                old(self).dma_size as int,
                old(self).cursor(),
                n as int,
            ),
            !old(self).capture ==> *final(self) == *old(self),
            !old(self).capture ==> final(ring)@ == played(
                old(ring)@,
                old(self).dma_buffer@,
                old(self).cursor(),
                n as int,
                old(ring).cap() as int,
            ),
    {
        let size: usize = self.dma_size as usize;
        let start: usize = (self.last_processed % (self.dma_size as u64)) as usize;
        let (off, first): (usize, usize) = position::split_ring_span(start, n, size);
        proof {
            lemma_small_mod(start as nat, size as nat);
        }
        self.process_dma_slice(ring, off, first);
        if first < n {
            self.process_dma_slice(ring, 0, n - first);
        }
    }

    /// Reports the position at counter `now`, after moving the bytes that have become due.
    pub fn get_position(
        &mut self,
        ring: &mut Option<RingBuffer>,
        now: u64,
        freq: u64,
    ) -> (r: (NTSTATUS, KSAUDIO_POSITION))
        requires
            old(self).wf(),
            (*old(ring)) is Some ==> (*old(ring))->0.wf(),
        ensures
            final(self).wf(),
            (*final(ring)) is Some == (*old(ring)) is Some,
            (*final(ring)) is Some ==> (*final(ring))->0.wf() && (*final(ring))->0.cap()
                == (*old(ring))->0.cap(),
            !old(self).moves(*old(ring)) ==> *final(self) == *old(self) && *final(ring)
                == *old(ring),
            old(self).moves(*old(ring)) ==> {
                let n = old(self).due(now, freq);
                let moved = (old(self).last_processed + n) as u64;
                &&& *final(self) == (WaveRTStream {
                    dma_buffer: final(self).dma_buffer,
                    last_processed: moved,
                    position: moved,
                    ..*old(self)
                })
                &&& n == 0 ==> final(self).dma_buffer@ == old(self).dma_buffer@ && (*final(ring))->0@
                    == (*old(ring))->0@
                &&& n > 0 && old(self).capture ==> final(self).dma_buffer@ == recorded(
                    (*old(ring))->0@,
                    old(self).dma_buffer@,
                    old(self).cursor(),
                    n,
                ) && (*final(ring))->0@ == recorded_rest(
                    (*old(ring))->0@,
                    old(self).dma_size as int,
                    old(self).cursor(),
                    n,
                )
                &&& n > 0 && !old(self).capture ==> final(self).dma_buffer@ == old(self).dma_buffer@
                    && (*final(ring))->0@ == played(
                    (*old(ring))->0@,
                    old(self).dma_buffer@,
                    old(self).cursor(),
                    n,
                    (*old(ring))->0.cap() as int,
                )
            },
            old(self).moves(*old(ring)) ==> {
                let a = after_poll(
                    *old(self),
                    old(self).dma_buffer@,
                    (*old(ring))->0@,
                    (*old(ring))->0.cap() as int,
                    now,
                    freq,
                );
                &&& final(self).last_processed == a.0.last_processed
                &&& final(self).position == a.0.last_processed
                &&& final(self).dma_buffer@ == a.1
                &&& (*final(ring))->0@ == a.2
            },
            old(self).moves(*old(ring)) && !old(self).capture ==> {
                let n = final(self).last_processed - old(self).last_processed;
                (*old(ring))->0@.len() + n <= (*old(ring))->0.cap() ==> (*final(ring))->0@
                    == (*old(ring))->0@ + Seq::new(
                    n as nat,
                    |i: int|
                        old(self).dma_buffer@[(old(self).last_processed + i) % (
                        old(self).dma_size as int)],
                )
            },
            old(self).moves(*old(ring)) && old(self).capture ==> {
                let n = final(self).last_processed - old(self).last_processed;
                Seq::new(
                    n as nat,
                    |i: int|
                        final(self).dma_buffer@[(old(self).last_processed + i) % (
                        old(self).dma_size as int)],
                ) == Seq::new(
                    n as nat,
                    |i: int|
                        if i < (*old(ring))->0@.len() {
                            (*old(ring))->0@[i]
                        } else {
                            0u8
                        },
                )
            },
            r.0 == STATUS_SUCCESS,
            r.1.PlayOffset == if final(self).dma_size == 0 {
                0
            } else {
                final(self).position as int % final(self).dma_size as int
            },
            r.1.WriteOffset == r.1.PlayOffset,
    {
        let running: bool = match self.state {
            KSSTATE::KSSTATE_RUN => true,
            _ => false,
        };
        if running && self.dma_size > 0 && self.bytes_per_sec > 0 {
            match ring {
                Some(ring) => {
                    let elapsed: u64 = now.saturating_sub(self.qpc_anchor);
                    let earned: u64 = position::bytes_for_interval(
                        elapsed,
                        freq,
                        self.bytes_per_sec as u64,
                    );
                    let target: u64 = self.anchor_position.saturating_add(earned);
                    let lap: u64 = self.last_processed.saturating_add(self.dma_size as u64);
                    let capped: u64 = if target <= lap {
                        target
                    } else {
                        lap
                    };
                    let due: u64 = capped.saturating_sub(self.last_processed);
                    let n: u64 = position::frame_aligned_advance(due, self.block_align as u32);
                    assert(n == old(self).due(now, freq));
                    proof {
                        lemma_due_bounds(*old(self), now, freq);
                        law_advance_moves_the_running_positions(
                            *old(self),
                            self.dma_buffer@,
                            ring@,
                            n as int,
                            ring.cap() as int,
                        );
                    }
                    if n > 0 {
                        self.process_span(ring, n as usize);
                        self.last_processed = self.last_processed + n;
                    }
                    self.position = self.last_processed;
                },
                None => {},
            }
        }
        let offset: u64 = position::mod_position(self.position, self.dma_size);
        (STATUS_SUCCESS, KSAUDIO_POSITION { PlayOffset: offset, WriteOffset: offset })
    }

    /// First step of a buffer allocation: nothing is allocated for nothing.
    pub fn allocate_audio_buffer(&self, requested_size: u32) -> (step: AllocateStep)
        ensures
            step == if requested_size == 0 {
                AllocateStep::Refuse(STATUS_UNSUCCESSFUL)
            } else {
                AllocateStep::AllocatePages(requested_size)
            },
    {
        if requested_size == 0 {
            return AllocateStep::Refuse(STATUS_UNSUCCESSFUL);
        }
        AllocateStep::AllocatePages(requested_size)
    }

    /// Second step: the pages, or none, are there.
    pub fn pages_allocated(&self, mdl: PVOID) -> (step: AllocateStep)
        ensures
            step == if mdl == 0 {
                AllocateStep::Refuse(STATUS_UNSUCCESSFUL)
            } else {
                AllocateStep::MapPages(mdl)
            },
    {
        if mdl == 0 {
            return AllocateStep::Refuse(STATUS_UNSUCCESSFUL);
        }
        AllocateStep::MapPages(mdl)
    }

    /// Last step: the pages are mapped, as many bytes as were asked for, or they are freed again.
    pub fn pages_mapped(
        &mut self,
        requested_size: u32,
        mdl: PVOID,
        memory: Option<Vec<u8>>,
    ) -> (step: AllocateStep)
        requires
            memory is Some ==> memory->0@.len() == requested_size,
            old(self).wf(),
        ensures
            final(self).wf(),
            memory is None ==> step == AllocateStep::FreePages(mdl, STATUS_UNSUCCESSFUL)
                && *final(self) == *old(self),
            memory is Some ==> step == AllocateStep::Done(
                AudioBuffer {
                    mdl,
                    actual_size: requested_size,
                    offset: 0,
                    cache_type: MM_CACHED,
                },
            ) && *final(self) == (WaveRTStream {
                dma_buffer: memory->0,
                dma_size: requested_size,
                buffer_mdl: mdl,
                ..*old(self)
            }),
    {
        match memory {
            None => AllocateStep::FreePages(mdl, STATUS_UNSUCCESSFUL),
            Some(memory) => {
                self.dma_buffer = memory;
                self.dma_size = requested_size;
                self.buffer_mdl = mdl;
                AllocateStep::Done(
                    AudioBuffer {
                        mdl,
                        actual_size: requested_size,
                        offset: 0,
                        cache_type: MM_CACHED,
                    },
                )
            },
        }
    }

    /// Forgets the buffer. The results say whether it is to be unmapped and whether the pages are
    /// to be freed.
    pub fn free_audio_buffer(&mut self, mdl: PVOID) -> (r: (bool, bool))
        requires
            old(self).wf(),
        ensures
            final(self).wf(),
            r.0 == (old(self).dma_size > 0),
            r.1 == (mdl != 0),
            final(self).dma_size == 0,
            final(self).buffer_mdl == 0,
            *final(self) == (WaveRTStream {
                dma_buffer: final(self).dma_buffer,
                dma_size: 0,
                buffer_mdl: 0,
                ..*old(self)
            }),
    {
        let unmap: bool = self.dma_size > 0;
        self.dma_buffer = Vec::new();
        self.dma_size = 0;
        self.buffer_mdl = 0;
        (unmap, mdl != 0)
    }

    /// A virtual device adds no delay.
    pub fn get_hw_latency(&self) -> (latency: KSRTAUDIO_HWLATENCY)
        ensures
            latency == (KSRTAUDIO_HWLATENCY { FifoSize: 0, ChipsetDelay: 0, CodecDelay: 0 }),
    {
        KSRTAUDIO_HWLATENCY { FifoSize: 0, ChipsetDelay: 0, CodecDelay: 0 }
    }

    /// A virtual device has no position register; the position is polled.
    pub fn get_position_register(&self) -> (r: (NTSTATUS, KSRTAUDIO_HWREGISTER))
        ensures
            r.0 == STATUS_NOT_SUPPORTED,
            r.1 == (KSRTAUDIO_HWREGISTER {
                Register: 0,
                Width: 0,
                Numerator: 0,
                Denominator: 0,
                Accuracy: 0,
            }),
    {
        (
            STATUS_NOT_SUPPORTED,
            KSRTAUDIO_HWREGISTER {
                Register: 0,
                Width: 0,
                Numerator: 0,
                Denominator: 0,
                Accuracy: 0,
            },
        )
    }

    /// Nor has it a clock register.
    pub fn get_clock_register(&self) -> (r: (NTSTATUS, KSRTAUDIO_HWREGISTER))
        ensures
            r.0 == STATUS_NOT_SUPPORTED,
            r.1 == (KSRTAUDIO_HWREGISTER {
                Register: 0,
                Width: 0,
                Numerator: 0,
                Denominator: 0,
                Accuracy: 0,
            }),
    {
        self.get_position_register()
    }
}

/// The advance of a stream fits: it is at most one lap, it leaves the position in 64 bits, and it
/// is whole frames.
pub proof fn lemma_due_bounds(s: WaveRTStream, now: u64, freq: u64)
    ensures
        0 <= s.due(now, freq) <= s.dma_size,
        s.last_processed + s.due(now, freq) <= u64::MAX,
        s.block_align > 0 ==> position::on_grid(s.due(now, freq) as nat, s.block_align as nat),
{
    let elapsed = diff_capped(now, s.qpc_anchor);
    let earned = position::interval_bytes(
        elapsed as nat,
        freq as nat,
        s.bytes_per_sec as nat,
    ) as u64;
    let target = sum_capped(s.anchor_position, earned);
    let lap = sum_capped(s.last_processed, s.dma_size as u64);
    let capped = if target <= lap {
        target
    } else {
        lap
    };
    let raw = diff_capped(capped, s.last_processed);
    if s.block_align > 0 {
        position::lemma_aligned_down_on_grid(raw as nat, s.block_align as nat);
    }
}

/// Moving a stream keeps its position on the grid of whole frames.
pub proof fn law_position_stays_on_frame_grid(s: WaveRTStream, now: u64, freq: u64)
    requires
        position::on_grid(s.last_processed as nat, s.block_align as nat),
    ensures
        position::on_grid(
            (s.last_processed + s.due(now, freq)) as nat,
            s.block_align as nat,
        ),
        position::on_grid(s.dma_size as nat, s.block_align as nat) && s.dma_size > 0
            ==> position::on_grid(s.cursor() as nat, s.block_align as nat),
{
    lemma_due_bounds(s, now, freq);
    position::lemma_grid_sum(
        s.last_processed as nat,
        s.due(now, freq) as nat,
        s.block_align as nat,
    );
    if position::on_grid(s.dma_size as nat, s.block_align as nat) && s.dma_size > 0 {
        position::lemma_grid_fold(
            s.last_processed as nat,
            s.dma_size as nat,
            s.block_align as nat,
        );
        lemma_mod_bound(s.last_processed as int, s.dma_size as int);
    }
}

/// From stopped a stream reaches running only over acquired and paused, and back the same way.
pub proof fn law_states_change_one_by_one(prev: KSSTATE, next: KSSTATE)
    requires
        can_follow(prev, next),
    ensures
        can_follow(next, prev),
        ks::state_number(next) - ks::state_number(prev) <= 1,
        ks::state_number(prev) - ks::state_number(next) <= 1,
        prev == KSSTATE::KSSTATE_STOP ==> next != KSSTATE::KSSTATE_PAUSE && next
            != KSSTATE::KSSTATE_RUN,
        prev == KSSTATE::KSSTATE_RUN ==> next != KSSTATE::KSSTATE_STOP && next
            != KSSTATE::KSSTATE_ACQUIRE,
{
}

/// The bytes of a span that the end of the buffer cuts in two are those of its two pieces.
proof fn lemma_window_pieces(dma: Seq<u8>, off: int, n: int)
    requires
        dma.len() > 0,
        0 <= off < dma.len(),
        0 <= n <= dma.len(),
    ensures
        ({
            let first = ringbuffer::least(dma.len() - off, n);
            window(dma, off, n) == dma.subrange(off, off + first) + dma.subrange(0, n - first)
        }),
{
    let first = ringbuffer::least(dma.len() - off, n);
    let size = dma.len() as int;
    assert forall|i: int| 0 <= i < n implies window(dma, off, n)[i] == (dma.subrange(
        off,
        off + first,
    ) + dma.subrange(0, n - first))[i] by {
        if i < first {
            lemma_small_mod((off + i) as nat, size as nat);
        } else {
            lemma_mod_sub_multiples_vanish(off + i, size);
            lemma_small_mod((off + i - size) as nat, size as nat);
        }
    }
    assert(window(dma, off, n) =~= dma.subrange(off, off + first) + dma.subrange(0, n - first));
}

/// What a playback stream plays is queued behind what is already there, in order, whenever the
/// ring has room for it.
pub proof fn law_playing_appends(queue: Seq<u8>, dma: Seq<u8>, off: int, n: int, cap: int)
    requires
        dma.len() > 0,
        0 <= off < dma.len(),
        0 <= n <= dma.len(),
        queue.len() + n <= cap,
    ensures
        played(queue, dma, off, n, cap) == queue + window(dma, off, n),
{
    let first = ringbuffer::least(dma.len() - off, n);
    lemma_window_pieces(dma, off, n);
    assert(played(queue, dma, off, n, cap) =~= queue + window(dma, off, n));
}

/// What a recording stream finds in its buffer is what was queued, oldest first, and silence
/// once the queue is empty.
pub proof fn law_recording_takes_the_queue(queue: Seq<u8>, dma: Seq<u8>, off: int, n: int)
    requires
        dma.len() > 0,
        0 <= off < dma.len(),
        0 <= n <= dma.len(),
    ensures
        recorded(queue, dma, off, n).len() == dma.len(),
        window(recorded(queue, dma, off, n), off, n) == heard(queue, n),
        recorded_rest(queue, dma.len() as int, off, n) == left_over(queue, n),
{
    let first = ringbuffer::least(dma.len() - off, n);
    let head = bytes::patched(dma, off, heard(queue, first));
    bytes::lemma_patched(dma, off, heard(queue, first));
    let full = recorded(queue, dma, off, n);
    let rest = left_over(queue, first);
    if first < n {
        bytes::lemma_patched(head, 0, heard(rest, n - first));
        assert(full.subrange(0, n - first) =~= heard(rest, n - first));
    }
    assert(full.subrange(off, off + first) =~= heard(queue, first)) by {
        assert(head.subrange(off, off + first) == heard(queue, first));
        assert forall|i: int| off <= i < off + first implies full[i] == head[i] by {}
        assert forall|i: int| 0 <= i < first implies full.subrange(off, off + first)[i] == heard(
            queue,
            first,
        )[i] by {
            assert(head.subrange(off, off + first)[i] == head[off + i]);
        }
    }
    lemma_window_pieces(full, off, n);
    assert(heard(queue, n) =~= heard(queue, first) + heard(rest, n - first));
    assert(heard(rest, 0) =~= Seq::<u8>::empty());
    assert(window(full, off, n) =~= heard(queue, n));
    assert(recorded_rest(queue, dma.len() as int, off, n) =~= left_over(queue, n));
}

/// What the virtual speaker plays, the virtual microphone hears: on an empty ring with room for
/// it, a span played from one buffer is found, byte for byte and in order, in the span that the
/// recording stream takes next, wherever the two streams stand on their buffers.
pub proof fn law_played_bytes_are_heard(
    playback: Seq<u8>,
    play_off: int,
    recording: Seq<u8>,
    record_off: int,
    n: int,
    cap: int,
)
    requires
        0 <= play_off < playback.len(),
        0 <= record_off < recording.len(),
        0 <= n <= playback.len(),
        n <= recording.len(),
        n <= cap,
    ensures
        ({
            let ring = played(Seq::empty(), playback, play_off, n, cap);
            let buffer = recorded(ring, recording, record_off, n);
            &&& window(buffer, record_off, n) == window(playback, play_off, n)
            &&& recorded_rest(ring, recording.len() as int, record_off, n) == Seq::<u8>::empty()
        }),
{
    let ring = played(Seq::empty(), playback, play_off, n, cap);
    law_playing_appends(Seq::empty(), playback, play_off, n, cap);
    assert(ring =~= window(playback, play_off, n));
    law_recording_takes_the_queue(ring, recording, record_off, n);
    assert(heard(ring, n) =~= ring);
    assert(left_over(ring, n) =~= Seq::<u8>::empty());
}

/// Counting around a circular buffer from a running position is counting from the place that the
/// position folds onto.
proof fn lemma_folded_start(dma: Seq<u8>, p: int, n: int)
    requires
        dma.len() > 0,
        0 <= p,
        0 <= n,
    ensures
        0 <= p % (dma.len() as int) < dma.len(),
        window(dma, p % (dma.len() as int), n) == window(dma, p, n),
{
    let size = dma.len() as int;
    lemma_mod_bound(p, size);
    assert forall|i: int| 0 <= i < n implies window(dma, p % size, n)[i] == window(dma, p, n)[i] by {
        lemma_add_mod_noop_right(i, p, size);
    }
    assert(window(dma, p % size, n) =~= window(dma, p, n));
}

/// A recording stream writes only the span that it fills.
proof fn lemma_recorded_elsewhere(queue: Seq<u8>, dma: Seq<u8>, off: int, n: int, j: int)
    requires
        0 <= off < dma.len(),
        0 <= n <= dma.len(),
        0 <= j < dma.len(),
        (j - off) % (dma.len() as int) >= n,
    ensures
        recorded(queue, dma, off, n)[j] == dma[j],
{
    let size = dma.len() as int;
    let first = ringbuffer::least(size - off, n);
    let head = bytes::patched(dma, off, heard(queue, first));
    bytes::lemma_patched(dma, off, heard(queue, first));
    if first < n {
        bytes::lemma_patched(head, 0, heard(left_over(queue, first), n - first));
    }
    if j >= off {
        lemma_small_mod((j - off) as nat, size as nat);
    } else {
        lemma_mod_add_multiples_vanish(j - off, size);
        lemma_small_mod((j - off + size) as nat, size as nat);
    }
}

/// One advance of `n` bytes moves those at the running positions from `last_processed` on, each
/// of them at its position modulo the size of the buffer, whichever way the stream goes. What a
/// playback stream moves stands behind what the ring held; what a recording stream moves is what
/// the ring held, and zeros once it is empty, and the rest of the buffer stays as it was.
pub proof fn law_advance_moves_the_running_positions(
    s: WaveRTStream,
    dma: Seq<u8>,
    queue: Seq<u8>,
    n: int,
    cap: int,
)
    requires
        s.dma_size > 0,
        dma.len() == s.dma_size,
        0 <= n <= s.dma_size,
    ensures
        queue.len() + n <= cap ==> played(queue, dma, s.cursor(), n, cap) == queue + Seq::new(
            n as nat,
            |i: int| dma[(s.last_processed + i) % (s.dma_size as int)],
        ),
        Seq::new(
            n as nat,
            |i: int|
                recorded(queue, dma, s.cursor(), n)[(s.last_processed + i) % (s.dma_size as int)],
        ) == Seq::new(
            n as nat,
            |i: int|
                if i < queue.len() {
                    queue[i]
                } else {
                    0u8
                },
        ),
        recorded(queue, dma, s.cursor(), n).len() == dma.len(),
        forall|j: int|
            0 <= j < dma.len() && (j - s.last_processed) % (s.dma_size as int) >= n
                ==> #[trigger] recorded(queue, dma, s.cursor(), n)[j] == dma[j],
        recorded_rest(queue, s.dma_size as int, s.cursor(), n) == queue.skip(
            if n < queue.len() {
                n
            } else {
                queue.len() as int
            },
        ),
{
    let size = s.dma_size as int;
    let p = s.last_processed as int;
    let off = s.cursor();
    let buffer = recorded(queue, dma, off, n);
    lemma_folded_start(dma, p, n);
    if queue.len() + n <= cap {
        law_playing_appends(queue, dma, off, n, cap);
        assert(window(dma, p, n) =~= Seq::new(n as nat, |i: int| dma[(p + i) % size]));
    }
    law_recording_takes_the_queue(queue, dma, off, n);
    lemma_folded_start(buffer, p, n);
    assert(window(buffer, p, n) =~= Seq::new(n as nat, |i: int| buffer[(p + i) % size]));
    assert(heard(queue, n) =~= Seq::new(
        n as nat,
        |i: int|
            if i < queue.len() {
                queue[i]
            } else {
                0u8
            },
    ));
    assert forall|j: int| 0 <= j < dma.len() && (j - p) % size >= n implies #[trigger] buffer[j]
        == dma[j] by {
        lemma_sub_mod_noop_right(j, p, size);
        lemma_recorded_elsewhere(queue, dma, off, n, j);
    }
}

/// A stream, its buffer and the ring after the position was asked for while the stream moves.
pub open spec fn after_poll(
    s: WaveRTStream,
    dma: Seq<u8>,
    queue: Seq<u8>,
    cap: int,
    now: u64,
    freq: u64,
) -> (WaveRTStream, Seq<u8>, Seq<u8>) {
    let n = s.due(now, freq);
    let moved = (s.last_processed + n) as u64;
    let t = WaveRTStream { last_processed: moved, position: moved, ..s };
    if n == 0 {
        (t, dma, queue)
    } else if s.capture {
        (
            t,
            recorded(queue, dma, s.cursor(), n),
            recorded_rest(queue, s.dma_size as int, s.cursor(), n),
        )
    } else {
        (t, dma, played(queue, dma, s.cursor(), n, cap))
    }
}

/// The same after a row of such calls, each with its counter and the ticks per second.
pub open spec fn after_polls(
    s: WaveRTStream,
    dma: Seq<u8>,
    queue: Seq<u8>,
    cap: int,
    calls: Seq<(u64, u64)>,
) -> (WaveRTStream, Seq<u8>, Seq<u8>)
    decreases calls.len(),
{
    if calls.len() == 0 {
        (s, dma, queue)
    } else {
        let (t, d, q) = after_polls(s, dma, queue, cap, calls.drop_last());
        after_poll(t, d, q, cap, calls.last().0, calls.last().1)
    }
}

/// A row of calls only moves a stream forward.
proof fn lemma_polls_move_forward(
    s: WaveRTStream,
    dma: Seq<u8>,
    queue: Seq<u8>,
    cap: int,
    calls: Seq<(u64, u64)>,
)
    ensures
        ({
            let r = after_polls(s, dma, queue, cap, calls);
            &&& r.0 == WaveRTStream {
                last_processed: r.0.last_processed,
                position: r.0.position,
                ..s
            }
            &&& s.last_processed <= r.0.last_processed
        }),
    decreases calls.len(),
{
    if calls.len() > 0 {
        lemma_polls_move_forward(s, dma, queue, cap, calls.drop_last());
        let t = after_polls(s, dma, queue, cap, calls.drop_last()).0;
        lemma_due_bounds(t, calls.last().0, calls.last().1);
    }
}

/// Over a row of calls on a playback stream, the ring gains the bytes at the running positions
/// that the stream went through, each once and in order, as long as it has room for them: no call
/// plays again, or passes over, what another one played.
pub proof fn law_polls_play_every_byte_once(
    s: WaveRTStream,
    dma: Seq<u8>,
    queue: Seq<u8>,
    cap: int,
    calls: Seq<(u64, u64)>,
)
    requires
        !s.capture,
        s.dma_size > 0,
        dma.len() == s.dma_size,
        queue.len() + (after_polls(s, dma, queue, cap, calls).0.last_processed - s.last_processed)
            <= cap,
    ensures
        ({
            let r = after_polls(s, dma, queue, cap, calls);
            &&& s.last_processed <= r.0.last_processed
            &&& r.1 == dma
            &&& r.2 == queue + Seq::new(
                (r.0.last_processed - s.last_processed) as nat,
                |i: int| dma[(s.last_processed + i) % (s.dma_size as int)],
            )
        }),
    decreases calls.len(),
{
    lemma_polls_move_forward(s, dma, queue, cap, calls);
    if calls.len() == 0 {
        assert(queue =~= queue + Seq::new(
            0,
            |i: int| dma[(s.last_processed + i) % (s.dma_size as int)],
        ));
    } else {
        let rest = calls.drop_last();
        let b = after_polls(s, dma, queue, cap, rest);
        let t = b.0;
        let n = t.due(calls.last().0, calls.last().1);
        lemma_polls_move_forward(s, dma, queue, cap, rest);
        lemma_due_bounds(t, calls.last().0, calls.last().1);
        law_polls_play_every_byte_once(s, dma, queue, cap, rest);
        if n > 0 {
            law_advance_moves_the_running_positions(t, dma, b.2, n, cap);
        }
        let r = after_polls(s, dma, queue, cap, calls);
        assert(r.2 =~= queue + Seq::new(
            (r.0.last_processed - s.last_processed) as nat,
            |i: int| dma[(s.last_processed + i) % (s.dma_size as int)],
        ));
    }
}

/// Over a row of calls on a recording stream that goes at most one lap, the buffer gets what the
/// ring held, oldest first and each byte once, at the running positions that the stream went
/// through, and zeros once the ring is empty; the ring keeps what is left.
pub proof fn law_polls_record_every_byte_once(
    s: WaveRTStream,
    dma: Seq<u8>,
    queue: Seq<u8>,
    cap: int,
    calls: Seq<(u64, u64)>,
)
    requires
        s.capture,
        s.dma_size > 0,
        dma.len() == s.dma_size,
        after_polls(s, dma, queue, cap, calls).0.last_processed - s.last_processed <= s.dma_size,
    ensures
        ({
            let r = after_polls(s, dma, queue, cap, calls);
            let n = r.0.last_processed - s.last_processed;
            &&& 0 <= n
            &&& r.1.len() == dma.len()
            &&& Seq::new(
                n as nat,
                |i: int| r.1[(s.last_processed + i) % (s.dma_size as int)],
            ) == Seq::new(
                n as nat,
                |i: int|
                    if i < queue.len() {
                        queue[i]
                    } else {
                        0u8
                    },
            )
            &&& r.2 == queue.skip(
                if n < queue.len() {
                    n
                } else {
                    queue.len() as int
                },
            )
        }),
    decreases calls.len(),
{
    lemma_polls_move_forward(s, dma, queue, cap, calls);
    let size = s.dma_size as int;
    let p = s.last_processed as int;
    let r = after_polls(s, dma, queue, cap, calls);
    if calls.len() == 0 {
        assert(queue.skip(0) =~= queue);
        if queue.len() == 0 {
            assert(queue.skip(queue.len() as int) =~= queue);
        }
    } else {
        let rest = calls.drop_last();
        let b = after_polls(s, dma, queue, cap, rest);
        let t = b.0;
        let m = t.last_processed - p;
        let n = t.due(calls.last().0, calls.last().1);
        lemma_polls_move_forward(s, dma, queue, cap, rest);
        lemma_due_bounds(t, calls.last().0, calls.last().1);
        law_polls_record_every_byte_once(s, dma, queue, cap, rest);
        if n > 0 {
            law_advance_moves_the_running_positions(t, b.1, b.2, n, cap);
            lemma_recorded_behind(b.1, r.1, queue, b.2, p, m, n);
            assert(r.2 =~= queue.skip(
                if m + n < queue.len() {
                    m + n
                } else {
                    queue.len() as int
                },
            ));
        }
    }
}

/// What is recorded behind what was recorded continues it, as long as the two do not overlap.
proof fn lemma_recorded_behind(
    before: Seq<u8>,
    after: Seq<u8>,
    queue: Seq<u8>,
    rest: Seq<u8>,
    p: int,
    m: int,
    n: int,
)
    requires
        before.len() > 0,
        after.len() == before.len(),
        0 <= p,
        0 <= m,
        0 <= n,
        m + n <= before.len(),
        rest == queue.skip(
            if m < queue.len() {
                m
            } else {
                queue.len() as int
            },
        ),
        Seq::new(m as nat, |i: int| before[(p + i) % (before.len() as int)]) == Seq::new(
            m as nat,
            |i: int|
                if i < queue.len() {
                    queue[i]
                } else {
                    0u8
                },
        ),
        Seq::new(n as nat, |i: int| after[(p + m + i) % (before.len() as int)]) == Seq::new(
            n as nat,
            |i: int|
                if i < rest.len() {
                    rest[i]
                } else {
                    0u8
                },
        ),
        forall|j: int|
            0 <= j < before.len() && (j - (p + m)) % (before.len() as int) >= n
                ==> #[trigger] after[j] == before[j],
    ensures
        Seq::new((m + n) as nat, |i: int| after[(p + i) % (before.len() as int)]) == Seq::new(
            (m + n) as nat,
            |i: int|
                if i < queue.len() {
                    queue[i]
                } else {
                    0u8
                },
        ),
{
    let size = before.len() as int;
    let first = Seq::new(m as nat, |i: int| before[(p + i) % size]);
    let second = Seq::new(n as nat, |i: int| after[(p + m + i) % size]);
    let got = Seq::new((m + n) as nat, |i: int| after[(p + i) % size]);
    let want = Seq::new(
        (m + n) as nat,
        |i: int|
            if i < queue.len() {
                queue[i]
            } else {
                0u8
            },
    );
    assert forall|i: int| 0 <= i < m + n implies got[i] == want[i] by {
        if i < m {
            let j = (p + i) % size;
            lemma_mod_bound(p + i, size);
            lemma_place_before(p, m, i, size);
            assert(after[j] == before[j]);
            assert(first[i] == before[j]);
        } else {
            assert(second[i - m] == after[(p + i) % size]);
        }
    }
    assert(got =~= want);
}

/// A place that comes before another one, less than a lap away, is that much less than a lap
/// behind it.
proof fn lemma_place_before(p: int, m: int, i: int, size: int)
    requires
        0 <= i < m <= size,
    ensures
        ((p + i) % size - (p + m)) % size == i - m + size,
{
    lemma_sub_mod_noop(p + i, p + m, size);
    lemma_mod_twice(p + i, size);
    lemma_sub_mod_noop((p + i) % size, p + m, size);
    lemma_mod_add_multiples_vanish(i - m, size);
    lemma_small_mod((i - m + size) as nat, size as nat);
}

/// A stream keeps pace with the counter: what it has moved since it was set running is never
/// ahead of the time that has passed at its byte rate, and behind it by less than one frame,
/// unless a whole lap of the buffer did not catch up.
pub proof fn law_stream_keeps_pace(s: WaveRTStream, now: u64, freq: u64)
    requires
        freq > 0,
        s.block_align > 0,
        s.bytes_per_sec > 0,
        s.qpc_anchor <= now,
        s.anchor_position + (now - s.qpc_anchor) * s.bytes_per_sec <= u64::MAX,
        s.last_processed + s.dma_size <= u64::MAX,
    ensures
        ({
            let n = s.due(now, freq);
            let moved = s.last_processed + n;
            let passed = (now - s.qpc_anchor) * s.bytes_per_sec;
            &&& 0 <= n <= s.dma_size
            &&& n % (s.block_align as int) == 0
            &&& n > 0 ==> (moved - s.anchor_position) * freq <= passed
            &&& n + s.block_align > s.dma_size || (moved + s.block_align - s.anchor_position)
                * freq > passed
        }),
{
    lemma_due_bounds(s, now, freq);
    let n = s.due(now, freq);
    let moved = s.last_processed + n;
    let passed = (now - s.qpc_anchor) * s.bytes_per_sec;
    assert(passed >= 0) by (nonlinear_arith)
        requires
            passed == (now - s.qpc_anchor) * s.bytes_per_sec,
            now >= s.qpc_anchor,
    ;
    let earned = passed / (freq as int);
    lemma_fundamental_div_mod(passed, freq as int);
    lemma_mod_bound(passed, freq as int);
    lemma_div_pos_is_pos(passed, freq as int);
    assert(earned <= passed) by (nonlinear_arith)
        requires
            passed == freq * earned + passed % (freq as int),
            passed % (freq as int) >= 0,
            freq >= 1,
            earned >= 0,
    ;
    let target = s.anchor_position + earned;
    let raw = (if target <= s.last_processed + s.dma_size {
        target
    } else {
        s.last_processed + s.dma_size
    }) - s.last_processed;
    let due = if raw < 0 {
        0
    } else {
        raw
    };
    assert(n == position::aligned_down(due as nat, s.block_align as nat));
    position::lemma_aligned_down_on_grid(due as nat, s.block_align as nat);
    if n > 0 {
        let gone = moved - s.anchor_position;
        assert(gone <= earned);
        assert(gone * freq <= passed) by (nonlinear_arith)
            requires
                gone <= earned,
                passed == freq * earned + passed % (freq as int),
                passed % (freq as int) >= 0,
                freq >= 1,
        ;
    }
    if n + s.block_align <= s.dma_size {
        let next = moved + s.block_align - s.anchor_position;
        assert(next >= earned + 1);
        assert(next * freq > passed) by (nonlinear_arith)
            requires
                next >= earned + 1,
                passed == freq * earned + passed % (freq as int),
                passed % (freq as int) < freq,
                freq >= 1,
        ;
    }
}

/// The states stand in a row, and exactly a state itself and its neighbours in the row can follow
/// it.
pub proof fn law_neighbours_can_follow(i: int, j: int)
    requires
        0 <= i < 4,
        0 <= j < 4,
    ensures
        ({
            let row = seq![
                KSSTATE::KSSTATE_STOP,
                KSSTATE::KSSTATE_ACQUIRE,
                KSSTATE::KSSTATE_PAUSE,
                KSSTATE::KSSTATE_RUN,
            ];
            can_follow(row[i], row[j]) <==> -1 <= i - j <= 1
        }),
{
}

/// A paused stream that runs again goes on where it stood, and the time of the pause does not
/// count: at the moment it runs again nothing is due, whatever was due before, and from then on
/// only the time since. A stream that is stopped or acquired begins again at the start.
pub proof fn law_pause_does_not_count(s: WaveRTStream, paused: u64, resumed: u64, freq: u64)
    ensures
        ({
            let q = state_set(s, KSSTATE::KSSTATE_PAUSE, paused);
            let r = state_set(q, KSSTATE::KSSTATE_RUN, resumed);
            &&& q == (WaveRTStream { state: KSSTATE::KSSTATE_PAUSE, ..s })
            &&& r.position == s.position
            &&& r.last_processed == s.last_processed
            &&& r.due(resumed, freq) == 0
            &&& forall|later: u64|
                later >= resumed ==> #[trigger] r.due(later, freq) == (WaveRTStream {
                    qpc_anchor: 0,
                    anchor_position: s.last_processed,
                    ..s
                }).due((later - resumed) as u64, freq)
        }),
        state_set(s, KSSTATE::KSSTATE_STOP, paused).position == 0,
        state_set(s, KSSTATE::KSSTATE_STOP, paused).last_processed == 0,
        state_set(s, KSSTATE::KSSTATE_ACQUIRE, paused).position == 0,
        state_set(s, KSSTATE::KSSTATE_ACQUIRE, paused).last_processed == 0,
{
    let q = state_set(s, KSSTATE::KSSTATE_PAUSE, paused);
    let r = state_set(q, KSSTATE::KSSTATE_RUN, resumed);
    assert(position::interval_bytes(0, freq as nat, s.bytes_per_sec as nat) == 0) by {
        if freq > 0 && s.bytes_per_sec > 0 {
            lemma_div_basics(freq as int);
            assert(0 * (s.bytes_per_sec as nat) == 0);
        }
    }
    if s.block_align > 0 {
        lemma_small_mod(0, s.block_align as nat);
    }
    assert(r.due(resumed, freq) == 0);
}

/// Where the ring has no room for what is played, the oldest bytes give way to it: afterwards it
/// holds the last bytes of what was queued with the bytes at the running positions behind it, as
/// many as it can.
pub proof fn law_full_ring_keeps_the_newest_sound(
    s: WaveRTStream,
    dma: Seq<u8>,
    queue: Seq<u8>,
    n: int,
    cap: int,
)
    requires
        s.dma_size > 0,
        dma.len() == s.dma_size,
        0 <= n <= s.dma_size,
        n <= cap,
        queue.len() <= cap,
        0 < cap,
    ensures
        ({
            let all = queue + Seq::new(
                n as nat,
                |i: int| dma[(s.last_processed + i) % (s.dma_size as int)],
            );
            played(queue, dma, s.cursor(), n, cap) == all.skip(
                if all.len() > cap {
                    all.len() - cap
                } else {
                    0
                },
            )
        }),
{
    let off = s.cursor();
    let p = s.last_processed as int;
    let size = s.dma_size as int;
    lemma_folded_start(dma, p, n);
    lemma_window_pieces(dma, off, n);
    let first = ringbuffer::least(size - off, n);
    let a = dma.subrange(off, off + first);
    let b = dma.subrange(0, n - first);
    assert(window(dma, p, n) =~= Seq::new(n as nat, |i: int| dma[(p + i) % size]));
    assert(queue + window(dma, p, n) =~= queue + a + b);
    ringbuffer::law_only_the_oldest_bytes_are_dropped(queue, a, cap);
    let head = ringbuffer::dropped_oldest(queue, a, cap);
    let all = queue + a + b;
    let end = all.skip(
        if all.len() > cap {
            all.len() - cap
        } else {
            0
        },
    );
    if first < n {
        ringbuffer::law_only_the_oldest_bytes_are_dropped(head, b, cap);
        assert(ringbuffer::dropped_oldest(head, b, cap) =~= end);
    } else {
        assert(b =~= Seq::<u8>::empty());
        assert(head =~= end);
    }
}

/// The counters of stream formats: every proposal counts, a taken one also as taken, and the last
/// one is remembered with what became of it.
pub proof fn law_formats_are_noted(s: Seq<u32>, b: Seq<u8>)
    requires
        s.len() == stats::STATS_COUNT,
    ensures
        ({
            let t = format_noted(s, b);
            let taken = wave_format::is_stream_format(b);
            let w = wave_format::wave_at(b, 64);
            &&& t.len() == s.len()
            &&& t[2] == (s[2] + 1) % 0x1_0000_0000
            &&& t[3] == if taken {
                (s[3] + 1) % 0x1_0000_0000
            } else {
                s[3] as int
            }
            &&& t[4] == w.wFormatTag && t[5] == w.nChannels && t[6] == w.nSamplesPerSec && t[7]
                == w.wBitsPerSample
            &&& bytes::signed32(t[9]) == if taken {
                STATUS_SUCCESS
            } else {
                STATUS_INVALID_PARAMETER
            }
            &&& forall|k: int| 10 <= k < s.len() ==> #[trigger] t[k] == s[k]
        }),
{
    bytes::lemma_signed32_of_bits32(STATUS_SUCCESS);
    bytes::lemma_signed32_of_bits32(STATUS_INVALID_PARAMETER);
}

} // verus!
